use vstd::prelude::*;

use crate::typed_ast::{TypedExpr, TypedPrimaryExpr, TExprV, TPrimaryV, unfold_texpr_view, unfold_tprimary_view};

verus! {

/// Whether the value of an expression is known when compiling: a literal or
/// an enum variant, possibly grouped or cast.
pub open spec fn known(e: TExprV) -> bool
    decreases e,
{
    match e {
        TExprV::Cast(_, v) => known(*v),
        TExprV::Primary(_, p) => match *p {
            TPrimaryV::NumLiteral(_) => true,
            TPrimaryV::EnumVariant(_, _) => true,
            TPrimaryV::Grouping(b) => known(b),
            _ => false,
        },
        _ => false,
    }
}

impl TypedExpr {
    pub fn value_known_at_compile(&self) -> (b: bool)
        ensures
            b == known(self@),
        decreases self,
    {
        proof {
            unfold_texpr_view(*self);
        }
        match self {
            TypedExpr::Cast(_, value) => value.value_known_at_compile(),
            TypedExpr::Primary(_, primary) => {
                proof {
                    unfold_tprimary_view(**primary);
                }
                match &**primary {
                    TypedPrimaryExpr::NumLiteral(_) => true,
                    TypedPrimaryExpr::EnumVariant(_, _) => true,
                    TypedPrimaryExpr::Grouping(body) => body.value_known_at_compile(),
                    _ => false,
                }
            },
            _ => false,
        }
    }
}

} // verus!
