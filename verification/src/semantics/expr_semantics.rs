use vstd::prelude::*;
use vstd::string::StringExecFns;

use crate::token::{LexemeView, kind_has_data};
use crate::expr::{
    Expr, PrimaryExpr, BinaryExpr, Variable, Args, ExprV, PrimaryExprV, BinaryExprV, VariableV, NumLiteral,
    first_of_var, expr_view, unfold_expr_view, unfold_primary_view, unfold_variable_view, unfold_binary_view,
    lemma_exprs_view_index,
};
use crate::types::{
    ValueType, CustomType, StructTemplate, get_custom_struct, lemma_primitive_size, type_view, TypeV, StructV, CustomV, declr_has_text, declr_type, custom_from, variant_from, field_from, struct_from,
    is_primitive, prim_size, literal_type,
};
use crate::typed_ast::{
    TypedExpr, TypedPrimaryExpr, TypedVariable, TypedBinaryExpr, TypedArgs, texpr_view, texprs_view,
    unfold_texpr_view, unfold_tprimary_view, unfold_tvariable_view, unfold_tbinary_view, lemma_texprs_view_push,
    lemma_texprs_view_empty, lemma_texprs_view_index, TExprV, TPrimaryV, TVariableV, TBinaryV, texpr_type, tprimary_type, tvariable_type, assignable};
use crate::semantics::{ScopeStack, ScopeV, FnV, name_type, fn_from};
use crate::semantics::semantic_err::{SemanticErr, SemanticErrV};

verus! {

/// The lexeme carries text.
pub open spec fn has_text(l: LexemeView) -> bool {
    kind_has_data(l.tok.kind)
}

/// Every lexeme whose text the analysis reads carries text, and every
/// reference operator is `&` or `*`: true of every expression the parser
/// builds.
#[verifier::opaque]
pub open spec fn expr_ok(e: ExprV) -> bool
    decreases e,
{
    match e {
        ExprV::Assign(b) => binary_ok(*b),
        ExprV::Equality(b) => binary_ok(*b),
        ExprV::Comparison(b) => binary_ok(*b),
        ExprV::Term(b) => binary_ok(*b),
        ExprV::Shift(v, op, _) => has_text(op) && expr_ok(*v),
        ExprV::Unary(op, v) => has_text(op) && expr_ok(*v),
        ExprV::Cast(v, _, d) => declr_has_text(d) && expr_ok(*v),
        ExprV::FnCall(name, args) => has_text(name) && exprs_ok(args),
        ExprV::Primary(p) => primary_ok(*p),
    }
}

#[verifier::opaque]
pub open spec fn binary_ok(b: BinaryExprV) -> bool
    decreases b,
{
    has_text(b.operator) && expr_ok(b.left) && expr_ok(b.right)
}

#[verifier::opaque]
pub open spec fn primary_ok(p: PrimaryExprV) -> bool
    decreases p,
{
    match p {
        PrimaryExprV::Grouping(e) => expr_ok(e),
        PrimaryExprV::NumLiteral(_, _) => true,
        PrimaryExprV::Variable(v) => var_ok(v),
        PrimaryExprV::EnumVariant(a, b) => has_text(a) && has_text(b),
        PrimaryExprV::Ref(op, v) => (op.tok.text == "&"@ || op.tok.text == "*"@) && has_text(op) && var_ok(v),
    }
}

#[verifier::opaque]
pub open spec fn var_ok(v: VariableV) -> bool
    decreases v,
{
    match v {
        VariableV::Id(l) => has_text(l),
        VariableV::StructField(b) => var_ok(b.0) && var_ok(b.1),
        VariableV::Array(h, i) => var_ok(*h) && expr_ok(i),
    }
}

#[verifier::opaque]
pub open spec fn exprs_ok(s: Seq<ExprV>) -> bool
    decreases s,
{
    if s.len() == 0 {
        true
    } else {
        exprs_ok(s.drop_last()) && expr_ok(s.last())
    }
}

/// The outcome of typing: `None` where the analysis would stop on a struct
/// type that was never declared.
pub open spec fn good<A>(r: Option<Result<A, SemanticErrV>>) -> bool {
    r is Some && r->Some_0 is Ok
}

pub open spec fn value<A>(r: Option<Result<A, SemanticErrV>>) -> A {
    r->Some_0->Ok_0
}

/// An outcome that is not a success, passed on at another type.
pub open spec fn pass<A, B>(r: Option<Result<A, SemanticErrV>>) -> Option<Result<B, SemanticErrV>> {
    if r is Some && r->Some_0 is Err {
        Some(Err(r->Some_0->Err_0))
    } else {
        None
    }
}

pub open spec fn fail<A>(e: SemanticErrV) -> Option<Result<A, SemanticErrV>> {
    Some(Err(e))
}

pub open spec fn done<A>(a: A) -> Option<Result<A, SemanticErrV>> {
    Some(Ok(a))
}

/// The first index at or after `i` where an argument's type is not the
/// parameter's.
pub open spec fn mismatch_from(params: Seq<TypeV>, args: Seq<TExprV>, i: int) -> Option<int>
    decreases params.len() - i,
{
    if i < 0 || i >= params.len() {
        None
    } else if texpr_type(args[i]) != params[i] {
        Some(i)
    } else {
        mismatch_from(params, args, i + 1)
    }
}

/// The typed form of an assignment, from the typing of its two sides: the
/// left side must be assignable, and both sides of one type.
#[verifier::opaque]
pub open spec fn assign_result(
    l: Option<Result<TExprV, SemanticErrV>>,
    r: Option<Result<TExprV, SemanticErrV>>,
    operator: LexemeView,
) -> Option<Result<TExprV, SemanticErrV>> {
    if !good(l) {
        pass(l)
    } else if !good(r) {
        pass(r)
    } else if !assignable(value(l)) {
        fail(SemanticErrV::CantOp(operator))
    } else if texpr_type(value(l)) != texpr_type(value(r)) {
        fail(SemanticErrV::WrongType(texpr_type(value(l)), texpr_type(value(r)), operator))
    } else {
        done(TExprV::Assign(texpr_type(value(l)), Box::new(value(l)), Box::new(value(r))))
    }
}

/// The typed form of a call of the function `f` found for `name`, from the
/// typing of its arguments: the function must be declared, and take as many
/// parameters as there are arguments, each of the argument's type.
#[verifier::opaque]
pub open spec fn call_result(
    f: Option<FnV>,
    name: LexemeView,
    a: Option<Result<Seq<TExprV>, SemanticErrV>>,
) -> Option<Result<TExprV, SemanticErrV>> {
    if f is None {
        fail(SemanticErrV::UndeclaredFn(name))
    } else if !good(a) {
        pass(a)
    } else if f->Some_0.parameters.len() != value(a).len() {
        fail(SemanticErrV::FnArityErr(name))
    } else {
        let m = mismatch_from(f->Some_0.parameters, value(a), 0);
        if m is Some {
            fail(SemanticErrV::WrongType(f->Some_0.parameters[m->Some_0], texpr_type(value(a)[m->Some_0]), name))
        } else {
            done(TExprV::FnCall(f->Some_0.ret_type, name.tok.text, value(a)))
        }
    }
}

/// The typed form of a shift, from the typing of the value shifted: a
/// primitive value, shifted by a `u8` literal no larger than its width in
/// bits.
#[verifier::opaque]
pub open spec fn shift_result(r: Option<Result<TExprV, SemanticErrV>>, op: LexemeView, n: NumLiteral) -> Option<
    Result<TExprV, SemanticErrV>,
> {
    if !good(r) {
        pass(r)
    } else if !is_primitive(texpr_type(value(r))) {
        fail(SemanticErrV::CantOp(op))
    } else if n is U8 {
        if n->U8_0 > prim_size(texpr_type(value(r))) * 8 {
            fail(SemanticErrV::ShiftAmountErr(op))
        } else {
            done(TExprV::Shift(texpr_type(value(r)), Box::new(value(r)), op.tok.text, n))
        }
    } else {
        fail(SemanticErrV::WrongType(TypeV::U8, literal_type(n), op))
    }
}

/// The typed form of an expression in the scope `ss`, or the error found.
#[verifier::opaque]
pub open spec fn type_expr(e: ExprV, ss: ScopeV) -> Option<Result<TExprV, SemanticErrV>>
    decreases e,
{
    match e {
        ExprV::Primary(p) => {
            let r = type_primary(*p, ss);
            if !good(r) {
                pass(r)
            } else {
                done(TExprV::Primary(tprimary_type(value(r)), Box::new(value(r))))
            }
        },
        ExprV::Cast(v, _, d) => {
            let t = declr_type(d, ss.defined_types);
            if t is Err {
                fail(t->Err_0)
            } else {
                let r = type_expr(*v, ss);
                if !good(r) {
                    pass(r)
                } else {
                    done(TExprV::Cast(t->Ok_0, Box::new(value(r))))
                }
            }
        },
        ExprV::Comparison(b) => {
            let r = type_binary(*b, ss);
            if !good(r) {
                pass(r)
            } else {
                done(TExprV::Comparison(TypeV::U8, Box::new(value(r))))
            }
        },
        ExprV::Equality(b) => {
            let r = type_binary(*b, ss);
            if !good(r) {
                pass(r)
            } else {
                done(TExprV::Equality(TypeV::U8, Box::new(value(r))))
            }
        },
        ExprV::Term(b) => {
            let r = type_binary(*b, ss);
            if !good(r) {
                pass(r)
            } else {
                done(TExprV::Term(texpr_type(value(r).left), Box::new(value(r))))
            }
        },
        ExprV::Unary(op, v) => {
            let r = type_expr(*v, ss);
            if !good(r) {
                pass(r)
            } else if !is_primitive(texpr_type(value(r))) {
                fail(SemanticErrV::CantOp(op))
            } else {
                done(TExprV::Unary(texpr_type(value(r)), op.tok.text, Box::new(value(r))))
            }
        },
        ExprV::Assign(b) => assign_result(type_expr(b.left, ss), type_expr(b.right, ss), b.operator),
        ExprV::FnCall(name, args) => call_result(
            fn_from(ss.defined_functions, name.tok.text, 0),
            name,
            type_args(args, ss),
        ),
        ExprV::Shift(v, op, n) => shift_result(type_expr(*v, ss), op, n),
    }
}

/// The typed form of a primary expression in the scope `ss`.
#[verifier::opaque]
pub open spec fn type_primary(p: PrimaryExprV, ss: ScopeV) -> Option<Result<TPrimaryV, SemanticErrV>>
    decreases p,
{
    match p {
        PrimaryExprV::NumLiteral(n, _) => done(TPrimaryV::NumLiteral(n)),
        PrimaryExprV::Grouping(e) => {
            let r = type_expr(e, ss);
            if !good(r) {
                pass(r)
            } else {
                done(TPrimaryV::Grouping(value(r)))
            }
        },
        PrimaryExprV::EnumVariant(en, ev) => {
            let c = custom_from(ss.defined_types, en.tok.text, 0);
            if c is None {
                fail(SemanticErrV::UnknownType(en))
            } else if c->Some_0 is CustomEnum {
                let t = c->Some_0->CustomEnum_0;
                let n = variant_from(t.variants, ev.tok.text, 0);
                if n is None {
                    fail(SemanticErrV::NoEnumVariant(t, ev))
                } else {
                    done(TPrimaryV::EnumVariant(t, (ev.tok.text, n->Some_0)))
                }
            } else {
                fail(SemanticErrV::WrongAccess(c->Some_0, en))
            }
        },
        PrimaryExprV::Variable(v) => {
            let r = type_var(v, ss, None);
            if !good(r) {
                pass(r)
            } else {
                done(TPrimaryV::Variable(value(r)))
            }
        },
        PrimaryExprV::Ref(op, v) => {
            let r = type_var(v, ss, None);
            if !good(r) {
                pass(r)
            } else if op.tok.text == "&"@ {
                done(TPrimaryV::Ref(TypeV::Pointer(Box::new(tvariable_type(value(r)))), op.tok.text, value(r)))
            } else if tvariable_type(value(r)) is Pointer {
                done(TPrimaryV::Ref(*tvariable_type(value(r))->Pointer_0, op.tok.text, value(r)))
            } else {
                fail(SemanticErrV::CantDeref(op))
            }
        },
    }
}

/// The typed form of a variable access in the scope `ss`; inside a struct
/// access, the names are fields of `parent`.
#[verifier::opaque]
pub open spec fn type_var(v: VariableV, ss: ScopeV, parent: Option<StructV>) -> Option<Result<TVariableV, SemanticErrV>>
    decreases v,
{
    match v {
        VariableV::Id(id) => if parent is None {
            let t = name_type(ss.stack, id.tok.text);
            if t is None {
                fail(SemanticErrV::UndeclaredVar(id))
            } else {
                done(TVariableV::Id(t->Some_0, id.tok.text))
            }
        } else {
            let f = field_from(parent->Some_0.fields, id.tok.text, 0);
            if f is None {
                fail(SemanticErrV::NoStructField(parent->Some_0, id))
            } else {
                done(TVariableV::Id(f->Some_0.0, id.tok.text))
            }
        },
        VariableV::StructField(b) => {
            let h = type_var(b.0, ss, parent);
            if !good(h) {
                pass(h)
            } else if tvariable_type(value(h)) is CustomStruct {
                let st = struct_from(ss.defined_types, tvariable_type(value(h))->CustomStruct_0, 0);
                if st is None {
                    None
                } else {
                    let tl = type_var(b.1, ss, st);
                    if !good(tl) {
                        pass(tl)
                    } else {
                        done(TVariableV::StructField(tvariable_type(value(tl)), Box::new((value(h), value(tl)))))
                    }
                }
            } else {
                fail(SemanticErrV::NotAStruct(first_of_var(b.1)))
            }
        },
        VariableV::Array(h, i) => {
            let hr = type_var(*h, ss, parent);
            if !good(hr) {
                pass(hr)
            } else {
                let at = tvariable_type(value(hr));
                if !(at is Array || at is Pointer) {
                    fail(SemanticErrV::NotAnArray(first_of_var(*h)))
                } else {
                    let item = if at is Array {
                        *at->Array_0
                    } else {
                        *at->Pointer_0
                    };
                    let ir = type_expr(i, ss);
                    if !good(ir) {
                        pass(ir)
                    } else {
                        done(TVariableV::Array(item, Box::new(value(hr)), value(ir)))
                    }
                }
            }
        },
    }
}

/// The typed form of a binary expression: both sides of one primitive type.
#[verifier::opaque]
pub open spec fn type_binary(b: BinaryExprV, ss: ScopeV) -> Option<Result<TBinaryV, SemanticErrV>>
    decreases b,
{
    let l = type_expr(b.left, ss);
    if !good(l) {
        pass(l)
    } else {
        let r = type_expr(b.right, ss);
        if !good(r) {
            pass(r)
        } else if texpr_type(value(l)) != texpr_type(value(r)) {
            fail(SemanticErrV::WrongType(texpr_type(value(l)), texpr_type(value(r)), b.operator))
        } else if !is_primitive(texpr_type(value(l))) {
            fail(SemanticErrV::CantOp(b.operator))
        } else {
            done(TBinaryV { left: value(l), operator: b.operator.tok.text, right: value(r) })
        }
    }
}

/// The typed forms of call arguments, the first error from the left.
#[verifier::opaque]
pub open spec fn type_args(s: Seq<ExprV>, ss: ScopeV) -> Option<Result<Seq<TExprV>, SemanticErrV>>
    decreases s,
{
    if s.len() == 0 {
        done(Seq::<TExprV>::empty())
    } else {
        let a = type_args(s.drop_last(), ss);
        if !good(a) {
            pass(a)
        } else {
            let r = type_expr(s.last(), ss);
            if !good(r) {
                pass(r)
            } else {
                done(value(a).push(value(r)))
            }
        }
    }
}

/// `expr_ok` unfolded once.
pub proof fn unfold_expr_ok(e: ExprV)
    ensures
        expr_ok(e) == ({
    match e {
        ExprV::Assign(b) => binary_ok(*b),
        ExprV::Equality(b) => binary_ok(*b),
        ExprV::Comparison(b) => binary_ok(*b),
        ExprV::Term(b) => binary_ok(*b),
        ExprV::Shift(v, op, _) => has_text(op) && expr_ok(*v),
        ExprV::Unary(op, v) => has_text(op) && expr_ok(*v),
        ExprV::Cast(v, _, d) => declr_has_text(d) && expr_ok(*v),
        ExprV::FnCall(name, args) => has_text(name) && exprs_ok(args),
        ExprV::Primary(p) => primary_ok(*p),
    }
        }),
{
    reveal(expr_ok);
    reveal(binary_ok);
    reveal(primary_ok);
    reveal(exprs_ok);
}

/// `binary_ok` unfolded once.
pub proof fn unfold_binary_ok(b: BinaryExprV)
    ensures
        binary_ok(b) == ({
    has_text(b.operator) && expr_ok(b.left) && expr_ok(b.right)
        }),
{
    reveal(binary_ok);
    reveal(expr_ok);
}

/// `primary_ok` unfolded once.
pub proof fn unfold_primary_ok(p: PrimaryExprV)
    ensures
        primary_ok(p) == ({
    match p {
        PrimaryExprV::Grouping(e) => expr_ok(e),
        PrimaryExprV::NumLiteral(_, _) => true,
        PrimaryExprV::Variable(v) => var_ok(v),
        PrimaryExprV::EnumVariant(a, b) => has_text(a) && has_text(b),
        PrimaryExprV::Ref(op, v) => (op.tok.text == "&"@ || op.tok.text == "*"@) && has_text(op) && var_ok(v),
    }
        }),
{
    reveal(primary_ok);
    reveal(expr_ok);
    reveal(var_ok);
}

/// `var_ok` unfolded once.
pub proof fn unfold_var_ok(v: VariableV)
    ensures
        var_ok(v) == ({
    match v {
        VariableV::Id(l) => has_text(l),
        VariableV::StructField(b) => var_ok(b.0) && var_ok(b.1),
        VariableV::Array(h, i) => var_ok(*h) && expr_ok(i),
    }
        }),
{
    reveal(var_ok);
    reveal(expr_ok);
}

/// `exprs_ok` unfolded once.
pub proof fn unfold_exprs_ok(s: Seq<ExprV>)
    ensures
        exprs_ok(s) == ({
    if s.len() == 0 {
        true
    } else {
        exprs_ok(s.drop_last()) && expr_ok(s.last())
    }
        }),
{
    reveal(exprs_ok);
    reveal(expr_ok);
}

/// `type_expr` unfolded once.
pub proof fn unfold_type_expr(e: ExprV, ss: ScopeV)
    ensures
        type_expr(e, ss) == ({
    match e {
        ExprV::Primary(p) => {
            let r = type_primary(*p, ss);
            if !good(r) {
                pass(r)
            } else {
                done(TExprV::Primary(tprimary_type(value(r)), Box::new(value(r))))
            }
        },
        ExprV::Cast(v, _, d) => {
            let t = declr_type(d, ss.defined_types);
            if t is Err {
                fail(t->Err_0)
            } else {
                let r = type_expr(*v, ss);
                if !good(r) {
                    pass(r)
                } else {
                    done(TExprV::Cast(t->Ok_0, Box::new(value(r))))
                }
            }
        },
        ExprV::Comparison(b) => {
            let r = type_binary(*b, ss);
            if !good(r) {
                pass(r)
            } else {
                done(TExprV::Comparison(TypeV::U8, Box::new(value(r))))
            }
        },
        ExprV::Equality(b) => {
            let r = type_binary(*b, ss);
            if !good(r) {
                pass(r)
            } else {
                done(TExprV::Equality(TypeV::U8, Box::new(value(r))))
            }
        },
        ExprV::Term(b) => {
            let r = type_binary(*b, ss);
            if !good(r) {
                pass(r)
            } else {
                done(TExprV::Term(texpr_type(value(r).left), Box::new(value(r))))
            }
        },
        ExprV::Unary(op, v) => {
            let r = type_expr(*v, ss);
            if !good(r) {
                pass(r)
            } else if !is_primitive(texpr_type(value(r))) {
                fail(SemanticErrV::CantOp(op))
            } else {
                done(TExprV::Unary(texpr_type(value(r)), op.tok.text, Box::new(value(r))))
            }
        },
        ExprV::Assign(b) => assign_result(type_expr(b.left, ss), type_expr(b.right, ss), b.operator),
        ExprV::FnCall(name, args) => call_result(
            fn_from(ss.defined_functions, name.tok.text, 0),
            name,
            type_args(args, ss),
        ),
        ExprV::Shift(v, op, n) => shift_result(type_expr(*v, ss), op, n),
    }
        }),
{
    reveal(type_expr);
    reveal(assign_result);
    reveal(call_result);
    reveal(shift_result);
    reveal(type_primary);
    reveal(type_binary);
    reveal(type_args);
}

/// `type_primary` unfolded once.
pub proof fn unfold_type_primary(p: PrimaryExprV, ss: ScopeV)
    ensures
        type_primary(p, ss) == ({
    match p {
        PrimaryExprV::NumLiteral(n, _) => done(TPrimaryV::NumLiteral(n)),
        PrimaryExprV::Grouping(e) => {
            let r = type_expr(e, ss);
            if !good(r) {
                pass(r)
            } else {
                done(TPrimaryV::Grouping(value(r)))
            }
        },
        PrimaryExprV::EnumVariant(en, ev) => {
            let c = custom_from(ss.defined_types, en.tok.text, 0);
            if c is None {
                fail(SemanticErrV::UnknownType(en))
            } else if c->Some_0 is CustomEnum {
                let t = c->Some_0->CustomEnum_0;
                let n = variant_from(t.variants, ev.tok.text, 0);
                if n is None {
                    fail(SemanticErrV::NoEnumVariant(t, ev))
                } else {
                    done(TPrimaryV::EnumVariant(t, (ev.tok.text, n->Some_0)))
                }
            } else {
                fail(SemanticErrV::WrongAccess(c->Some_0, en))
            }
        },
        PrimaryExprV::Variable(v) => {
            let r = type_var(v, ss, None);
            if !good(r) {
                pass(r)
            } else {
                done(TPrimaryV::Variable(value(r)))
            }
        },
        PrimaryExprV::Ref(op, v) => {
            let r = type_var(v, ss, None);
            if !good(r) {
                pass(r)
            } else if op.tok.text == "&"@ {
                done(TPrimaryV::Ref(TypeV::Pointer(Box::new(tvariable_type(value(r)))), op.tok.text, value(r)))
            } else if tvariable_type(value(r)) is Pointer {
                done(TPrimaryV::Ref(*tvariable_type(value(r))->Pointer_0, op.tok.text, value(r)))
            } else {
                fail(SemanticErrV::CantDeref(op))
            }
        },
    }
        }),
{
    reveal(type_primary);
    reveal(type_expr);
    reveal(type_var);
}

/// `type_var` unfolded once.
pub proof fn unfold_type_var(v: VariableV, ss: ScopeV, parent: Option<StructV>)
    ensures
        type_var(v, ss, parent) == ({
    match v {
        VariableV::Id(id) => if parent is None {
            let t = name_type(ss.stack, id.tok.text);
            if t is None {
                fail(SemanticErrV::UndeclaredVar(id))
            } else {
                done(TVariableV::Id(t->Some_0, id.tok.text))
            }
        } else {
            let f = field_from(parent->Some_0.fields, id.tok.text, 0);
            if f is None {
                fail(SemanticErrV::NoStructField(parent->Some_0, id))
            } else {
                done(TVariableV::Id(f->Some_0.0, id.tok.text))
            }
        },
        VariableV::StructField(b) => {
            let h = type_var(b.0, ss, parent);
            if !good(h) {
                pass(h)
            } else if tvariable_type(value(h)) is CustomStruct {
                let st = struct_from(ss.defined_types, tvariable_type(value(h))->CustomStruct_0, 0);
                if st is None {
                    None
                } else {
                    let tl = type_var(b.1, ss, st);
                    if !good(tl) {
                        pass(tl)
                    } else {
                        done(TVariableV::StructField(tvariable_type(value(tl)), Box::new((value(h), value(tl)))))
                    }
                }
            } else {
                fail(SemanticErrV::NotAStruct(first_of_var(b.1)))
            }
        },
        VariableV::Array(h, i) => {
            let hr = type_var(*h, ss, parent);
            if !good(hr) {
                pass(hr)
            } else {
                let at = tvariable_type(value(hr));
                if !(at is Array || at is Pointer) {
                    fail(SemanticErrV::NotAnArray(first_of_var(*h)))
                } else {
                    let item = if at is Array {
                        *at->Array_0
                    } else {
                        *at->Pointer_0
                    };
                    let ir = type_expr(i, ss);
                    if !good(ir) {
                        pass(ir)
                    } else {
                        done(TVariableV::Array(item, Box::new(value(hr)), value(ir)))
                    }
                }
            }
        },
    }
        }),
{
    reveal(type_var);
    reveal(type_expr);
}

/// `type_binary` unfolded once.
pub proof fn unfold_type_binary(b: BinaryExprV, ss: ScopeV)
    ensures
        type_binary(b, ss) == ({
    let l = type_expr(b.left, ss);
    if !good(l) {
        pass(l)
    } else {
        let r = type_expr(b.right, ss);
        if !good(r) {
            pass(r)
        } else if texpr_type(value(l)) != texpr_type(value(r)) {
            fail(SemanticErrV::WrongType(texpr_type(value(l)), texpr_type(value(r)), b.operator))
        } else if !is_primitive(texpr_type(value(l))) {
            fail(SemanticErrV::CantOp(b.operator))
        } else {
            done(TBinaryV { left: value(l), operator: b.operator.tok.text, right: value(r) })
        }
    }
        }),
{
    reveal(type_binary);
    reveal(type_expr);
}

/// `type_args` unfolded once.
pub proof fn unfold_type_args(s: Seq<ExprV>, ss: ScopeV)
    ensures
        type_args(s, ss) == ({
    if s.len() == 0 {
        done(Seq::<TExprV>::empty())
    } else {
        let a = type_args(s.drop_last(), ss);
        if !good(a) {
            pass(a)
        } else {
            let r = type_expr(s.last(), ss);
            if !good(r) {
                pass(r)
            } else {
                done(value(a).push(value(r)))
            }
        }
    }
        }),
{
    reveal(type_args);
    reveal(type_expr);
}


/// `r` is what the typing outcome `s` says.
pub open spec fn typed_as<T: View>(r: Result<T, SemanticErr>, s: Option<Result<T::V, SemanticErrV>>) -> bool {
    match s {
        Some(Ok(v)) => r matches Ok(x) && x@ == v,
        Some(Err(e)) => r matches Err(x) && x@ == e,
        None => false,
    }
}

pub open spec fn opt_struct(p: Option<StructTemplate>) -> Option<StructV> {
    match p {
        Some(t) => Some(t@),
        None => None,
    }
}

proof fn lemma_exprs_ok_index(s: Seq<ExprV>)
    requires
        exprs_ok(s),
    ensures
        forall|i: int| 0 <= i < s.len() ==> expr_ok(#[trigger] s[i]),
    decreases s.len(),
{
    unfold_exprs_ok(s);
    if s.len() > 0 {
        lemma_exprs_ok_index(s.drop_last());
        assert forall|i: int| 0 <= i < s.len() implies expr_ok(#[trigger] s[i]) by {
            if i < s.len() - 1 {
                assert(s.drop_last()[i] == s[i]);
            }
        }
    }
}

/// Once a prefix of the arguments fails, the arguments fail the same way.
proof fn lemma_type_args_prefix(s: Seq<ExprV>, ss: ScopeV, k: int)
    requires
        0 <= k <= s.len(),
        !good(type_args(s.take(k), ss)),
    ensures
        type_args(s, ss) == type_args(s.take(k), ss),
    decreases s.len() - k,
{
    if k == s.len() {
        assert(s.take(k) =~= s);
    } else {
        unfold_type_args(s.take(k + 1), ss);
        assert(s.take(k + 1).drop_last() =~= s.take(k));
        lemma_type_args_prefix(s, ss, k + 1);
    }
}

/// The first index where the argument's type is not the parameter's.
fn first_mismatch(params: &Vec<ValueType>, args: &TypedArgs) -> (r: Option<usize>)
    requires
        params.len() == args.items.len(),
    ensures
        r matches Some(i) ==> i < params.len() && mismatch_from(
            params@.map_values(|t: ValueType| type_view(t)),
            args@,
            0,
        ) == Some(i as int),
        r is None ==> mismatch_from(params@.map_values(|t: ValueType| type_view(t)), args@, 0) is None,
{
    let ghost ps = params@.map_values(|t: ValueType| type_view(t));
    proof {
        lemma_texprs_view_index(args.items@);
    }
    let mut i: usize = 0;
    while i < params.len()
        invariant
            i <= params.len(),
            params.len() == args.items.len(),
            ps == params@.map_values(|t: ValueType| type_view(t)),
            args@.len() == args.items.len(),
            forall|j: int| 0 <= j < args@.len() ==> #[trigger] args@[j] == texpr_view(args.items@[j]),
            mismatch_from(ps, args@, 0) == mismatch_from(ps, args@, i as int),
        decreases params.len() - i,
    {
        let arg_type = args.items[i].final_type();
        assert(ps[i as int] == params@[i as int]@);
        if !arg_type.same(&params[i]) {
            return Some(i);
        }
        i = i + 1;
    }
    None
}

impl Expr {
    /// The typed form of the expression in the scope `ss`.
    pub fn generate_typed_expr(&self, ss: &ScopeStack) -> (r: Result<TypedExpr, SemanticErr>)
        requires
            expr_ok(self@),
            type_expr(self@, ss@) is Some,
        ensures
            typed_as(r, type_expr(self@, ss@)),
        decreases self@,
    {
        proof {
            unfold_expr_view(*self);
            unfold_type_expr(self@, ss@);
            unfold_expr_ok(self@);
        }
        match self {
            Expr::Primary(p) => {
                let typed_primary = match p.generate_typed_expr(ss) {
                    Ok(t) => t,
                    Err(e) => {
                        return Err(e);
                    },
                };
                let t = typed_primary.final_type();
                let r = TypedExpr::Primary(t, Box::new(typed_primary));
                proof {
                    unfold_texpr_view(r);
                }
                Ok(r)
            },
            Expr::Cast(casted_expr, _, declr_to_type) => {
                let to_type = match ValueType::from_declr(declr_to_type, ss.types()) {
                    Ok(t) => t,
                    Err(e) => {
                        return Err(e);
                    },
                };
                let typed_casted_expr = match casted_expr.generate_typed_expr(ss) {
                    Ok(t) => t,
                    Err(e) => {
                        return Err(e);
                    },
                };
                let r = TypedExpr::Cast(to_type, Box::new(typed_casted_expr));
                proof {
                    unfold_texpr_view(r);
                }
                Ok(r)
            },
            Expr::Comparison(binary_expr) => {
                let typed_binary_expr = match binary_expr.generate_typed_binary_expr(ss) {
                    Ok(t) => t,
                    Err(e) => {
                        return Err(e);
                    },
                };
                let r = TypedExpr::Comparison(ValueType::U8, Box::new(typed_binary_expr));
                proof {
                    unfold_texpr_view(r);
                }
                Ok(r)
            },
            Expr::Equality(binary_expr) => {
                let typed_binary_expr = match binary_expr.generate_typed_binary_expr(ss) {
                    Ok(t) => t,
                    Err(e) => {
                        return Err(e);
                    },
                };
                let r = TypedExpr::Equality(ValueType::U8, Box::new(typed_binary_expr));
                proof {
                    unfold_texpr_view(r);
                }
                Ok(r)
            },
            Expr::Term(binary_expr) => {
                let typed_binary_expr = match binary_expr.generate_typed_binary_expr(ss) {
                    Ok(t) => t,
                    Err(e) => {
                        return Err(e);
                    },
                };
                proof {
                    unfold_tbinary_view(typed_binary_expr);
                }
                let t = typed_binary_expr.left.final_type();
                let r = TypedExpr::Term(t, Box::new(typed_binary_expr));
                proof {
                    unfold_texpr_view(r);
                }
                Ok(r)
            },
            Expr::Unary(op, expr) => {
                let typed_expr = match expr.generate_typed_expr(ss) {
                    Ok(t) => t,
                    Err(e) => {
                        return Err(e);
                    },
                };
                let t = typed_expr.final_type();
                if !t.is_primitive_type() {
                    return Err(SemanticErr::CantOp(op.clone()));
                }
                let r = TypedExpr::Unary(t, op.data(), Box::new(typed_expr));
                proof {
                    unfold_texpr_view(r);
                }
                Ok(r)
            },
            Expr::Assign(assign) => {
                proof {
                    unfold_binary_view(**assign);
                    unfold_binary_ok(assign@);
                    reveal(assign_result);
                }
                let typed_left = match assign.left.generate_typed_expr(ss) {
                    Ok(t) => t,
                    Err(e) => {
                        return Err(e);
                    },
                };
                let typed_right = match assign.right.generate_typed_expr(ss) {
                    Ok(t) => t,
                    Err(e) => {
                        return Err(e);
                    },
                };
                if !typed_left.is_assignable() {
                    return Err(SemanticErr::CantOp(assign.operator.clone()));
                }
                let left_type = typed_left.final_type();
                let right_type = typed_right.final_type();
                if !left_type.same(&right_type) {
                    return Err(SemanticErr::WrongType(left_type, right_type, assign.operator.clone()));
                }
                let r = TypedExpr::Assign(left_type, Box::new(typed_left), Box::new(typed_right));
                proof {
                    unfold_texpr_view(r);
                }
                Ok(r)
            },
            Expr::FnCall(fn_name, args) => {
                proof {
                    reveal(call_result);
                }
                let fn_template = match ss.get_fn_from_name(fn_name.data()) {
                    Some(t) => t,
                    None => {
                        return Err(SemanticErr::UndeclaredFn(fn_name.clone()));
                    },
                };
                let typed_args = match args.generate_typed_args(ss) {
                    Ok(t) => t,
                    Err(e) => {
                        return Err(e);
                    },
                };
                proof {
                    lemma_texprs_view_index(typed_args.items@);
                }
                if fn_template.parameters.len() != typed_args.items.len() {
                    return Err(SemanticErr::FnArityErr(fn_name.clone()));
                }
                if let Some(i) = first_mismatch(&fn_template.parameters, &typed_args) {
                    let arg_type = typed_args.items[i].final_type();
                    return Err(SemanticErr::WrongType(fn_template.parameters[i].clone(), arg_type, fn_name.clone()));
                }
                let r = TypedExpr::FnCall(fn_template.ret_type, fn_name.data(), typed_args);
                proof {
                    unfold_texpr_view(r);
                }
                Ok(r)
            },
            Expr::Shift(value, op, num) => {
                proof {
                    reveal(shift_result);
                }
                let typed_value = match value.generate_typed_expr(ss) {
                    Ok(t) => t,
                    Err(e) => {
                        return Err(e);
                    },
                };
                let value_type = typed_value.final_type();
                if !value_type.is_primitive_type() {
                    return Err(SemanticErr::CantOp(op.clone()));
                }
                match num {
                    NumLiteral::U8(shift_amount) => {
                        proof {
                            lemma_primitive_size(value_type@, ss@.defined_types);
                        }
                        let size = value_type.size(ss.types());
                        if *shift_amount > (size * 8) as u8 {
                            return Err(SemanticErr::ShiftAmountErr(op.clone()));
                        }
                        let r = TypedExpr::Shift(value_type, Box::new(typed_value), op.data(), *num);
                        proof {
                            unfold_texpr_view(r);
                        }
                        Ok(r)
                    },
                    _ => Err(SemanticErr::WrongType(ValueType::U8, num.get_type(), op.clone())),
                }
            },
        }
    }
}

impl PrimaryExpr {
    /// The typed form of the primary expression in the scope `ss`.
    pub fn generate_typed_expr(&self, ss: &ScopeStack) -> (r: Result<TypedPrimaryExpr, SemanticErr>)
        requires
            primary_ok(self@),
            type_primary(self@, ss@) is Some,
        ensures
            typed_as(r, type_primary(self@, ss@)),
        decreases self@,
    {
        proof {
            unfold_primary_view(*self);
            unfold_type_primary(self@, ss@);
            unfold_primary_ok(self@);
        }
        match self {
            PrimaryExpr::NumLiteral(num, _) => {
                let r = TypedPrimaryExpr::NumLiteral(*num);
                proof {
                    unfold_tprimary_view(r);
                }
                Ok(r)
            },
            PrimaryExpr::Grouping(body) => {
                let typed_body = match body.generate_typed_expr(ss) {
                    Ok(t) => t,
                    Err(e) => {
                        return Err(e);
                    },
                };
                let r = TypedPrimaryExpr::Grouping(typed_body);
                proof {
                    unfold_tprimary_view(r);
                }
                Ok(r)
            },
            PrimaryExpr::EnumVariant(enum_name, enum_variant) => {
                let enum_template = match ss.get_custom_type_from_name(enum_name.clone()) {
                    Ok(t) => t,
                    Err(e) => {
                        return Err(e);
                    },
                };
                if let CustomType::CustomEnum(template) = &enum_template {
                    let variant_number = match template.get_variant(enum_variant.data()) {
                        Some(n) => n,
                        None => {
                            return Err(SemanticErr::NoEnumVariant(template.clone(), enum_variant.clone()));
                        },
                    };
                    let r = TypedPrimaryExpr::EnumVariant(template.clone(), (enum_variant.data(), variant_number));
                    proof {
                        unfold_tprimary_view(r);
                    }
                    return Ok(r);
                }
                Err(SemanticErr::WrongAccess(enum_template, enum_name.clone()))
            },
            PrimaryExpr::Variable(var) => {
                let typed_var = match var.generate_typed_variable(ss, None) {
                    Ok(t) => t,
                    Err(e) => {
                        return Err(e);
                    },
                };
                let r = TypedPrimaryExpr::Variable(typed_var);
                proof {
                    unfold_tprimary_view(r);
                }
                Ok(r)
            },
            PrimaryExpr::Ref(ref_op, var) => {
                let typed_var = match var.generate_typed_variable(ss, None) {
                    Ok(t) => t,
                    Err(e) => {
                        return Err(e);
                    },
                };
                let var_type = typed_var.final_type();
                let op_text = ref_op.data();
                if op_text == String::from_str("&") {
                    let r = TypedPrimaryExpr::Ref(ValueType::Pointer(Box::new(var_type)), op_text, typed_var);
                    proof {
                        unfold_tprimary_view(r);
                    }
                    return Ok(r);
                }
                match var_type.dereference() {
                    None => Err(SemanticErr::CantDeref(ref_op.clone())),
                    Some(derefed_type) => {
                        let r = TypedPrimaryExpr::Ref(derefed_type, op_text, typed_var);
                        proof {
                            unfold_tprimary_view(r);
                        }
                        Ok(r)
                    },
                }
            },
        }
    }
}

impl Variable {
    /// The typed form of the variable access in the scope `ss`; within a
    /// struct access, the names are fields of `parent`.
    pub fn generate_typed_variable(&self, ss: &ScopeStack, parent: Option<StructTemplate>) -> (r: Result<TypedVariable, SemanticErr>)
        requires
            var_ok(self@),
            type_var(self@, ss@, opt_struct(parent)) is Some,
        ensures
            typed_as(r, type_var(self@, ss@, opt_struct(parent))),
        decreases self@,
    {
        proof {
            unfold_variable_view(*self);
            unfold_type_var(self@, ss@, opt_struct(parent));
            unfold_var_ok(self@);
        }
        match self {
            Variable::Id(id) => {
                match parent {
                    None => {
                        let id_type = match ss.get_var_type_from_name(id.data()) {
                            Some(t) => t,
                            None => {
                                return Err(SemanticErr::UndeclaredVar(id.clone()));
                            },
                        };
                        let r = TypedVariable::Id(id_type, id.data());
                        proof {
                            unfold_tvariable_view(r);
                        }
                        Ok(r)
                    },
                    Some(parent_template) => {
                        let id_type = match parent_template.get_field(id.data()) {
                            Some((t, _)) => t,
                            None => {
                                return Err(SemanticErr::NoStructField(parent_template, id.clone()));
                            },
                        };
                        let r = TypedVariable::Id(id_type, id.data());
                        proof {
                            unfold_tvariable_view(r);
                        }
                        Ok(r)
                    },
                }
            },
            Variable::StructField(s) => {
                let (head, tail) = &**s;
                let typed_head = match head.generate_typed_variable(ss, parent) {
                    Ok(t) => t,
                    Err(e) => {
                        return Err(e);
                    },
                };
                let head_type = typed_head.final_type();
                if let ValueType::CustomStruct(struct_name) = head_type {
                    let head_template = match get_custom_struct(struct_name, ss.types()) {
                        Some(t) => t,
                        None => {
                            proof {
                                assert(false);
                            }
                            return Err(SemanticErr::NotAStruct(tail.get_first_lexeme()));
                        },
                    };
                    let typed_tail = match tail.generate_typed_variable(ss, Some(head_template)) {
                        Ok(t) => t,
                        Err(e) => {
                            return Err(e);
                        },
                    };
                    let t = typed_tail.final_type();
                    let r = TypedVariable::StructField(t, Box::new((typed_head, typed_tail)));
                    proof {
                        unfold_tvariable_view(r);
                    }
                    return Ok(r);
                }
                Err(SemanticErr::NotAStruct(tail.get_first_lexeme()))
            },
            Variable::Array(arr_name, index) => {
                let typed_array_head = match arr_name.generate_typed_variable(ss, parent) {
                    Ok(t) => t,
                    Err(e) => {
                        return Err(e);
                    },
                };
                let array_type = typed_array_head.final_type();
                let head_item_type = match array_type {
                    ValueType::Array(item_type, _) => *item_type,
                    ValueType::Pointer(to_type) => *to_type,
                    _ => {
                        return Err(SemanticErr::NotAnArray(arr_name.get_first_lexeme()));
                    },
                };
                let typed_index = match index.generate_typed_expr(ss) {
                    Ok(t) => t,
                    Err(e) => {
                        return Err(e);
                    },
                };
                let r = TypedVariable::Array(head_item_type, Box::new(typed_array_head), typed_index);
                proof {
                    unfold_tvariable_view(r);
                }
                Ok(r)
            },
        }
    }
}

impl BinaryExpr {
    /// The typed form of a binary expression: both sides must be of one
    /// primitive type.
    pub fn generate_typed_binary_expr(&self, ss: &ScopeStack) -> (r: Result<TypedBinaryExpr, SemanticErr>)
        requires
            binary_ok(self@),
            type_binary(self@, ss@) is Some,
        ensures
            typed_as(r, type_binary(self@, ss@)),
        decreases self@,
    {
        proof {
            unfold_binary_view(*self);
            unfold_type_binary(self@, ss@);
            unfold_binary_ok(self@);
        }
        let typed_left = match self.left.generate_typed_expr(ss) {
            Ok(t) => t,
            Err(e) => {
                return Err(e);
            },
        };
        let typed_right = match self.right.generate_typed_expr(ss) {
            Ok(t) => t,
            Err(e) => {
                return Err(e);
            },
        };
        let left_type = typed_left.final_type();
        let right_type = typed_right.final_type();
        if !left_type.same(&right_type) {
            return Err(SemanticErr::WrongType(left_type, right_type, self.operator.clone()));
        }
        if !left_type.is_primitive_type() {
            return Err(SemanticErr::CantOp(self.operator.clone()));
        }
        let r = TypedBinaryExpr { left: typed_left, operator: self.operator.data(), right: typed_right };
        proof {
            unfold_tbinary_view(r);
        }
        Ok(r)
    }
}

impl Args {
    /// The typed forms of the arguments, stopping at the first error.
    pub fn generate_typed_args(&self, ss: &ScopeStack) -> (r: Result<TypedArgs, SemanticErr>)
        requires
            exprs_ok(self@),
            type_args(self@, ss@) is Some,
        ensures
            typed_as(r, type_args(self@, ss@)),
        decreases self@,
    {
        let ghost s = self@;
        proof {
            lemma_exprs_view_index(self.items@);
            lemma_exprs_ok_index(s);
            lemma_texprs_view_empty();
            unfold_type_args(s.take(0), ss@);
            assert(s.take(0) =~= Seq::<ExprV>::empty());
        }
        let mut typed_items: Vec<TypedExpr> = Vec::new();
        let mut i: usize = 0;
        while i < self.items.len()
            invariant
                i <= self.items.len(),
                s == self@,
                s.len() == self.items.len(),
                forall|j: int| 0 <= j < s.len() ==> #[trigger] s[j] == expr_view(self.items@[j]),
                forall|j: int| 0 <= j < s.len() ==> expr_ok(#[trigger] s[j]),
                type_args(s, ss@) is Some,
                good(type_args(s.take(i as int), ss@)),
                texprs_view(typed_items@) == value(type_args(s.take(i as int), ss@)),
            decreases self.items.len() - i,
        {
            proof {
                unfold_type_args(s.take(i + 1), ss@);
                assert(s.take(i + 1).drop_last() =~= s.take(i as int));
                assert(s.take(i + 1).last() == s[i as int]);
                if type_expr(s[i as int], ss@) is None {
                    lemma_type_args_prefix(s, ss@, i + 1);
                }
            }
            let t = match self.items[i].generate_typed_expr(ss) {
                Ok(t) => t,
                Err(e) => {
                    proof {
                        lemma_type_args_prefix(s, ss@, i + 1);
                    }
                    return Err(e);
                },
            };
            let ghost old_items = typed_items@;
            let ghost tg = t;
            typed_items.push(t);
            proof {
                lemma_texprs_view_push(old_items, tg);
                assert(typed_items@ == old_items.push(tg));
            }
            i = i + 1;
        }
        proof {
            assert(s.take(i as int) =~= s);
        }
        Ok(TypedArgs { items: typed_items })
    }
}

/// An assignment that types successfully is an `Assign` of its two typed
/// sides, which have one and the same type, the type of the assignment;
/// where both sides type, the left one can be assigned to, and their types
/// differ, the assignment is refused as a type mismatch.
pub proof fn lemma_assignment_sides_same_type(b: BinaryExprV, ss: ScopeV)
    ensures
        good(type_expr(ExprV::Assign(Box::new(b)), ss)) ==> ({
            let te = value(type_expr(ExprV::Assign(Box::new(b)), ss));
            &&& te is Assign
            &&& texpr_type(*te->Assign_1) == texpr_type(*te->Assign_2)
            &&& te->Assign_0 == texpr_type(*te->Assign_1)
            &&& type_expr(b.left, ss) == Some(Ok::<TExprV, SemanticErrV>(*te->Assign_1))
            &&& type_expr(b.right, ss) == Some(Ok::<TExprV, SemanticErrV>(*te->Assign_2))
        }),
        good(type_expr(b.left, ss)) && good(type_expr(b.right, ss)) && assignable(value(type_expr(b.left, ss)))
            && texpr_type(value(type_expr(b.left, ss))) != texpr_type(value(type_expr(b.right, ss))) ==> type_expr(
            ExprV::Assign(Box::new(b)),
            ss,
        ) == Some(
            Err::<TExprV, SemanticErrV>(
                SemanticErrV::WrongType(
                    texpr_type(value(type_expr(b.left, ss))),
                    texpr_type(value(type_expr(b.right, ss))),
                    b.operator,
                ),
            ),
        ),
{
    unfold_type_expr(ExprV::Assign(Box::new(b)), ss);
    reveal(assign_result);
}

/// The first argument, from index `i` on, whose type is not its
/// parameter's: `None` exactly when every argument from `i` on has its
/// parameter's type, and otherwise an index at which the types differ with
/// all arguments before it (from `i`) matching.
pub proof fn lemma_mismatch_from_first(params: Seq<TypeV>, args: Seq<TExprV>, i: int)
    requires
        0 <= i,
    ensures
        mismatch_from(params, args, i) is None <==> forall|j: int|
            i <= j < params.len() ==> #[trigger] texpr_type(args[j]) == params[j],
        mismatch_from(params, args, i) is Some ==> {
            let k = mismatch_from(params, args, i)->Some_0;
            &&& i <= k < params.len()
            &&& texpr_type(args[k]) != params[k]
            &&& forall|j: int| i <= j < k ==> #[trigger] texpr_type(args[j]) == params[j]
        },
    decreases params.len() - i,
{
    if i < params.len() {
        lemma_mismatch_from_first(params, args, i + 1);
    }
}

/// A call that types successfully is of a declared function, with as many
/// arguments as it has parameters, each argument of its parameter's type.
pub proof fn lemma_call_arguments_match(f: Option<FnV>, name: LexemeView, a: Option<Result<Seq<TExprV>, SemanticErrV>>)
    ensures
        good(call_result(f, name, a)) ==> {
            &&& f is Some
            &&& good(a)
            &&& value(a).len() == f->Some_0.parameters.len()
            &&& forall|i: int|
                0 <= i < value(a).len() ==> #[trigger] texpr_type(value(a)[i]) == f->Some_0.parameters[i]
        },
{
    reveal(call_result);
    if f is Some && good(a) {
        lemma_mismatch_from_first(f->Some_0.parameters, value(a), 0);
    }
}

} // verus!
