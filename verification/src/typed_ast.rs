use vstd::prelude::*;

use crate::expr::NumLiteral;
use crate::types::{ValueType, EnumTemplate, TypeV, EnumV, type_view, enum_view, literal_type};
use crate::semantics::{FnTemplate, FnV};

verus! {

/// An expression with the type of each of its parts.
#[derive(Debug)]
pub enum TypedExpr {
    Assign(ValueType, Box<TypedExpr>, Box<TypedExpr>),
    Equality(ValueType, Box<TypedBinaryExpr>),
    Comparison(ValueType, Box<TypedBinaryExpr>),
    Term(ValueType, Box<TypedBinaryExpr>),
    Shift(ValueType, Box<TypedExpr>, String, NumLiteral),
    Unary(ValueType, String, Box<TypedExpr>),
    Cast(ValueType, Box<TypedExpr>),
    FnCall(ValueType, String, TypedArgs),
    Primary(ValueType, Box<TypedPrimaryExpr>),
}

#[derive(Debug)]
pub enum TypedPrimaryExpr {
    Grouping(TypedExpr),
    NumLiteral(NumLiteral),
    Variable(TypedVariable),
    /// The enum, and the variant's name and number.
    EnumVariant(EnumTemplate, (String, u8)),
    Ref(ValueType, String, TypedVariable),
}

#[derive(Debug)]
pub enum TypedVariable {
    Id(ValueType, String),
    StructField(ValueType, Box<(TypedVariable, TypedVariable)>),
    Array(ValueType, Box<TypedVariable>, TypedExpr),
}

#[derive(Debug)]
pub struct TypedBinaryExpr {
    pub left: TypedExpr,
    pub operator: String,
    pub right: TypedExpr,
}

#[derive(Debug)]
pub struct TypedArgs {
    pub items: Vec<TypedExpr>,
}

#[derive(Debug)]
pub enum TypedStmt {
    VarDeclr(String, ValueType, Option<TypedExpr>),
    FnDeclr(FnTemplate, Box<TypedStmt>),
    CustomTypeDeclr,
    ExprStmt(TypedExpr),
    LoopStmt(Box<TypedStmt>),
    WhileStmt(TypedExpr, Box<TypedStmt>),
    IfStmt(TypedExpr, Box<TypedStmt>, Option<Box<TypedStmt>>),
    BreakStmt,
    ReturnStmt(TypedExpr),
    Block(Vec<TypedStmt>),
}

#[derive(Debug)]
pub struct TypedParameters {
    pub items: Vec<(String, ValueType)>,
}

pub enum TExprV {
    Assign(TypeV, Box<TExprV>, Box<TExprV>),
    Equality(TypeV, Box<TBinaryV>),
    Comparison(TypeV, Box<TBinaryV>),
    Term(TypeV, Box<TBinaryV>),
    Shift(TypeV, Box<TExprV>, Seq<char>, NumLiteral),
    Unary(TypeV, Seq<char>, Box<TExprV>),
    Cast(TypeV, Box<TExprV>),
    FnCall(TypeV, Seq<char>, Seq<TExprV>),
    Primary(TypeV, Box<TPrimaryV>),
}

pub enum TPrimaryV {
    Grouping(TExprV),
    NumLiteral(NumLiteral),
    Variable(TVariableV),
    EnumVariant(EnumV, (Seq<char>, u8)),
    Ref(TypeV, Seq<char>, TVariableV),
}

pub enum TVariableV {
    Id(TypeV, Seq<char>),
    StructField(TypeV, Box<(TVariableV, TVariableV)>),
    Array(TypeV, Box<TVariableV>, TExprV),
}

pub struct TBinaryV {
    pub left: TExprV,
    pub operator: Seq<char>,
    pub right: TExprV,
}

pub enum TStmtV {
    VarDeclr(Seq<char>, TypeV, Option<TExprV>),
    FnDeclr(FnV, Box<TStmtV>),
    CustomTypeDeclr,
    ExprStmt(TExprV),
    LoopStmt(Box<TStmtV>),
    WhileStmt(TExprV, Box<TStmtV>),
    IfStmt(TExprV, Box<TStmtV>, Option<Box<TStmtV>>),
    BreakStmt,
    ReturnStmt(TExprV),
    Block(Seq<TStmtV>),
}

#[verifier::opaque]
pub open spec fn texpr_view(e: TypedExpr) -> TExprV
    decreases e,
{
    match e {
        TypedExpr::Assign(t, l, r) => TExprV::Assign(type_view(t), Box::new(texpr_view(*l)), Box::new(texpr_view(*r))),
        TypedExpr::Equality(t, b) => TExprV::Equality(type_view(t), Box::new(tbinary_view(*b))),
        TypedExpr::Comparison(t, b) => TExprV::Comparison(type_view(t), Box::new(tbinary_view(*b))),
        TypedExpr::Term(t, b) => TExprV::Term(type_view(t), Box::new(tbinary_view(*b))),
        TypedExpr::Shift(t, v, op, n) => TExprV::Shift(type_view(t), Box::new(texpr_view(*v)), op@, n),
        TypedExpr::Unary(t, op, v) => TExprV::Unary(type_view(t), op@, Box::new(texpr_view(*v))),
        TypedExpr::Cast(t, v) => TExprV::Cast(type_view(t), Box::new(texpr_view(*v))),
        TypedExpr::FnCall(t, name, a) => TExprV::FnCall(type_view(t), name@, texprs_view(a.items@)),
        TypedExpr::Primary(t, p) => TExprV::Primary(type_view(t), Box::new(tprimary_view(*p))),
    }
}

#[verifier::opaque]
pub open spec fn tbinary_view(b: TypedBinaryExpr) -> TBinaryV
    decreases b,
{
    TBinaryV { left: texpr_view(b.left), operator: b.operator@, right: texpr_view(b.right) }
}

#[verifier::opaque]
pub open spec fn tprimary_view(p: TypedPrimaryExpr) -> TPrimaryV
    decreases p,
{
    match p {
        TypedPrimaryExpr::Grouping(e) => TPrimaryV::Grouping(texpr_view(e)),
        TypedPrimaryExpr::NumLiteral(n) => TPrimaryV::NumLiteral(n),
        TypedPrimaryExpr::Variable(v) => TPrimaryV::Variable(tvariable_view(v)),
        TypedPrimaryExpr::EnumVariant(t, v) => TPrimaryV::EnumVariant(enum_view(t), (v.0@, v.1)),
        TypedPrimaryExpr::Ref(t, op, v) => TPrimaryV::Ref(type_view(t), op@, tvariable_view(v)),
    }
}

#[verifier::opaque]
pub open spec fn tvariable_view(v: TypedVariable) -> TVariableV
    decreases v,
{
    match v {
        TypedVariable::Id(t, s) => TVariableV::Id(type_view(t), s@),
        TypedVariable::StructField(t, b) => TVariableV::StructField(type_view(t), Box::new((tvariable_view(b.0), tvariable_view(b.1)))),
        TypedVariable::Array(t, h, i) => TVariableV::Array(type_view(t), Box::new(tvariable_view(*h)), texpr_view(i)),
    }
}

#[verifier::opaque]
pub open spec fn texprs_view(s: Seq<TypedExpr>) -> Seq<TExprV>
    decreases s,
{
    if s.len() == 0 {
        seq![]
    } else {
        seq![texpr_view(s[0])] + texprs_view(s.drop_first())
    }
}

#[verifier::opaque]
pub open spec fn tstmt_view(s: TypedStmt) -> TStmtV
    decreases s,
{
    match s {
        TypedStmt::VarDeclr(n, t, v) => TStmtV::VarDeclr(n@, type_view(t), match v {
            Some(e) => Some(texpr_view(e)),
            None => None,
        }),
        TypedStmt::FnDeclr(f, b) => TStmtV::FnDeclr(f@, Box::new(tstmt_view(*b))),
        TypedStmt::CustomTypeDeclr => TStmtV::CustomTypeDeclr,
        TypedStmt::ExprStmt(e) => TStmtV::ExprStmt(texpr_view(e)),
        TypedStmt::LoopStmt(b) => TStmtV::LoopStmt(Box::new(tstmt_view(*b))),
        TypedStmt::WhileStmt(c, b) => TStmtV::WhileStmt(texpr_view(c), Box::new(tstmt_view(*b))),
        TypedStmt::IfStmt(c, t, f) => TStmtV::IfStmt(texpr_view(c), Box::new(tstmt_view(*t)), match f {
            Some(b) => Some(Box::new(tstmt_view(*b))),
            None => None,
        }),
        TypedStmt::BreakStmt => TStmtV::BreakStmt,
        TypedStmt::ReturnStmt(e) => TStmtV::ReturnStmt(texpr_view(e)),
        TypedStmt::Block(b) => TStmtV::Block(tstmts_view(b@)),
    }
}

#[verifier::opaque]
pub open spec fn tstmts_view(s: Seq<TypedStmt>) -> Seq<TStmtV>
    decreases s,
{
    if s.len() == 0 {
        seq![]
    } else {
        seq![tstmt_view(s[0])] + tstmts_view(s.drop_first())
    }
}

/// `texpr_view` unfolded once.
pub proof fn unfold_texpr_view(e: TypedExpr)
    ensures
        texpr_view(e) == ({
    match e {
        TypedExpr::Assign(t, l, r) => TExprV::Assign(type_view(t), Box::new(texpr_view(*l)), Box::new(texpr_view(*r))),
        TypedExpr::Equality(t, b) => TExprV::Equality(type_view(t), Box::new(tbinary_view(*b))),
        TypedExpr::Comparison(t, b) => TExprV::Comparison(type_view(t), Box::new(tbinary_view(*b))),
        TypedExpr::Term(t, b) => TExprV::Term(type_view(t), Box::new(tbinary_view(*b))),
        TypedExpr::Shift(t, v, op, n) => TExprV::Shift(type_view(t), Box::new(texpr_view(*v)), op@, n),
        TypedExpr::Unary(t, op, v) => TExprV::Unary(type_view(t), op@, Box::new(texpr_view(*v))),
        TypedExpr::Cast(t, v) => TExprV::Cast(type_view(t), Box::new(texpr_view(*v))),
        TypedExpr::FnCall(t, name, a) => TExprV::FnCall(type_view(t), name@, texprs_view(a.items@)),
        TypedExpr::Primary(t, p) => TExprV::Primary(type_view(t), Box::new(tprimary_view(*p))),
    }
        }),
{
    reveal(texpr_view);
    reveal(tbinary_view);
    reveal(tprimary_view);
    reveal(texprs_view);
}

/// `tbinary_view` unfolded once.
pub proof fn unfold_tbinary_view(b: TypedBinaryExpr)
    ensures
        tbinary_view(b) == ({
    TBinaryV { left: texpr_view(b.left), operator: b.operator@, right: texpr_view(b.right) }
        }),
{
    reveal(tbinary_view);
    reveal(texpr_view);
}

/// `tprimary_view` unfolded once.
pub proof fn unfold_tprimary_view(p: TypedPrimaryExpr)
    ensures
        tprimary_view(p) == ({
    match p {
        TypedPrimaryExpr::Grouping(e) => TPrimaryV::Grouping(texpr_view(e)),
        TypedPrimaryExpr::NumLiteral(n) => TPrimaryV::NumLiteral(n),
        TypedPrimaryExpr::Variable(v) => TPrimaryV::Variable(tvariable_view(v)),
        TypedPrimaryExpr::EnumVariant(t, v) => TPrimaryV::EnumVariant(enum_view(t), (v.0@, v.1)),
        TypedPrimaryExpr::Ref(t, op, v) => TPrimaryV::Ref(type_view(t), op@, tvariable_view(v)),
    }
        }),
{
    reveal(tprimary_view);
    reveal(texpr_view);
    reveal(tvariable_view);
}

/// `tvariable_view` unfolded once.
pub proof fn unfold_tvariable_view(v: TypedVariable)
    ensures
        tvariable_view(v) == ({
    match v {
        TypedVariable::Id(t, s) => TVariableV::Id(type_view(t), s@),
        TypedVariable::StructField(t, b) => TVariableV::StructField(type_view(t), Box::new((tvariable_view(b.0), tvariable_view(b.1)))),
        TypedVariable::Array(t, h, i) => TVariableV::Array(type_view(t), Box::new(tvariable_view(*h)), texpr_view(i)),
    }
        }),
{
    reveal(tvariable_view);
    reveal(texpr_view);
}

/// `texprs_view` unfolded once.
pub proof fn unfold_texprs_view(s: Seq<TypedExpr>)
    ensures
        texprs_view(s) == ({
    if s.len() == 0 {
        seq![]
    } else {
        seq![texpr_view(s[0])] + texprs_view(s.drop_first())
    }
        }),
{
    reveal(texprs_view);
    reveal(texpr_view);
}

/// `tstmt_view` unfolded once.
pub proof fn unfold_tstmt_view(s: TypedStmt)
    ensures
        tstmt_view(s) == ({
    match s {
        TypedStmt::VarDeclr(n, t, v) => TStmtV::VarDeclr(n@, type_view(t), match v {
            Some(e) => Some(texpr_view(e)),
            None => None,
        }),
        TypedStmt::FnDeclr(f, b) => TStmtV::FnDeclr(f@, Box::new(tstmt_view(*b))),
        TypedStmt::CustomTypeDeclr => TStmtV::CustomTypeDeclr,
        TypedStmt::ExprStmt(e) => TStmtV::ExprStmt(texpr_view(e)),
        TypedStmt::LoopStmt(b) => TStmtV::LoopStmt(Box::new(tstmt_view(*b))),
        TypedStmt::WhileStmt(c, b) => TStmtV::WhileStmt(texpr_view(c), Box::new(tstmt_view(*b))),
        TypedStmt::IfStmt(c, t, f) => TStmtV::IfStmt(texpr_view(c), Box::new(tstmt_view(*t)), match f {
            Some(b) => Some(Box::new(tstmt_view(*b))),
            None => None,
        }),
        TypedStmt::BreakStmt => TStmtV::BreakStmt,
        TypedStmt::ReturnStmt(e) => TStmtV::ReturnStmt(texpr_view(e)),
        TypedStmt::Block(b) => TStmtV::Block(tstmts_view(b@)),
    }
        }),
{
    reveal(tstmt_view);
    reveal(texpr_view);
    reveal(tstmts_view);
}

/// `tstmts_view` unfolded once.
pub proof fn unfold_tstmts_view(s: Seq<TypedStmt>)
    ensures
        tstmts_view(s) == ({
    if s.len() == 0 {
        seq![]
    } else {
        seq![tstmt_view(s[0])] + tstmts_view(s.drop_first())
    }
        }),
{
    reveal(tstmts_view);
    reveal(tstmt_view);
}


/// The view of a sequence of typed expressions grows by one view when the
/// sequence grows by one.
pub proof fn lemma_texprs_view_push(s: Seq<TypedExpr>, e: TypedExpr)
    ensures
        texprs_view(s.push(e)) == texprs_view(s).push(texpr_view(e)),
    decreases s.len(),
{
    let se = s.push(e);
    unfold_texprs_view(se);
    unfold_texprs_view(s);
    if s.len() == 0 {
        assert(se.drop_first() =~= Seq::<TypedExpr>::empty());
        unfold_texprs_view(se.drop_first());
        assert(texprs_view(se) =~= seq![texpr_view(e)]);
        assert(texprs_view(s) =~= Seq::<TExprV>::empty());
    } else {
        lemma_texprs_view_push(s.drop_first(), e);
        assert(se.drop_first() =~= s.drop_first().push(e));
        assert(texprs_view(se) =~= texprs_view(s).push(texpr_view(e)));
    }
}

pub proof fn lemma_texprs_view_empty()
    ensures
        texprs_view(Seq::<TypedExpr>::empty()) == Seq::<TExprV>::empty(),
{
    unfold_texprs_view(Seq::<TypedExpr>::empty());
}

/// The view of a sequence of typed expressions is the sequence of their views.
pub proof fn lemma_texprs_view_index(s: Seq<TypedExpr>)
    ensures
        texprs_view(s).len() == s.len(),
        forall|i: int| 0 <= i < s.len() ==> #[trigger] texprs_view(s)[i] == texpr_view(s[i]),
    decreases s.len(),
{
    unfold_texprs_view(s);
    if s.len() > 0 {
        lemma_texprs_view_index(s.drop_first());
        assert forall|i: int| 0 <= i < s.len() implies #[trigger] texprs_view(s)[i] == texpr_view(s[i]) by {
            if i > 0 {
                assert(s.drop_first()[i - 1] == s[i]);
            }
        }
    }
}

/// The view of a sequence of typed statements grows by one view when the
/// sequence grows by one.
pub proof fn lemma_tstmts_view_push(s: Seq<TypedStmt>, x: TypedStmt)
    ensures
        tstmts_view(s.push(x)) == tstmts_view(s).push(tstmt_view(x)),
    decreases s.len(),
{
    let sx = s.push(x);
    unfold_tstmts_view(sx);
    unfold_tstmts_view(s);
    if s.len() == 0 {
        assert(sx.drop_first() =~= Seq::<TypedStmt>::empty());
        unfold_tstmts_view(sx.drop_first());
        assert(tstmts_view(sx) =~= seq![tstmt_view(x)]);
        assert(tstmts_view(s) =~= Seq::<TStmtV>::empty());
    } else {
        lemma_tstmts_view_push(s.drop_first(), x);
        assert(sx.drop_first() =~= s.drop_first().push(x));
        assert(tstmts_view(sx) =~= tstmts_view(s).push(tstmt_view(x)));
    }
}

pub proof fn lemma_tstmts_view_empty()
    ensures
        tstmts_view(Seq::<TypedStmt>::empty()) == Seq::<TStmtV>::empty(),
{
    unfold_tstmts_view(Seq::<TypedStmt>::empty());
}

impl View for TypedExpr {
    type V = TExprV;

    open spec fn view(&self) -> TExprV {
        texpr_view(*self)
    }
}

impl View for TypedPrimaryExpr {
    type V = TPrimaryV;

    open spec fn view(&self) -> TPrimaryV {
        tprimary_view(*self)
    }
}

impl View for TypedVariable {
    type V = TVariableV;

    open spec fn view(&self) -> TVariableV {
        tvariable_view(*self)
    }
}

impl View for TypedBinaryExpr {
    type V = TBinaryV;

    open spec fn view(&self) -> TBinaryV {
        tbinary_view(*self)
    }
}

impl View for TypedArgs {
    type V = Seq<TExprV>;

    open spec fn view(&self) -> Seq<TExprV> {
        texprs_view(self.items@)
    }
}

impl View for TypedStmt {
    type V = TStmtV;

    open spec fn view(&self) -> TStmtV {
        tstmt_view(*self)
    }
}

impl View for TypedParameters {
    type V = Seq<(Seq<char>, TypeV)>;

    open spec fn view(&self) -> Seq<(Seq<char>, TypeV)> {
        self.items@.map_values(|p: (String, ValueType)| (p.0@, type_view(p.1)))
    }
}

impl Clone for TypedExpr {
    fn clone(&self) -> (r: Self)
        ensures
            r@ == self@,
        decreases self,
    {
        proof {
            unfold_texpr_view(*self);
        }
        let r = match self {
            TypedExpr::Assign(t, l, v) => TypedExpr::Assign(t.clone(), Box::new((**l).clone()), Box::new((**v).clone())),
            TypedExpr::Equality(t, b) => TypedExpr::Equality(t.clone(), Box::new((**b).clone())),
            TypedExpr::Comparison(t, b) => TypedExpr::Comparison(t.clone(), Box::new((**b).clone())),
            TypedExpr::Term(t, b) => TypedExpr::Term(t.clone(), Box::new((**b).clone())),
            TypedExpr::Shift(t, v, op, n) => TypedExpr::Shift(t.clone(), Box::new((**v).clone()), op.clone(), *n),
            TypedExpr::Unary(t, op, v) => TypedExpr::Unary(t.clone(), op.clone(), Box::new((**v).clone())),
            TypedExpr::Cast(t, v) => TypedExpr::Cast(t.clone(), Box::new((**v).clone())),
            TypedExpr::FnCall(t, name, a) => TypedExpr::FnCall(t.clone(), name.clone(), a.clone()),
            TypedExpr::Primary(t, p) => TypedExpr::Primary(t.clone(), Box::new((**p).clone())),
        };
        proof {
            unfold_texpr_view(r);
        }
        r
    }
}

impl Clone for TypedBinaryExpr {
    fn clone(&self) -> (r: Self)
        ensures
            r@ == self@,
        decreases self,
    {
        proof {
            unfold_tbinary_view(*self);
        }
        let r = TypedBinaryExpr { left: self.left.clone(), operator: self.operator.clone(), right: self.right.clone() };
        proof {
            unfold_tbinary_view(r);
        }
        r
    }
}

impl Clone for TypedPrimaryExpr {
    fn clone(&self) -> (r: Self)
        ensures
            r@ == self@,
        decreases self,
    {
        proof {
            unfold_tprimary_view(*self);
        }
        let r = match self {
            TypedPrimaryExpr::Grouping(e) => TypedPrimaryExpr::Grouping(e.clone()),
            TypedPrimaryExpr::NumLiteral(n) => TypedPrimaryExpr::NumLiteral(*n),
            TypedPrimaryExpr::Variable(v) => TypedPrimaryExpr::Variable(v.clone()),
            TypedPrimaryExpr::EnumVariant(t, v) => TypedPrimaryExpr::EnumVariant(t.clone(), (v.0.clone(), v.1)),
            TypedPrimaryExpr::Ref(t, op, v) => TypedPrimaryExpr::Ref(t.clone(), op.clone(), v.clone()),
        };
        proof {
            unfold_tprimary_view(r);
        }
        r
    }
}

impl Clone for TypedVariable {
    fn clone(&self) -> (r: Self)
        ensures
            r@ == self@,
        decreases self,
    {
        proof {
            unfold_tvariable_view(*self);
        }
        let r = match self {
            TypedVariable::Id(t, s) => TypedVariable::Id(t.clone(), s.clone()),
            TypedVariable::StructField(t, b) => TypedVariable::StructField(t.clone(), Box::new((b.0.clone(), b.1.clone()))),
            TypedVariable::Array(t, h, i) => TypedVariable::Array(t.clone(), Box::new((**h).clone()), i.clone()),
        };
        proof {
            unfold_tvariable_view(r);
        }
        r
    }
}

impl Clone for TypedArgs {
    fn clone(&self) -> (r: Self)
        ensures
            r@ == self@,
        decreases self,
    {
        proof {
            lemma_texprs_view_index(self.items@);
            lemma_texprs_view_empty();
        }
        let mut items: Vec<TypedExpr> = Vec::new();
        let mut i: usize = 0;
        while i < self.items.len()
            invariant
                i <= self.items.len(),
                self@.len() == self.items.len(),
                forall|j: int| 0 <= j < self@.len() ==> #[trigger] self@[j] == texpr_view(self.items@[j]),
                texprs_view(items@) == self@.take(i as int),
            decreases self.items.len() - i,
        {
            let x = self.items[i].clone();
            let ghost old_items = items@;
            let ghost gx = x;
            items.push(x);
            proof {
                lemma_texprs_view_push(old_items, gx);
                assert(items@ == old_items.push(gx));
                assert(self@.take(i + 1) =~= self@.take(i as int).push(self@[i as int]));
            }
            i = i + 1;
        }
        assert(self@.take(i as int) =~= self@);
        TypedArgs { items }
    }
}

/// The type of a typed expression as a whole.
pub open spec fn texpr_type(e: TExprV) -> TypeV {
    match e {
        TExprV::Assign(t, _, _) => t,
        TExprV::Equality(t, _) => t,
        TExprV::Comparison(t, _) => t,
        TExprV::Term(t, _) => t,
        TExprV::Shift(t, _, _, _) => t,
        TExprV::Unary(t, _, _) => t,
        TExprV::Cast(t, _) => t,
        TExprV::FnCall(t, _, _) => t,
        TExprV::Primary(t, _) => t,
    }
}

/// The type of a typed primary expression.
pub open spec fn tprimary_type(p: TPrimaryV) -> TypeV {
    match p {
        TPrimaryV::Grouping(e) => texpr_type(e),
        TPrimaryV::EnumVariant(t, _) => TypeV::CustomEnum(t),
        TPrimaryV::NumLiteral(n) => literal_type(n),
        TPrimaryV::Variable(v) => tvariable_type(v),
        TPrimaryV::Ref(t, _, _) => t,
    }
}

/// The type of a typed variable access.
pub open spec fn tvariable_type(v: TVariableV) -> TypeV {
    match v {
        TVariableV::Id(t, _) => t,
        TVariableV::StructField(t, _) => t,
        TVariableV::Array(t, _, _) => t,
    }
}

/// Whether an expression denotes a place that can be assigned to: a
/// variable, a dereference, or an assignment to such a place.
pub open spec fn assignable(e: TExprV) -> bool
    decreases e,
{
    match e {
        TExprV::Primary(_, p) => match *p {
            TPrimaryV::Variable(_) => true,
            TPrimaryV::Ref(_, op, _) => op == "*"@,
            _ => false,
        },
        TExprV::Assign(_, l, _) => assignable(*l),
        _ => false,
    }
}

impl TypedExpr {
    pub fn final_type(&self) -> (t: ValueType)
        ensures
            t@ == texpr_type(self@),
    {
        proof {
            unfold_texpr_view(*self);
        }
        match self {
            TypedExpr::Assign(t, _, _) => t.clone(),
            TypedExpr::Cast(t, _) => t.clone(),
            TypedExpr::Comparison(t, _) => t.clone(),
            TypedExpr::Equality(t, _) => t.clone(),
            TypedExpr::FnCall(t, _, _) => t.clone(),
            TypedExpr::Shift(t, _, _, _) => t.clone(),
            TypedExpr::Term(t, _) => t.clone(),
            TypedExpr::Unary(t, _, _) => t.clone(),
            TypedExpr::Primary(t, _) => t.clone(),
        }
    }

    /// Whether the expression can stand left of an assignment: `1 = 2` and
    /// `&x = 5` cannot, `x[1].y` can.
    pub fn is_assignable(&self) -> (b: bool)
        ensures
            b == assignable(self@),
        decreases self,
    {
        proof {
            unfold_texpr_view(*self);
        }
        match self {
            TypedExpr::Primary(_, primary_expr) => {
                proof {
                    unfold_tprimary_view(**primary_expr);
                }
                match &**primary_expr {
                    TypedPrimaryExpr::Variable(_) => true,
                    TypedPrimaryExpr::Ref(_, ref_op, _) => *ref_op == String::from_str("*"),
                    _ => false,
                }
            },
            TypedExpr::Assign(_, assign_left, _) => assign_left.is_assignable(),
            _ => false,
        }
    }
}

impl TypedPrimaryExpr {
    pub fn final_type(&self) -> (t: ValueType)
        ensures
            t@ == tprimary_type(self@),
    {
        proof {
            unfold_tprimary_view(*self);
        }
        match self {
            TypedPrimaryExpr::Grouping(e) => e.final_type(),
            TypedPrimaryExpr::EnumVariant(enum_template, _) => ValueType::CustomEnum(enum_template.clone()),
            TypedPrimaryExpr::NumLiteral(n) => n.get_type(),
            TypedPrimaryExpr::Variable(v) => v.final_type(),
            TypedPrimaryExpr::Ref(t, _, _) => t.clone(),
        }
    }
}

impl TypedVariable {
    pub fn final_type(&self) -> (t: ValueType)
        ensures
            t@ == tvariable_type(self@),
    {
        proof {
            unfold_tvariable_view(*self);
        }
        match self {
            TypedVariable::Id(t, _) => t.clone(),
            TypedVariable::Array(t, _, _) => t.clone(),
            TypedVariable::StructField(t, _) => t.clone(),
        }
    }
}

} // verus!
