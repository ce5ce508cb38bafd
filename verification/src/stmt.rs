use vstd::prelude::*;

use crate::token::{Lexeme, LexemeView};
use crate::expr::{Expr, ExprV, expr_view};
use crate::types::declr_has_text;

verus! {

#[derive(Debug)]
pub enum Stmt {
    VarDeclr(Lexeme, TypeDeclr, Option<Expr>),
    FnDeclr(Lexeme, Parameters, TypeDeclr, Box<Stmt>),
    StructDeclr(Lexeme, Parameters),
    EnumDeclr(Lexeme, Vec<Lexeme>),
    ExprStmt(Expr),
    LoopStmt(Box<Stmt>),
    WhileStmt(Expr, Box<Stmt>),
    IfStmt(Expr, Box<Stmt>, Option<Box<Stmt>>),
    BreakStmt(Lexeme),
    ReturnStmt(Lexeme, Expr),
    Block(Vec<Stmt>),
}

#[derive(Debug)]
pub enum TypeDeclr {
    Basic(Lexeme),
    Pointer(Box<TypeDeclr>),
    Array(Box<TypeDeclr>, u16),
}

#[derive(Debug)]
pub struct Parameters {
    pub params: Vec<(Lexeme, TypeDeclr)>,
}

pub enum TypeDeclrV {
    Basic(LexemeView),
    Pointer(Box<TypeDeclrV>),
    Array(Box<TypeDeclrV>, u16),
}

pub enum StmtV {
    VarDeclr(LexemeView, TypeDeclrV, Option<ExprV>),
    FnDeclr(LexemeView, Seq<(LexemeView, TypeDeclrV)>, TypeDeclrV, Box<StmtV>),
    StructDeclr(LexemeView, Seq<(LexemeView, TypeDeclrV)>),
    EnumDeclr(LexemeView, Seq<LexemeView>),
    ExprStmt(ExprV),
    LoopStmt(Box<StmtV>),
    WhileStmt(ExprV, Box<StmtV>),
    IfStmt(ExprV, Box<StmtV>, Option<Box<StmtV>>),
    BreakStmt(LexemeView),
    ReturnStmt(LexemeView, ExprV),
    Block(Seq<StmtV>),
}

pub open spec fn type_declr_view(t: TypeDeclr) -> TypeDeclrV
    decreases t,
{
    match t {
        TypeDeclr::Basic(l) => TypeDeclrV::Basic(l@),
        TypeDeclr::Pointer(p) => TypeDeclrV::Pointer(Box::new(type_declr_view(*p))),
        TypeDeclr::Array(i, n) => TypeDeclrV::Array(Box::new(type_declr_view(*i)), n),
    }
}

pub open spec fn params_view(s: Seq<(Lexeme, TypeDeclr)>) -> Seq<(LexemeView, TypeDeclrV)> {
    s.map_values(|p: (Lexeme, TypeDeclr)| (p.0@, type_declr_view(p.1)))
}

pub open spec fn lexemes_view(s: Seq<Lexeme>) -> Seq<LexemeView> {
    s.map_values(|l: Lexeme| l@)
}

#[verifier::opaque]
pub open spec fn stmt_view(s: Stmt) -> StmtV
    decreases s,
{
    match s {
        Stmt::VarDeclr(n, t, v) => StmtV::VarDeclr(
            n@,
            type_declr_view(t),
            match v {
                Some(e) => Some(expr_view(e)),
                None => None,
            },
        ),
        Stmt::FnDeclr(n, ps, t, b) => StmtV::FnDeclr(n@, params_view(ps.params@), type_declr_view(t), Box::new(stmt_view(*b))),
        Stmt::StructDeclr(n, ps) => StmtV::StructDeclr(n@, params_view(ps.params@)),
        Stmt::EnumDeclr(n, vs) => StmtV::EnumDeclr(n@, lexemes_view(vs@)),
        Stmt::ExprStmt(e) => StmtV::ExprStmt(expr_view(e)),
        Stmt::LoopStmt(b) => StmtV::LoopStmt(Box::new(stmt_view(*b))),
        Stmt::WhileStmt(c, b) => StmtV::WhileStmt(expr_view(c), Box::new(stmt_view(*b))),
        Stmt::IfStmt(c, t, f) => StmtV::IfStmt(
            expr_view(c),
            Box::new(stmt_view(*t)),
            match f {
                Some(b) => Some(Box::new(stmt_view(*b))),
                None => None,
            },
        ),
        Stmt::BreakStmt(l) => StmtV::BreakStmt(l@),
        Stmt::ReturnStmt(l, e) => StmtV::ReturnStmt(l@, expr_view(e)),
        Stmt::Block(b) => StmtV::Block(stmts_view(b@)),
    }
}

#[verifier::opaque]
pub open spec fn stmts_view(s: Seq<Stmt>) -> Seq<StmtV>
    decreases s,
{
    if s.len() == 0 {
        seq![]
    } else {
        seq![stmt_view(s[0])] + stmts_view(s.drop_first())
    }
}

/// `stmt_view` unfolded once.
pub proof fn unfold_stmt_view(s: Stmt)
    ensures
        stmt_view(s) == ({
    match s {
        Stmt::VarDeclr(n, t, v) => StmtV::VarDeclr(
            n@,
            type_declr_view(t),
            match v {
                Some(e) => Some(expr_view(e)),
                None => None,
            },
        ),
        Stmt::FnDeclr(n, ps, t, b) => StmtV::FnDeclr(n@, params_view(ps.params@), type_declr_view(t), Box::new(stmt_view(*b))),
        Stmt::StructDeclr(n, ps) => StmtV::StructDeclr(n@, params_view(ps.params@)),
        Stmt::EnumDeclr(n, vs) => StmtV::EnumDeclr(n@, lexemes_view(vs@)),
        Stmt::ExprStmt(e) => StmtV::ExprStmt(expr_view(e)),
        Stmt::LoopStmt(b) => StmtV::LoopStmt(Box::new(stmt_view(*b))),
        Stmt::WhileStmt(c, b) => StmtV::WhileStmt(expr_view(c), Box::new(stmt_view(*b))),
        Stmt::IfStmt(c, t, f) => StmtV::IfStmt(
            expr_view(c),
            Box::new(stmt_view(*t)),
            match f {
                Some(b) => Some(Box::new(stmt_view(*b))),
                None => None,
            },
        ),
        Stmt::BreakStmt(l) => StmtV::BreakStmt(l@),
        Stmt::ReturnStmt(l, e) => StmtV::ReturnStmt(l@, expr_view(e)),
        Stmt::Block(b) => StmtV::Block(stmts_view(b@)),
    }
        }),
{
    reveal(stmt_view);
    reveal(stmts_view);
}

/// `stmts_view` unfolded once.
pub proof fn unfold_stmts_view(s: Seq<Stmt>)
    ensures
        stmts_view(s) == ({
    if s.len() == 0 {
        seq![]
    } else {
        seq![stmt_view(s[0])] + stmts_view(s.drop_first())
    }
        }),
{
    reveal(stmts_view);
    reveal(stmt_view);
}

/// The view of a sequence of statements grows by one view when the sequence grows by one.
pub proof fn lemma_stmts_view_push(s: Seq<Stmt>, x: Stmt)
    ensures
        stmts_view(s.push(x)) == stmts_view(s).push(stmt_view(x)),
    decreases s.len(),
{
    let sx = s.push(x);
    unfold_stmts_view(sx);
    unfold_stmts_view(s);
    if s.len() == 0 {
        assert(sx.drop_first() =~= Seq::<Stmt>::empty());
        unfold_stmts_view(sx.drop_first());
        assert(stmts_view(sx) =~= seq![stmt_view(x)]);
        assert(stmts_view(s) =~= Seq::<StmtV>::empty());
    } else {
        lemma_stmts_view_push(s.drop_first(), x);
        assert(sx.drop_first() =~= s.drop_first().push(x));
        assert(stmts_view(sx) =~= stmts_view(s).push(stmt_view(x)));
    }
}

/// The view of a sequence of statements is the sequence of their views.
pub proof fn lemma_stmts_view_index(s: Seq<Stmt>)
    ensures
        stmts_view(s).len() == s.len(),
        forall|i: int| 0 <= i < s.len() ==> #[trigger] stmts_view(s)[i] == stmt_view(s[i]),
    decreases s.len(),
{
    unfold_stmts_view(s);
    if s.len() > 0 {
        lemma_stmts_view_index(s.drop_first());
        assert forall|i: int| 0 <= i < s.len() implies #[trigger] stmts_view(s)[i] == stmt_view(s[i]) by {
            if i > 0 {
                assert(s.drop_first()[i - 1] == s[i]);
            }
        }
    }
}

/// The view of the empty sequence of statements is empty.
pub proof fn lemma_stmts_view_empty()
    ensures
        stmts_view(Seq::<Stmt>::empty()) == Seq::<StmtV>::empty(),
{
    unfold_stmts_view(Seq::<Stmt>::empty());
}

/// The type name at the bottom of a declaration.
pub open spec fn declr_id(d: TypeDeclrV) -> LexemeView
    decreases d,
{
    match d {
        TypeDeclrV::Basic(l) => l,
        TypeDeclrV::Pointer(p) => declr_id(*p),
        TypeDeclrV::Array(i, _) => declr_id(*i),
    }
}

impl TypeDeclr {
    /// The type name that the declaration is built on.
    pub fn get_id(&self) -> (l: Lexeme)
        ensures
            l@ == declr_id(self@),
        decreases self,
    {
        match self {
            TypeDeclr::Basic(l) => l.clone(),
            TypeDeclr::Array(item, _) => item.get_id(),
            TypeDeclr::Pointer(p_type) => p_type.get_id(),
        }
    }

    /// Whether the declaration is built on the type named `target`.
    pub fn check_resolveable_by_type_name(&self, target: String) -> (b: bool)
        requires
            declr_has_text(self@),
        ensures
            b == (declr_id(self@).tok.text == target@),
        decreases self,
    {
        match self {
            TypeDeclr::Basic(id) => id.data() == target,
            TypeDeclr::Pointer(p) => p.check_resolveable_by_type_name(target),
            TypeDeclr::Array(item_t, _) => item_t.check_resolveable_by_type_name(target),
        }
    }
}

impl View for Stmt {
    type V = StmtV;

    open spec fn view(&self) -> StmtV {
        stmt_view(*self)
    }
}

impl View for TypeDeclr {
    type V = TypeDeclrV;

    open spec fn view(&self) -> TypeDeclrV {
        type_declr_view(*self)
    }
}

impl View for Parameters {
    type V = Seq<(LexemeView, TypeDeclrV)>;

    open spec fn view(&self) -> Seq<(LexemeView, TypeDeclrV)> {
        params_view(self.params@)
    }
}

} // verus!
