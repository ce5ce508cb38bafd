use vstd::prelude::*;
use vstd::string::StringExecFns;

use crate::token::{Lexeme, LexemeView, Token};
use crate::expr::{
    Expr, PrimaryExpr, BinaryExpr, Variable, Args, NumLiteral, ExprV, PrimaryExprV, BinaryExprV, VariableV,
    expr_view, exprs_view, unfold_expr_view, unfold_primary_view, unfold_binary_view, unfold_variable_view,
    lemma_exprs_view_index, lemma_exprs_view_push, lemma_exprs_view_empty,
};
use crate::stmt::{
    Stmt, StmtV, stmts_view, stmt_view, unfold_stmt_view, lemma_stmts_view_push, lemma_stmts_view_empty,
    lemma_stmts_view_index,
};

verus! {

/// Whether a literal is of an unsigned type.
pub open spec fn unsigned(n: NumLiteral) -> bool {
    n is U8 || n is U16 || n is U32 || n is U64
}

/// The literal denoting the negation of an unsigned literal: of the signed
/// type of the same width where the negation fits, else of the next width;
/// `None` where not even 64 bits hold it.
pub open spec fn negation(n: NumLiteral) -> Option<NumLiteral> {
    match n {
        NumLiteral::U8(v) => if v > 128 {
            Some(NumLiteral::I16((-v) as i16))
        } else {
            Some(NumLiteral::I8((-v) as i8))
        },
        NumLiteral::U16(v) => if v > 32768 {
            Some(NumLiteral::I32((-v) as i32))
        } else {
            Some(NumLiteral::I16((-v) as i16))
        },
        NumLiteral::U32(v) => if v > 0x8000_0000 {
            Some(NumLiteral::I64((-v) as i64))
        } else {
            Some(NumLiteral::I32((-v) as i32))
        },
        NumLiteral::U64(v) => if v > 0x8000_0000_0000_0000 {
            None
        } else {
            Some(NumLiteral::I64((-v) as i64))
        },
        _ => None,
    }
}

impl NumLiteral {
    /// The literal for minus this one; an error where it does not fit in
    /// 64 bits.
    pub fn negate(&self) -> (r: Result<NumLiteral, ()>)
        requires
            unsigned(*self),
        ensures
            r is Ok <==> negation(*self) is Some,
            r matches Ok(m) ==> negation(*self) == Some(m) && m.value() == -self.value(),
    {
        match *self {
            Self::U8(n) => {
                if n > 128 {
                    Ok(NumLiteral::I16(-(n as i16)))
                } else {
                    Ok(NumLiteral::I8((-(n as i16)) as i8))
                }
            },
            Self::U16(n) => {
                if n > 32768 {
                    Ok(NumLiteral::I32(-(n as i32)))
                } else {
                    Ok(NumLiteral::I16((-(n as i32)) as i16))
                }
            },
            Self::U32(n) => {
                if n > 0x8000_0000 {
                    Ok(NumLiteral::I64(-(n as i64)))
                } else {
                    Ok(NumLiteral::I32((-(n as i64)) as i32))
                }
            },
            Self::U64(n) => {
                if n > 9_223_372_036_854_775_808 {
                    Err(())
                } else if n == 9_223_372_036_854_775_808 {
                    Ok(NumLiteral::I64(i64::MIN))
                } else {
                    Ok(NumLiteral::I64(-(n as i64)))
                }
            },
            _ => {
                proof {
                    assert(false);
                }
                Err(())
            },
        }
    }
}

/// A unary minus directly over a number literal.
pub open spec fn minus_literal(op: LexemeView, v: ExprV) -> bool {
    op.tok.text == "-"@ && v is Primary && (*v->Primary_0) is NumLiteral
}

/// The literal under a unary minus.
pub open spec fn literal_of(v: ExprV) -> NumLiteral {
    (*v->Primary_0)->NumLiteral_0
}

/// The expression with every unary minus directly over a number literal
/// replaced by the negated literal, and the minus at which that failed: the
/// walk stops there, and what follows it is left as it was.
#[verifier::opaque]
pub open spec fn neg_expr(e: ExprV) -> (ExprV, Option<LexemeView>)
    decreases e,
{
    match e {
        ExprV::Unary(op, v) => if minus_literal(op, *v) {
            let n = negation(literal_of(*v));
            if n is Some {
                (ExprV::Primary(Box::new(PrimaryExprV::NumLiteral(n->Some_0, (*v->Primary_0)->NumLiteral_1))), None)
            } else {
                (e, Some(op))
            }
        } else {
            (e, None)
        },
        ExprV::Assign(b) => {
            let r = neg_binary(*b);
            (ExprV::Assign(Box::new(r.0)), r.1)
        },
        ExprV::Equality(b) => {
            let r = neg_binary(*b);
            (ExprV::Equality(Box::new(r.0)), r.1)
        },
        ExprV::Comparison(b) => {
            let r = neg_binary(*b);
            (ExprV::Comparison(Box::new(r.0)), r.1)
        },
        ExprV::Term(b) => {
            let r = neg_binary(*b);
            (ExprV::Term(Box::new(r.0)), r.1)
        },
        ExprV::Cast(v, op, t) => {
            let r = neg_expr(*v);
            (ExprV::Cast(Box::new(r.0), op, t), r.1)
        },
        ExprV::FnCall(name, args) => {
            let r = neg_exprs(args);
            (ExprV::FnCall(name, r.0), r.1)
        },
        ExprV::Primary(p) => {
            let r = neg_primary(*p);
            (ExprV::Primary(Box::new(r.0)), r.1)
        },
        ExprV::Shift(v, op, n) => {
            let r = neg_expr(*v);
            (ExprV::Shift(Box::new(r.0), op, n), r.1)
        },
    }
}

#[verifier::opaque]
pub open spec fn neg_binary(b: BinaryExprV) -> (BinaryExprV, Option<LexemeView>)
    decreases b,
{
    let l = neg_expr(b.left);
    if l.1 is Some {
        (BinaryExprV { left: l.0, operator: b.operator, right: b.right }, l.1)
    } else {
        let r = neg_expr(b.right);
        (BinaryExprV { left: l.0, operator: b.operator, right: r.0 }, r.1)
    }
}

#[verifier::opaque]
pub open spec fn neg_primary(p: PrimaryExprV) -> (PrimaryExprV, Option<LexemeView>)
    decreases p,
{
    match p {
        PrimaryExprV::Grouping(g) => {
            let r = neg_expr(g);
            (PrimaryExprV::Grouping(r.0), r.1)
        },
        PrimaryExprV::Variable(v) => {
            let r = neg_var(v);
            (PrimaryExprV::Variable(r.0), r.1)
        },
        PrimaryExprV::Ref(op, v) => {
            let r = neg_var(v);
            (PrimaryExprV::Ref(op, r.0), r.1)
        },
        _ => (p, None),
    }
}

#[verifier::opaque]
pub open spec fn neg_var(v: VariableV) -> (VariableV, Option<LexemeView>)
    decreases v,
{
    match v {
        VariableV::Array(h, i) => {
            let rh = neg_var(*h);
            if rh.1 is Some {
                (VariableV::Array(Box::new(rh.0), i), rh.1)
            } else {
                let ri = neg_expr(i);
                (VariableV::Array(Box::new(rh.0), ri.0), ri.1)
            }
        },
        VariableV::StructField(s) => {
            let r0 = neg_var(s.0);
            if r0.1 is Some {
                (VariableV::StructField(Box::new((r0.0, s.1))), r0.1)
            } else {
                let r1 = neg_var(s.1);
                (VariableV::StructField(Box::new((r0.0, r1.0))), r1.1)
            }
        },
        VariableV::Id(_) => (v, None),
    }
}

#[verifier::opaque]
pub open spec fn neg_exprs(s: Seq<ExprV>) -> (Seq<ExprV>, Option<LexemeView>)
    decreases s,
{
    if s.len() == 0 {
        (s, None)
    } else {
        let a = neg_exprs(s.drop_last());
        if a.1 is Some {
            (a.0.push(s.last()), a.1)
        } else {
            let r = neg_expr(s.last());
            (a.0.push(r.0), r.1)
        }
    }
}

/// Every unary minus over a literal that the walk reaches holds an unsigned
/// literal, and its operator carries text: true of every expression the
/// parser builds.
#[verifier::opaque]
pub open spec fn neg_ok(e: ExprV) -> bool
    decreases e,
{
    match e {
        ExprV::Unary(op, v) => crate::semantics::expr_semantics::has_text(op) && (minus_literal(op, *v) ==> unsigned(
            literal_of(*v),
        )),
        ExprV::Assign(b) => neg_ok_binary(*b),
        ExprV::Equality(b) => neg_ok_binary(*b),
        ExprV::Comparison(b) => neg_ok_binary(*b),
        ExprV::Term(b) => neg_ok_binary(*b),
        ExprV::Cast(v, _, _) => neg_ok(*v),
        ExprV::FnCall(_, args) => neg_ok_exprs(args),
        ExprV::Primary(p) => neg_ok_primary(*p),
        ExprV::Shift(v, _, _) => neg_ok(*v),
    }
}

#[verifier::opaque]
pub open spec fn neg_ok_binary(b: BinaryExprV) -> bool
    decreases b,
{
    neg_ok(b.left) && (neg_expr(b.left).1 is None ==> neg_ok(b.right))
}

#[verifier::opaque]
pub open spec fn neg_ok_primary(p: PrimaryExprV) -> bool
    decreases p,
{
    match p {
        PrimaryExprV::Grouping(g) => neg_ok(g),
        PrimaryExprV::Variable(v) => neg_ok_var(v),
        PrimaryExprV::Ref(_, v) => neg_ok_var(v),
        _ => true,
    }
}

#[verifier::opaque]
pub open spec fn neg_ok_var(v: VariableV) -> bool
    decreases v,
{
    match v {
        VariableV::Array(h, i) => neg_ok_var(*h) && (neg_var(*h).1 is None ==> neg_ok(i)),
        VariableV::StructField(s) => neg_ok_var(s.0) && (neg_var(s.0).1 is None ==> neg_ok_var(s.1)),
        VariableV::Id(_) => true,
    }
}

#[verifier::opaque]
pub open spec fn neg_ok_exprs(s: Seq<ExprV>) -> bool
    decreases s,
{
    if s.len() == 0 {
        true
    } else {
        neg_ok_exprs(s.drop_last()) && (neg_exprs(s.drop_last()).1 is None ==> neg_ok(s.last()))
    }
}

/// The statement with its literals under a unary minus negated, in the
/// order the statement reads, and the minus at which that failed.
#[verifier::opaque]
pub open spec fn neg_stmt(s: StmtV) -> (StmtV, Option<LexemeView>)
    decreases s,
{
    match s {
        StmtV::ExprStmt(e) => {
            let r = neg_expr(e);
            (StmtV::ExprStmt(r.0), r.1)
        },
        StmtV::Block(b) => {
            let r = neg_stmts(b);
            (StmtV::Block(r.0), r.1)
        },
        StmtV::FnDeclr(n, ps, t, body) => {
            let r = neg_stmt(*body);
            (StmtV::FnDeclr(n, ps, t, Box::new(r.0)), r.1)
        },
        StmtV::IfStmt(c, t, f) => {
            let rc = neg_expr(c);
            if rc.1 is Some {
                (StmtV::IfStmt(rc.0, t, f), rc.1)
            } else {
                let rt = neg_stmt(*t);
                if rt.1 is Some || f is None {
                    (StmtV::IfStmt(rc.0, Box::new(rt.0), f), rt.1)
                } else {
                    let rf = neg_stmt(*f->Some_0);
                    (StmtV::IfStmt(rc.0, Box::new(rt.0), Some(Box::new(rf.0))), rf.1)
                }
            }
        },
        StmtV::LoopStmt(b) => {
            let r = neg_stmt(*b);
            (StmtV::LoopStmt(Box::new(r.0)), r.1)
        },
        StmtV::ReturnStmt(k, e) => {
            let r = neg_expr(e);
            (StmtV::ReturnStmt(k, r.0), r.1)
        },
        StmtV::VarDeclr(n, t, v) => if v is Some {
            let r = neg_expr(v->Some_0);
            (StmtV::VarDeclr(n, t, Some(r.0)), r.1)
        } else {
            (s, None)
        },
        StmtV::WhileStmt(c, b) => {
            let rc = neg_expr(c);
            if rc.1 is Some {
                (StmtV::WhileStmt(rc.0, b), rc.1)
            } else {
                let rb = neg_stmt(*b);
                (StmtV::WhileStmt(rc.0, Box::new(rb.0)), rb.1)
            }
        },
        _ => (s, None),
    }
}

#[verifier::opaque]
pub open spec fn neg_stmts(s: Seq<StmtV>) -> (Seq<StmtV>, Option<LexemeView>)
    decreases s,
{
    if s.len() == 0 {
        (s, None)
    } else {
        let a = neg_stmts(s.drop_last());
        if a.1 is Some {
            (a.0.push(s.last()), a.1)
        } else {
            let r = neg_stmt(s.last());
            (a.0.push(r.0), r.1)
        }
    }
}

/// What `neg_ok` asks of every expression that the walk over a statement
/// reaches.
#[verifier::opaque]
pub open spec fn neg_ok_stmt(s: StmtV) -> bool
    decreases s,
{
    match s {
        StmtV::ExprStmt(e) => neg_ok(e),
        StmtV::Block(b) => neg_ok_stmts(b),
        StmtV::FnDeclr(_, _, _, body) => neg_ok_stmt(*body),
        StmtV::IfStmt(c, t, f) => neg_ok(c) && (neg_expr(c).1 is None ==> neg_ok_stmt(*t) && (neg_stmt(*t).1 is None
            && f is Some ==> neg_ok_stmt(*f->Some_0))),
        StmtV::LoopStmt(b) => neg_ok_stmt(*b),
        StmtV::ReturnStmt(_, e) => neg_ok(e),
        StmtV::VarDeclr(_, _, v) => v is Some ==> neg_ok(v->Some_0),
        StmtV::WhileStmt(c, b) => neg_ok(c) && (neg_expr(c).1 is None ==> neg_ok_stmt(*b)),
        _ => true,
    }
}

#[verifier::opaque]
pub open spec fn neg_ok_stmts(s: Seq<StmtV>) -> bool
    decreases s,
{
    if s.len() == 0 {
        true
    } else {
        neg_ok_stmts(s.drop_last()) && (neg_stmts(s.drop_last()).1 is None ==> neg_ok_stmt(s.last()))
    }
}

/// `neg_stmt` unfolded once.
pub proof fn unfold_neg_stmt(s: StmtV)
    ensures
        neg_stmt(s) == ({
    match s {
        StmtV::ExprStmt(e) => {
            let r = neg_expr(e);
            (StmtV::ExprStmt(r.0), r.1)
        },
        StmtV::Block(b) => {
            let r = neg_stmts(b);
            (StmtV::Block(r.0), r.1)
        },
        StmtV::FnDeclr(n, ps, t, body) => {
            let r = neg_stmt(*body);
            (StmtV::FnDeclr(n, ps, t, Box::new(r.0)), r.1)
        },
        StmtV::IfStmt(c, t, f) => {
            let rc = neg_expr(c);
            if rc.1 is Some {
                (StmtV::IfStmt(rc.0, t, f), rc.1)
            } else {
                let rt = neg_stmt(*t);
                if rt.1 is Some || f is None {
                    (StmtV::IfStmt(rc.0, Box::new(rt.0), f), rt.1)
                } else {
                    let rf = neg_stmt(*f->Some_0);
                    (StmtV::IfStmt(rc.0, Box::new(rt.0), Some(Box::new(rf.0))), rf.1)
                }
            }
        },
        StmtV::LoopStmt(b) => {
            let r = neg_stmt(*b);
            (StmtV::LoopStmt(Box::new(r.0)), r.1)
        },
        StmtV::ReturnStmt(k, e) => {
            let r = neg_expr(e);
            (StmtV::ReturnStmt(k, r.0), r.1)
        },
        StmtV::VarDeclr(n, t, v) => if v is Some {
            let r = neg_expr(v->Some_0);
            (StmtV::VarDeclr(n, t, Some(r.0)), r.1)
        } else {
            (s, None)
        },
        StmtV::WhileStmt(c, b) => {
            let rc = neg_expr(c);
            if rc.1 is Some {
                (StmtV::WhileStmt(rc.0, b), rc.1)
            } else {
                let rb = neg_stmt(*b);
                (StmtV::WhileStmt(rc.0, Box::new(rb.0)), rb.1)
            }
        },
        _ => (s, None),
    }
        }),
{
    reveal(neg_stmt);
    reveal(neg_expr);
    reveal(neg_stmts);
}

/// `neg_stmts` unfolded once.
pub proof fn unfold_neg_stmts(s: Seq<StmtV>)
    ensures
        neg_stmts(s) == ({
    if s.len() == 0 {
        (s, None)
    } else {
        let a = neg_stmts(s.drop_last());
        if a.1 is Some {
            (a.0.push(s.last()), a.1)
        } else {
            let r = neg_stmt(s.last());
            (a.0.push(r.0), r.1)
        }
    }
        }),
{
    reveal(neg_stmts);
    reveal(neg_stmt);
}

/// `neg_ok_stmt` unfolded once.
pub proof fn unfold_neg_ok_stmt(s: StmtV)
    ensures
        neg_ok_stmt(s) == ({
    match s {
        StmtV::ExprStmt(e) => neg_ok(e),
        StmtV::Block(b) => neg_ok_stmts(b),
        StmtV::FnDeclr(_, _, _, body) => neg_ok_stmt(*body),
        StmtV::IfStmt(c, t, f) => neg_ok(c) && (neg_expr(c).1 is None ==> neg_ok_stmt(*t) && (neg_stmt(*t).1 is None
            && f is Some ==> neg_ok_stmt(*f->Some_0))),
        StmtV::LoopStmt(b) => neg_ok_stmt(*b),
        StmtV::ReturnStmt(_, e) => neg_ok(e),
        StmtV::VarDeclr(_, _, v) => v is Some ==> neg_ok(v->Some_0),
        StmtV::WhileStmt(c, b) => neg_ok(c) && (neg_expr(c).1 is None ==> neg_ok_stmt(*b)),
        _ => true,
    }
        }),
{
    reveal(neg_ok_stmt);
    reveal(neg_expr);
    reveal(neg_ok);
    reveal(neg_stmt);
    reveal(neg_ok_stmts);
}

/// `neg_ok_stmts` unfolded once.
pub proof fn unfold_neg_ok_stmts(s: Seq<StmtV>)
    ensures
        neg_ok_stmts(s) == ({
    if s.len() == 0 {
        true
    } else {
        neg_ok_stmts(s.drop_last()) && (neg_stmts(s.drop_last()).1 is None ==> neg_ok_stmt(s.last()))
    }
        }),
{
    reveal(neg_ok_stmts);
    reveal(neg_stmts);
    reveal(neg_ok_stmt);
}


/// Negating the literals under a unary minus a second time changes nothing:
/// once a walk has gone through without failure, another finds nothing
/// left to replace.
pub proof fn lemma_neg_expr_idempotent(e: ExprV)
    requires
        neg_expr(e).1 is None,
    ensures
        neg_expr(neg_expr(e).0) == (neg_expr(e).0, None::<LexemeView>),
    decreases e,
{
    unfold_neg_expr(e);
    let r = neg_expr(e).0;
    unfold_neg_expr(r);
    match e {
        ExprV::Unary(op, v) => {
            if minus_literal(op, *v) {
                let p = PrimaryExprV::NumLiteral(negation(literal_of(*v))->Some_0, (*v->Primary_0)->NumLiteral_1);
                unfold_neg_primary(p);
            }
        },
        ExprV::Assign(b) => lemma_neg_binary_idempotent(*b),
        ExprV::Equality(b) => lemma_neg_binary_idempotent(*b),
        ExprV::Comparison(b) => lemma_neg_binary_idempotent(*b),
        ExprV::Term(b) => lemma_neg_binary_idempotent(*b),
        ExprV::Cast(v, _, _) => lemma_neg_expr_idempotent(*v),
        ExprV::FnCall(_, args) => lemma_neg_exprs_idempotent(args),
        ExprV::Primary(p) => lemma_neg_primary_idempotent(*p),
        ExprV::Shift(v, _, _) => lemma_neg_expr_idempotent(*v),
    }
}

pub proof fn lemma_neg_binary_idempotent(b: BinaryExprV)
    requires
        neg_binary(b).1 is None,
    ensures
        neg_binary(neg_binary(b).0) == (neg_binary(b).0, None::<LexemeView>),
    decreases b,
{
    unfold_neg_binary(b);
    unfold_neg_binary(neg_binary(b).0);
    lemma_neg_expr_idempotent(b.left);
    lemma_neg_expr_idempotent(b.right);
}

pub proof fn lemma_neg_primary_idempotent(p: PrimaryExprV)
    requires
        neg_primary(p).1 is None,
    ensures
        neg_primary(neg_primary(p).0) == (neg_primary(p).0, None::<LexemeView>),
    decreases p,
{
    unfold_neg_primary(p);
    unfold_neg_primary(neg_primary(p).0);
    match p {
        PrimaryExprV::Grouping(g) => lemma_neg_expr_idempotent(g),
        PrimaryExprV::Variable(v) => lemma_neg_var_idempotent(v),
        PrimaryExprV::Ref(_, v) => lemma_neg_var_idempotent(v),
        _ => {},
    }
}

pub proof fn lemma_neg_var_idempotent(v: VariableV)
    requires
        neg_var(v).1 is None,
    ensures
        neg_var(neg_var(v).0) == (neg_var(v).0, None::<LexemeView>),
    decreases v,
{
    unfold_neg_var(v);
    unfold_neg_var(neg_var(v).0);
    match v {
        VariableV::Array(h, i) => {
            lemma_neg_var_idempotent(*h);
            lemma_neg_expr_idempotent(i);
        },
        VariableV::StructField(s) => {
            lemma_neg_var_idempotent(s.0);
            lemma_neg_var_idempotent(s.1);
        },
        VariableV::Id(_) => {},
    }
}

pub proof fn lemma_neg_exprs_idempotent(s: Seq<ExprV>)
    requires
        neg_exprs(s).1 is None,
    ensures
        neg_exprs(neg_exprs(s).0) == (neg_exprs(s).0, None::<LexemeView>),
    decreases s,
{
    unfold_neg_exprs(s);
    if s.len() > 0 {
        let a = neg_exprs(s.drop_last());
        let r = neg_expr(s.last());
        lemma_neg_exprs_idempotent(s.drop_last());
        lemma_neg_expr_idempotent(s.last());
        let out = a.0.push(r.0);
        unfold_neg_exprs(out);
        assert(out.drop_last() =~= a.0);
        assert(out.last() == r.0);
    } else {
        unfold_neg_exprs(neg_exprs(s).0);
    }
}

/// A second walk over a statement changes nothing once the first went
/// through without failure.
pub proof fn lemma_neg_stmt_idempotent(s: StmtV)
    requires
        neg_stmt(s).1 is None,
    ensures
        neg_stmt(neg_stmt(s).0) == (neg_stmt(s).0, None::<LexemeView>),
    decreases s,
{
    unfold_neg_stmt(s);
    unfold_neg_stmt(neg_stmt(s).0);
    match s {
        StmtV::ExprStmt(e) => lemma_neg_expr_idempotent(e),
        StmtV::Block(b) => lemma_neg_stmts_idempotent(b),
        StmtV::FnDeclr(_, _, _, body) => lemma_neg_stmt_idempotent(*body),
        StmtV::IfStmt(c, t, f) => {
            lemma_neg_expr_idempotent(c);
            lemma_neg_stmt_idempotent(*t);
            if f is Some {
                lemma_neg_stmt_idempotent(*f->Some_0);
            }
        },
        StmtV::LoopStmt(b) => lemma_neg_stmt_idempotent(*b),
        StmtV::ReturnStmt(_, e) => lemma_neg_expr_idempotent(e),
        StmtV::VarDeclr(_, _, v) => {
            if v is Some {
                lemma_neg_expr_idempotent(v->Some_0);
            }
        },
        StmtV::WhileStmt(c, b) => {
            lemma_neg_expr_idempotent(c);
            lemma_neg_stmt_idempotent(*b);
        },
        _ => {},
    }
}

pub proof fn lemma_neg_stmts_idempotent(s: Seq<StmtV>)
    requires
        neg_stmts(s).1 is None,
    ensures
        neg_stmts(neg_stmts(s).0) == (neg_stmts(s).0, None::<LexemeView>),
    decreases s,
{
    unfold_neg_stmts(s);
    if s.len() > 0 {
        let a = neg_stmts(s.drop_last());
        let r = neg_stmt(s.last());
        lemma_neg_stmts_idempotent(s.drop_last());
        lemma_neg_stmt_idempotent(s.last());
        let out = a.0.push(r.0);
        unfold_neg_stmts(out);
        assert(out.drop_last() =~= a.0);
        assert(out.last() == r.0);
    } else {
        unfold_neg_stmts(neg_stmts(s).0);
    }
}

/// The result `r` reports the failure `f`, if any.
pub open spec fn reports(r: Result<(), Lexeme>, f: Option<LexemeView>) -> bool {
    match f {
        Some(l) => r matches Err(x) && x@ == l,
        None => r is Ok,
    }
}

/// `neg_expr` unfolded once.
pub proof fn unfold_neg_expr(e: ExprV)
    ensures
        neg_expr(e) == ({
    match e {
        ExprV::Unary(op, v) => if minus_literal(op, *v) {
            let n = negation(literal_of(*v));
            if n is Some {
                (ExprV::Primary(Box::new(PrimaryExprV::NumLiteral(n->Some_0, (*v->Primary_0)->NumLiteral_1))), None)
            } else {
                (e, Some(op))
            }
        } else {
            (e, None)
        },
        ExprV::Assign(b) => {
            let r = neg_binary(*b);
            (ExprV::Assign(Box::new(r.0)), r.1)
        },
        ExprV::Equality(b) => {
            let r = neg_binary(*b);
            (ExprV::Equality(Box::new(r.0)), r.1)
        },
        ExprV::Comparison(b) => {
            let r = neg_binary(*b);
            (ExprV::Comparison(Box::new(r.0)), r.1)
        },
        ExprV::Term(b) => {
            let r = neg_binary(*b);
            (ExprV::Term(Box::new(r.0)), r.1)
        },
        ExprV::Cast(v, op, t) => {
            let r = neg_expr(*v);
            (ExprV::Cast(Box::new(r.0), op, t), r.1)
        },
        ExprV::FnCall(name, args) => {
            let r = neg_exprs(args);
            (ExprV::FnCall(name, r.0), r.1)
        },
        ExprV::Primary(p) => {
            let r = neg_primary(*p);
            (ExprV::Primary(Box::new(r.0)), r.1)
        },
        ExprV::Shift(v, op, n) => {
            let r = neg_expr(*v);
            (ExprV::Shift(Box::new(r.0), op, n), r.1)
        },
    }
        }),
{
    reveal(neg_expr);
    reveal(neg_binary);
    reveal(neg_primary);
    reveal(neg_exprs);
}

/// `neg_binary` unfolded once.
pub proof fn unfold_neg_binary(b: BinaryExprV)
    ensures
        neg_binary(b) == ({
    let l = neg_expr(b.left);
    if l.1 is Some {
        (BinaryExprV { left: l.0, operator: b.operator, right: b.right }, l.1)
    } else {
        let r = neg_expr(b.right);
        (BinaryExprV { left: l.0, operator: b.operator, right: r.0 }, r.1)
    }
        }),
{
    reveal(neg_binary);
    reveal(neg_expr);
}

/// `neg_primary` unfolded once.
pub proof fn unfold_neg_primary(p: PrimaryExprV)
    ensures
        neg_primary(p) == ({
    match p {
        PrimaryExprV::Grouping(g) => {
            let r = neg_expr(g);
            (PrimaryExprV::Grouping(r.0), r.1)
        },
        PrimaryExprV::Variable(v) => {
            let r = neg_var(v);
            (PrimaryExprV::Variable(r.0), r.1)
        },
        PrimaryExprV::Ref(op, v) => {
            let r = neg_var(v);
            (PrimaryExprV::Ref(op, r.0), r.1)
        },
        _ => (p, None),
    }
        }),
{
    reveal(neg_primary);
    reveal(neg_expr);
    reveal(neg_var);
}

/// `neg_var` unfolded once.
pub proof fn unfold_neg_var(v: VariableV)
    ensures
        neg_var(v) == ({
    match v {
        VariableV::Array(h, i) => {
            let rh = neg_var(*h);
            if rh.1 is Some {
                (VariableV::Array(Box::new(rh.0), i), rh.1)
            } else {
                let ri = neg_expr(i);
                (VariableV::Array(Box::new(rh.0), ri.0), ri.1)
            }
        },
        VariableV::StructField(s) => {
            let r0 = neg_var(s.0);
            if r0.1 is Some {
                (VariableV::StructField(Box::new((r0.0, s.1))), r0.1)
            } else {
                let r1 = neg_var(s.1);
                (VariableV::StructField(Box::new((r0.0, r1.0))), r1.1)
            }
        },
        VariableV::Id(_) => (v, None),
    }
        }),
{
    reveal(neg_var);
    reveal(neg_expr);
}

/// `neg_exprs` unfolded once.
pub proof fn unfold_neg_exprs(s: Seq<ExprV>)
    ensures
        neg_exprs(s) == ({
    if s.len() == 0 {
        (s, None)
    } else {
        let a = neg_exprs(s.drop_last());
        if a.1 is Some {
            (a.0.push(s.last()), a.1)
        } else {
            let r = neg_expr(s.last());
            (a.0.push(r.0), r.1)
        }
    }
        }),
{
    reveal(neg_exprs);
    reveal(neg_expr);
}

/// `neg_ok` unfolded once.
pub proof fn unfold_neg_ok(e: ExprV)
    ensures
        neg_ok(e) == ({
    match e {
        ExprV::Unary(op, v) => crate::semantics::expr_semantics::has_text(op) && (minus_literal(op, *v) ==> unsigned(
            literal_of(*v),
        )),
        ExprV::Assign(b) => neg_ok_binary(*b),
        ExprV::Equality(b) => neg_ok_binary(*b),
        ExprV::Comparison(b) => neg_ok_binary(*b),
        ExprV::Term(b) => neg_ok_binary(*b),
        ExprV::Cast(v, _, _) => neg_ok(*v),
        ExprV::FnCall(_, args) => neg_ok_exprs(args),
        ExprV::Primary(p) => neg_ok_primary(*p),
        ExprV::Shift(v, _, _) => neg_ok(*v),
    }
        }),
{
    reveal(neg_ok);
    reveal(neg_ok_binary);
    reveal(neg_ok_primary);
    reveal(neg_ok_exprs);
}

/// `neg_ok_binary` unfolded once.
pub proof fn unfold_neg_ok_binary(b: BinaryExprV)
    ensures
        neg_ok_binary(b) == ({
    neg_ok(b.left) && (neg_expr(b.left).1 is None ==> neg_ok(b.right))
        }),
{
    reveal(neg_ok_binary);
    reveal(neg_expr);
    reveal(neg_ok);
}

/// `neg_ok_primary` unfolded once.
pub proof fn unfold_neg_ok_primary(p: PrimaryExprV)
    ensures
        neg_ok_primary(p) == ({
    match p {
        PrimaryExprV::Grouping(g) => neg_ok(g),
        PrimaryExprV::Variable(v) => neg_ok_var(v),
        PrimaryExprV::Ref(_, v) => neg_ok_var(v),
        _ => true,
    }
        }),
{
    reveal(neg_ok_primary);
    reveal(neg_ok);
    reveal(neg_ok_var);
}

/// `neg_ok_var` unfolded once.
pub proof fn unfold_neg_ok_var(v: VariableV)
    ensures
        neg_ok_var(v) == ({
    match v {
        VariableV::Array(h, i) => neg_ok_var(*h) && (neg_var(*h).1 is None ==> neg_ok(i)),
        VariableV::StructField(s) => neg_ok_var(s.0) && (neg_var(s.0).1 is None ==> neg_ok_var(s.1)),
        VariableV::Id(_) => true,
    }
        }),
{
    reveal(neg_ok_var);
    reveal(neg_var);
    reveal(neg_ok);
}

/// `neg_ok_exprs` unfolded once.
pub proof fn unfold_neg_ok_exprs(s: Seq<ExprV>)
    ensures
        neg_ok_exprs(s) == ({
    if s.len() == 0 {
        true
    } else {
        neg_ok_exprs(s.drop_last()) && (neg_exprs(s.drop_last()).1 is None ==> neg_ok(s.last()))
    }
        }),
{
    reveal(neg_ok_exprs);
    reveal(neg_exprs);
    reveal(neg_ok);
}



proof fn lemma_neg_exprs_fail(s: Seq<ExprV>, k: int)
    requires
        0 <= k <= s.len(),
        neg_exprs(s.take(k)).1 is Some,
    ensures
        neg_exprs(s) == (neg_exprs(s.take(k)).0 + s.skip(k), neg_exprs(s.take(k)).1),
    decreases s.len() - k,
{
    if k == s.len() {
        assert(s.take(k) =~= s);
        assert(neg_exprs(s.take(k)).0 + s.skip(k) =~= neg_exprs(s.take(k)).0);
    } else {
        unfold_neg_exprs(s.take(k + 1));
        assert(s.take(k + 1).drop_last() =~= s.take(k));
        assert(s.take(k + 1).last() == s[k]);
        lemma_neg_exprs_fail(s, k + 1);
        assert(neg_exprs(s.take(k)).0.push(s[k]) + s.skip(k + 1) =~= neg_exprs(s.take(k)).0 + s.skip(k));
    }
}

proof fn lemma_neg_ok_exprs_prefix(s: Seq<ExprV>, j: int)
    requires
        0 <= j <= s.len(),
        neg_ok_exprs(s),
    ensures
        neg_ok_exprs(s.take(j)),
    decreases s.len() - j,
{
    if j == s.len() {
        assert(s.take(j) =~= s);
    } else {
        lemma_neg_ok_exprs_prefix(s, j + 1);
        unfold_neg_ok_exprs(s.take(j + 1));
        assert(s.take(j + 1).drop_last() =~= s.take(j));
    }
}

/// The expression with its literals under a unary minus negated, as
/// `neg_expr` says; the walk takes the expression and gives it back.
fn neg_owned(e: Expr) -> (r: (Expr, Result<(), Lexeme>))
    requires
        neg_ok(e@),
    ensures
        r.0@ == neg_expr(e@).0,
        reports(r.1, neg_expr(e@).1),
    decreases e@,
{
    proof {
        unfold_expr_view(e);
        unfold_neg_expr(e@);
        unfold_neg_ok(e@);
    }
    match e {
        Expr::Unary(op, v) => {
            if op.data() == String::from_str("-") {
                if let Expr::Primary(p) = &*v {
                    if let PrimaryExpr::NumLiteral(n, l) = &**p {
                        proof {
                            unfold_expr_view(*v);
                            unfold_primary_view(**p);
                        }
                        match n.negate() {
                            Ok(m) => {
                                let np = PrimaryExpr::NumLiteral(m, l.clone());
                                proof {
                                    unfold_primary_view(np);
                                }
                                let x = Expr::Primary(Box::new(np));
                                proof {
                                    unfold_expr_view(x);
                                }
                                return (x, Ok(()));
                            },
                            Err(_) => {
                                let err = op.clone();
                                let x = Expr::Unary(op, v);
                                proof {
                                    unfold_expr_view(x);
                                }
                                return (x, Err(err));
                            },
                        }
                    }
                    proof {
                        unfold_expr_view(*v);
                        unfold_primary_view(**p);
                    }
                }
                proof {
                    unfold_expr_view(*v);
                }
            }
            let x = Expr::Unary(op, v);
            proof {
                unfold_expr_view(x);
            }
            (x, Ok(()))
        },
        Expr::Assign(b) => {
            let (nb, r) = neg_owned_binary(*b);
            let x = Expr::Assign(Box::new(nb));
            proof {
                unfold_expr_view(x);
            }
            (x, r)
        },
        Expr::Equality(b) => {
            let (nb, r) = neg_owned_binary(*b);
            let x = Expr::Equality(Box::new(nb));
            proof {
                unfold_expr_view(x);
            }
            (x, r)
        },
        Expr::Comparison(b) => {
            let (nb, r) = neg_owned_binary(*b);
            let x = Expr::Comparison(Box::new(nb));
            proof {
                unfold_expr_view(x);
            }
            (x, r)
        },
        Expr::Term(b) => {
            let (nb, r) = neg_owned_binary(*b);
            let x = Expr::Term(Box::new(nb));
            proof {
                unfold_expr_view(x);
            }
            (x, r)
        },
        Expr::Cast(v, op, t) => {
            let (nv, r) = neg_owned(*v);
            let x = Expr::Cast(Box::new(nv), op, t);
            proof {
                unfold_expr_view(x);
            }
            (x, r)
        },
        Expr::FnCall(name, a) => {
            let (items, r) = neg_owned_exprs(a.items);
            let x = Expr::FnCall(name, Args { items });
            proof {
                unfold_expr_view(x);
            }
            (x, r)
        },
        Expr::Primary(p) => {
            let (np, r) = neg_owned_primary(*p);
            let x = Expr::Primary(Box::new(np));
            proof {
                unfold_expr_view(x);
            }
            (x, r)
        },
        Expr::Shift(v, op, n) => {
            let (nv, r) = neg_owned(*v);
            let x = Expr::Shift(Box::new(nv), op, n);
            proof {
                unfold_expr_view(x);
            }
            (x, r)
        },
    }
}

fn neg_owned_binary(b: BinaryExpr) -> (r: (BinaryExpr, Result<(), Lexeme>))
    requires
        neg_ok_binary(b@),
    ensures
        r.0@ == neg_binary(b@).0,
        reports(r.1, neg_binary(b@).1),
    decreases b@,
{
    proof {
        unfold_binary_view(b);
        unfold_neg_binary(b@);
        unfold_neg_ok_binary(b@);
    }
    let BinaryExpr { left, operator, right } = b;
    let (nl, rl) = neg_owned(left);
    if rl.is_err() {
        let x = BinaryExpr { left: nl, operator, right };
        proof {
            unfold_binary_view(x);
        }
        return (x, rl);
    }
    let (nr, rr) = neg_owned(right);
    let x = BinaryExpr { left: nl, operator, right: nr };
    proof {
        unfold_binary_view(x);
    }
    (x, rr)
}

fn neg_owned_primary(p: PrimaryExpr) -> (r: (PrimaryExpr, Result<(), Lexeme>))
    requires
        neg_ok_primary(p@),
    ensures
        r.0@ == neg_primary(p@).0,
        reports(r.1, neg_primary(p@).1),
    decreases p@,
{
    proof {
        unfold_primary_view(p);
        unfold_neg_primary(p@);
        unfold_neg_ok_primary(p@);
    }
    match p {
        PrimaryExpr::Grouping(g) => {
            let (ng, r) = neg_owned(g);
            let x = PrimaryExpr::Grouping(ng);
            proof {
                unfold_primary_view(x);
            }
            (x, r)
        },
        PrimaryExpr::Variable(v) => {
            let (nv, r) = neg_owned_var(v);
            let x = PrimaryExpr::Variable(nv);
            proof {
                unfold_primary_view(x);
            }
            (x, r)
        },
        PrimaryExpr::Ref(op, v) => {
            let (nv, r) = neg_owned_var(v);
            let x = PrimaryExpr::Ref(op, nv);
            proof {
                unfold_primary_view(x);
            }
            (x, r)
        },
        PrimaryExpr::NumLiteral(n, l) => {
            let x = PrimaryExpr::NumLiteral(n, l);
            proof {
                unfold_primary_view(x);
            }
            (x, Ok(()))
        },
        PrimaryExpr::EnumVariant(a, b) => {
            let x = PrimaryExpr::EnumVariant(a, b);
            proof {
                unfold_primary_view(x);
            }
            (x, Ok(()))
        },
    }
}

fn neg_owned_var(v: Variable) -> (r: (Variable, Result<(), Lexeme>))
    requires
        neg_ok_var(v@),
    ensures
        r.0@ == neg_var(v@).0,
        reports(r.1, neg_var(v@).1),
    decreases v@,
{
    proof {
        unfold_variable_view(v);
        unfold_neg_var(v@);
        unfold_neg_ok_var(v@);
    }
    match v {
        Variable::Array(h, i) => {
            let (nh, rh) = neg_owned_var(*h);
            if rh.is_err() {
                let x = Variable::Array(Box::new(nh), i);
                proof {
                    unfold_variable_view(x);
                }
                return (x, rh);
            }
            let (ni, ri) = neg_owned(i);
            let x = Variable::Array(Box::new(nh), ni);
            proof {
                unfold_variable_view(x);
            }
            (x, ri)
        },
        Variable::StructField(s) => {
            let (a, b) = *s;
            let (na, ra) = neg_owned_var(a);
            if ra.is_err() {
                let x = Variable::StructField(Box::new((na, b)));
                proof {
                    unfold_variable_view(x);
                }
                return (x, ra);
            }
            let (nb, rb) = neg_owned_var(b);
            let x = Variable::StructField(Box::new((na, nb)));
            proof {
                unfold_variable_view(x);
            }
            (x, rb)
        },
        Variable::Id(l) => {
            let x = Variable::Id(l);
            proof {
                unfold_variable_view(x);
            }
            (x, Ok(()))
        },
    }
}

fn neg_owned_exprs(items: Vec<Expr>) -> (r: (Vec<Expr>, Result<(), Lexeme>))
    requires
        neg_ok_exprs(exprs_view(items@)),
    ensures
        exprs_view(r.0@) == neg_exprs(exprs_view(items@)).0,
        reports(r.1, neg_exprs(exprs_view(items@)).1),
    decreases exprs_view(items@),
{
    let ghost s = exprs_view(items@);
    proof {
        lemma_exprs_view_index(items@);
        lemma_exprs_view_empty();
        unfold_neg_exprs(s.take(0));
        assert(s.take(0) =~= Seq::<ExprV>::empty());
    }
    let mut rest = items;
    let mut out: Vec<Expr> = Vec::new();
    let ghost mut i: int = 0;
    while rest.len() > 0
        invariant
            0 <= i <= s.len(),
            s == exprs_view(items@),
            s.len() == items@.len(),
            forall|j: int| 0 <= j < s.len() ==> #[trigger] s[j] == expr_view(items@[j]),
            rest@ == items@.skip(i),
            neg_ok_exprs(s),
            neg_exprs(s.take(i)).1 is None,
            exprs_view(out@) == neg_exprs(s.take(i)).0,
        decreases rest.len(),
    {
        proof {
            unfold_neg_exprs(s.take(i + 1));
            assert(s.take(i + 1).drop_last() =~= s.take(i));
            assert(s.take(i + 1).last() == s[i]);
            lemma_neg_ok_exprs_prefix(s, i + 1);
            unfold_neg_ok_exprs(s.take(i + 1));
        }
        let x = rest.remove(0);
        assert(x == items@[i]);
        let (nx, rx) = neg_owned(x);
        let ghost old_out = out@;
        let ghost gx = nx;
        out.push(nx);
        proof {
            lemma_exprs_view_push(old_out, gx);
            assert(out@ == old_out.push(gx));
            assert(rest@ =~= items@.skip(i + 1));
            i = i + 1;
        }
        if rx.is_err() {
            proof {
                lemma_neg_exprs_fail(s, i);
                lemma_exprs_view_index(out@);
                lemma_exprs_view_index(rest@);
            }
            let ghost head = out@;
            out.append(&mut rest);
            proof {
                lemma_exprs_view_index(out@);
                assert(exprs_view(out@) =~= neg_exprs(s.take(i)).0 + s.skip(i));
            }
            return (out, rx);
        }
    }
    proof {
        assert(s.take(i) =~= s);
    }
    (out, Ok(()))
}

impl Expr {
    /// Replaces every unary minus directly over a number literal by the
    /// negated literal; a literal whose negation does not fit in 64 bits is
    /// refused with the minus, and the walk stops there.
    pub fn neg_unary_literals(&mut self) -> (r: Result<(), Lexeme>)
        requires
            neg_ok(old(self)@),
        ensures
            final(self)@ == neg_expr(old(self)@).0,
            reports(r, neg_expr(old(self)@).1),
    {
        let mut e = Expr::Primary(Box::new(PrimaryExpr::NumLiteral(NumLiteral::U8(0), Lexeme::new(0, 0, Token::EOF))));
        std::mem::swap(self, &mut e);
        let (ne, r) = neg_owned(e);
        *self = ne;
        r
    }
}

impl BinaryExpr {
    /// Negates the literals under a unary minus in both sides, the left first.
    pub fn neg_unary_literals(&mut self) -> (r: Result<(), Lexeme>)
        requires
            neg_ok_binary(old(self)@),
        ensures
            final(self)@ == neg_binary(old(self)@).0,
            reports(r, neg_binary(old(self)@).1),
    {
        let placeholder = || Expr::Primary(Box::new(PrimaryExpr::NumLiteral(NumLiteral::U8(0), Lexeme::new(0, 0, Token::EOF))));
        let mut b = BinaryExpr { left: placeholder(), operator: Lexeme::new(0, 0, Token::EOF), right: placeholder() };
        std::mem::swap(self, &mut b);
        let (nb, r) = neg_owned_binary(b);
        *self = nb;
        r
    }
}

impl Variable {
    /// Negates the literals under a unary minus in the array indices of the
    /// access.
    pub fn neg_unary_literals(&mut self) -> (r: Result<(), Lexeme>)
        requires
            neg_ok_var(old(self)@),
        ensures
            final(self)@ == neg_var(old(self)@).0,
            reports(r, neg_var(old(self)@).1),
    {
        let mut v = Variable::Id(Lexeme::new(0, 0, Token::EOF));
        std::mem::swap(self, &mut v);
        let (nv, r) = neg_owned_var(v);
        *self = nv;
        r
    }
}


proof fn lemma_neg_stmts_fail(s: Seq<StmtV>, k: int)
    requires
        0 <= k <= s.len(),
        neg_stmts(s.take(k)).1 is Some,
    ensures
        neg_stmts(s) == (neg_stmts(s.take(k)).0 + s.skip(k), neg_stmts(s.take(k)).1),
    decreases s.len() - k,
{
    if k == s.len() {
        assert(s.take(k) =~= s);
        assert(neg_stmts(s.take(k)).0 + s.skip(k) =~= neg_stmts(s.take(k)).0);
    } else {
        unfold_neg_stmts(s.take(k + 1));
        assert(s.take(k + 1).drop_last() =~= s.take(k));
        assert(s.take(k + 1).last() == s[k]);
        lemma_neg_stmts_fail(s, k + 1);
        assert(neg_stmts(s.take(k)).0.push(s[k]) + s.skip(k + 1) =~= neg_stmts(s.take(k)).0 + s.skip(k));
    }
}

proof fn lemma_neg_ok_stmts_prefix(s: Seq<StmtV>, j: int)
    requires
        0 <= j <= s.len(),
        neg_ok_stmts(s),
    ensures
        neg_ok_stmts(s.take(j)),
    decreases s.len() - j,
{
    if j == s.len() {
        assert(s.take(j) =~= s);
    } else {
        lemma_neg_ok_stmts_prefix(s, j + 1);
        unfold_neg_ok_stmts(s.take(j + 1));
        assert(s.take(j + 1).drop_last() =~= s.take(j));
    }
}

fn neg_owned_stmt(s: Stmt) -> (r: (Stmt, Result<(), Lexeme>))
    requires
        neg_ok_stmt(s@),
    ensures
        r.0@ == neg_stmt(s@).0,
        reports(r.1, neg_stmt(s@).1),
    decreases s@,
{
    proof {
        unfold_stmt_view(s);
        unfold_neg_stmt(s@);
        unfold_neg_ok_stmt(s@);
    }
    match s {
        Stmt::ExprStmt(e) => {
            let (ne, r) = neg_owned(e);
            let x = Stmt::ExprStmt(ne);
            proof {
                unfold_stmt_view(x);
            }
            (x, r)
        },
        Stmt::Block(b) => {
            let (nb, r) = neg_owned_stmts(b);
            let x = Stmt::Block(nb);
            proof {
                unfold_stmt_view(x);
            }
            (x, r)
        },
        Stmt::FnDeclr(n, ps, t, body) => {
            let (nbody, r) = neg_owned_stmt(*body);
            let x = Stmt::FnDeclr(n, ps, t, Box::new(nbody));
            proof {
                unfold_stmt_view(x);
            }
            (x, r)
        },
        Stmt::IfStmt(c, t, f) => {
            let (nc, rc) = neg_owned(c);
            if rc.is_err() {
                let x = Stmt::IfStmt(nc, t, f);
                proof {
                    unfold_stmt_view(x);
                }
                return (x, rc);
            }
            let (nt, rt) = neg_owned_stmt(*t);
            if rt.is_err() {
                let x = Stmt::IfStmt(nc, Box::new(nt), f);
                proof {
                    unfold_stmt_view(x);
                }
                return (x, rt);
            }
            match f {
                Some(fb) => {
                    let (nf, rf) = neg_owned_stmt(*fb);
                    let x = Stmt::IfStmt(nc, Box::new(nt), Some(Box::new(nf)));
                    proof {
                        unfold_stmt_view(x);
                    }
                    (x, rf)
                },
                None => {
                    let x = Stmt::IfStmt(nc, Box::new(nt), None);
                    proof {
                        unfold_stmt_view(x);
                    }
                    (x, rt)
                },
            }
        },
        Stmt::LoopStmt(b) => {
            let (nb, r) = neg_owned_stmt(*b);
            let x = Stmt::LoopStmt(Box::new(nb));
            proof {
                unfold_stmt_view(x);
            }
            (x, r)
        },
        Stmt::ReturnStmt(k, e) => {
            let (ne, r) = neg_owned(e);
            let x = Stmt::ReturnStmt(k, ne);
            proof {
                unfold_stmt_view(x);
            }
            (x, r)
        },
        Stmt::VarDeclr(n, t, v) => {
            match v {
                Some(e) => {
                    let (ne, r) = neg_owned(e);
                    let x = Stmt::VarDeclr(n, t, Some(ne));
                    proof {
                        unfold_stmt_view(x);
                    }
                    (x, r)
                },
                None => {
                    let x = Stmt::VarDeclr(n, t, None);
                    proof {
                        unfold_stmt_view(x);
                    }
                    (x, Ok(()))
                },
            }
        },
        Stmt::WhileStmt(c, b) => {
            let (nc, rc) = neg_owned(c);
            if rc.is_err() {
                let x = Stmt::WhileStmt(nc, b);
                proof {
                    unfold_stmt_view(x);
                }
                return (x, rc);
            }
            let (nb, rb) = neg_owned_stmt(*b);
            let x = Stmt::WhileStmt(nc, Box::new(nb));
            proof {
                unfold_stmt_view(x);
            }
            (x, rb)
        },
        Stmt::StructDeclr(n, ps) => {
            let x = Stmt::StructDeclr(n, ps);
            proof {
                unfold_stmt_view(x);
            }
            (x, Ok(()))
        },
        Stmt::EnumDeclr(n, vs) => {
            let x = Stmt::EnumDeclr(n, vs);
            proof {
                unfold_stmt_view(x);
            }
            (x, Ok(()))
        },
        Stmt::BreakStmt(l) => {
            let x = Stmt::BreakStmt(l);
            proof {
                unfold_stmt_view(x);
            }
            (x, Ok(()))
        },
    }
}

fn neg_owned_stmts(items: Vec<Stmt>) -> (r: (Vec<Stmt>, Result<(), Lexeme>))
    requires
        neg_ok_stmts(stmts_view(items@)),
    ensures
        stmts_view(r.0@) == neg_stmts(stmts_view(items@)).0,
        reports(r.1, neg_stmts(stmts_view(items@)).1),
    decreases stmts_view(items@),
{
    let ghost s = stmts_view(items@);
    proof {
        lemma_stmts_view_index(items@);
        lemma_stmts_view_empty();
        unfold_neg_stmts(s.take(0));
        assert(s.take(0) =~= Seq::<StmtV>::empty());
    }
    let mut rest = items;
    let mut out: Vec<Stmt> = Vec::new();
    let ghost mut i: int = 0;
    while rest.len() > 0
        invariant
            0 <= i <= s.len(),
            s == stmts_view(items@),
            s.len() == items@.len(),
            forall|j: int| 0 <= j < s.len() ==> #[trigger] s[j] == stmt_view(items@[j]),
            rest@ == items@.skip(i),
            neg_ok_stmts(s),
            neg_stmts(s.take(i)).1 is None,
            stmts_view(out@) == neg_stmts(s.take(i)).0,
        decreases rest.len(),
    {
        proof {
            unfold_neg_stmts(s.take(i + 1));
            assert(s.take(i + 1).drop_last() =~= s.take(i));
            assert(s.take(i + 1).last() == s[i]);
            lemma_neg_ok_stmts_prefix(s, i + 1);
            unfold_neg_ok_stmts(s.take(i + 1));
        }
        let x = rest.remove(0);
        assert(x == items@[i]);
        let (nx, rx) = neg_owned_stmt(x);
        let ghost old_out = out@;
        let ghost gx = nx;
        out.push(nx);
        proof {
            lemma_stmts_view_push(old_out, gx);
            assert(out@ == old_out.push(gx));
            assert(rest@ =~= items@.skip(i + 1));
            i = i + 1;
        }
        if rx.is_err() {
            proof {
                lemma_neg_stmts_fail(s, i);
                lemma_stmts_view_index(out@);
                lemma_stmts_view_index(rest@);
            }
            out.append(&mut rest);
            proof {
                lemma_stmts_view_index(out@);
                assert(stmts_view(out@) =~= neg_stmts(s.take(i)).0 + s.skip(i));
            }
            return (out, rx);
        }
    }
    proof {
        assert(s.take(i) =~= s);
    }
    (out, Ok(()))
}

impl Stmt {
    /// Negates the literals under a unary minus in every expression of the
    /// statement, in the order the statement reads; stops at the first
    /// literal whose negation does not fit in 64 bits.
    pub fn neg_unary_literals(&mut self) -> (r: Result<(), Lexeme>)
        requires
            neg_ok_stmt(old(self)@),
        ensures
            final(self)@ == neg_stmt(old(self)@).0,
            reports(r, neg_stmt(old(self)@).1),
    {
        let mut s = Stmt::BreakStmt(Lexeme::new(0, 0, Token::EOF));
        std::mem::swap(self, &mut s);
        let (ns, r) = neg_owned_stmt(s);
        *self = ns;
        r
    }
}

} // verus!
