use vstd::prelude::*;

use crate::token::{TokKind, LexemeView};
use crate::expr::{ExprV, BinaryExprV, VariableV, first_of_expr, first_of_var};
use crate::parser::{Parsed, out_of, punct};
use crate::parser::expr_grammar::{
    p_var, p_var_loop, p_var_index, p_primary, p_fn_call, p_cast, p_unary, p_shift, p_term, p_term_loop,
    p_comparison, p_comparison_loop, p_equality, p_equality_loop, p_assign, p_expr, unfold_p_var,
    unfold_p_var_loop, unfold_p_var_index, unfold_p_primary, unfold_p_fn_call, unfold_p_cast, unfold_p_unary,
    unfold_p_shift, unfold_p_term, unfold_p_term_loop, unfold_p_comparison, unfold_p_comparison_loop,
    unfold_p_equality, unfold_p_equality_loop, unfold_p_assign, unfold_p_expr,
};

verus! {

/// The accesses that follow a variable's head keep that head first.
proof fn lemma_var_loop_first(t: Seq<LexemeView>, p: int, r: VariableV)
    ensures
        p_var_loop(t, p, r) is Done ==> first_of_var(p_var_loop(t, p, r)->Done_0) == first_of_var(r),
    decreases t.len() - p, 9nat,
{
    unfold_p_var_loop(t, p, r);
    reveal(first_of_var);
    if out_of(t, p) {
    } else if t[p].tok == punct(TokKind::Period) {
        let f = p_var(t, p + 1);
        if f is Done {
            lemma_var_index_first(t, p, f->Done_1, VariableV::StructField(Box::new((r, f->Done_0))));
        }
    } else if t[p].tok == punct(TokKind::SquareOpen) {
        lemma_var_index_first(t, p, p, r);
    }
}

proof fn lemma_var_index_first(t: Seq<LexemeView>, p: int, q: int, r1: VariableV)
    ensures
        p_var_index(t, p, q, r1) is Done ==> first_of_var(p_var_index(t, p, q, r1)->Done_0) == first_of_var(r1),
    decreases t.len() - p, 8nat,
{
    unfold_p_var_index(t, p, q, r1);
    reveal(first_of_var);
    if p < 0 || q < p || out_of(t, q) {
    } else if t[q].tok == punct(TokKind::SquareOpen) {
        let i = p_expr(t, q + 1);
        if i is Done {
            let q1 = i->Done_1;
            if !(q1 <= q || out_of(t, q1)) && t[q1].tok == punct(TokKind::SquareClose) {
                lemma_var_loop_first(t, q1 + 1, VariableV::Array(Box::new(r1), i->Done_0));
            }
        }
    } else if q <= p {
    } else {
        lemma_var_loop_first(t, q, r1);
    }
}

proof fn lemma_var_first(t: Seq<LexemeView>, p: int)
    ensures
        p_var(t, p) is Done ==> first_of_var(p_var(t, p)->Done_0) == t[p],
{
    unfold_p_var(t, p);
    reveal(first_of_var);
    if !out_of(t, p) && t[p].tok.kind == TokKind::Id {
        lemma_var_loop_first(t, p + 1, VariableV::Id(t[p]));
    }
}

proof fn lemma_primary_first(t: Seq<LexemeView>, p: int)
    requires
        p_primary(t, p) is Done,
        0 <= p < t.len(),
        t[p].tok != punct(TokKind::ParenOpen),
    ensures
        first_of_expr(p_primary(t, p)->Done_0) == t[p],
{
    unfold_p_primary(t, p);
    reveal(first_of_expr);
    lemma_var_first(t, p);
}

proof fn lemma_fn_call_first(t: Seq<LexemeView>, p: int)
    requires
        p_fn_call(t, p) is Done,
        0 <= p < t.len(),
        t[p].tok != punct(TokKind::ParenOpen),
    ensures
        first_of_expr(p_fn_call(t, p)->Done_0) == t[p],
{
    unfold_p_fn_call(t, p);
    reveal(first_of_expr);
    if !(out_of(t, p) || out_of(t, p + 1)) && t[p + 1].tok == punct(TokKind::ParenOpen) {
    } else {
        lemma_primary_first(t, p);
    }
}

proof fn lemma_cast_first(t: Seq<LexemeView>, p: int)
    requires
        p_cast(t, p) is Done,
        0 <= p < t.len(),
        t[p].tok != punct(TokKind::ParenOpen),
    ensures
        first_of_expr(p_cast(t, p)->Done_0) == t[p],
{
    unfold_p_cast(t, p);
    reveal(first_of_expr);
    lemma_fn_call_first(t, p);
}

proof fn lemma_unary_first(t: Seq<LexemeView>, p: int)
    requires
        p_unary(t, p) is Done,
        0 <= p < t.len(),
        t[p].tok != punct(TokKind::ParenOpen),
    ensures
        first_of_expr(p_unary(t, p)->Done_0) == t[p],
{
    unfold_p_unary(t, p);
    reveal(first_of_expr);
    if !(t[p].tok == crate::parser::op("!"@) || t[p].tok == crate::parser::op("-"@)) {
        lemma_cast_first(t, p);
    }
}

proof fn lemma_shift_first(t: Seq<LexemeView>, p: int)
    requires
        p_shift(t, p) is Done,
        0 <= p < t.len(),
        t[p].tok != punct(TokKind::ParenOpen),
    ensures
        first_of_expr(p_shift(t, p)->Done_0) == t[p],
{
    unfold_p_shift(t, p);
    reveal(first_of_expr);
    lemma_unary_first(t, p);
}

proof fn lemma_term_loop_first(t: Seq<LexemeView>, p: int, left: ExprV)
    ensures
        p_term_loop(t, p, left) is Done ==> first_of_expr(p_term_loop(t, p, left)->Done_0) == first_of_expr(left),
    decreases t.len() - p,
{
    unfold_p_term_loop(t, p, left);
    reveal(first_of_expr);
    if !out_of(t, p) && crate::parser::expr_grammar::is_term_op(t[p].tok) {
        let r = p_shift(t, p + 1);
        if r is Done && !(r->Done_1 <= p || r->Done_1 > t.len()) {
            lemma_term_loop_first(
                t,
                r->Done_1,
                ExprV::Term(Box::new(BinaryExprV { left, operator: t[p], right: r->Done_0 })),
            );
        }
    }
}

proof fn lemma_term_first(t: Seq<LexemeView>, p: int)
    requires
        p_term(t, p) is Done,
        0 <= p < t.len(),
        t[p].tok != punct(TokKind::ParenOpen),
    ensures
        first_of_expr(p_term(t, p)->Done_0) == t[p],
{
    unfold_p_term(t, p);
    let l = p_shift(t, p);
    if l is Done {
        lemma_shift_first(t, p);
        lemma_term_loop_first(t, l->Done_1, l->Done_0);
    }
}

proof fn lemma_comparison_loop_first(t: Seq<LexemeView>, p: int, left: ExprV)
    ensures
        p_comparison_loop(t, p, left) is Done ==> first_of_expr(p_comparison_loop(t, p, left)->Done_0)
            == first_of_expr(left),
    decreases t.len() - p,
{
    unfold_p_comparison_loop(t, p, left);
    reveal(first_of_expr);
    if !out_of(t, p) && crate::parser::expr_grammar::is_comparison_op(t[p].tok) {
        let r = p_term(t, p + 1);
        if r is Done && !(r->Done_1 <= p || r->Done_1 > t.len()) {
            lemma_comparison_loop_first(
                t,
                r->Done_1,
                ExprV::Comparison(Box::new(BinaryExprV { left, operator: t[p], right: r->Done_0 })),
            );
        }
    }
}

proof fn lemma_comparison_first(t: Seq<LexemeView>, p: int)
    requires
        p_comparison(t, p) is Done,
        0 <= p < t.len(),
        t[p].tok != punct(TokKind::ParenOpen),
    ensures
        first_of_expr(p_comparison(t, p)->Done_0) == t[p],
{
    unfold_p_comparison(t, p);
    let l = p_term(t, p);
    if l is Done {
        lemma_term_first(t, p);
        lemma_comparison_loop_first(t, l->Done_1, l->Done_0);
    }
}

proof fn lemma_equality_loop_first(t: Seq<LexemeView>, p: int, left: ExprV)
    ensures
        p_equality_loop(t, p, left) is Done ==> first_of_expr(p_equality_loop(t, p, left)->Done_0)
            == first_of_expr(left),
    decreases t.len() - p,
{
    unfold_p_equality_loop(t, p, left);
    reveal(first_of_expr);
    if !out_of(t, p) && crate::parser::expr_grammar::is_equality_op(t[p].tok) {
        let r = p_comparison(t, p + 1);
        if r is Done && !(r->Done_1 <= p || r->Done_1 > t.len()) {
            lemma_equality_loop_first(
                t,
                r->Done_1,
                ExprV::Equality(Box::new(BinaryExprV { left, operator: t[p], right: r->Done_0 })),
            );
        }
    }
}

proof fn lemma_equality_first(t: Seq<LexemeView>, p: int)
    requires
        p_equality(t, p) is Done,
        0 <= p < t.len(),
        t[p].tok != punct(TokKind::ParenOpen),
    ensures
        first_of_expr(p_equality(t, p)->Done_0) == t[p],
{
    unfold_p_equality(t, p);
    let l = p_comparison(t, p);
    if l is Done {
        lemma_comparison_first(t, p);
        lemma_equality_loop_first(t, l->Done_1, l->Done_0);
    }
}

/// An expression that parses from position `p`, where the lexeme at `p`
/// opens no parenthesis, has that lexeme as its first lexeme: the left
/// operand's first lexeme for an operation, the operator for a unary or a
/// reference, the name for a call or an enum variant, the literal itself,
/// and the head name for a variable.
pub proof fn lemma_parsed_expr_first_lexeme(t: Seq<LexemeView>, p: int)
    requires
        p_expr(t, p) is Done,
        0 <= p < t.len(),
        t[p].tok != punct(TokKind::ParenOpen),
    ensures
        first_of_expr(p_expr(t, p)->Done_0) == t[p],
{
    unfold_p_expr(t, p);
    unfold_p_assign(t, p);
    reveal(first_of_expr);
    lemma_equality_first(t, p);
}

} // verus!
