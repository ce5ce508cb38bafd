use vstd::prelude::*;

use crate::token::{TokKind, LexemeView};
use crate::expr::{NumLiteral, ExprV, PrimaryExprV, BinaryExprV, VariableV};
use crate::parser::{Parsed, out_of, punct, op, cond};
use crate::parser::stmt_grammar::p_type_declr;
use crate::parser::numbers::decimal_value;

verus! {

/// The narrowest unsigned literal that holds `v`.
#[verifier::opaque]
pub open spec fn classify_num(v: int) -> NumLiteral {
    if v <= u8::MAX {
        NumLiteral::U8(v as u8)
    } else if v <= u16::MAX {
        NumLiteral::U16(v as u16)
    } else if v <= u32::MAX {
        NumLiteral::U32(v as u32)
    } else {
        NumLiteral::U64(v as u64)
    }
}

#[verifier::opaque]
pub open spec fn p_num_literal(t: Seq<LexemeView>, p: int) -> Parsed<NumLiteral> {
    if out_of(t, p) {
        Parsed::Stuck
    } else if t[p].tok.kind == TokKind::Lit {
        match decimal_value(t[p].tok.text) {
            Some(v) => if v <= u64::MAX {
                Parsed::Done(classify_num(v), p + 1)
            } else {
                Parsed::Fail("Number Literal Error"@)
            },
            None => Parsed::Fail("Number Literal Error"@),
        }
    } else {
        Parsed::Fail("Expected Number Literal"@)
    }
}

#[verifier::opaque]
pub open spec fn p_var(t: Seq<LexemeView>, p: int) -> Parsed<VariableV>
    decreases t.len() - p, 10nat,
{
    if out_of(t, p) {
        Parsed::Stuck
    } else if t[p].tok.kind != TokKind::Id {
        Parsed::Fail("Variable Access Parsing Error"@)
    } else {
        p_var_loop(t, p + 1, VariableV::Id(t[p]))
    }
}

/// The index that may follow a field access, after which the loop goes on.
#[verifier::opaque]
pub open spec fn p_var_index(t: Seq<LexemeView>, p: int, q: int, r1: VariableV) -> Parsed<VariableV>
    decreases t.len() - p, 8nat,
{
    if p < 0 || q < p || out_of(t, q) {
        Parsed::Stuck
    } else if t[q].tok == punct(TokKind::SquareOpen) {
        let i = p_expr(t, q + 1);
        if i is Stuck {
            Parsed::Stuck
        } else if i is Fail {
            Parsed::Fail(i->Fail_0)
        } else {
            let q1 = i->Done_1;
            if q1 <= q || out_of(t, q1) {
                Parsed::Stuck
            } else if t[q1].tok == punct(TokKind::SquareClose) {
                p_var_loop(t, q1 + 1, VariableV::Array(Box::new(r1), i->Done_0))
            } else {
                Parsed::Fail("Expected Closing Square Bracket for Array Index"@)
            }
        }
    } else if q <= p {
        Parsed::Stuck
    } else {
        p_var_loop(t, q, r1)
    }
}

/// The field accesses and indexings that follow a variable's head.
#[verifier::opaque]
pub open spec fn p_var_loop(t: Seq<LexemeView>, p: int, r: VariableV) -> Parsed<VariableV>
    decreases t.len() - p, 9nat,
{
    if out_of(t, p) {
        Parsed::Stuck
    } else if t[p].tok == punct(TokKind::Period) {
        let f = p_var(t, p + 1);
        if f is Stuck {
            Parsed::Stuck
        } else if f is Fail {
            Parsed::Fail(f->Fail_0)
        } else {
            p_var_index(t, p, f->Done_1, VariableV::StructField(Box::new((r, f->Done_0))))
        }
    } else if t[p].tok == punct(TokKind::SquareOpen) {
        p_var_index(t, p, p, r)
    } else {
        Parsed::Done(r, p)
    }
}

#[verifier::opaque]
pub open spec fn p_args(t: Seq<LexemeView>, p: int) -> Parsed<Seq<ExprV>>
    decreases t.len() - p, 32nat,
{
    if out_of(t, p) {
        Parsed::Stuck
    } else if t[p].tok == punct(TokKind::ParenClose) || t[p].tok == punct(TokKind::SquareClose) || t[p].tok
        == punct(TokKind::CurlyClose) {
        Parsed::Done(seq![], p)
    } else {
        let e = p_expr(t, p);
        if e is Stuck {
            Parsed::Stuck
        } else if e is Fail {
            Parsed::Fail(e->Fail_0)
        } else if e->Done_1 <= p || e->Done_1 > t.len() {
            Parsed::Stuck
        } else {
            p_args_loop(t, e->Done_1, seq![e->Done_0])
        }
    }
}

#[verifier::opaque]
pub open spec fn p_args_loop(t: Seq<LexemeView>, p: int, items: Seq<ExprV>) -> Parsed<Seq<ExprV>>
    decreases t.len() - p, 31nat,
{
    if out_of(t, p) {
        Parsed::Stuck
    } else if t[p].tok == punct(TokKind::Comma) {
        let e = p_expr(t, p + 1);
        if e is Stuck {
            Parsed::Stuck
        } else if e is Fail {
            Parsed::Fail(e->Fail_0)
        } else if e->Done_1 <= p || e->Done_1 > t.len() {
            Parsed::Stuck
        } else {
            p_args_loop(t, e->Done_1, items.push(e->Done_0))
        }
    } else {
        Parsed::Done(items, p)
    }
}

#[verifier::opaque]
pub open spec fn p_primary(t: Seq<LexemeView>, p: int) -> Parsed<ExprV>
    decreases t.len() - p, 18nat,
{
    if out_of(t, p) {
        Parsed::Stuck
    } else if t[p].tok.kind == TokKind::Lit {
        let n = p_num_literal(t, p);
        if n is Stuck {
            Parsed::Stuck
        } else if n is Fail {
            Parsed::Fail(n->Fail_0)
        } else {
            Parsed::Done(ExprV::Primary(Box::new(PrimaryExprV::NumLiteral(n->Done_0, t[p]))), n->Done_1)
        }
    } else if t[p].tok == punct(TokKind::ParenOpen) {
        let e = p_expr(t, p + 1);
        if e is Stuck {
            Parsed::Stuck
        } else if e is Fail {
            Parsed::Fail(e->Fail_0)
        } else if e->Done_1 <= p || out_of(t, e->Done_1) {
            Parsed::Stuck
        } else if t[e->Done_1].tok == punct(TokKind::ParenClose) {
            Parsed::Done(ExprV::Primary(Box::new(PrimaryExprV::Grouping(e->Done_0))), e->Done_1 + 1)
        } else {
            Parsed::Fail("Expected Closing Parentheses"@)
        }
    } else if t[p].tok == op("&"@) || t[p].tok == op("*"@) {
        let v = p_var(t, p + 1);
        if v is Stuck {
            Parsed::Stuck
        } else if v is Fail {
            Parsed::Fail(v->Fail_0)
        } else {
            Parsed::Done(ExprV::Primary(Box::new(PrimaryExprV::Ref(t[p], v->Done_0))), v->Done_1)
        }
    } else if out_of(t, p + 1) {
        Parsed::Stuck
    } else if t[p + 1].tok == punct(TokKind::Col) {
        if t[p].tok.kind != TokKind::Id {
            Parsed::Fail("Expected Identifier for Enum Name"@)
        } else if out_of(t, p + 2) {
            Parsed::Stuck
        } else if t[p + 2].tok != punct(TokKind::Col) {
            Parsed::Fail("Expected Double Colon :: after Enum Name"@)
        } else if out_of(t, p + 3) {
            Parsed::Stuck
        } else if t[p + 3].tok.kind != TokKind::Id {
            Parsed::Fail("Expected Identifier for Enum Variant"@)
        } else {
            Parsed::Done(ExprV::Primary(Box::new(PrimaryExprV::EnumVariant(t[p], t[p + 3]))), p + 4)
        }
    } else {
        let v = p_var(t, p);
        if v is Stuck {
            Parsed::Stuck
        } else if v is Fail {
            Parsed::Fail(v->Fail_0)
        } else {
            Parsed::Done(ExprV::Primary(Box::new(PrimaryExprV::Variable(v->Done_0))), v->Done_1)
        }
    }
}

#[verifier::opaque]
pub open spec fn p_fn_call(t: Seq<LexemeView>, p: int) -> Parsed<ExprV>
    decreases t.len() - p, 19nat,
{
    if out_of(t, p) || out_of(t, p + 1) {
        Parsed::Stuck
    } else if t[p + 1].tok == punct(TokKind::ParenOpen) {
        if t[p].tok.kind != TokKind::Id {
            Parsed::Fail("Expected Identifier for Function Name"@)
        } else {
            let a = p_args(t, p + 2);
            if a is Stuck {
                Parsed::Stuck
            } else if a is Fail {
                Parsed::Fail(a->Fail_0)
            } else if a->Done_1 < p + 2 || out_of(t, a->Done_1) {
                Parsed::Stuck
            } else if t[a->Done_1].tok == punct(TokKind::ParenClose) {
                Parsed::Done(ExprV::FnCall(t[p], a->Done_0), a->Done_1 + 1)
            } else {
                Parsed::Fail("Expected Closing Parentheses after Function Call"@)
            }
        }
    } else {
        p_primary(t, p)
    }
}

#[verifier::opaque]
pub open spec fn p_cast(t: Seq<LexemeView>, p: int) -> Parsed<ExprV>
    decreases t.len() - p, 20nat,
{
    if out_of(t, p) {
        Parsed::Stuck
    } else {
        let l = p_fn_call(t, p);
        if l is Stuck || l is Fail {
            l
        } else if l->Done_1 < p || out_of(t, l->Done_1) {
            Parsed::Stuck
        } else if t[l->Done_1].tok == op("as"@) {
            let ty = p_type_declr(t, l->Done_1 + 1);
            if ty is Stuck {
                Parsed::Stuck
            } else if ty is Fail {
                Parsed::Fail(ty->Fail_0)
            } else {
                Parsed::Done(ExprV::Cast(Box::new(l->Done_0), t[l->Done_1], ty->Done_0), ty->Done_1)
            }
        } else {
            l
        }
    }
}

#[verifier::opaque]
pub open spec fn p_unary(t: Seq<LexemeView>, p: int) -> Parsed<ExprV>
    decreases t.len() - p, 21nat,
{
    if out_of(t, p) {
        Parsed::Stuck
    } else if t[p].tok == op("!"@) || t[p].tok == op("-"@) {
        let r = p_cast(t, p + 1);
        if r is Stuck || r is Fail {
            r
        } else {
            Parsed::Done(ExprV::Unary(t[p], Box::new(r->Done_0)), r->Done_1)
        }
    } else {
        p_cast(t, p)
    }
}

#[verifier::opaque]
pub open spec fn p_shift(t: Seq<LexemeView>, p: int) -> Parsed<ExprV>
    decreases t.len() - p, 22nat,
{
    if out_of(t, p) {
        Parsed::Stuck
    } else {
        let l = p_unary(t, p);
        if l is Stuck || l is Fail {
            l
        } else if l->Done_1 < p || out_of(t, l->Done_1) {
            Parsed::Stuck
        } else if t[l->Done_1].tok == op("<<"@) || t[l->Done_1].tok == op(">>"@) {
            let n = p_num_literal(t, l->Done_1 + 1);
            if n is Stuck {
                Parsed::Stuck
            } else if n is Fail {
                Parsed::Fail(n->Fail_0)
            } else {
                Parsed::Done(ExprV::Shift(Box::new(l->Done_0), t[l->Done_1], n->Done_0), n->Done_1)
            }
        } else {
            l
        }
    }
}

pub open spec fn is_term_op(x: crate::token::TokView) -> bool {
    x == op("+"@) || x == op("-"@) || x == op("&"@) || x == op("|"@) || x == op("~|"@)
}

pub open spec fn is_comparison_op(x: crate::token::TokView) -> bool {
    x == cond(">"@) || x == cond("<"@) || x == cond(">="@) || x == cond("<="@) || x == cond("&&"@) || x
        == cond("||"@)
}

pub open spec fn is_equality_op(x: crate::token::TokView) -> bool {
    x == cond("=="@) || x == cond("!="@)
}

#[verifier::opaque]
pub open spec fn p_term(t: Seq<LexemeView>, p: int) -> Parsed<ExprV>
    decreases t.len() - p, 24nat,
{
    if out_of(t, p) {
        Parsed::Stuck
    } else {
        let l = p_shift(t, p);
        if l is Stuck || l is Fail {
            l
        } else if l->Done_1 < p || l->Done_1 > t.len() {
            Parsed::Stuck
        } else {
            p_term_loop(t, l->Done_1, l->Done_0)
        }
    }
}

#[verifier::opaque]
pub open spec fn p_term_loop(t: Seq<LexemeView>, p: int, left: ExprV) -> Parsed<ExprV>
    decreases t.len() - p, 23nat,
{
    if out_of(t, p) {
        Parsed::Stuck
    } else if is_term_op(t[p].tok) {
        let r = p_shift(t, p + 1);
        if r is Stuck || r is Fail {
            r
        } else if r->Done_1 <= p || r->Done_1 > t.len() {
            Parsed::Stuck
        } else {
            p_term_loop(t, r->Done_1, ExprV::Term(Box::new(BinaryExprV { left, operator: t[p], right: r->Done_0 })))
        }
    } else {
        Parsed::Done(left, p)
    }
}

#[verifier::opaque]
pub open spec fn p_comparison(t: Seq<LexemeView>, p: int) -> Parsed<ExprV>
    decreases t.len() - p, 26nat,
{
    if out_of(t, p) {
        Parsed::Stuck
    } else {
        let l = p_term(t, p);
        if l is Stuck || l is Fail {
            l
        } else if l->Done_1 < p || l->Done_1 > t.len() {
            Parsed::Stuck
        } else {
            p_comparison_loop(t, l->Done_1, l->Done_0)
        }
    }
}

#[verifier::opaque]
pub open spec fn p_comparison_loop(t: Seq<LexemeView>, p: int, left: ExprV) -> Parsed<ExprV>
    decreases t.len() - p, 25nat,
{
    if out_of(t, p) {
        Parsed::Stuck
    } else if is_comparison_op(t[p].tok) {
        let r = p_term(t, p + 1);
        if r is Stuck || r is Fail {
            r
        } else if r->Done_1 <= p || r->Done_1 > t.len() {
            Parsed::Stuck
        } else {
            p_comparison_loop(
                t,
                r->Done_1,
                ExprV::Comparison(Box::new(BinaryExprV { left, operator: t[p], right: r->Done_0 })),
            )
        }
    } else {
        Parsed::Done(left, p)
    }
}

#[verifier::opaque]
pub open spec fn p_equality(t: Seq<LexemeView>, p: int) -> Parsed<ExprV>
    decreases t.len() - p, 28nat,
{
    if out_of(t, p) {
        Parsed::Stuck
    } else {
        let l = p_comparison(t, p);
        if l is Stuck || l is Fail {
            l
        } else if l->Done_1 < p || l->Done_1 > t.len() {
            Parsed::Stuck
        } else {
            p_equality_loop(t, l->Done_1, l->Done_0)
        }
    }
}

#[verifier::opaque]
pub open spec fn p_equality_loop(t: Seq<LexemeView>, p: int, left: ExprV) -> Parsed<ExprV>
    decreases t.len() - p, 27nat,
{
    if out_of(t, p) {
        Parsed::Stuck
    } else if is_equality_op(t[p].tok) {
        let r = p_comparison(t, p + 1);
        if r is Stuck || r is Fail {
            r
        } else if r->Done_1 <= p || r->Done_1 > t.len() {
            Parsed::Stuck
        } else {
            p_equality_loop(
                t,
                r->Done_1,
                ExprV::Equality(Box::new(BinaryExprV { left, operator: t[p], right: r->Done_0 })),
            )
        }
    } else {
        Parsed::Done(left, p)
    }
}

#[verifier::opaque]
pub open spec fn p_assign(t: Seq<LexemeView>, p: int) -> Parsed<ExprV>
    decreases t.len() - p, 29nat,
{
    if out_of(t, p) {
        Parsed::Stuck
    } else {
        let l = p_equality(t, p);
        if l is Stuck || l is Fail {
            l
        } else if l->Done_1 < p || out_of(t, l->Done_1) {
            Parsed::Stuck
        } else if t[l->Done_1].tok == op("="@) {
            let r = p_assign(t, l->Done_1 + 1);
            if r is Stuck || r is Fail {
                r
            } else {
                Parsed::Done(
                    ExprV::Assign(Box::new(BinaryExprV { left: l->Done_0, operator: t[l->Done_1], right: r->Done_0 })),
                    r->Done_1,
                )
            }
        } else {
            l
        }
    }
}

/// An expression, as the parser reads it from position `p` of `t`.
#[verifier::opaque]
pub open spec fn p_expr(t: Seq<LexemeView>, p: int) -> Parsed<ExprV>
    decreases t.len() - p, 30nat,
{
    if out_of(t, p) {
        Parsed::Stuck
    } else {
        p_assign(t, p)
    }
}


/// Whether an unsigned integer type of `k` bytes holds `v`.
pub open spec fn unsigned_holds(v: int, k: u16) -> bool {
    ||| k == 1 && 0 <= v <= u8::MAX
    ||| k == 2 && 0 <= v <= u16::MAX
    ||| k == 4 && 0 <= v <= u32::MAX
    ||| k == 8 && 0 <= v <= u64::MAX
}

/// A number that fits in 64 bits is classified as an unsigned literal of
/// that very value, of a width that holds it, and no narrower unsigned
/// width holds it.
pub proof fn lemma_classify_num_narrowest(v: int)
    requires
        0 <= v <= u64::MAX,
    ensures
        crate::literals::unsigned(classify_num(v)),
        classify_num(v).value() == v,
        unsigned_holds(v, classify_num(v).spec_size()),
        forall|k: u16| k < classify_num(v).spec_size() ==> !#[trigger] unsigned_holds(v, k),
{
    reveal(classify_num);
}

/// A number literal that parses is an unsigned literal of the value its
/// digits denote, of the narrowest unsigned width that holds that value.
pub proof fn lemma_parsed_literal_narrowest(t: Seq<LexemeView>, p: int)
    requires
        p_num_literal(t, p) is Done,
    ensures
        ({
            let n = p_num_literal(t, p)->Done_0;
            &&& decimal_value(t[p].tok.text) == Some(n.value())
            &&& crate::literals::unsigned(n)
            &&& unsigned_holds(n.value(), n.spec_size())
            &&& forall|k: u16| k < n.spec_size() ==> !#[trigger] unsigned_holds(n.value(), k)
        }),
{
    reveal(p_num_literal);
    reveal(decimal_value);
    let d = crate::parser::numbers::unsigned_digits(t[p].tok.text);
    crate::parser::numbers::lemma_digits_value_nonneg(d);
    let v = decimal_value(t[p].tok.text)->Some_0;
    lemma_classify_num_narrowest(v);
}

/// `p_var` unfolded once.
pub proof fn unfold_p_var(t: Seq<LexemeView>, p: int)
    ensures
        p_var(t, p) == ({
    if out_of(t, p) {
        Parsed::Stuck
    } else if t[p].tok.kind != TokKind::Id {
        Parsed::Fail("Variable Access Parsing Error"@)
    } else {
        p_var_loop(t, p + 1, VariableV::Id(t[p]))
    }
        }),
{
    reveal(p_var);
    reveal(p_var_loop);
}

/// `p_var_index` unfolded once.
pub proof fn unfold_p_var_index(t: Seq<LexemeView>, p: int, q: int, r1: VariableV)
    ensures
        p_var_index(t, p, q, r1) == ({
    if p < 0 || q < p || out_of(t, q) {
        Parsed::Stuck
    } else if t[q].tok == punct(TokKind::SquareOpen) {
        let i = p_expr(t, q + 1);
        if i is Stuck {
            Parsed::Stuck
        } else if i is Fail {
            Parsed::Fail(i->Fail_0)
        } else {
            let q1 = i->Done_1;
            if q1 <= q || out_of(t, q1) {
                Parsed::Stuck
            } else if t[q1].tok == punct(TokKind::SquareClose) {
                p_var_loop(t, q1 + 1, VariableV::Array(Box::new(r1), i->Done_0))
            } else {
                Parsed::Fail("Expected Closing Square Bracket for Array Index"@)
            }
        }
    } else if q <= p {
        Parsed::Stuck
    } else {
        p_var_loop(t, q, r1)
    }
        }),
{
    reveal(p_var_index);
    reveal(p_var_loop);
    reveal(p_expr);
}

/// `p_var_loop` unfolded once.
pub proof fn unfold_p_var_loop(t: Seq<LexemeView>, p: int, r: VariableV)
    ensures
        p_var_loop(t, p, r) == ({
    if out_of(t, p) {
        Parsed::Stuck
    } else if t[p].tok == punct(TokKind::Period) {
        let f = p_var(t, p + 1);
        if f is Stuck {
            Parsed::Stuck
        } else if f is Fail {
            Parsed::Fail(f->Fail_0)
        } else {
            p_var_index(t, p, f->Done_1, VariableV::StructField(Box::new((r, f->Done_0))))
        }
    } else if t[p].tok == punct(TokKind::SquareOpen) {
        p_var_index(t, p, p, r)
    } else {
        Parsed::Done(r, p)
    }
        }),
{
    reveal(p_var_loop);
    reveal(p_var);
    reveal(p_var_index);
}

/// `p_args` unfolded once.
pub proof fn unfold_p_args(t: Seq<LexemeView>, p: int)
    ensures
        p_args(t, p) == ({
    if out_of(t, p) {
        Parsed::Stuck
    } else if t[p].tok == punct(TokKind::ParenClose) || t[p].tok == punct(TokKind::SquareClose) || t[p].tok
        == punct(TokKind::CurlyClose) {
        Parsed::Done(seq![], p)
    } else {
        let e = p_expr(t, p);
        if e is Stuck {
            Parsed::Stuck
        } else if e is Fail {
            Parsed::Fail(e->Fail_0)
        } else if e->Done_1 <= p || e->Done_1 > t.len() {
            Parsed::Stuck
        } else {
            p_args_loop(t, e->Done_1, seq![e->Done_0])
        }
    }
        }),
{
    reveal(p_args);
    reveal(p_args_loop);
    reveal(p_expr);
}

/// `p_args_loop` unfolded once.
pub proof fn unfold_p_args_loop(t: Seq<LexemeView>, p: int, items: Seq<ExprV>)
    ensures
        p_args_loop(t, p, items) == ({
    if out_of(t, p) {
        Parsed::Stuck
    } else if t[p].tok == punct(TokKind::Comma) {
        let e = p_expr(t, p + 1);
        if e is Stuck {
            Parsed::Stuck
        } else if e is Fail {
            Parsed::Fail(e->Fail_0)
        } else if e->Done_1 <= p || e->Done_1 > t.len() {
            Parsed::Stuck
        } else {
            p_args_loop(t, e->Done_1, items.push(e->Done_0))
        }
    } else {
        Parsed::Done(items, p)
    }
        }),
{
    reveal(p_args_loop);
    reveal(p_expr);
}

/// `p_primary` unfolded once.
pub proof fn unfold_p_primary(t: Seq<LexemeView>, p: int)
    ensures
        p_primary(t, p) == ({
    if out_of(t, p) {
        Parsed::Stuck
    } else if t[p].tok.kind == TokKind::Lit {
        let n = p_num_literal(t, p);
        if n is Stuck {
            Parsed::Stuck
        } else if n is Fail {
            Parsed::Fail(n->Fail_0)
        } else {
            Parsed::Done(ExprV::Primary(Box::new(PrimaryExprV::NumLiteral(n->Done_0, t[p]))), n->Done_1)
        }
    } else if t[p].tok == punct(TokKind::ParenOpen) {
        let e = p_expr(t, p + 1);
        if e is Stuck {
            Parsed::Stuck
        } else if e is Fail {
            Parsed::Fail(e->Fail_0)
        } else if e->Done_1 <= p || out_of(t, e->Done_1) {
            Parsed::Stuck
        } else if t[e->Done_1].tok == punct(TokKind::ParenClose) {
            Parsed::Done(ExprV::Primary(Box::new(PrimaryExprV::Grouping(e->Done_0))), e->Done_1 + 1)
        } else {
            Parsed::Fail("Expected Closing Parentheses"@)
        }
    } else if t[p].tok == op("&"@) || t[p].tok == op("*"@) {
        let v = p_var(t, p + 1);
        if v is Stuck {
            Parsed::Stuck
        } else if v is Fail {
            Parsed::Fail(v->Fail_0)
        } else {
            Parsed::Done(ExprV::Primary(Box::new(PrimaryExprV::Ref(t[p], v->Done_0))), v->Done_1)
        }
    } else if out_of(t, p + 1) {
        Parsed::Stuck
    } else if t[p + 1].tok == punct(TokKind::Col) {
        if t[p].tok.kind != TokKind::Id {
            Parsed::Fail("Expected Identifier for Enum Name"@)
        } else if out_of(t, p + 2) {
            Parsed::Stuck
        } else if t[p + 2].tok != punct(TokKind::Col) {
            Parsed::Fail("Expected Double Colon :: after Enum Name"@)
        } else if out_of(t, p + 3) {
            Parsed::Stuck
        } else if t[p + 3].tok.kind != TokKind::Id {
            Parsed::Fail("Expected Identifier for Enum Variant"@)
        } else {
            Parsed::Done(ExprV::Primary(Box::new(PrimaryExprV::EnumVariant(t[p], t[p + 3]))), p + 4)
        }
    } else {
        let v = p_var(t, p);
        if v is Stuck {
            Parsed::Stuck
        } else if v is Fail {
            Parsed::Fail(v->Fail_0)
        } else {
            Parsed::Done(ExprV::Primary(Box::new(PrimaryExprV::Variable(v->Done_0))), v->Done_1)
        }
    }
        }),
{
    reveal(p_primary);
    reveal(p_num_literal);
    reveal(p_var);
    reveal(p_expr);
}

/// `p_fn_call` unfolded once.
pub proof fn unfold_p_fn_call(t: Seq<LexemeView>, p: int)
    ensures
        p_fn_call(t, p) == ({
    if out_of(t, p) || out_of(t, p + 1) {
        Parsed::Stuck
    } else if t[p + 1].tok == punct(TokKind::ParenOpen) {
        if t[p].tok.kind != TokKind::Id {
            Parsed::Fail("Expected Identifier for Function Name"@)
        } else {
            let a = p_args(t, p + 2);
            if a is Stuck {
                Parsed::Stuck
            } else if a is Fail {
                Parsed::Fail(a->Fail_0)
            } else if a->Done_1 < p + 2 || out_of(t, a->Done_1) {
                Parsed::Stuck
            } else if t[a->Done_1].tok == punct(TokKind::ParenClose) {
                Parsed::Done(ExprV::FnCall(t[p], a->Done_0), a->Done_1 + 1)
            } else {
                Parsed::Fail("Expected Closing Parentheses after Function Call"@)
            }
        }
    } else {
        p_primary(t, p)
    }
        }),
{
    reveal(p_fn_call);
    reveal(p_args);
    reveal(p_primary);
}

/// `p_cast` unfolded once.
pub proof fn unfold_p_cast(t: Seq<LexemeView>, p: int)
    ensures
        p_cast(t, p) == ({
    if out_of(t, p) {
        Parsed::Stuck
    } else {
        let l = p_fn_call(t, p);
        if l is Stuck || l is Fail {
            l
        } else if l->Done_1 < p || out_of(t, l->Done_1) {
            Parsed::Stuck
        } else if t[l->Done_1].tok == op("as"@) {
            let ty = p_type_declr(t, l->Done_1 + 1);
            if ty is Stuck {
                Parsed::Stuck
            } else if ty is Fail {
                Parsed::Fail(ty->Fail_0)
            } else {
                Parsed::Done(ExprV::Cast(Box::new(l->Done_0), t[l->Done_1], ty->Done_0), ty->Done_1)
            }
        } else {
            l
        }
    }
        }),
{
    reveal(p_cast);
    reveal(p_fn_call);
}

/// `p_unary` unfolded once.
pub proof fn unfold_p_unary(t: Seq<LexemeView>, p: int)
    ensures
        p_unary(t, p) == ({
    if out_of(t, p) {
        Parsed::Stuck
    } else if t[p].tok == op("!"@) || t[p].tok == op("-"@) {
        let r = p_cast(t, p + 1);
        if r is Stuck || r is Fail {
            r
        } else {
            Parsed::Done(ExprV::Unary(t[p], Box::new(r->Done_0)), r->Done_1)
        }
    } else {
        p_cast(t, p)
    }
        }),
{
    reveal(p_unary);
    reveal(p_cast);
}

/// `p_shift` unfolded once.
pub proof fn unfold_p_shift(t: Seq<LexemeView>, p: int)
    ensures
        p_shift(t, p) == ({
    if out_of(t, p) {
        Parsed::Stuck
    } else {
        let l = p_unary(t, p);
        if l is Stuck || l is Fail {
            l
        } else if l->Done_1 < p || out_of(t, l->Done_1) {
            Parsed::Stuck
        } else if t[l->Done_1].tok == op("<<"@) || t[l->Done_1].tok == op(">>"@) {
            let n = p_num_literal(t, l->Done_1 + 1);
            if n is Stuck {
                Parsed::Stuck
            } else if n is Fail {
                Parsed::Fail(n->Fail_0)
            } else {
                Parsed::Done(ExprV::Shift(Box::new(l->Done_0), t[l->Done_1], n->Done_0), n->Done_1)
            }
        } else {
            l
        }
    }
        }),
{
    reveal(p_shift);
    reveal(p_num_literal);
    reveal(p_unary);
}

/// `p_term` unfolded once.
pub proof fn unfold_p_term(t: Seq<LexemeView>, p: int)
    ensures
        p_term(t, p) == ({
    if out_of(t, p) {
        Parsed::Stuck
    } else {
        let l = p_shift(t, p);
        if l is Stuck || l is Fail {
            l
        } else if l->Done_1 < p || l->Done_1 > t.len() {
            Parsed::Stuck
        } else {
            p_term_loop(t, l->Done_1, l->Done_0)
        }
    }
        }),
{
    reveal(p_term);
    reveal(p_shift);
    reveal(p_term_loop);
}

/// `p_term_loop` unfolded once.
pub proof fn unfold_p_term_loop(t: Seq<LexemeView>, p: int, left: ExprV)
    ensures
        p_term_loop(t, p, left) == ({
    if out_of(t, p) {
        Parsed::Stuck
    } else if is_term_op(t[p].tok) {
        let r = p_shift(t, p + 1);
        if r is Stuck || r is Fail {
            r
        } else if r->Done_1 <= p || r->Done_1 > t.len() {
            Parsed::Stuck
        } else {
            p_term_loop(t, r->Done_1, ExprV::Term(Box::new(BinaryExprV { left, operator: t[p], right: r->Done_0 })))
        }
    } else {
        Parsed::Done(left, p)
    }
        }),
{
    reveal(p_term_loop);
    reveal(p_shift);
}

/// `p_comparison` unfolded once.
pub proof fn unfold_p_comparison(t: Seq<LexemeView>, p: int)
    ensures
        p_comparison(t, p) == ({
    if out_of(t, p) {
        Parsed::Stuck
    } else {
        let l = p_term(t, p);
        if l is Stuck || l is Fail {
            l
        } else if l->Done_1 < p || l->Done_1 > t.len() {
            Parsed::Stuck
        } else {
            p_comparison_loop(t, l->Done_1, l->Done_0)
        }
    }
        }),
{
    reveal(p_comparison);
    reveal(p_term);
    reveal(p_comparison_loop);
}

/// `p_comparison_loop` unfolded once.
pub proof fn unfold_p_comparison_loop(t: Seq<LexemeView>, p: int, left: ExprV)
    ensures
        p_comparison_loop(t, p, left) == ({
    if out_of(t, p) {
        Parsed::Stuck
    } else if is_comparison_op(t[p].tok) {
        let r = p_term(t, p + 1);
        if r is Stuck || r is Fail {
            r
        } else if r->Done_1 <= p || r->Done_1 > t.len() {
            Parsed::Stuck
        } else {
            p_comparison_loop(
                t,
                r->Done_1,
                ExprV::Comparison(Box::new(BinaryExprV { left, operator: t[p], right: r->Done_0 })),
            )
        }
    } else {
        Parsed::Done(left, p)
    }
        }),
{
    reveal(p_comparison_loop);
    reveal(p_term);
}

/// `p_equality` unfolded once.
pub proof fn unfold_p_equality(t: Seq<LexemeView>, p: int)
    ensures
        p_equality(t, p) == ({
    if out_of(t, p) {
        Parsed::Stuck
    } else {
        let l = p_comparison(t, p);
        if l is Stuck || l is Fail {
            l
        } else if l->Done_1 < p || l->Done_1 > t.len() {
            Parsed::Stuck
        } else {
            p_equality_loop(t, l->Done_1, l->Done_0)
        }
    }
        }),
{
    reveal(p_equality);
    reveal(p_comparison);
    reveal(p_equality_loop);
}

/// `p_equality_loop` unfolded once.
pub proof fn unfold_p_equality_loop(t: Seq<LexemeView>, p: int, left: ExprV)
    ensures
        p_equality_loop(t, p, left) == ({
    if out_of(t, p) {
        Parsed::Stuck
    } else if is_equality_op(t[p].tok) {
        let r = p_comparison(t, p + 1);
        if r is Stuck || r is Fail {
            r
        } else if r->Done_1 <= p || r->Done_1 > t.len() {
            Parsed::Stuck
        } else {
            p_equality_loop(
                t,
                r->Done_1,
                ExprV::Equality(Box::new(BinaryExprV { left, operator: t[p], right: r->Done_0 })),
            )
        }
    } else {
        Parsed::Done(left, p)
    }
        }),
{
    reveal(p_equality_loop);
    reveal(p_comparison);
}

/// `p_assign` unfolded once.
pub proof fn unfold_p_assign(t: Seq<LexemeView>, p: int)
    ensures
        p_assign(t, p) == ({
    if out_of(t, p) {
        Parsed::Stuck
    } else {
        let l = p_equality(t, p);
        if l is Stuck || l is Fail {
            l
        } else if l->Done_1 < p || out_of(t, l->Done_1) {
            Parsed::Stuck
        } else if t[l->Done_1].tok == op("="@) {
            let r = p_assign(t, l->Done_1 + 1);
            if r is Stuck || r is Fail {
                r
            } else {
                Parsed::Done(
                    ExprV::Assign(Box::new(BinaryExprV { left: l->Done_0, operator: t[l->Done_1], right: r->Done_0 })),
                    r->Done_1,
                )
            }
        } else {
            l
        }
    }
        }),
{
    reveal(p_assign);
    reveal(p_equality);
}

/// `p_expr` unfolded once.
pub proof fn unfold_p_expr(t: Seq<LexemeView>, p: int)
    ensures
        p_expr(t, p) == ({
    if out_of(t, p) {
        Parsed::Stuck
    } else {
        p_assign(t, p)
    }
        }),
{
    reveal(p_expr);
    reveal(p_assign);
}


} // verus!
