use vstd::prelude::*;

use crate::token::{TokKind, LexemeView};
use crate::stmt::{TypeDeclrV, StmtV};
use crate::parser::{Parsed, out_of, punct, key, op};
use crate::parser::expr_grammar::p_expr;
use crate::parser::numbers::decimal_value;

verus! {

#[verifier::opaque]
pub open spec fn p_type_declr(t: Seq<LexemeView>, p: int) -> Parsed<TypeDeclrV>
    decreases t.len() - p,
{
    if out_of(t, p) {
        Parsed::Stuck
    } else if t[p].tok == key("@"@) {
        match p_type_declr(t, p + 1) {
            Parsed::Done(ty, q) => Parsed::Done(TypeDeclrV::Pointer(Box::new(ty)), q),
            other => other,
        }
    } else if t[p].tok == punct(TokKind::SquareOpen) {
        match p_type_declr(t, p + 1) {
            Parsed::Done(ty, q) => if out_of(t, q) {
                Parsed::Stuck
            } else if t[q].tok != punct(TokKind::SemiCol) {
                Parsed::Fail("Expected Semicolon after Array Item Type"@)
            } else if out_of(t, q + 1) {
                Parsed::Stuck
            } else if t[q + 1].tok.kind != TokKind::Lit {
                Parsed::Fail("Expected Number Literal for Array Size"@)
            } else {
                match decimal_value(t[q + 1].tok.text) {
                    Some(n) => if n > u16::MAX {
                        Parsed::Fail("Array Size Error"@)
                    } else if out_of(t, q + 2) {
                        Parsed::Stuck
                    } else if t[q + 2].tok != punct(TokKind::SquareClose) {
                        Parsed::Fail("Expected Closing Square Bracket for Array Type Declaration"@)
                    } else {
                        Parsed::Done(TypeDeclrV::Array(Box::new(ty), n as u16), q + 3)
                    },
                    None => Parsed::Fail("Array Size Error"@),
                }
            },
            other => other,
        }
    } else if t[p].tok.kind == TokKind::Id {
        Parsed::Done(TypeDeclrV::Basic(t[p]), p + 1)
    } else {
        Parsed::Fail("Expected Identifier for Type Declaration"@)
    }
}


/// A list of parameters or fields: `name: type`, separated by commas.
pub open spec fn p_params(t: Seq<LexemeView>, p: int) -> Parsed<Seq<(LexemeView, TypeDeclrV)>> {
    if out_of(t, p) {
        Parsed::Stuck
    } else if t[p].tok.kind == TokKind::Id {
        if out_of(t, p + 1) {
            Parsed::Stuck
        } else if t[p + 1].tok != punct(TokKind::Col) {
            Parsed::Fail("Expected Colon after Parameter Name"@)
        } else {
            let ty = p_type_declr(t, p + 2);
            if ty is Stuck {
                Parsed::Stuck
            } else if ty is Fail {
                Parsed::Fail(ty->Fail_0)
            } else if ty->Done_1 <= p || ty->Done_1 > t.len() {
                Parsed::Stuck
            } else {
                p_params_loop(t, ty->Done_1, seq![(t[p], ty->Done_0)])
            }
        }
    } else {
        Parsed::Done(seq![], p)
    }
}

#[verifier::opaque]
pub open spec fn p_params_loop(t: Seq<LexemeView>, p: int, ps: Seq<(LexemeView, TypeDeclrV)>) -> Parsed<Seq<(LexemeView, TypeDeclrV)>>
    decreases t.len() - p,
{
    if out_of(t, p) {
        Parsed::Stuck
    } else if t[p].tok == punct(TokKind::Comma) {
        if out_of(t, p + 1) {
            Parsed::Stuck
        } else if t[p + 1].tok.kind != TokKind::Id {
            Parsed::Fail("Expected Identifier for Parameter Name"@)
        } else if out_of(t, p + 2) {
            Parsed::Stuck
        } else if t[p + 2].tok != punct(TokKind::Col) {
            Parsed::Fail("Expected Colon after Parameter Name"@)
        } else {
            let ty = p_type_declr(t, p + 3);
            if ty is Stuck {
                Parsed::Stuck
            } else if ty is Fail {
                Parsed::Fail(ty->Fail_0)
            } else if ty->Done_1 <= p || ty->Done_1 > t.len() {
                Parsed::Stuck
            } else {
                p_params_loop(t, ty->Done_1, ps.push((t[p + 1], ty->Done_0)))
            }
        }
    } else {
        Parsed::Done(ps, p)
    }
}

/// The variants of an enum declaration: identifiers separated by commas.
pub open spec fn p_variants(t: Seq<LexemeView>, p: int) -> Parsed<Seq<LexemeView>> {
    if out_of(t, p) {
        Parsed::Stuck
    } else if t[p].tok.kind == TokKind::Id {
        p_variants_loop(t, p + 1, seq![t[p]])
    } else {
        Parsed::Done(seq![], p)
    }
}

#[verifier::opaque]
pub open spec fn p_variants_loop(t: Seq<LexemeView>, p: int, vs: Seq<LexemeView>) -> Parsed<Seq<LexemeView>>
    decreases t.len() - p,
{
    if out_of(t, p) {
        Parsed::Stuck
    } else if t[p].tok == punct(TokKind::Comma) {
        if out_of(t, p + 1) {
            Parsed::Stuck
        } else if t[p + 1].tok.kind != TokKind::Id {
            Parsed::Fail("Expected Identifier for Enum Variant Name"@)
        } else {
            p_variants_loop(t, p + 2, vs.push(t[p + 1]))
        }
    } else {
        Parsed::Done(vs, p)
    }
}

/// A statement, as the parser reads it from position `p` of `t`.
#[verifier::opaque]
pub open spec fn p_stmt(t: Seq<LexemeView>, p: int) -> Parsed<StmtV>
    decreases t.len() - p, 5nat,
{
    if out_of(t, p) {
        Parsed::Stuck
    } else if t[p].tok == key("let"@) {
        if out_of(t, p + 1) {
            Parsed::Stuck
        } else if t[p + 1].tok.kind != TokKind::Id {
            Parsed::Fail("Expected Identifier for Variable Name"@)
        } else if out_of(t, p + 2) {
            Parsed::Stuck
        } else if t[p + 2].tok != punct(TokKind::Col) {
            Parsed::Fail("Expected Colon after Variable Name"@)
        } else {
            let ty = p_type_declr(t, p + 3);
            if ty is Stuck {
                Parsed::Stuck
            } else if ty is Fail {
                Parsed::Fail(ty->Fail_0)
            } else if ty->Done_1 <= p || out_of(t, ty->Done_1) {
                Parsed::Stuck
            } else if t[ty->Done_1].tok == op("="@) {
                let e = p_expr(t, ty->Done_1 + 1);
                if e is Stuck {
                    Parsed::Stuck
                } else if e is Fail {
                    Parsed::Fail(e->Fail_0)
                } else if out_of(t, e->Done_1) {
                    Parsed::Stuck
                } else if t[e->Done_1].tok == punct(TokKind::SemiCol) {
                    Parsed::Done(StmtV::VarDeclr(t[p + 1], ty->Done_0, Some(e->Done_0)), e->Done_1 + 1)
                } else {
                    Parsed::Fail("Expected Semicolon after Variable Declaration"@)
                }
            } else if t[ty->Done_1].tok == punct(TokKind::SemiCol) {
                Parsed::Done(StmtV::VarDeclr(t[p + 1], ty->Done_0, None), ty->Done_1 + 1)
            } else {
                Parsed::Fail("Expected Semicolon after Variable Declaration"@)
            }
        }
    } else if t[p].tok == key("fn"@) {
        if out_of(t, p + 1) {
            Parsed::Stuck
        } else if t[p + 1].tok.kind != TokKind::Id {
            Parsed::Fail("Expected Identifier for Function Name"@)
        } else if out_of(t, p + 2) {
            Parsed::Stuck
        } else if t[p + 2].tok != punct(TokKind::ParenOpen) {
            Parsed::Fail("Expected Opening Parentheses after Function Name"@)
        } else {
            let ps = p_params(t, p + 3);
            if ps is Stuck {
                Parsed::Stuck
            } else if ps is Fail {
                Parsed::Fail(ps->Fail_0)
            } else if ps->Done_1 < p + 3 || out_of(t, ps->Done_1) {
                Parsed::Stuck
            } else if t[ps->Done_1].tok != punct(TokKind::ParenClose) {
                Parsed::Fail("Expected Closing Parentheses after Function Parameters"@)
            } else if out_of(t, ps->Done_1 + 1) {
                Parsed::Stuck
            } else if t[ps->Done_1 + 1].tok != punct(TokKind::Arrow) {
                Parsed::Fail("Expected Arrow to Denote Return Type"@)
            } else {
                let rt = p_type_declr(t, ps->Done_1 + 2);
                if rt is Stuck {
                    Parsed::Stuck
                } else if rt is Fail {
                    Parsed::Fail(rt->Fail_0)
                } else if rt->Done_1 <= p || rt->Done_1 > t.len() {
                    Parsed::Stuck
                } else {
                    let b = p_block(t, rt->Done_1);
                    if b is Stuck {
                        Parsed::Stuck
                    } else if b is Fail {
                        Parsed::Fail(b->Fail_0)
                    } else {
                        Parsed::Done(StmtV::FnDeclr(t[p + 1], ps->Done_0, rt->Done_0, Box::new(b->Done_0)), b->Done_1)
                    }
                }
            }
        }
    } else if t[p].tok == key("struct"@) {
        if out_of(t, p + 1) {
            Parsed::Stuck
        } else if t[p + 1].tok.kind != TokKind::Id {
            Parsed::Fail("Expected Identifier for Struct Name"@)
        } else if out_of(t, p + 2) {
            Parsed::Stuck
        } else if t[p + 2].tok != punct(TokKind::CurlyOpen) {
            Parsed::Fail("Expected Opening Curly Bracket for Struct Definition"@)
        } else {
            let ps = p_params(t, p + 3);
            if ps is Stuck {
                Parsed::Stuck
            } else if ps is Fail {
                Parsed::Fail(ps->Fail_0)
            } else if ps->Done_1 < p + 3 || out_of(t, ps->Done_1) {
                Parsed::Stuck
            } else if t[ps->Done_1].tok != punct(TokKind::CurlyClose) {
                Parsed::Fail("Expected Closing Curly Bracket after Struct Definition"@)
            } else {
                Parsed::Done(StmtV::StructDeclr(t[p + 1], ps->Done_0), ps->Done_1 + 1)
            }
        }
    } else if t[p].tok == key("enum"@) {
        if out_of(t, p + 1) {
            Parsed::Stuck
        } else if t[p + 1].tok.kind != TokKind::Id {
            Parsed::Fail("Expected Identifier for Enum Name"@)
        } else if out_of(t, p + 2) {
            Parsed::Stuck
        } else if t[p + 2].tok != punct(TokKind::CurlyOpen) {
            Parsed::Fail("Expected Opening Curly Bracket after Enum Name"@)
        } else {
            let vs = p_variants(t, p + 3);
            if vs is Stuck {
                Parsed::Stuck
            } else if vs is Fail {
                Parsed::Fail(vs->Fail_0)
            } else if vs->Done_1 < p + 3 || out_of(t, vs->Done_1) {
                Parsed::Stuck
            } else if t[vs->Done_1].tok != punct(TokKind::CurlyClose) {
                Parsed::Fail("Expected Closing Curly Bracket after Enum Definition"@)
            } else {
                Parsed::Done(StmtV::EnumDeclr(t[p + 1], vs->Done_0), vs->Done_1 + 1)
            }
        }
    } else if t[p].tok == key("loop"@) {
        let b = p_block(t, p + 1);
        if b is Stuck {
            Parsed::Stuck
        } else if b is Fail {
            Parsed::Fail(b->Fail_0)
        } else {
            Parsed::Done(StmtV::LoopStmt(Box::new(b->Done_0)), b->Done_1)
        }
    } else if t[p].tok == key("while"@) {
        let c = p_expr(t, p + 1);
        if c is Stuck {
            Parsed::Stuck
        } else if c is Fail {
            Parsed::Fail(c->Fail_0)
        } else if c->Done_1 <= p || c->Done_1 > t.len() {
            Parsed::Stuck
        } else {
            let b = p_block(t, c->Done_1);
            if b is Stuck {
                Parsed::Stuck
            } else if b is Fail {
                Parsed::Fail(b->Fail_0)
            } else {
                Parsed::Done(StmtV::WhileStmt(c->Done_0, Box::new(b->Done_0)), b->Done_1)
            }
        }
    } else if t[p].tok == key("if"@) {
        let c = p_expr(t, p + 1);
        if c is Stuck {
            Parsed::Stuck
        } else if c is Fail {
            Parsed::Fail(c->Fail_0)
        } else if c->Done_1 <= p || c->Done_1 > t.len() {
            Parsed::Stuck
        } else {
            let tb = p_block(t, c->Done_1);
            if tb is Stuck {
                Parsed::Stuck
            } else if tb is Fail {
                Parsed::Fail(tb->Fail_0)
            } else if tb->Done_1 <= p || out_of(t, tb->Done_1) {
                Parsed::Stuck
            } else if t[tb->Done_1].tok == key("else"@) {
                let fb = p_block(t, tb->Done_1 + 1);
                if fb is Stuck {
                    Parsed::Stuck
                } else if fb is Fail {
                    Parsed::Fail(fb->Fail_0)
                } else {
                    Parsed::Done(
                        StmtV::IfStmt(c->Done_0, Box::new(tb->Done_0), Some(Box::new(fb->Done_0))),
                        fb->Done_1,
                    )
                }
            } else {
                Parsed::Done(StmtV::IfStmt(c->Done_0, Box::new(tb->Done_0), None), tb->Done_1)
            }
        }
    } else if t[p].tok == key("return"@) {
        let e = p_expr(t, p + 1);
        if e is Stuck {
            Parsed::Stuck
        } else if e is Fail {
            Parsed::Fail(e->Fail_0)
        } else {
            Parsed::Done(StmtV::ReturnStmt(t[p], e->Done_0), e->Done_1)
        }
    } else if t[p].tok == key("break"@) {
        Parsed::Done(StmtV::BreakStmt(t[p]), p + 1)
    } else {
        let e = p_expr(t, p);
        if e is Stuck {
            Parsed::Stuck
        } else if e is Fail {
            Parsed::Fail(e->Fail_0)
        } else if out_of(t, e->Done_1) {
            Parsed::Stuck
        } else if t[e->Done_1].tok == punct(TokKind::SemiCol) {
            Parsed::Done(StmtV::ExprStmt(e->Done_0), e->Done_1 + 1)
        } else {
            Parsed::Fail("Expected Semicolon after Expression Statement"@)
        }
    }
}

/// A block: statements between curly brackets.
#[verifier::opaque]
pub open spec fn p_block(t: Seq<LexemeView>, p: int) -> Parsed<StmtV>
    decreases t.len() - p, 6nat,
{
    if out_of(t, p) {
        Parsed::Stuck
    } else if t[p].tok != punct(TokKind::CurlyOpen) {
        Parsed::Fail("Expected Opening Curly Bracket for Block"@)
    } else {
        p_block_loop(t, p + 1, seq![])
    }
}

#[verifier::opaque]
pub open spec fn p_block_loop(t: Seq<LexemeView>, p: int, body: Seq<StmtV>) -> Parsed<StmtV>
    decreases t.len() - p, 7nat,
{
    if out_of(t, p) {
        Parsed::Stuck
    } else if t[p].tok == punct(TokKind::CurlyClose) {
        Parsed::Done(StmtV::Block(body), p + 1)
    } else {
        let s = p_stmt(t, p);
        if s is Stuck {
            Parsed::Stuck
        } else if s is Fail {
            Parsed::Fail(s->Fail_0)
        } else if s->Done_1 <= p || s->Done_1 > t.len() {
            Parsed::Stuck
        } else {
            p_block_loop(t, s->Done_1, body.push(s->Done_0))
        }
    }
}

/// The statements of a whole program, up to the EOF token.
#[verifier::opaque]
pub open spec fn p_program(t: Seq<LexemeView>, p: int, acc: Seq<StmtV>) -> Parsed<Seq<StmtV>>
    decreases t.len() - p,
{
    if out_of(t, p) {
        Parsed::Stuck
    } else if t[p].tok == punct(TokKind::EOF) {
        Parsed::Done(acc, p)
    } else {
        let s = p_stmt(t, p);
        if s is Stuck {
            Parsed::Stuck
        } else if s is Fail {
            Parsed::Fail(s->Fail_0)
        } else if s->Done_1 <= p || s->Done_1 > t.len() {
            Parsed::Stuck
        } else {
            p_program(t, s->Done_1, acc.push(s->Done_0))
        }
    }
}

/// `p_params_loop` unfolded once.
pub proof fn unfold_p_params_loop(t: Seq<LexemeView>, p: int, ps: Seq<(LexemeView, TypeDeclrV)>)
    ensures
        p_params_loop(t, p, ps) == ({
    if out_of(t, p) {
        Parsed::Stuck
    } else if t[p].tok == punct(TokKind::Comma) {
        if out_of(t, p + 1) {
            Parsed::Stuck
        } else if t[p + 1].tok.kind != TokKind::Id {
            Parsed::Fail("Expected Identifier for Parameter Name"@)
        } else if out_of(t, p + 2) {
            Parsed::Stuck
        } else if t[p + 2].tok != punct(TokKind::Col) {
            Parsed::Fail("Expected Colon after Parameter Name"@)
        } else {
            let ty = p_type_declr(t, p + 3);
            if ty is Stuck {
                Parsed::Stuck
            } else if ty is Fail {
                Parsed::Fail(ty->Fail_0)
            } else if ty->Done_1 <= p || ty->Done_1 > t.len() {
                Parsed::Stuck
            } else {
                p_params_loop(t, ty->Done_1, ps.push((t[p + 1], ty->Done_0)))
            }
        }
    } else {
        Parsed::Done(ps, p)
    }
        }),
{
    reveal(p_params_loop);
    reveal(p_type_declr);
}

/// `p_variants_loop` unfolded once.
pub proof fn unfold_p_variants_loop(t: Seq<LexemeView>, p: int, vs: Seq<LexemeView>)
    ensures
        p_variants_loop(t, p, vs) == ({
    if out_of(t, p) {
        Parsed::Stuck
    } else if t[p].tok == punct(TokKind::Comma) {
        if out_of(t, p + 1) {
            Parsed::Stuck
        } else if t[p + 1].tok.kind != TokKind::Id {
            Parsed::Fail("Expected Identifier for Enum Variant Name"@)
        } else {
            p_variants_loop(t, p + 2, vs.push(t[p + 1]))
        }
    } else {
        Parsed::Done(vs, p)
    }
        }),
{
    reveal(p_variants_loop);
}

/// `p_stmt` unfolded once.
pub proof fn unfold_p_stmt(t: Seq<LexemeView>, p: int)
    ensures
        p_stmt(t, p) == ({
    if out_of(t, p) {
        Parsed::Stuck
    } else if t[p].tok == key("let"@) {
        if out_of(t, p + 1) {
            Parsed::Stuck
        } else if t[p + 1].tok.kind != TokKind::Id {
            Parsed::Fail("Expected Identifier for Variable Name"@)
        } else if out_of(t, p + 2) {
            Parsed::Stuck
        } else if t[p + 2].tok != punct(TokKind::Col) {
            Parsed::Fail("Expected Colon after Variable Name"@)
        } else {
            let ty = p_type_declr(t, p + 3);
            if ty is Stuck {
                Parsed::Stuck
            } else if ty is Fail {
                Parsed::Fail(ty->Fail_0)
            } else if ty->Done_1 <= p || out_of(t, ty->Done_1) {
                Parsed::Stuck
            } else if t[ty->Done_1].tok == op("="@) {
                let e = p_expr(t, ty->Done_1 + 1);
                if e is Stuck {
                    Parsed::Stuck
                } else if e is Fail {
                    Parsed::Fail(e->Fail_0)
                } else if out_of(t, e->Done_1) {
                    Parsed::Stuck
                } else if t[e->Done_1].tok == punct(TokKind::SemiCol) {
                    Parsed::Done(StmtV::VarDeclr(t[p + 1], ty->Done_0, Some(e->Done_0)), e->Done_1 + 1)
                } else {
                    Parsed::Fail("Expected Semicolon after Variable Declaration"@)
                }
            } else if t[ty->Done_1].tok == punct(TokKind::SemiCol) {
                Parsed::Done(StmtV::VarDeclr(t[p + 1], ty->Done_0, None), ty->Done_1 + 1)
            } else {
                Parsed::Fail("Expected Semicolon after Variable Declaration"@)
            }
        }
    } else if t[p].tok == key("fn"@) {
        if out_of(t, p + 1) {
            Parsed::Stuck
        } else if t[p + 1].tok.kind != TokKind::Id {
            Parsed::Fail("Expected Identifier for Function Name"@)
        } else if out_of(t, p + 2) {
            Parsed::Stuck
        } else if t[p + 2].tok != punct(TokKind::ParenOpen) {
            Parsed::Fail("Expected Opening Parentheses after Function Name"@)
        } else {
            let ps = p_params(t, p + 3);
            if ps is Stuck {
                Parsed::Stuck
            } else if ps is Fail {
                Parsed::Fail(ps->Fail_0)
            } else if ps->Done_1 < p + 3 || out_of(t, ps->Done_1) {
                Parsed::Stuck
            } else if t[ps->Done_1].tok != punct(TokKind::ParenClose) {
                Parsed::Fail("Expected Closing Parentheses after Function Parameters"@)
            } else if out_of(t, ps->Done_1 + 1) {
                Parsed::Stuck
            } else if t[ps->Done_1 + 1].tok != punct(TokKind::Arrow) {
                Parsed::Fail("Expected Arrow to Denote Return Type"@)
            } else {
                let rt = p_type_declr(t, ps->Done_1 + 2);
                if rt is Stuck {
                    Parsed::Stuck
                } else if rt is Fail {
                    Parsed::Fail(rt->Fail_0)
                } else if rt->Done_1 <= p || rt->Done_1 > t.len() {
                    Parsed::Stuck
                } else {
                    let b = p_block(t, rt->Done_1);
                    if b is Stuck {
                        Parsed::Stuck
                    } else if b is Fail {
                        Parsed::Fail(b->Fail_0)
                    } else {
                        Parsed::Done(StmtV::FnDeclr(t[p + 1], ps->Done_0, rt->Done_0, Box::new(b->Done_0)), b->Done_1)
                    }
                }
            }
        }
    } else if t[p].tok == key("struct"@) {
        if out_of(t, p + 1) {
            Parsed::Stuck
        } else if t[p + 1].tok.kind != TokKind::Id {
            Parsed::Fail("Expected Identifier for Struct Name"@)
        } else if out_of(t, p + 2) {
            Parsed::Stuck
        } else if t[p + 2].tok != punct(TokKind::CurlyOpen) {
            Parsed::Fail("Expected Opening Curly Bracket for Struct Definition"@)
        } else {
            let ps = p_params(t, p + 3);
            if ps is Stuck {
                Parsed::Stuck
            } else if ps is Fail {
                Parsed::Fail(ps->Fail_0)
            } else if ps->Done_1 < p + 3 || out_of(t, ps->Done_1) {
                Parsed::Stuck
            } else if t[ps->Done_1].tok != punct(TokKind::CurlyClose) {
                Parsed::Fail("Expected Closing Curly Bracket after Struct Definition"@)
            } else {
                Parsed::Done(StmtV::StructDeclr(t[p + 1], ps->Done_0), ps->Done_1 + 1)
            }
        }
    } else if t[p].tok == key("enum"@) {
        if out_of(t, p + 1) {
            Parsed::Stuck
        } else if t[p + 1].tok.kind != TokKind::Id {
            Parsed::Fail("Expected Identifier for Enum Name"@)
        } else if out_of(t, p + 2) {
            Parsed::Stuck
        } else if t[p + 2].tok != punct(TokKind::CurlyOpen) {
            Parsed::Fail("Expected Opening Curly Bracket after Enum Name"@)
        } else {
            let vs = p_variants(t, p + 3);
            if vs is Stuck {
                Parsed::Stuck
            } else if vs is Fail {
                Parsed::Fail(vs->Fail_0)
            } else if vs->Done_1 < p + 3 || out_of(t, vs->Done_1) {
                Parsed::Stuck
            } else if t[vs->Done_1].tok != punct(TokKind::CurlyClose) {
                Parsed::Fail("Expected Closing Curly Bracket after Enum Definition"@)
            } else {
                Parsed::Done(StmtV::EnumDeclr(t[p + 1], vs->Done_0), vs->Done_1 + 1)
            }
        }
    } else if t[p].tok == key("loop"@) {
        let b = p_block(t, p + 1);
        if b is Stuck {
            Parsed::Stuck
        } else if b is Fail {
            Parsed::Fail(b->Fail_0)
        } else {
            Parsed::Done(StmtV::LoopStmt(Box::new(b->Done_0)), b->Done_1)
        }
    } else if t[p].tok == key("while"@) {
        let c = p_expr(t, p + 1);
        if c is Stuck {
            Parsed::Stuck
        } else if c is Fail {
            Parsed::Fail(c->Fail_0)
        } else if c->Done_1 <= p || c->Done_1 > t.len() {
            Parsed::Stuck
        } else {
            let b = p_block(t, c->Done_1);
            if b is Stuck {
                Parsed::Stuck
            } else if b is Fail {
                Parsed::Fail(b->Fail_0)
            } else {
                Parsed::Done(StmtV::WhileStmt(c->Done_0, Box::new(b->Done_0)), b->Done_1)
            }
        }
    } else if t[p].tok == key("if"@) {
        let c = p_expr(t, p + 1);
        if c is Stuck {
            Parsed::Stuck
        } else if c is Fail {
            Parsed::Fail(c->Fail_0)
        } else if c->Done_1 <= p || c->Done_1 > t.len() {
            Parsed::Stuck
        } else {
            let tb = p_block(t, c->Done_1);
            if tb is Stuck {
                Parsed::Stuck
            } else if tb is Fail {
                Parsed::Fail(tb->Fail_0)
            } else if tb->Done_1 <= p || out_of(t, tb->Done_1) {
                Parsed::Stuck
            } else if t[tb->Done_1].tok == key("else"@) {
                let fb = p_block(t, tb->Done_1 + 1);
                if fb is Stuck {
                    Parsed::Stuck
                } else if fb is Fail {
                    Parsed::Fail(fb->Fail_0)
                } else {
                    Parsed::Done(
                        StmtV::IfStmt(c->Done_0, Box::new(tb->Done_0), Some(Box::new(fb->Done_0))),
                        fb->Done_1,
                    )
                }
            } else {
                Parsed::Done(StmtV::IfStmt(c->Done_0, Box::new(tb->Done_0), None), tb->Done_1)
            }
        }
    } else if t[p].tok == key("return"@) {
        let e = p_expr(t, p + 1);
        if e is Stuck {
            Parsed::Stuck
        } else if e is Fail {
            Parsed::Fail(e->Fail_0)
        } else {
            Parsed::Done(StmtV::ReturnStmt(t[p], e->Done_0), e->Done_1)
        }
    } else if t[p].tok == key("break"@) {
        Parsed::Done(StmtV::BreakStmt(t[p]), p + 1)
    } else {
        let e = p_expr(t, p);
        if e is Stuck {
            Parsed::Stuck
        } else if e is Fail {
            Parsed::Fail(e->Fail_0)
        } else if out_of(t, e->Done_1) {
            Parsed::Stuck
        } else if t[e->Done_1].tok == punct(TokKind::SemiCol) {
            Parsed::Done(StmtV::ExprStmt(e->Done_0), e->Done_1 + 1)
        } else {
            Parsed::Fail("Expected Semicolon after Expression Statement"@)
        }
    }
        }),
{
    reveal(p_stmt);
    reveal(p_type_declr);
    reveal(p_block);
}

/// `p_block` unfolded once.
pub proof fn unfold_p_block(t: Seq<LexemeView>, p: int)
    ensures
        p_block(t, p) == ({
    if out_of(t, p) {
        Parsed::Stuck
    } else if t[p].tok != punct(TokKind::CurlyOpen) {
        Parsed::Fail("Expected Opening Curly Bracket for Block"@)
    } else {
        p_block_loop(t, p + 1, seq![])
    }
        }),
{
    reveal(p_block);
    reveal(p_block_loop);
}

/// `p_block_loop` unfolded once.
pub proof fn unfold_p_block_loop(t: Seq<LexemeView>, p: int, body: Seq<StmtV>)
    ensures
        p_block_loop(t, p, body) == ({
    if out_of(t, p) {
        Parsed::Stuck
    } else if t[p].tok == punct(TokKind::CurlyClose) {
        Parsed::Done(StmtV::Block(body), p + 1)
    } else {
        let s = p_stmt(t, p);
        if s is Stuck {
            Parsed::Stuck
        } else if s is Fail {
            Parsed::Fail(s->Fail_0)
        } else if s->Done_1 <= p || s->Done_1 > t.len() {
            Parsed::Stuck
        } else {
            p_block_loop(t, s->Done_1, body.push(s->Done_0))
        }
    }
        }),
{
    reveal(p_block_loop);
    reveal(p_stmt);
}

/// `p_program` unfolded once.
pub proof fn unfold_p_program(t: Seq<LexemeView>, p: int, acc: Seq<StmtV>)
    ensures
        p_program(t, p, acc) == ({
    if out_of(t, p) {
        Parsed::Stuck
    } else if t[p].tok == punct(TokKind::EOF) {
        Parsed::Done(acc, p)
    } else {
        let s = p_stmt(t, p);
        if s is Stuck {
            Parsed::Stuck
        } else if s is Fail {
            Parsed::Fail(s->Fail_0)
        } else if s->Done_1 <= p || s->Done_1 > t.len() {
            Parsed::Stuck
        } else {
            p_program(t, s->Done_1, acc.push(s->Done_0))
        }
    }
        }),
{
    reveal(p_program);
    reveal(p_stmt);
}


} // verus!
