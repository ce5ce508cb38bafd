use vstd::prelude::*;

use crate::token::{Token, Lexeme, TokKind, TokView, LexemeView};
use crate::lexer::lexeme_views;

pub mod numbers;
pub mod expr_grammar;
pub mod stmt_grammar;
pub mod expr_parsing;
pub mod stmt_parsing;
pub mod first_lexeme;

verus! {

/// What a parse from a given position gives: the syntax read and the
/// position after it, an error message, or `Stuck`, where the parser would
/// read past the last token.
pub enum Parsed<T> {
    Done(T, int),
    Fail(Seq<char>),
    Stuck,
}

/// The result `r`, with the parser at `q` afterwards, is what `s` says.
pub open spec fn agrees<T: View>(r: Result<T, &'static str>, s: Parsed<T::V>, q: int) -> bool {
    match s {
        Parsed::Done(v, end) => r matches Ok(x) && x@ == v && q == end,
        Parsed::Fail(m) => r matches Err(e) && e@ == m,
        Parsed::Stuck => false,
    }
}

/// The parser moved from `before` to `after` and gave `r`, as `s` says: it
/// read forward over the same lexemes, and a success read at least one.
pub open spec fn parsed_as<T: View>(before: Parser, after: Parser, r: Result<T, &'static str>, s: Parsed<T::V>) -> bool {
    &&& after.wf()
    &&& after.toks() == before.toks()
    &&& agrees(r, s, after.pos())
    &&& (r is Ok ==> after.pos() > before.pos())
}

pub open spec fn out_of(t: Seq<LexemeView>, p: int) -> bool {
    p < 0 || p >= t.len()
}

pub open spec fn punct(k: TokKind) -> TokView {
    TokView { kind: k, text: seq![] }
}

pub open spec fn op(s: Seq<char>) -> TokView {
    TokView { kind: TokKind::Op, text: s }
}

pub open spec fn cond(s: Seq<char>) -> TokView {
    TokView { kind: TokKind::Cond, text: s }
}

pub open spec fn key(s: Seq<char>) -> TokView {
    TokView { kind: TokKind::Key, text: s }
}

/// An operator token with text `s`.
pub fn op_tok(s: &str) -> (t: Token)
    ensures
        t@ == op(s@),
{
    Token::Op(String::from_str(s))
}

/// A condition token with text `s`.
pub fn cond_tok(s: &str) -> (t: Token)
    ensures
        t@ == cond(s@),
{
    Token::Cond(String::from_str(s))
}

/// A keyword token with text `s`.
pub fn key_tok(s: &str) -> (t: Token)
    ensures
        t@ == key(s@),
{
    Token::Key(String::from_str(s))
}

/// A recursive descent parser over a sequence of lexemes.
pub struct Parser {
    data: Vec<Lexeme>,
    ptr: usize,
}

impl Parser {
    /// The lexemes being parsed.
    #[verifier::opaque]
    pub closed spec fn toks(&self) -> Seq<LexemeView> {
        lexeme_views(self.data@)
    }

    /// The position of the next lexeme to read.
    #[verifier::opaque]
    pub closed spec fn pos(&self) -> int {
        self.ptr as int
    }

    pub open spec fn wf(&self) -> bool {
        &&& 0 <= self.pos() <= self.toks().len()
        &&& self.toks().len() <= usize::MAX
    }

    pub fn new(data: Vec<Lexeme>) -> (p: Self)
        ensures
            p.wf(),
            p.toks() == lexeme_views(data@),
            p.pos() == 0,
    {
        proof {
            reveal(Parser::toks);
            reveal(Parser::pos);
        }
        let _n = data.len();
        Self { data, ptr: 0 }
    }

    /// The lexeme at the current position.
    pub fn current(&self) -> (l: Lexeme)
        requires
            self.wf(),
            0 <= self.pos() < self.toks().len(),
        ensures
            l@ == self.toks()[self.pos()],
    {
        proof {
            reveal(Parser::toks);
            reveal(Parser::pos);
        }
        self.data[self.ptr].clone()
    }

    pub(crate) fn previous(&self) -> (l: Lexeme)
        requires
            self.wf(),
            1 <= self.pos() <= self.toks().len(),
        ensures
            l@ == self.toks()[self.pos() - 1],
    {
        proof {
            reveal(Parser::toks);
            reveal(Parser::pos);
        }
        self.data[self.ptr - 1].clone()
    }

    pub(crate) fn look_ahead(&self) -> (l: Lexeme)
        requires
            self.wf(),
            0 <= self.pos() + 1 < self.toks().len(),
        ensures
            l@ == self.toks()[self.pos() + 1],
    {
        proof {
            reveal(Parser::toks);
            reveal(Parser::pos);
        }
        self.data[self.ptr + 1].clone()
    }

    pub(crate) fn go_back(&mut self)
        requires
            old(self).wf(),
            old(self).pos() >= 1,
        ensures
            final(self).wf(),
            final(self).toks() == old(self).toks(),
            final(self).pos() == old(self).pos() - 1,
    {
        proof {
            reveal(Parser::toks);
            reveal(Parser::pos);
        }
        self.ptr = self.ptr - 1;
    }

    /// Consumes the current token if it is `t`.
    pub(crate) fn match_tok(&mut self, t: Token) -> (b: bool)
        requires
            old(self).wf(),
            0 <= old(self).pos() < old(self).toks().len(),
        ensures
            final(self).wf(),
            final(self).toks() == old(self).toks(),
            b == (old(self).toks()[old(self).pos()].tok == t@),
            final(self).pos() == old(self).pos() + if b { 1int } else { 0int },
    {
        proof {
            reveal(Parser::toks);
            reveal(Parser::pos);
        }
        if self.data[self.ptr].tok.same(&t) {
            self.ptr = self.ptr + 1;
            return true;
        }
        false
    }

    /// Consumes the current token if it is of class `k`.
    pub(crate) fn match_tok_type(&mut self, k: TokKind) -> (b: bool)
        requires
            old(self).wf(),
            0 <= old(self).pos() < old(self).toks().len(),
        ensures
            final(self).wf(),
            final(self).toks() == old(self).toks(),
            b == (old(self).toks()[old(self).pos()].tok.kind == k),
            final(self).pos() == old(self).pos() + if b { 1int } else { 0int },
    {
        proof {
            reveal(Parser::toks);
            reveal(Parser::pos);
        }
        if self.data[self.ptr].tok.kind() == k {
            self.ptr = self.ptr + 1;
            return true;
        }
        false
    }
}

} // verus!
