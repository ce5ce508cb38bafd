use vstd::prelude::*;

verus! {

/// The class of a token, without its text.
#[derive(Clone, Copy, PartialEq, Eq, Structural, Debug)]
pub enum TokKind {
    Key,
    Op,
    Cond,
    Id,
    Lit,
    ParenOpen,
    ParenClose,
    SquareOpen,
    SquareClose,
    CurlyOpen,
    CurlyClose,
    SemiCol,
    Col,
    Comma,
    Period,
    Arrow,
    EOF,
}

/// What a token is: its class and, for the classes that carry text, the text.
pub struct TokView {
    pub kind: TokKind,
    pub text: Seq<char>,
}

/// The classes of token that carry text.
pub open spec fn kind_has_data(k: TokKind) -> bool {
    k == TokKind::Key || k == TokKind::Op || k == TokKind::Cond || k == TokKind::Id || k == TokKind::Lit
}

#[derive(Debug)]
pub enum Token {
    Key(String),
    Op(String),
    Cond(String),
    Id(String),
    Lit(String),
    ParenOpen,
    ParenClose,
    SquareOpen,
    SquareClose,
    CurlyOpen,
    CurlyClose,
    SemiCol,
    Col,
    Comma,
    Period,
    Arrow,
    EOF,
}

impl View for Token {
    type V = TokView;

    open spec fn view(&self) -> TokView {
        match self {
            Token::Key(s) => TokView { kind: TokKind::Key, text: s@ },
            Token::Op(s) => TokView { kind: TokKind::Op, text: s@ },
            Token::Cond(s) => TokView { kind: TokKind::Cond, text: s@ },
            Token::Id(s) => TokView { kind: TokKind::Id, text: s@ },
            Token::Lit(s) => TokView { kind: TokKind::Lit, text: s@ },
            Token::ParenOpen => TokView { kind: TokKind::ParenOpen, text: seq![] },
            Token::ParenClose => TokView { kind: TokKind::ParenClose, text: seq![] },
            Token::SquareOpen => TokView { kind: TokKind::SquareOpen, text: seq![] },
            Token::SquareClose => TokView { kind: TokKind::SquareClose, text: seq![] },
            Token::CurlyOpen => TokView { kind: TokKind::CurlyOpen, text: seq![] },
            Token::CurlyClose => TokView { kind: TokKind::CurlyClose, text: seq![] },
            Token::SemiCol => TokView { kind: TokKind::SemiCol, text: seq![] },
            Token::Col => TokView { kind: TokKind::Col, text: seq![] },
            Token::Comma => TokView { kind: TokKind::Comma, text: seq![] },
            Token::Period => TokView { kind: TokKind::Period, text: seq![] },
            Token::Arrow => TokView { kind: TokKind::Arrow, text: seq![] },
            Token::EOF => TokView { kind: TokKind::EOF, text: seq![] },
        }
    }
}

impl Clone for Token {
    fn clone(&self) -> (r: Self)
        ensures
            r == *self,
    {
        match self {
            Token::Key(s) => Token::Key(s.clone()),
            Token::Op(s) => Token::Op(s.clone()),
            Token::Cond(s) => Token::Cond(s.clone()),
            Token::Id(s) => Token::Id(s.clone()),
            Token::Lit(s) => Token::Lit(s.clone()),
            Token::ParenOpen => Token::ParenOpen,
            Token::ParenClose => Token::ParenClose,
            Token::SquareOpen => Token::SquareOpen,
            Token::SquareClose => Token::SquareClose,
            Token::CurlyOpen => Token::CurlyOpen,
            Token::CurlyClose => Token::CurlyClose,
            Token::SemiCol => Token::SemiCol,
            Token::Col => Token::Col,
            Token::Comma => Token::Comma,
            Token::Period => Token::Period,
            Token::Arrow => Token::Arrow,
            Token::EOF => Token::EOF,
        }
    }
}

impl Token {
    /// The class of this token.
    pub fn kind(&self) -> (k: TokKind)
        ensures
            k == self@.kind,
    {
        match self {
            Token::Key(_) => TokKind::Key,
            Token::Op(_) => TokKind::Op,
            Token::Cond(_) => TokKind::Cond,
            Token::Id(_) => TokKind::Id,
            Token::Lit(_) => TokKind::Lit,
            Token::ParenOpen => TokKind::ParenOpen,
            Token::ParenClose => TokKind::ParenClose,
            Token::SquareOpen => TokKind::SquareOpen,
            Token::SquareClose => TokKind::SquareClose,
            Token::CurlyOpen => TokKind::CurlyOpen,
            Token::CurlyClose => TokKind::CurlyClose,
            Token::SemiCol => TokKind::SemiCol,
            Token::Col => TokKind::Col,
            Token::Comma => TokKind::Comma,
            Token::Period => TokKind::Period,
            Token::Arrow => TokKind::Arrow,
            Token::EOF => TokKind::EOF,
        }
    }

    /// Whether two tokens are of the same class and carry the same text.
    pub fn same(&self, other: &Token) -> (b: bool)
        ensures
            b == (self@ == other@),
    {
        match self {
            Token::Key(a) => match other {
                Token::Key(b) => a.eq(b),
                _ => false,
            },
            Token::Op(a) => match other {
                Token::Op(b) => a.eq(b),
                _ => false,
            },
            Token::Cond(a) => match other {
                Token::Cond(b) => a.eq(b),
                _ => false,
            },
            Token::Id(a) => match other {
                Token::Id(b) => a.eq(b),
                _ => false,
            },
            Token::Lit(a) => match other {
                Token::Lit(b) => a.eq(b),
                _ => false,
            },
            _ => self.kind() == other.kind(),
        }
    }
}

/// A token together with the line and column at which it starts.
#[derive(Debug)]
pub struct Lexeme {
    pub tok: Token,
    pub line: usize,
    pub col: usize,
}

pub struct LexemeView {
    pub tok: TokView,
    pub line: usize,
    pub col: usize,
}

impl View for Lexeme {
    type V = LexemeView;

    open spec fn view(&self) -> LexemeView {
        LexemeView { tok: self.tok@, line: self.line, col: self.col }
    }
}

impl Clone for Lexeme {
    fn clone(&self) -> (r: Self)
        ensures
            r == *self,
    {
        Lexeme { tok: self.tok.clone(), line: self.line, col: self.col }
    }
}

impl Lexeme {
    pub fn new(line: usize, col: usize, tok: Token) -> (r: Self)
        ensures
            r.line == line,
            r.col == col,
            r.tok == tok,
    {
        Self { line: line, col: col, tok: tok }
    }

    /// The text of a keyword, operator, condition, identifier or literal.
    pub fn data(&self) -> (s: String)
        requires
            kind_has_data(self.tok@.kind),
        ensures
            s@ == self.tok@.text,
    {
        match &self.tok {
            Token::Key(s) => s.clone(),
            Token::Op(s) => s.clone(),
            Token::Cond(s) => s.clone(),
            Token::Id(s) => s.clone(),
            Token::Lit(s) => s.clone(),
            _ => {
                proof {
                    assert(false);
                }
                String::new()
            },
        }
    }
}

} // verus!
