use vstd::prelude::*;

use crate::token::{Token, Lexeme, TokKind, TokView, LexemeView};
use vstd::string::{StringSliceAdditionalSpecFns, StrSliceExecFns, StringExecFns};

verus! {

/// Keywords.
pub const KEY_PATTERN: &'static str = r"(?x)
        ^let |
        ^if |
        ^fn |
        ^else |
        ^while |
        ^loop |
        ^for |
        ^return |
        ^continue |
        ^struct |
        ^enum |
        ^break";

/// Operators.
pub const OP_PATTERN: &'static str = r"(?x)
        ^ as(?=\s) |
        ^ \= (?!\=) |
        ^ \+ |
        ^ \- |
        ^ \& (?!\&)|
        ^ \* |
        ^ << |
        ^ >> |
        ^ \|(?!\|) | #single pipe
        ^ \! (?!\=)|
        ^ \~\|";

/// Conditions.
pub const COND_PATTERN: &'static str = r"(?x)
        ^ \|\| |
        ^ \&\& |
        ^ <\= |
        ^ >= |
        ^ < (?!<) |
        ^ > (?!>) |
        ^ \!\= |
        ^ \=\=";

/// Identifiers.
pub const ID_PATTERN: &'static str = r"^[_[[:alpha:]]][_@[[:alnum:]]]*";

/// Number literals.
pub const LIT_PATTERN: &'static str = r"^-?\d+(?![[:alpha:]])";

/// The arrow of a return type.
pub const ARROW_PATTERN: &'static str = r"^\->";

/// What the regex engine finds for `pattern` at the start of the search in
/// `text`: `None` when the engine fails (the pattern does not compile or the
/// search gives up), `Some(None)` when nothing matches, `Some(Some(n))` when
/// the first match found is `n` bytes long.
pub uninterp spec fn regex_find_len(pattern: Seq<char>, text: Seq<char>) -> Option<Option<usize>>;

/// Compiles `pattern` with `fancy_regex::Regex::new` and searches `text` with
/// `Regex::find`, giving the byte length of the first match. Trusted: the
/// result is the engine's, named `regex_find_len`; what is stated besides is
/// that a match, a slice of `text`, is no longer than `text`.
#[verifier::external_body]
fn regex_find(pattern: &str, text: &str) -> (r: Option<Option<usize>>)
    ensures
        r == regex_find_len(pattern@, text@),
        r matches Some(Some(n)) ==> n <= text.spec_bytes().len(),
{
    match fancy_regex::Regex::new(pattern) {
        Ok(re) => match re.find(text) {
            Ok(Some(m)) => Some(Some(m.as_str().len())),
            Ok(None) => Some(None),
            Err(_) => None,
        },
        Err(_) => None,
    }
}

/// The classes of token that the lexer recognises by pattern, in the order
/// in which it tries them.
#[derive(Clone, Copy, PartialEq, Eq, Structural, Debug)]
pub enum LexClass {
    Arrow,
    Key,
    Op,
    Cond,
    Id,
    Lit,
}

pub open spec fn class_pattern(c: LexClass) -> Seq<char> {
    match c {
        LexClass::Arrow => ARROW_PATTERN@,
        LexClass::Key => KEY_PATTERN@,
        LexClass::Op => OP_PATTERN@,
        LexClass::Cond => COND_PATTERN@,
        LexClass::Id => ID_PATTERN@,
        LexClass::Lit => LIT_PATTERN@,
    }
}

/// The `i`-th class in the order of trial.
pub open spec fn class_order(i: nat) -> LexClass {
    if i == 0 {
        LexClass::Arrow
    } else if i == 1 {
        LexClass::Key
    } else if i == 2 {
        LexClass::Op
    } else if i == 3 {
        LexClass::Cond
    } else if i == 4 {
        LexClass::Id
    } else {
        LexClass::Lit
    }
}

/// Trying the classes from the `i`-th on: the first that matches `rest`, with
/// the length of its match; `Err` when the engine fails on a class tried.
pub open spec fn first_match(rest: Seq<char>, i: nat) -> Result<Option<(LexClass, usize)>, ()>
    decreases 6 - i,
{
    if i >= 6 {
        Ok(None)
    } else {
        match regex_find_len(class_pattern(class_order(i)), rest) {
            None => Err(()),
            Some(Some(n)) => Ok(Some((class_order(i), n))),
            Some(None) => first_match(rest, i + 1),
        }
    }
}

/// The token of class `c` whose matched text is `text`.
pub open spec fn class_token(c: LexClass, text: Seq<char>) -> TokView {
    match c {
        LexClass::Arrow => TokView { kind: TokKind::Arrow, text: seq![] },
        LexClass::Key => TokView { kind: TokKind::Key, text: text },
        LexClass::Op => TokView { kind: TokKind::Op, text: text },
        LexClass::Cond => TokView { kind: TokKind::Cond, text: text },
        LexClass::Id => TokView { kind: TokKind::Id, text: text },
        LexClass::Lit => TokView { kind: TokKind::Lit, text: text },
    }
}

/// The one-byte punctuation tokens.
pub open spec fn punct_kind(b: u8) -> Option<TokKind> {
    if b == 40 {
        Some(TokKind::ParenOpen)
    } else if b == 41 {
        Some(TokKind::ParenClose)
    } else if b == 91 {
        Some(TokKind::SquareOpen)
    } else if b == 93 {
        Some(TokKind::SquareClose)
    } else if b == 123 {
        Some(TokKind::CurlyOpen)
    } else if b == 125 {
        Some(TokKind::CurlyClose)
    } else if b == 59 {
        Some(TokKind::SemiCol)
    } else if b == 58 {
        Some(TokKind::Col)
    } else if b == 44 {
        Some(TokKind::Comma)
    } else if b == 46 {
        Some(TokKind::Period)
    } else {
        None
    }
}

/// The token at the start of `rest` and its length, if any.
pub open spec fn scan(rest: Seq<char>) -> Option<(TokView, int)> {
    match first_match(rest, 0) {
        Err(_) => None,
        Ok(Some((c, n))) => if n == 0 {
            None
        } else {
            Some((class_token(c, rest.take(n as int)), n as int))
        },
        Ok(None) => if rest.len() > 0 && punct_kind(rest[0] as u8) is Some {
            Some((TokView { kind: punct_kind(rest[0] as u8).unwrap(), text: seq![] }, 1))
        } else {
            None
        },
    }
}

/// Blanks between tokens.
pub open spec fn is_blank(b: u8) -> bool {
    b == 32 || b == 10 || b == 9 || b == 13
}

/// The first position from `i` on that holds no blank.
pub open spec fn skip_blanks(text: Seq<char>, i: int) -> int
    decreases text.len() - i,
{
    if 0 <= i < text.len() && is_blank(text[i] as u8) {
        skip_blanks(text, i + 1)
    } else {
        i
    }
}

/// The line and column reached from (`line`, `col`) at position `from` by
/// passing over the characters up to `to`.
pub open spec fn line_col(text: Seq<char>, from: int, to: int, line: int, col: int) -> (int, int)
    decreases to - from,
{
    if to <= from {
        (line, col)
    } else {
        let lc = line_col(text, from, to - 1, line, col);
        if text[to - 1] as u8 == 10 {
            (lc.0 + 1, 1)
        } else {
            (lc.0, lc.1 + 1)
        }
    }
}

pub open spec fn lexeme_at(t: TokView, lc: (int, int)) -> LexemeView {
    LexemeView { tok: t, line: lc.0 as usize, col: lc.1 as usize }
}

/// The lexemes read from position `ptr` on, starting at (`line`, `col`); or
/// the line and column at which lexing fails.
pub open spec fn lex_from(text: Seq<char>, ptr: int, line: int, col: int) -> Result<Seq<LexemeView>, (int, int)>
    decreases text.len() - ptr,
{
    if ptr < 0 || ptr >= text.len() {
        Err((line, col))
    } else if text[ptr] as u8 == 0 {
        Ok(seq![lexeme_at(TokView { kind: TokKind::EOF, text: seq![] }, (line, col))])
    } else {
        let p = skip_blanks(text, ptr);
        let lc = line_col(text, ptr, p, line, col);
        if p < ptr || p >= text.len() {
            Err(lc)
        } else {
            match scan(text.subrange(p, text.len() as int)) {
                None => Err(lc),
                Some((t, n)) => if n <= 0 || p + n > text.len() {
                    Err(lc)
                } else {
                    let lc2 = line_col(text, p, p + n, lc.0, lc.1);
                    match lex_from(text, p + n, lc2.0, lc2.1) {
                        Err(e) => Err(e),
                        Ok(more) => Ok(seq![lexeme_at(t, lc)] + more),
                    }
                },
            }
        }
    }
}

/// The line and column after one character: the next line's first column
/// after a newline, else the next column.
pub open spec fn step_line_col(c: char, line: int, col: int) -> (int, int) {
    if c as u8 == 10 {
        (line + 1, 1)
    } else {
        (line, col + 1)
    }
}

/// Passing over characters from `from` is passing over the first one and
/// then the rest.
proof fn lemma_line_col_first(text: Seq<char>, from: int, to: int, line: int, col: int)
    requires
        from < to,
    ensures
        line_col(text, from, to, line, col) == ({
            let s = step_line_col(text[from], line, col);
            line_col(text, from + 1, to, s.0, s.1)
        }),
    decreases to - from,
{
    let s = step_line_col(text[from], line, col);
    if to > from + 1 {
        lemma_line_col_first(text, from, to - 1, line, col);
    } else {
        assert(line_col(text, from, from, line, col) == (line, col));
        assert(line_col(text, from + 1, from + 1, s.0, s.1) == s);
    }
}

/// Space, tab, newline and carriage return between tokens are skipped:
/// lexing from such a character, not followed by the end of the text or a
/// NUL, gives what lexing from the next character gives, with the line and
/// column moved past it.
pub proof fn lemma_blank_is_skipped(text: Seq<char>, ptr: int, line: int, col: int)
    requires
        0 <= ptr,
        ptr + 1 < text.len(),
        text[ptr] as u8 == 32 || text[ptr] as u8 == 9 || text[ptr] as u8 == 10 || text[ptr] as u8 == 13,
        text[ptr + 1] as u8 != 0,
    ensures
        lex_from(text, ptr, line, col) == ({
            let s = step_line_col(text[ptr], line, col);
            lex_from(text, ptr + 1, s.0, s.1)
        }),
{
    let s = step_line_col(text[ptr], line, col);
    let p = skip_blanks(text, ptr);
    assert(p == skip_blanks(text, ptr + 1));
    lemma_skip_blanks(text, ptr + 1);
    lemma_line_col_first(text, ptr, p, line, col);
}

/// Nothing but space, tab, newline and carriage return is skipped: where
/// lexing starts at any other character, the first lexeme read starts
/// right there.
pub proof fn lemma_other_is_not_skipped(text: Seq<char>, ptr: int, line: int, col: int)
    requires
        0 <= ptr < text.len(),
        !(text[ptr] as u8 == 32 || text[ptr] as u8 == 9 || text[ptr] as u8 == 10 || text[ptr] as u8 == 13),
        0 <= line <= usize::MAX,
        0 <= col <= usize::MAX,
        lex_from(text, ptr, line, col) is Ok,
    ensures
        lex_from(text, ptr, line, col)->Ok_0.len() > 0,
        lex_from(text, ptr, line, col)->Ok_0[0].line == line,
        lex_from(text, ptr, line, col)->Ok_0[0].col == col,
{
    assert(skip_blanks(text, ptr) == ptr);
    assert(line_col(text, ptr, ptr, line, col) == (line, col));
}

/// The lexemes of a text end with the end-of-file token, and it appears
/// nowhere before.
pub proof fn lemma_lexemes_end_with_eof(text: Seq<char>, ptr: int, line: int, col: int)
    requires
        lex_from(text, ptr, line, col) is Ok,
    ensures
        ({
            let v = lex_from(text, ptr, line, col)->Ok_0;
            &&& v.len() >= 1
            &&& v.last().tok.kind == TokKind::EOF
            &&& forall|i: int| 0 <= i < v.len() - 1 ==> v[i].tok.kind != TokKind::EOF
        }),
    decreases text.len() - ptr,
{
    if 0 <= ptr < text.len() && text[ptr] as u8 != 0 {
        let p = skip_blanks(text, ptr);
        let lc = line_col(text, ptr, p, line, col);
        let s = scan(text.subrange(p, text.len() as int));
        let t = s->Some_0.0;
        let n = s->Some_0.1;
        let lc2 = line_col(text, p, p + n, lc.0, lc.1);
        lemma_lexemes_end_with_eof(text, p + n, lc2.0, lc2.1);
        let more = lex_from(text, p + n, lc2.0, lc2.1)->Ok_0;
        let v = seq![lexeme_at(t, lc)] + more;
        assert(t.kind != TokKind::EOF);
        assert forall|i: int| 0 <= i < v.len() - 1 implies v[i].tok.kind != TokKind::EOF by {
            if i > 0 {
                assert(v[i] == more[i - 1]);
            }
        }
        assert(v.last() == more.last());
    }
}

/// A NUL byte stands in `text` at or after position `from`.
pub open spec fn nul_from(text: Seq<char>, from: int) -> bool {
    exists|i: int| from <= i < text.len() && text[i] as u8 == 0
}

pub open spec fn lexeme_views(s: Seq<Lexeme>) -> Seq<LexemeView> {
    s.map_values(|l: Lexeme| l@)
}

pub open spec fn prepend(acc: Seq<LexemeView>, r: Result<Seq<LexemeView>, (int, int)>) -> Result<Seq<LexemeView>, (int, int)> {
    match r {
        Ok(s) => Ok(acc + s),
        Err(e) => Err(e),
    }
}

proof fn lemma_line_col_bound(text: Seq<char>, from: int, to: int, line: int, col: int)
    requires
        from <= to,
        col >= 0,
    ensures
        line <= line_col(text, from, to, line, col).0 <= line + (to - from),
        line_col(text, from, to, line, col).1 <= col + (to - from),
        line_col(text, from, to, line, col).1 >= 0,
    decreases to - from,
{
    if to > from {
        lemma_line_col_bound(text, from, to - 1, line, col);
    }
}

proof fn lemma_skip_blanks(text: Seq<char>, i: int)
    requires
        0 <= i <= text.len(),
    ensures
        i <= skip_blanks(text, i) <= text.len(),
        forall|j: int| i <= j < skip_blanks(text, i) ==> is_blank(#[trigger] text[j] as u8),
        skip_blanks(text, i) < text.len() ==> !is_blank(text[skip_blanks(text, i)] as u8),
    decreases text.len() - i,
{
    if i < text.len() && is_blank(text[i] as u8) {
        lemma_skip_blanks(text, i + 1);
    }
}

/// Whether `b` is a blank between tokens.
pub fn is_blank_byte(b: u8) -> (r: bool)
    ensures
        r == is_blank(b),
{
    b == 32u8 || b == 10u8 || b == 9u8 || b == 13u8
}

/// The pattern of each class.
pub fn pattern_of(c: LexClass) -> (p: &'static str)
    ensures
        p@ == class_pattern(c),
{
    match c {
        LexClass::Arrow => ARROW_PATTERN,
        LexClass::Key => KEY_PATTERN,
        LexClass::Op => OP_PATTERN,
        LexClass::Cond => COND_PATTERN,
        LexClass::Id => ID_PATTERN,
        LexClass::Lit => LIT_PATTERN,
    }
}

/// Tries the classes in order on `rest`, as `first_match` says.
fn find_first(rest: &str) -> (r: Result<Option<(LexClass, usize)>, ()>)
    ensures
        r == first_match(rest@, 0),
        r matches Ok(Some((c, n))) ==> n <= rest.spec_bytes().len(),
{
    let order = [LexClass::Arrow, LexClass::Key, LexClass::Op, LexClass::Cond, LexClass::Id, LexClass::Lit];
    let mut i: usize = 0;
    while i < 6
        invariant
            i <= 6,
            order@ == seq![LexClass::Arrow, LexClass::Key, LexClass::Op, LexClass::Cond, LexClass::Id, LexClass::Lit],
            first_match(rest@, 0) == first_match(rest@, i as nat),
        decreases 6 - i,
    {
        let c = order[i];
        assert(c == class_order(i as nat));
        match regex_find(pattern_of(c), rest) {
            None => {
                return Err(());
            },
            Some(Some(n)) => {
                return Ok(Some((c, n)));
            },
            Some(None) => {},
        }
        i = i + 1;
    }
    Ok(None)
}

/// The token of class `c` whose matched text is `text`.
pub fn class_to_token(c: LexClass, text: &str) -> (t: Token)
    ensures
        t@ == class_token(c, text@),
{
    match c {
        LexClass::Arrow => Token::Arrow,
        LexClass::Key => Token::Key(String::from_str(text)),
        LexClass::Op => Token::Op(String::from_str(text)),
        LexClass::Cond => Token::Cond(String::from_str(text)),
        LexClass::Id => Token::Id(String::from_str(text)),
        LexClass::Lit => Token::Lit(String::from_str(text)),
    }
}

/// The one-byte punctuation token that `b` stands for, if any.
pub fn punct_token(b: u8) -> (t: Option<Token>)
    ensures
        t is Some <==> punct_kind(b) is Some,
        t matches Some(tok) ==> tok@ == (TokView { kind: punct_kind(b).unwrap(), text: seq![] }),
{
    if b == 40u8 {
        Some(Token::ParenOpen)
    } else if b == 41u8 {
        Some(Token::ParenClose)
    } else if b == 91u8 {
        Some(Token::SquareOpen)
    } else if b == 93u8 {
        Some(Token::SquareClose)
    } else if b == 123u8 {
        Some(Token::CurlyOpen)
    } else if b == 125u8 {
        Some(Token::CurlyClose)
    } else if b == 59u8 {
        Some(Token::SemiCol)
    } else if b == 58u8 {
        Some(Token::Col)
    } else if b == 44u8 {
        Some(Token::Comma)
    } else if b == 46u8 {
        Some(Token::Period)
    } else {
        None
    }
}

#[derive(Debug)]
pub struct Lexer {
    data: String,
    ptr: usize,
    pub line: usize,
    pub col: usize,
}

impl Lexer {
    /// The text being lexed.
    pub closed spec fn text(&self) -> Seq<char> {
        self.data@
    }

    /// The position reached in the text.
    pub closed spec fn pos(&self) -> int {
        self.ptr as int
    }

    /// The current line.
    pub closed spec fn cur_line(&self) -> int {
        self.line as int
    }

    /// The current column.
    pub closed spec fn cur_col(&self) -> int {
        self.col as int
    }

    pub closed spec fn wf(&self) -> bool {
        &&& vstd::utf8::is_ascii_chars(self.data@)
        &&& self.ptr <= self.data@.len()
        &&& self.data@.len() <= usize::MAX
    }

    /// What `lex` needs: a NUL byte ends the text at or after the current
    /// position, and the line and column cannot overflow on the way there.
    pub closed spec fn lexable(&self) -> bool {
        &&& self.wf()
        &&& nul_from(self.text(), self.pos())
        &&& self.line + self.text().len() <= usize::MAX
        &&& self.col + self.text().len() <= usize::MAX
    }

    /// A lexer at the start of `text`; `Err` unless the text is ASCII.
    pub fn new(text: String) -> (r: Result<Self, ()>)
        ensures
            r is Err <==> !vstd::utf8::is_ascii_chars(text@),
            r matches Ok(l) ==> {
                &&& l.wf()
                &&& l.text() == text@
                &&& l.pos() == 0
                &&& l.cur_line() == 1
                &&& l.cur_col() == 1
                &&& (l.lexable() <==> nul_from(text@, 0) && text@.len() + 1 <= usize::MAX)
            },
    {
        if !text.is_ascii() {
            return Err(());
        }
        let _n = text.as_str().unicode_len();
        Ok(Lexer { data: text, ptr: 0, line: 1, col: 1 })
    }

    fn current(&self) -> (b: u8)
        requires
            self.wf(),
            self.pos() < self.text().len(),
        ensures
            b == self.text()[self.pos()] as u8,
    {
        self.data.as_str().get_ascii(self.ptr)
    }

    fn advance(&mut self, n: usize)
        requires
            old(self).wf(),
            old(self).pos() + n <= old(self).text().len(),
            old(self).text().len() <= usize::MAX,
            old(self).line + n <= usize::MAX,
            old(self).col + n <= usize::MAX,
        ensures
            final(self).wf(),
            final(self).text() == old(self).text(),
            final(self).pos() == old(self).pos() + n,
            (final(self).line as int, final(self).col as int) == line_col(
                old(self).text(),
                old(self).pos(),
                old(self).pos() + n,
                old(self).line as int,
                old(self).col as int,
            ),
    {
        let ghost start = self.ptr as int;
        let ghost l0 = self.line as int;
        let ghost c0 = self.col as int;
        let mut i: usize = 0;
        while i < n
            invariant
                self.wf(),
                self.text() == old(self).text(),
                i <= n,
                self.pos() == start + i,
                start + n <= self.text().len(),
                self.text().len() <= usize::MAX,
                l0 + n <= usize::MAX,
                c0 + n <= usize::MAX,
                c0 >= 0,
                (self.line as int, self.col as int) == line_col(self.text(), start, start + i, l0, c0),
            decreases n - i,
        {
            proof {
                lemma_line_col_bound(self.text(), start, start + i, l0, c0);
            }
            if self.current() == 10u8 {
                self.line = self.line + 1;
                self.col = 1;
            } else {
                self.col = self.col + 1;
            }
            self.ptr = self.ptr + 1;
            i = i + 1;
        }
    }

    /// The length of the text, in bytes and in characters alike.
    fn len(&self) -> (n: usize)
        requires
            self.wf(),
        ensures
            n == self.text().len(),
    {
        let s = self.data.as_str();
        proof {
            vstd::string::is_ascii_spec_bytes(s);
        }
        s.len()
    }

    fn skip_whitespace(&mut self)
        requires
            old(self).wf(),
            old(self).line + (old(self).text().len() - old(self).pos()) <= usize::MAX,
            old(self).col + (old(self).text().len() - old(self).pos()) <= usize::MAX,
        ensures
            final(self).wf(),
            final(self).text() == old(self).text(),
            final(self).pos() == skip_blanks(old(self).text(), old(self).pos()),
            (final(self).line as int, final(self).col as int) == line_col(
                old(self).text(),
                old(self).pos(),
                final(self).pos(),
                old(self).line as int,
                old(self).col as int,
            ),
    {
        let ghost start = self.ptr as int;
        let ghost l0 = self.line as int;
        let ghost c0 = self.col as int;
        let len = self.len();
        while self.ptr < len && is_blank_byte(self.current())
            invariant
                self.wf(),
                self.text() == old(self).text(),
                len == self.text().len(),
                0 <= start <= self.pos() <= self.text().len(),
                l0 + (self.text().len() - start) <= usize::MAX,
                c0 + (self.text().len() - start) <= usize::MAX,
                c0 >= 0,
                skip_blanks(self.text(), self.pos()) == skip_blanks(self.text(), start),
                (self.line as int, self.col as int) == line_col(self.text(), start, self.pos(), l0, c0),
            decreases self.text().len() - self.pos(),
        {
            proof {
                lemma_line_col_bound(self.text(), start, self.pos(), l0, c0);
            }
            let ghost p = self.pos();
            let ghost lc = (self.line as int, self.col as int);
            self.advance(1);
            assert(line_col(self.text(), p, p, lc.0, lc.1) == lc);
        }
    }

    /// Reads the whole text from the current position into lexemes, ending
    /// with an EOF lexeme, as `lex_from` says. On `Err`, the line and column
    /// are those at which no token could be read.
    pub fn lex(&mut self) -> (r: Result<Vec<Lexeme>, ()>)
        requires
            old(self).lexable(),
        ensures
            final(self).wf(),
            final(self).text() == old(self).text(),
            match lex_from(old(self).text(), old(self).pos(), old(self).cur_line(), old(self).cur_col()) {
                Ok(v) => r matches Ok(l) && lexeme_views(l@) == v,
                Err(e) => r is Err && final(self).cur_line() == e.0 && final(self).cur_col() == e.1,
            },
    {
        let ghost text = self.text();
        let ghost p0 = self.pos();
        let ghost l0 = self.line as int;
        let ghost c0 = self.col as int;
        let len = self.len();
        let mut lexeme_list: Vec<Lexeme> = Vec::new();
        loop
            invariant
                self.wf(),
                self.text() == text,
                text == old(self).text(),
                len == text.len(),
                0 <= p0 <= self.pos() <= text.len(),
                p0 == old(self).pos(),
                l0 == old(self).cur_line(),
                c0 == old(self).cur_col(),
                l0 + text.len() <= usize::MAX,
                c0 + text.len() <= usize::MAX,
                c0 >= 0,
                l0 <= self.line <= l0 + (self.pos() - p0),
                self.col <= c0 + (self.pos() - p0),
                lex_from(text, p0, l0, c0) == prepend(
                    lexeme_views(lexeme_list@),
                    lex_from(text, self.pos(), self.line as int, self.col as int),
                ),
            ensures
                self.wf(),
                self.text() == text,
                self.pos() < text.len(),
                text[self.pos()] as u8 == 0,
                lex_from(text, p0, l0, c0) == prepend(
                    lexeme_views(lexeme_list@),
                    lex_from(text, self.pos(), self.line as int, self.col as int),
                ),
            decreases text.len() - self.pos(),
        {
            if self.ptr >= len {
                return Err(());
            }
            if self.current() == 0 {
                assert(text[self.pos()] as u8 == 0);
                break;
            }
            let ghost ptr0 = self.pos();
            let ghost line0 = self.line as int;
            let ghost col0 = self.col as int;
            self.skip_whitespace();
            proof {
                lemma_skip_blanks(text, ptr0);
                lemma_line_col_bound(text, ptr0, self.pos(), line0, col0);
            }
            let ghost lc = (self.line as int, self.col as int);
            let ghost p = self.pos();
            assert(lc == line_col(text, ptr0, p, line0, col0));
            assert(p == skip_blanks(text, ptr0));
            if self.ptr >= len {
                return Err(());
            }
            let rest = self.data.as_str().substring_ascii(self.ptr, len);
            proof {
                vstd::string::is_ascii_spec_bytes(rest);
                assert(rest@ == text.subrange(self.pos(), text.len() as int));
            }
            match find_first(rest) {
                Err(()) => {
                    assert(scan(text.subrange(p, text.len() as int)) is None);
                    assert(lex_from(text, ptr0, line0, col0) == Err::<Seq<LexemeView>, (int, int)>(lc));
                    return Err(());
                },
                Ok(Some((c, n))) => {
                    if n == 0 {
                        assert(scan(text.subrange(p, text.len() as int)) is None);
                        assert(lex_from(text, ptr0, line0, col0) == Err::<Seq<LexemeView>, (int, int)>(lc));
                        return Err(());
                    }
                    let matched = rest.substring_ascii(0, n);
                    let tok = class_to_token(c, matched);
                    let ghost t = tok@;
                    let lx = Lexeme::new(self.line, self.col, tok);
                    assert(lx@ == lexeme_at(t, lc));
                    let ghost acc = lexeme_views(lexeme_list@);
                    lexeme_list.push(lx);
                    assert(lexeme_views(lexeme_list@) =~= acc + seq![lexeme_at(t, lc)]);
                    assert(scan(text.subrange(p, text.len() as int)) == Some((t, n as int)));
                    self.advance(n);
                    proof {
                        lemma_line_col_bound(text, p, p + n, lc.0, lc.1);
                        assert(seq![lexeme_at(t, lc)] + lex_from(text, self.pos(), self.line as int, self.col as int)->Ok_0
                            =~= seq![lexeme_at(t, lc)] + lex_from(text, self.pos(), self.line as int, self.col as int)->Ok_0);
                        assert(acc + (seq![lexeme_at(t, lc)] + lex_from(text, self.pos(), self.line as int, self.col as int)->Ok_0)
                            =~= (acc + seq![lexeme_at(t, lc)]) + lex_from(text, self.pos(), self.line as int, self.col as int)->Ok_0);
                    }
                    continue;
                },
                Ok(None) => {},
            }
            match punct_token(self.current()) {
                None => {
                    return Err(());
                },
                Some(tok) => {
                    let ghost t = tok@;
                    let lx = Lexeme::new(self.line, self.col, tok);
                    assert(lx@ == lexeme_at(t, lc));
                    let ghost acc = lexeme_views(lexeme_list@);
                    lexeme_list.push(lx);
                    assert(lexeme_views(lexeme_list@) =~= acc + seq![lexeme_at(t, lc)]);
                    assert(rest@[0] == text[p]);
                    assert(scan(text.subrange(p, text.len() as int)) == Some((t, 1int)));
                    self.advance(1);
                    proof {
                        lemma_line_col_bound(text, p, p + 1, lc.0, lc.1);
                        assert(acc + (seq![lexeme_at(t, lc)] + lex_from(text, self.pos(), self.line as int, self.col as int)->Ok_0)
                            =~= (acc + seq![lexeme_at(t, lc)]) + lex_from(text, self.pos(), self.line as int, self.col as int)->Ok_0);
                    }
                },
            }
        }
        lexeme_list.push(Lexeme::new(self.line, self.col, Token::EOF));
        Ok(lexeme_list)
    }
}

} // verus!
