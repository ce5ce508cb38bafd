use vstd::prelude::*;
use vstd::arithmetic::power::{pow, lemma_pow_positive};

use crate::token::{Lexeme, LexemeView};
use crate::stmt::{TypeDeclr, TypeDeclrV, type_declr_view};

verus! {

#[derive(Debug)]
pub enum Expr {
    Assign(Box<BinaryExpr>),
    Equality(Box<BinaryExpr>),
    Comparison(Box<BinaryExpr>),
    Term(Box<BinaryExpr>),
    Shift(Box<Expr>, Lexeme, NumLiteral),
    Unary(Lexeme, Box<Expr>),
    Cast(Box<Expr>, Lexeme, TypeDeclr),
    FnCall(Lexeme, Args),
    Primary(Box<PrimaryExpr>),
}

#[derive(Debug)]
pub enum PrimaryExpr {
    Grouping(Expr),
    NumLiteral(NumLiteral, Lexeme),
    Variable(Variable),
    EnumVariant(Lexeme, Lexeme),
    Ref(Lexeme, Variable),
}

#[derive(Debug)]
pub struct BinaryExpr {
    pub left: Expr,
    pub operator: Lexeme,
    pub right: Expr,
}

#[derive(Debug)]
pub enum Variable {
    Id(Lexeme),
    StructField(Box<(Variable, Variable)>),
    Array(Box<Variable>, Expr),
}

#[derive(Debug)]
pub struct Args {
    pub items: Vec<Expr>,
}

/// The abstract syntax of an expression, with each lexeme by its view.
pub enum ExprV {
    Assign(Box<BinaryExprV>),
    Equality(Box<BinaryExprV>),
    Comparison(Box<BinaryExprV>),
    Term(Box<BinaryExprV>),
    Shift(Box<ExprV>, LexemeView, NumLiteral),
    Unary(LexemeView, Box<ExprV>),
    Cast(Box<ExprV>, LexemeView, TypeDeclrV),
    FnCall(LexemeView, Seq<ExprV>),
    Primary(Box<PrimaryExprV>),
}

pub enum PrimaryExprV {
    Grouping(ExprV),
    NumLiteral(NumLiteral, LexemeView),
    Variable(VariableV),
    EnumVariant(LexemeView, LexemeView),
    Ref(LexemeView, VariableV),
}

pub struct BinaryExprV {
    pub left: ExprV,
    pub operator: LexemeView,
    pub right: ExprV,
}

pub enum VariableV {
    Id(LexemeView),
    StructField(Box<(VariableV, VariableV)>),
    Array(Box<VariableV>, ExprV),
}

#[verifier::opaque]
pub open spec fn expr_view(e: Expr) -> ExprV
    decreases e,
{
    match e {
        Expr::Assign(b) => ExprV::Assign(Box::new(binary_view(*b))),
        Expr::Equality(b) => ExprV::Equality(Box::new(binary_view(*b))),
        Expr::Comparison(b) => ExprV::Comparison(Box::new(binary_view(*b))),
        Expr::Term(b) => ExprV::Term(Box::new(binary_view(*b))),
        Expr::Shift(v, op, n) => ExprV::Shift(Box::new(expr_view(*v)), op@, n),
        Expr::Unary(op, v) => ExprV::Unary(op@, Box::new(expr_view(*v))),
        Expr::Cast(v, op, t) => ExprV::Cast(Box::new(expr_view(*v)), op@, type_declr_view(t)),
        Expr::FnCall(name, a) => ExprV::FnCall(name@, exprs_view(a.items@)),
        Expr::Primary(p) => ExprV::Primary(Box::new(primary_view(*p))),
    }
}

#[verifier::opaque]
pub open spec fn binary_view(b: BinaryExpr) -> BinaryExprV
    decreases b,
{
    BinaryExprV { left: expr_view(b.left), operator: b.operator@, right: expr_view(b.right) }
}

#[verifier::opaque]
pub open spec fn primary_view(p: PrimaryExpr) -> PrimaryExprV
    decreases p,
{
    match p {
        PrimaryExpr::Grouping(e) => PrimaryExprV::Grouping(expr_view(e)),
        PrimaryExpr::NumLiteral(n, l) => PrimaryExprV::NumLiteral(n, l@),
        PrimaryExpr::Variable(v) => PrimaryExprV::Variable(variable_view(v)),
        PrimaryExpr::EnumVariant(a, b) => PrimaryExprV::EnumVariant(a@, b@),
        PrimaryExpr::Ref(op, v) => PrimaryExprV::Ref(op@, variable_view(v)),
    }
}

#[verifier::opaque]
pub open spec fn variable_view(v: Variable) -> VariableV
    decreases v,
{
    match v {
        Variable::Id(l) => VariableV::Id(l@),
        Variable::StructField(b) => VariableV::StructField(Box::new((variable_view(b.0), variable_view(b.1)))),
        Variable::Array(h, i) => VariableV::Array(Box::new(variable_view(*h)), expr_view(i)),
    }
}

#[verifier::opaque]
pub open spec fn exprs_view(s: Seq<Expr>) -> Seq<ExprV>
    decreases s,
{
    if s.len() == 0 {
        seq![]
    } else {
        seq![expr_view(s[0])] + exprs_view(s.drop_first())
    }
}

/// `expr_view` unfolded once.
pub proof fn unfold_expr_view(e: Expr)
    ensures
        expr_view(e) == ({
    match e {
        Expr::Assign(b) => ExprV::Assign(Box::new(binary_view(*b))),
        Expr::Equality(b) => ExprV::Equality(Box::new(binary_view(*b))),
        Expr::Comparison(b) => ExprV::Comparison(Box::new(binary_view(*b))),
        Expr::Term(b) => ExprV::Term(Box::new(binary_view(*b))),
        Expr::Shift(v, op, n) => ExprV::Shift(Box::new(expr_view(*v)), op@, n),
        Expr::Unary(op, v) => ExprV::Unary(op@, Box::new(expr_view(*v))),
        Expr::Cast(v, op, t) => ExprV::Cast(Box::new(expr_view(*v)), op@, type_declr_view(t)),
        Expr::FnCall(name, a) => ExprV::FnCall(name@, exprs_view(a.items@)),
        Expr::Primary(p) => ExprV::Primary(Box::new(primary_view(*p))),
    }
        }),
{
    reveal(expr_view);
    reveal(binary_view);
    reveal(primary_view);
    reveal(exprs_view);
}

/// `binary_view` unfolded once.
pub proof fn unfold_binary_view(b: BinaryExpr)
    ensures
        binary_view(b) == ({
    BinaryExprV { left: expr_view(b.left), operator: b.operator@, right: expr_view(b.right) }
        }),
{
    reveal(binary_view);
    reveal(expr_view);
}

/// `primary_view` unfolded once.
pub proof fn unfold_primary_view(p: PrimaryExpr)
    ensures
        primary_view(p) == ({
    match p {
        PrimaryExpr::Grouping(e) => PrimaryExprV::Grouping(expr_view(e)),
        PrimaryExpr::NumLiteral(n, l) => PrimaryExprV::NumLiteral(n, l@),
        PrimaryExpr::Variable(v) => PrimaryExprV::Variable(variable_view(v)),
        PrimaryExpr::EnumVariant(a, b) => PrimaryExprV::EnumVariant(a@, b@),
        PrimaryExpr::Ref(op, v) => PrimaryExprV::Ref(op@, variable_view(v)),
    }
        }),
{
    reveal(primary_view);
    reveal(expr_view);
    reveal(variable_view);
}

/// `variable_view` unfolded once.
pub proof fn unfold_variable_view(v: Variable)
    ensures
        variable_view(v) == ({
    match v {
        Variable::Id(l) => VariableV::Id(l@),
        Variable::StructField(b) => VariableV::StructField(Box::new((variable_view(b.0), variable_view(b.1)))),
        Variable::Array(h, i) => VariableV::Array(Box::new(variable_view(*h)), expr_view(i)),
    }
        }),
{
    reveal(variable_view);
    reveal(expr_view);
}

/// `exprs_view` unfolded once.
pub proof fn unfold_exprs_view(s: Seq<Expr>)
    ensures
        exprs_view(s) == ({
    if s.len() == 0 {
        seq![]
    } else {
        seq![expr_view(s[0])] + exprs_view(s.drop_first())
    }
        }),
{
    reveal(exprs_view);
    reveal(expr_view);
}


pub proof fn lemma_exprs_view_push(s: Seq<Expr>, e: Expr)
    ensures
        exprs_view(s.push(e)) == exprs_view(s).push(expr_view(e)),
    decreases s.len(),
{
    let se = s.push(e);
    unfold_exprs_view(se);
    unfold_exprs_view(s);
    if s.len() == 0 {
        assert(se.drop_first() =~= Seq::<Expr>::empty());
        unfold_exprs_view(se.drop_first());
        assert(exprs_view(se) =~= seq![expr_view(e)]);
        assert(exprs_view(s) =~= Seq::<ExprV>::empty());
    } else {
        lemma_exprs_view_push(s.drop_first(), e);
        assert(se.drop_first() =~= s.drop_first().push(e));
        assert(exprs_view(se) =~= exprs_view(s).push(expr_view(e)));
    }
}

pub proof fn lemma_exprs_view_one(e: Expr)
    ensures
        exprs_view(seq![e]) == seq![expr_view(e)],
{
    lemma_exprs_view_push(seq![], e);
    assert(seq![e] =~= Seq::<Expr>::empty().push(e));
    unfold_exprs_view(Seq::<Expr>::empty());
    assert(exprs_view(Seq::<Expr>::empty()) =~= Seq::<ExprV>::empty());
}

/// The view of a sequence of expressions is the sequence of their views.
pub proof fn lemma_exprs_view_index(s: Seq<Expr>)
    ensures
        exprs_view(s).len() == s.len(),
        forall|i: int| 0 <= i < s.len() ==> #[trigger] exprs_view(s)[i] == expr_view(s[i]),
    decreases s.len(),
{
    unfold_exprs_view(s);
    if s.len() > 0 {
        lemma_exprs_view_index(s.drop_first());
        assert forall|i: int| 0 <= i < s.len() implies #[trigger] exprs_view(s)[i] == expr_view(s[i]) by {
            if i > 0 {
                assert(s.drop_first()[i - 1] == s[i]);
            }
        }
    }
}

pub proof fn lemma_exprs_view_empty()
    ensures
        exprs_view(Seq::<Expr>::empty()) == Seq::<ExprV>::empty(),
{
    unfold_exprs_view(Seq::<Expr>::empty());
}

impl View for NumLiteral {
    type V = NumLiteral;

    open spec fn view(&self) -> NumLiteral {
        *self
    }
}

impl View for Expr {
    type V = ExprV;

    open spec fn view(&self) -> ExprV {
        expr_view(*self)
    }
}

impl View for PrimaryExpr {
    type V = PrimaryExprV;

    open spec fn view(&self) -> PrimaryExprV {
        primary_view(*self)
    }
}

impl View for BinaryExpr {
    type V = BinaryExprV;

    open spec fn view(&self) -> BinaryExprV {
        binary_view(*self)
    }
}

impl View for Variable {
    type V = VariableV;

    open spec fn view(&self) -> VariableV {
        variable_view(*self)
    }
}

impl View for Args {
    type V = Seq<ExprV>;

    open spec fn view(&self) -> Seq<ExprV> {
        exprs_view(self.items@)
    }
}

/// A number literal, tagged with its width and signedness.
#[derive(Clone, Copy, PartialEq, Eq, Structural, Debug)]
pub enum NumLiteral {
    U8(u8),
    I8(i8),
    U16(u16),
    I16(i16),
    U32(u32),
    I32(i32),
    U64(u64),
    I64(i64),
}

/// Byte `n` (counting from the least significant) of the two's complement
/// representation of `v`, sign extended without bound.
pub open spec fn byte_of(v: int, n: nat) -> u8
    decreases n,
{
    if n == 0 {
        (v % 256) as u8
    } else {
        byte_of(v / 256, (n - 1) as nat)
    }
}

impl NumLiteral {
    /// The integer this literal denotes.
    pub open spec fn value(self) -> int {
        match self {
            NumLiteral::U8(n) => n as int,
            NumLiteral::I8(n) => n as int,
            NumLiteral::U16(n) => n as int,
            NumLiteral::I16(n) => n as int,
            NumLiteral::U32(n) => n as int,
            NumLiteral::I32(n) => n as int,
            NumLiteral::U64(n) => n as int,
            NumLiteral::I64(n) => n as int,
        }
    }

    pub open spec fn spec_size(self) -> u16 {
        match self {
            NumLiteral::U8(_) | NumLiteral::I8(_) => 1,
            NumLiteral::U16(_) | NumLiteral::I16(_) => 2,
            NumLiteral::U32(_) | NumLiteral::I32(_) => 4,
            NumLiteral::U64(_) | NumLiteral::I64(_) => 8,
        }
    }

    /// Size of the literal in bytes.
    pub fn size(&self) -> (s: u16)
        ensures
            s == self.spec_size(),
    {
        match self {
            Self::U8(_) => 1,
            Self::I8(_) => 1,
            Self::U16(_) => 2,
            Self::I16(_) => 2,
            Self::U32(_) => 4,
            Self::I32(_) => 4,
            Self::U64(_) => 8,
            Self::I64(_) => 8,
        }
    }

    /// The literal's value, widened without loss.
    pub fn as_i128(&self) -> (v: i128)
        ensures
            v == self.value(),
    {
        match self {
            NumLiteral::U8(n) => *n as i128,
            NumLiteral::I8(n) => *n as i128,
            NumLiteral::U16(n) => *n as i128,
            NumLiteral::I16(n) => *n as i128,
            NumLiteral::U32(n) => *n as i128,
            NumLiteral::I32(n) => *n as i128,
            NumLiteral::U64(n) => *n as i128,
            NumLiteral::I64(n) => *n as i128,
        }
    }

    /// Byte `nth` of the literal's little-endian two's complement
    /// representation; past its size, the sign extension (0 or 255).
    pub fn get_nth_byte(&self, nth: u16) -> (b: u8)
        ensures
            b == byte_of(self.value(), nth as nat),
    {
        let mut x: i128 = self.as_i128();
        let mut i: u16 = 0;
        while i < nth
            invariant
                i <= nth,
                byte_of(self.value(), nth as nat) == byte_of(x as int, (nth - i) as nat),
            decreases nth - i,
        {
            proof {
                lemma_shift_is_div(x);
                lemma_byte_of_div(x as int, (nth - i - 1) as nat);
            }
            x = x >> 8u32;
            i = i + 1;
        }
        proof {
            lemma_trunc_is_mod(x);
        }
        x as u8
    }
}

/// The bytes past the top of 0 are 0, and those past the top of -1 are 255.
proof fn lemma_byte_of_fill(n: nat)
    ensures
        byte_of(0, n) == 0,
        byte_of(-1, n) == 255,
    decreases n,
{
    if n > 0 {
        lemma_byte_of_fill((n - 1) as nat);
        assert(-1int / 256 == -1);
    }
}

/// Past the `k` bytes that hold a value of `k` bytes, every byte is its
/// sign extension.
proof fn lemma_byte_of_high(v: int, k: nat, n: nat)
    requires
        1 <= k <= n,
        -pow(256, k) / 2 <= v < pow(256, k),
    ensures
        byte_of(v, n) == if v < 0 {
            255u8
        } else {
            0u8
        },
    decreases k,
{
    reveal(pow);
    lemma_byte_of_div(v, (n - 1) as nat);
    if k == 1 {
        assert(pow(256, 1) == 256) by {
            reveal(pow);
        }
        assert(-1 <= v / 256 <= 0);
        lemma_byte_of_fill((n - 1) as nat);
        if v < 0 {
            assert(v / 256 == -1);
        } else {
            assert(v / 256 == 0);
        }
    } else {
        let p = pow(256, (k - 1) as nat);
        assert(pow(256, k) == 256 * p) by {
            reveal(pow);
        }
        assert(p > 0) by {
            lemma_pow_positive(256, (k - 1) as nat);
        }
        assert(-p / 2 <= v / 256 < p) by (nonlinear_arith)
            requires
                -(256 * p) / 2 <= v < 256 * p,
                p > 0,
        ;
        lemma_byte_of_high(v / 256, (k - 1) as nat, (n - 1) as nat);
        assert((v / 256 < 0) == (v < 0));
    }
}

/// Past its size, a literal's bytes are its sign extension: 0 for a value
/// that is not negative, 255 for a negative one.
pub proof fn lemma_bytes_past_size(l: NumLiteral, n: nat)
    requires
        n >= l.spec_size(),
    ensures
        byte_of(l.value(), n) == if l.value() < 0 {
            255u8
        } else {
            0u8
        },
{
    assert(pow(256, 1) == 256) by {
        reveal_with_fuel(pow, 2);
    }
    assert(pow(256, 2) == 65536) by {
        reveal_with_fuel(pow, 3);
    }
    assert(pow(256, 4) == 0x1_0000_0000) by {
        reveal_with_fuel(pow, 5);
    }
    assert(pow(256, 8) == 0x1_0000_0000_0000_0000) by {
        reveal_with_fuel(pow, 9);
    }
    lemma_byte_of_high(l.value(), l.spec_size() as nat, n);
}

proof fn lemma_byte_of_div(v: int, n: nat)
    ensures
        byte_of(v, n + 1) == byte_of(v / 256, n),
{
}

proof fn lemma_shift_is_div(x: i128)
    ensures
        (x >> 8u32) as int == x as int / 256,
{
    assert((x >> 8u32) as int == x as int / 256) by (bit_vector);
}

proof fn lemma_trunc_is_mod(x: i128)
    ensures
        x as u8 == byte_of(x as int, 0),
{
    assert(x as u8 == (x as int % 256) as u8) by (bit_vector);
}


/// Byte `n` of a 128-bit value is the value shifted right by `8 * n` bits
/// and cut to its lowest 8 bits.
pub proof fn lemma_byte_of_is_shift(x: i128, n: u32)
    requires
        n < 16,
    ensures
        byte_of(x as int, n as nat) == ((x >> ((8 * n) as u32)) as u8),
    decreases n,
{
    if n == 0 {
        assert(x >> 0u32 == x) by (bit_vector);
        lemma_trunc_is_mod(x);
    } else {
        let y = x >> 8u32;
        lemma_shift_is_div(x);
        lemma_byte_of_div(x as int, (n - 1) as nat);
        lemma_byte_of_is_shift(y, (n - 1) as u32);
        assert((x >> 8u32) >> ((8 * (n - 1)) as u32) == x >> ((8 * n) as u32)) by (bit_vector)
            requires
                1 <= n < 16,
        ;
    }
}

/// Byte `nth` of a literal, as `get_nth_byte` gives it, is the literal's
/// value shifted right by `8 * nth` bits and cut to 8 bits; past the
/// literal's own bytes this is its sign extension.
pub proof fn lemma_nth_byte_is_shift(lit: NumLiteral, nth: u16)
    requires
        nth < 16,
    ensures
        byte_of(lit.value(), nth as nat) == (((lit.value() as i128) >> ((8 * nth) as u32)) as u8),
{
    lemma_byte_of_is_shift(lit.value() as i128, nth as u32);
}

/// The first lexeme of an expression, as the source reads it.
#[verifier::opaque]
pub open spec fn first_of_expr(e: ExprV) -> LexemeView
    decreases e,
{
    match e {
        ExprV::Assign(b) => first_of_expr(b.left),
        ExprV::Equality(b) => first_of_expr(b.left),
        ExprV::Comparison(b) => first_of_expr(b.left),
        ExprV::Term(b) => first_of_expr(b.left),
        ExprV::Shift(v, _, _) => first_of_expr(*v),
        ExprV::Unary(op, _) => op,
        ExprV::Cast(v, _, _) => first_of_expr(*v),
        ExprV::FnCall(name, _) => name,
        ExprV::Primary(p) => match *p {
            PrimaryExprV::EnumVariant(n, _) => n,
            PrimaryExprV::Grouping(g) => first_of_expr(g),
            PrimaryExprV::NumLiteral(_, l) => l,
            PrimaryExprV::Ref(op, _) => op,
            PrimaryExprV::Variable(v) => first_of_var(v),
        },
    }
}

/// The first lexeme of a variable access.
#[verifier::opaque]
pub open spec fn first_of_var(v: VariableV) -> LexemeView
    decreases v,
{
    match v {
        VariableV::Array(n, _) => first_of_var(*n),
        VariableV::Id(id) => id,
        VariableV::StructField(s) => first_of_var(s.0),
    }
}

impl Variable {
    pub fn get_first_lexeme(&self) -> (l: Lexeme)
        ensures
            l@ == first_of_var(self@),
        decreases self,
    {
        proof {
            unfold_variable_view(*self);
            reveal(first_of_var);
        }
        match self {
            Variable::Array(n, _) => n.get_first_lexeme(),
            Variable::Id(id) => id.clone(),
            Variable::StructField(s) => s.0.get_first_lexeme(),
        }
    }
}

impl Expr {
    pub fn get_first_lexeme(&self) -> (l: Lexeme)
        ensures
            l@ == first_of_expr(self@),
        decreases self,
    {
        proof {
            unfold_expr_view(*self);
            reveal(first_of_expr);
        }
        match self {
            Expr::Assign(a) => {
                proof {
                    unfold_binary_view(**a);
                }
                a.left.get_first_lexeme()
            },
            Expr::Cast(v, _, _) => v.get_first_lexeme(),
            Expr::Comparison(b) => {
                proof {
                    unfold_binary_view(**b);
                }
                b.left.get_first_lexeme()
            },
            Expr::Equality(b) => {
                proof {
                    unfold_binary_view(**b);
                }
                b.left.get_first_lexeme()
            },
            Expr::Shift(v, _, _) => v.get_first_lexeme(),
            Expr::Term(b) => {
                proof {
                    unfold_binary_view(**b);
                }
                b.left.get_first_lexeme()
            },
            Expr::Unary(left, _) => left.clone(),
            Expr::FnCall(name, _) => name.clone(),
            Expr::Primary(p) => {
                proof {
                    unfold_primary_view(**p);
                }
                match &**p {
                    PrimaryExpr::EnumVariant(n, _) => n.clone(),
                    PrimaryExpr::Grouping(g) => g.get_first_lexeme(),
                    PrimaryExpr::NumLiteral(_, l) => l.clone(),
                    PrimaryExpr::Ref(op, _) => op.clone(),
                    PrimaryExpr::Variable(v) => v.get_first_lexeme(),
                }
            },
        }
    }
}

} // verus!
