use vstd::prelude::*;

use vstd::string::StrSliceExecFns;

verus! {

pub open spec fn is_digit(c: char) -> bool {
    '0' <= c <= '9'
}

/// The value of a string of decimal digits.
#[verifier::opaque]
pub open spec fn digits_value(s: Seq<char>) -> int
    decreases s.len(),
{
    if s.len() == 0 {
        0
    } else {
        digits_value(s.drop_last()) * 10 + (s.last() as int - '0' as int)
    }
}

/// The value of a decimal numeral as unsigned integer parsing reads it: an
/// optional `+`, then one or more ASCII digits and nothing else.
#[verifier::opaque]
pub open spec fn decimal_value(s: Seq<char>) -> Option<int> {
    let d = unsigned_digits(s);
    if d.len() > 0 && all_digits(d) {
        Some(digits_value(d))
    } else {
        None
    }
}

/// What follows the optional `+` sign.
pub open spec fn unsigned_digits(s: Seq<char>) -> Seq<char> {
    if s.len() > 0 && s[0] == '+' {
        s.drop_first()
    } else {
        s
    }
}

pub open spec fn all_digits(d: Seq<char>) -> bool {
    forall|i: int| 0 <= i < d.len() ==> is_digit(#[trigger] d[i])
}

pub proof fn lemma_digits_value_nonneg(s: Seq<char>)
    requires
        forall|i: int| 0 <= i < s.len() ==> is_digit(#[trigger] s[i]),
    ensures
        digits_value(s) >= 0,
    decreases s.len(),
{
    reveal(digits_value);
    if s.len() > 0 {
        lemma_digits_value_nonneg(s.drop_last());
    }
}

/// A longer run of digits is worth at least as much as its prefix.
proof fn lemma_digits_value_grows(s: Seq<char>, i: int)
    requires
        0 <= i <= s.len(),
        forall|j: int| 0 <= j < s.len() ==> is_digit(#[trigger] s[j]),
    ensures
        digits_value(s.take(i)) <= digits_value(s),
    decreases s.len() - i,
{
    reveal(digits_value);
    if i < s.len() {
        lemma_digits_value_grows(s, i + 1);
        assert(s.take(i + 1).drop_last() =~= s.take(i));
        lemma_digits_value_nonneg(s.take(i));
    } else {
        assert(s.take(i) =~= s);
    }
}

/// Reads `s` as a decimal numeral no greater than `max`.
pub fn parse_decimal(s: &str, max: u64) -> (r: Option<u64>)
    requires
        9 <= max,
    ensures
        r matches Some(n) ==> decimal_value(s@) == Some(n as int) && n <= max,
        r is None <==> (decimal_value(s@) is None || decimal_value(s@).unwrap() > max),
{
    proof {
        reveal(decimal_value);
        reveal(digits_value);
    }
    let n = s.unicode_len();
    let mut i: usize = 0;
    if n > 0 && s.get_char(0) == '+' {
        i = 1;
    }
    let ghost d = unsigned_digits(s@);
    let ghost start = i as int;
    assert(d =~= s@.subrange(start, n as int));
    if i >= n {
        return None;
    }
    let mut value: u64 = 0;
    while i < n
        invariant
            n == s@.len(),
            start == (if s@.len() > 0 && s@[0] == '+' { 1int } else { 0int }),
            d == s@.subrange(start, n as int),
            d == unsigned_digits(s@),
            9 <= max,
            start <= i <= n,
            forall|j: int| start <= j < i ==> is_digit(#[trigger] s@[j]),
            value == digits_value(s@.subrange(start, i as int)),
            value <= max,
        decreases n - i,
    {
        proof {
            reveal(decimal_value);
            reveal(digits_value);
        }
        let c = s.get_char(i);
        if !('0' <= c && c <= '9') {
            assert(!is_digit(d[i - start]));
            assert(!all_digits(d));
            assert(decimal_value(s@) is None);
            return None;
        }
        let digit = (c as u32 - '0' as u32) as u64;
        assert(s@.subrange(start, i + 1).drop_last() =~= s@.subrange(start, i as int));
        if value > (max - digit) / 10 {
            proof {
                assert(digits_value(s@.subrange(start, i + 1)) > max) by (nonlinear_arith)
                    requires
                        value > (max - digit) / 10,
                        digit <= 9,
                        9 <= max,
                        digits_value(s@.subrange(start, i + 1)) == value * 10 + digit,
                ;
                if all_digits(d) {
                    lemma_digits_value_grows(d, i + 1 - start);
                    assert(d.take(i + 1 - start) =~= s@.subrange(start, i + 1));
                    assert(digits_value(d) > max);
                    assert(decimal_value(s@) == Some(digits_value(d)));
                } else {
                    assert(decimal_value(s@) is None);
                }
            }
            return None;
        }
        value = value * 10 + digit;
        i = i + 1;
    }
    assert(s@.subrange(start, n as int) =~= d);
    Some(value)
}

} // verus!
