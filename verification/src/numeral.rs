//! Numbers written in decimal.

use crate::text::chars_of;
use vstd::prelude::*;
use vstd::string::*;

verus! {

/// The character for a decimal digit.
pub open spec fn digit(d: nat) -> char {
    (48 + d) as char
}

/// A natural number in decimal, without leading zeros.
pub open spec fn decimal(n: nat) -> Seq<char>
    decreases n,
{
    if n < 10 {
        seq![digit(n)]
    } else {
        decimal(n / 10).push(digit(n % 10))
    }
}

/// An integer in decimal, with a minus sign when it is negative.
pub open spec fn decimal_int(n: int) -> Seq<char> {
    if n < 0 {
        seq!['-'] + decimal((-n) as nat)
    } else {
        decimal(n as nat)
    }
}

/// Appends a number in decimal.
pub fn push_decimal(out: &mut String, n: u128)
    ensures
        final(out)@ == old(out)@ + decimal(n as nat),
    decreases n,
{
    if n >= 10 {
        push_decimal(out, n / 10);
    }
    let d: u8 = 48 + (n % 10) as u8;
    out.push(d as char);
    proof {
        let front = if n < 10 {
            old(out)@
        } else {
            old(out)@ + decimal((n / 10) as nat)
        };
        assert(d as char == digit((n % 10) as nat));
        assert(front.push(digit((n % 10) as nat)) == old(out)@ + decimal(n as nat));
    }
}

/// A number in decimal.
pub fn decimal_text(n: u64) -> (r: String)
    ensures
        r@ == decimal(n as nat),
{
    let mut out = String::new();
    push_decimal(&mut out, n as u128);
    assert(Seq::<char>::empty() + decimal(n as nat) == decimal(n as nat));
    out
}

/// A signed number in decimal.
pub fn signed_text(n: i32) -> (r: String)
    ensures
        r@ == decimal_int(n as int),
{
    let mut out = String::new();
    if n < 0 {
        out.push('-');
        let m: i64 = -(n as i64);
        push_decimal(&mut out, m as u128);
    } else {
        push_decimal(&mut out, n as u128);
    }
    assert(out@ == decimal_int(n as int));
    out
}

/// Whether a character is a decimal digit.
pub open spec fn is_digit(c: char) -> bool {
    '0' <= c <= '9'
}

/// The number that a row of decimal digits writes.
pub open spec fn digits_value(s: Seq<char>) -> nat
    decreases s.len(),
{
    if s.len() == 0 {
        0
    } else {
        digits_value(s.drop_last()) * 10 + (s.last() as nat - 48) as nat
    }
}

/// The row of digits of a number with an optional plus sign.
pub open spec fn unsigned_digits(s: Seq<char>) -> Seq<char> {
    if s.len() > 0 && s[0] == '+' {
        s.skip(1)
    } else {
        s
    }
}

/// The `u32` that a text writes: digits after an optional plus sign, not above the maximum.
pub open spec fn parsed_u32(s: Seq<char>) -> Option<u32> {
    let digits = unsigned_digits(s);
    if digits.len() > 0 && (forall|i: int| 0 <= i < digits.len() ==> is_digit(#[trigger] digits[i]))
        && digits_value(digits) <= u32::MAX {
        Some(digits_value(digits) as u32)
    } else {
        None
    }
}

proof fn lemma_digits_value_grows(s: Seq<char>, n: int)
    requires
        0 <= n <= s.len(),
    ensures
        digits_value(s.take(n)) <= digits_value(s),
    decreases s.len(),
{
    if n < s.len() {
        lemma_digits_value_grows(s.drop_last(), n);
        assert(s.drop_last().take(n) == s.take(n));
    } else {
        assert(s.take(n) == s);
    }
}

/// Reads a `u32` in decimal.
pub fn parse_u32(s: &str) -> (r: Option<u32>)
    ensures
        r == parsed_u32(s@),
{
    let x = chars_of(s);
    let n = x.len();
    let start: usize = if n > 0 && x[0] == '+' {
        1
    } else {
        0
    };
    let ghost digits = unsigned_digits(s@);
    assert(digits == x@.skip(start as int));
    if n == start {
        return None;
    }
    let mut value: u64 = 0;
    let mut i: usize = start;
    assert(digits.take(0).len() == 0);
    while i < n
        invariant
            start <= i <= n,
            n == x@.len(),
            start <= 1,
            digits == unsigned_digits(s@),
            digits == x@.skip(start as int),
            value == digits_value(digits.take(i - start)),
            value <= u32::MAX,
            forall|j: int| 0 <= j < i - start ==> is_digit(#[trigger] digits[j]),
        decreases n - i,
    {
        let c = x[i];
        assert(c == digits[i - start]);
        if c < '0' || c > '9' {
            return None;
        }
        assert(digits.take(i - start + 1).drop_last() == digits.take(i - start));
        value = value * 10 + (c as u64 - 48);
        i = i + 1;
        if value > u32::MAX as u64 {
            proof {
                lemma_digits_value_grows(digits, i - start);
            }
            return None;
        }
    }
    assert(digits.take(i - start) == digits);
    Some(value as u32)
}

// ---- Laws --------------------------------------------------------------------------------------

/// A number in decimal is a row of digits that reads as that number again, and begins with a zero
/// only where it is zero.
pub proof fn law_decimals_read_back(n: nat)
    ensures
        decimal(n).len() > 0,
        digits_value(decimal(n)) == n,
        forall|i: int| 0 <= i < decimal(n).len() ==> is_digit(#[trigger] decimal(n)[i]),
        decimal(n)[0] == '0' ==> n == 0,
        n <= u32::MAX ==> parsed_u32(decimal(n)) == Some(n as u32),
    decreases n,
{
    reveal_with_fuel(digits_value, 2);
    if n < 10 {
        assert(decimal(n).drop_last().len() == 0);
    } else {
        law_decimals_read_back(n / 10);
        let front = decimal(n / 10);
        assert(decimal(n).drop_last() == front);
        assert(decimal(n)[0] == front[0]);
        assert(n / 10 * 10 + n % 10 == n);
        assert forall|i: int| 0 <= i < decimal(n).len() implies is_digit(
            #[trigger] decimal(n)[i],
        ) by {
            if i < front.len() {
                assert(decimal(n)[i] == front[i]);
            }
        }
    }
}

/// A digit stands for its place after the zero, and each further digit makes the number ten times
/// as large before it is added.
pub proof fn law_digits_count(d: nat, front: Seq<char>)
    requires
        d < 10,
    ensures
        decimal(d) == seq![('0' as int + d) as char],
        digits_value(Seq::empty()) == 0,
        digits_value(front.push(('0' as int + d) as char)) == 10 * digits_value(front) + d,
{
    assert(front.push(('0' as int + d) as char).drop_last() == front);
}

/// A negative number has a minus sign before its amount; no other number has a sign.
pub proof fn law_minus_sign(n: int)
    ensures
        n < 0 ==> decimal_int(n) == seq!['-'] + decimal_int(-n),
        n >= 0 ==> decimal_int(n) == decimal(n as nat),
{
}

/// A text reads as a number only where it is digits, behind one plus sign at most; and a plus sign
/// changes nothing.
pub proof fn law_numbers_are_digits(s: Seq<char>)
    ensures
        parsed_u32(s) is Some && s[0] != '+' ==> forall|i: int|
            0 <= i < s.len() ==> is_digit(#[trigger] s[i]),
        parsed_u32(Seq::empty()) is None,
        parsed_u32(s) is Some && s[0] != '+' ==> parsed_u32(seq!['+'] + s) == parsed_u32(s),
        parsed_u32(s) is Some && s[0] != '+' ==> parsed_u32(s)->0 == digits_value(s),
{
    assert((seq!['+'] + s).skip(1) == s);
}

} // verus!
