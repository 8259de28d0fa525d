//! The text form of a port number.
//!
//! A port is written as an unsigned decimal number that fits in 16 bits: an
//! optional `+`, then one or more of the digits `0` to `9`.  Leading zeros are
//! read as part of the number.  Nothing is ever truncated: text that names a
//! larger number is no port.

use vstd::prelude::*;

verus! {

/// `c` is one of the digits `0` to `9`.
pub open spec fn is_digit(c: char) -> bool {
    '0' <= c && c <= '9'
}

/// The number that the digit `c` stands for.
pub open spec fn digit_value(c: char) -> nat
    recommends
        is_digit(c),
{
    (c as int - '0' as int) as nat
}

/// Every character of `s` is a digit.
pub open spec fn all_digits(s: Seq<char>) -> bool {
    forall|i: int| 0 <= i < s.len() ==> is_digit(#[trigger] s[i])
}

/// The number that the digits of `s` write in base ten; 0 for the empty text.
pub open spec fn decimal_value(s: Seq<char>) -> nat
    recommends
        all_digits(s),
    decreases s.len(),
{
    if s.len() == 0 {
        0
    } else {
        10 * decimal_value(s.drop_last()) + digit_value(s.last())
    }
}

/// `s` without its sign, if it starts with `+`.
pub open spec fn unsigned_part(s: Seq<char>) -> Seq<char> {
    if s.len() > 0 && s[0] == '+' {
        s.drop_first()
    } else {
        s
    }
}

/// `s` writes a port number.
pub open spec fn is_port(s: Seq<char>) -> bool {
    let d = unsigned_part(s);
    d.len() > 0 && all_digits(d) && decimal_value(d) <= u16::MAX
}

/// The port that `s` writes, if it writes one.
pub open spec fn port_of(s: Seq<char>) -> Option<u16> {
    if is_port(s) {
        Some(decimal_value(unsigned_part(s)) as u16)
    } else {
        None
    }
}

/// A number written in digits does not get smaller when more digits follow.
pub proof fn lemma_decimal_value_grows(s: Seq<char>, n: int)
    requires
        0 <= n <= s.len(),
    ensures
        decimal_value(s.take(n)) <= decimal_value(s),
    decreases s.len() - n,
{
    if n == s.len() {
        assert(s.take(n) == s);
    } else {
        lemma_decimal_value_grows(s, n + 1);
        assert(s.take(n + 1).drop_last() == s.take(n));
    }
}

/// The port that is read is the number that is written, and text that writes
/// no number, or a number above 65535, is no port: nothing is cut to fit.
pub proof fn port_is_never_truncated(s: Seq<char>)
    ensures
        port_of(s) matches Some(port) ==> port as nat == decimal_value(unsigned_part(s)),
        port_of(s) is Some <==> is_port(s),
        decimal_value(unsigned_part(s)) > u16::MAX ==> port_of(s) is None,
        !all_digits(unsigned_part(s)) || unsigned_part(s).len() == 0 ==> port_of(s) is None,
{
}

/// Reads a port number from its text form.
///
/// Returns the port exactly when `s` is an optional `+` followed by one or more
/// decimal digits whose value is at most 65535, and `None` for every other
/// text: empty, non-numeric, negative or too large.
pub fn parse_port(s: &str) -> (r: Option<u16>)
    ensures
        r == port_of(s@),
{
    let chars = crate::text::chars_of(s);
    let start: usize = if chars.len() > 0 && chars[0] == '+' {
        1
    } else {
        0
    };
    let ghost d = unsigned_part(s@);
    assert(d == chars@.skip(start as int));
    if start == chars.len() {
        return None;
    }
    let mut value: u32 = 0;
    let mut i: usize = start;
    while i < chars.len()
        invariant
            start <= i <= chars.len(),
            d == unsigned_part(s@),
            d == chars@.skip(start as int),
            all_digits(d.take(i - start)),
            value == decimal_value(d.take(i - start)),
            value <= u16::MAX,
        decreases chars.len() - i,
    {
        let c = chars[i];
        if c < '0' || c > '9' {
            assert(!is_digit(d[i - start]));
            return None;
        }
        let digit: u32 = c as u32 - '0' as u32;
        let next: u32 = value * 10 + digit;
        proof {
            let k = i - start;
            assert(d.take(k + 1).drop_last() == d.take(k));
            assert(d.take(k + 1).last() == c);
            assert(next == decimal_value(d.take(k + 1)));
            assert forall|j: int| 0 <= j < d.take(k + 1).len() implies is_digit(
                #[trigger] d.take(k + 1)[j],
            ) by {
                if j < k {
                    assert(d.take(k)[j] == d.take(k + 1)[j]);
                }
            }
        }
        if next > 65535 {
            proof {
                lemma_decimal_value_grows(d, i - start + 1);
            }
            return None;
        }
        value = next;
        i += 1;
    }
    assert(d.take(i - start) == d);
    Some(value as u16)
}

} // verus!
