//! Hexadecimal notation: reading a literal and writing a value's digits.

use vstd::prelude::*;
use crate::text::chars_of;

verus! {

/// The value of a hexadecimal digit, in either case; `None` for any other
/// character.
pub open spec fn digit_value(c: char) -> Option<nat> {
    if '0' <= c && c <= '9' {
        Some((c as int - '0' as int) as nat)
    } else if 'a' <= c && c <= 'f' {
        Some((c as int - 'a' as int + 10) as nat)
    } else if 'A' <= c && c <= 'F' {
        Some((c as int - 'A' as int + 10) as nat)
    } else {
        None
    }
}

/// The number that the digits `s` write in base 16, most significant digit
/// first; `None` where a character is no hexadecimal digit. No digits write
/// zero.
pub open spec fn digits_value(s: Seq<char>) -> Option<nat>
    decreases s.len(),
{
    if s.len() == 0 {
        Some(0)
    } else {
        match (digits_value(s.drop_last()), digit_value(s.last())) {
            (Some(high), Some(low)) => Some(16 * high + low),
            _ => None,
        }
    }
}

/// `s` without the one plus sign that may stand in front of a literal.
pub open spec fn without_sign(s: Seq<char>) -> Seq<char> {
    if s.len() > 0 && s[0] == '+' {
        s.drop_first()
    } else {
        s
    }
}

/// The value of the literal `s`: an optional plus sign, then one or more
/// hexadecimal digits whose number fits in 64 bits. Anything else is no
/// literal.
pub open spec fn literal_value(s: Seq<char>) -> Option<u64> {
    let digits = without_sign(s);
    match digits_value(digits) {
        Some(v) => if digits.len() > 0 && v <= u64::MAX {
            Some(v as u64)
        } else {
            None
        },
        None => None,
    }
}

/// The digits before any place of a number write a number that is no larger,
/// and are digits themselves.
pub proof fn lemma_digits_prefix(s: Seq<char>, k: int)
    requires
        0 <= k <= s.len(),
        digits_value(s) is Some,
    ensures
        digits_value(s.take(k)) is Some,
        digits_value(s.take(k))->0 <= digits_value(s)->0,
    decreases s.len(),
{
    if k == s.len() {
        assert(s.take(k) == s);
    } else {
        lemma_digits_prefix(s.drop_last(), k);
        assert(s.drop_last().take(k) == s.take(k));
    }
}

/// Digits that write a number are hexadecimal digits, every one.
pub proof fn lemma_valued_digits(s: Seq<char>)
    requires
        digits_value(s) is Some,
    ensures
        all_digits(s),
    decreases s.len(),
{
    if s.len() > 0 {
        lemma_valued_digits(s.drop_last());
        assert forall|i: int| 0 <= i < s.len() implies (#[trigger] digit_value(s[i])) is Some by {
            if i < s.len() - 1 {
                assert(s.drop_last()[i] == s[i]);
            }
        }
    }
}

/// The value of one hexadecimal digit.
pub fn hex_digit(c: char) -> (d: Option<u8>)
    ensures
        match d {
            Some(v) => digit_value(c) == Some(v as nat),
            None => digit_value(c) is None,
        },
{
    if '0' <= c && c <= '9' {
        Some((c as u32 - '0' as u32) as u8)
    } else if 'a' <= c && c <= 'f' {
        Some((c as u32 - 'a' as u32 + 10) as u8)
    } else if 'A' <= c && c <= 'F' {
        Some((c as u32 - 'A' as u32 + 10) as u8)
    } else {
        None
    }
}

/// Reads a hexadecimal literal: the value where `token` is one, `None` where
/// it is not or where its value does not fit in 64 bits.
pub fn parse_hex(token: &str) -> (r: Option<u64>)
    ensures
        r == literal_value(token@),
{
    let chars = chars_of(token);
    parse_hex_chars(&chars)
}

/// Reads a hexadecimal literal from its characters.
pub fn parse_hex_chars(chars: &Vec<char>) -> (r: Option<u64>)
    ensures
        r == literal_value(chars@),
{
    let n = chars.len();
    let start: usize = if n > 0 && chars[0] == '+' {
        1
    } else {
        0
    };
    let ghost digits = without_sign(chars@);
    if start == n {
        return None;
    }
    let mut acc: u64 = 0;
    let mut i: usize = start;
    while i < n
        invariant
            start <= i <= n,
            n == chars@.len(),
            digits == chars@.skip(start as int),
            digits == without_sign(chars@),
            digits_value(digits.take(i - start)) == Some(acc as nat),
        decreases n - i,
    {
        let ghost prefix = digits.take(i - start + 1);
        assert(prefix.drop_last() == digits.take(i - start));
        match hex_digit(chars[i]) {
            None => {
                proof {
                    if digits_value(digits) is Some {
                        lemma_digits_prefix(digits, i - start + 1);
                    }
                }
                return None;
            },
            Some(d) => {
                if acc > 0x0fff_ffff_ffff_ffff {
                    proof {
                        if digits_value(digits) is Some {
                            lemma_digits_prefix(digits, i - start + 1);
                        }
                    }
                    return None;
                }
                acc = acc * 16 + d as u64;
            },
        }
        i += 1;
    }
    assert(digits.take(n - start) == digits);
    Some(acc)
}

/// The lower-case digit that writes `d`, for `d` below 16.
pub open spec fn digit_char(d: nat) -> char {
    if d < 10 {
        ('0' as int + d) as char
    } else {
        ('a' as int + d - 10) as char
    }
}

/// The number of hexadecimal digits that `v` takes without leading zeros;
/// zero takes none.
pub open spec fn hex_len(v: nat) -> nat
    decreases v,
{
    if v == 0 {
        0
    } else {
        1 + hex_len(v / 16)
    }
}

/// The lower-case hexadecimal digits of `v` without leading zeros, most
/// significant first; zero has none.
pub open spec fn hex_digits(v: nat) -> Seq<char>
    decreases v,
{
    if v == 0 {
        Seq::empty()
    } else {
        hex_digits(v / 16).push(digit_char(v % 16))
    }
}

/// `n` times the digit zero.
pub open spec fn zeros(n: nat) -> Seq<char> {
    Seq::new(n, |i: int| '0')
}

/// The `n` lowest hexadecimal digits of `v`, most significant first, with
/// zeros in the places that `v` does not reach.
pub open spec fn fixed_width(v: nat, n: nat) -> Seq<char>
    decreases n,
{
    if n == 0 {
        Seq::empty()
    } else {
        fixed_width(v / 16, (n - 1) as nat).push(digit_char(v % 16))
    }
}

/// The digits `s` in lower case: each digit of `s` as `digit_char` writes it.
pub open spec fn in_lower_case(s: Seq<char>) -> Seq<char> {
    Seq::new(s.len(), |i: int| digit_char(digit_value(s[i])->0))
}

/// Whether every character of `s` is a hexadecimal digit.
pub open spec fn all_digits(s: Seq<char>) -> bool {
    forall|i: int| 0 <= i < s.len() ==> (#[trigger] digit_value(s[i])) is Some
}

/// 16 to the power `n`.
pub open spec fn pow16(n: nat) -> nat
    decreases n,
{
    if n == 0 {
        1
    } else {
        16 * pow16((n - 1) as nat)
    }
}

/// A number below 16 to the power `n` takes at most `n` digits.
pub proof fn lemma_hex_len_bound(v: nat, n: nat)
    requires
        v < pow16(n),
    ensures
        hex_len(v) <= n,
    decreases n,
{
    if v != 0 {
        lemma_hex_len_bound(v / 16, (n - 1) as nat);
    }
}

/// A 64-bit value takes at most 16 digits.
pub proof fn lemma_hex_len_u64(v: u64)
    ensures
        hex_len(v as nat) <= 16,
{
    assert(pow16(16) == 0x1_0000_0000_0000_0000) by {
        reveal_with_fuel(pow16, 17);
    }
    lemma_hex_len_bound(v as nat, 16);
}

/// Written in a width that holds all its digits, a number is its digits
/// behind as many zeros as fill the width.
pub proof fn lemma_fixed_width_pads(v: nat, n: nat)
    requires
        hex_len(v) <= n,
    ensures
        fixed_width(v, n) == zeros((n - hex_len(v)) as nat) + hex_digits(v),
    decreases n,
{
    if n > 0 {
        lemma_fixed_width_pads(v / 16, (n - 1) as nat);
    }
}

/// A string of digits has a value; the value takes no more digits than the
/// string has; and written in any width that holds the string, the value is
/// the string in lower case behind as many zeros as fill the width.
pub proof fn lemma_digits_round_trip(s: Seq<char>, n: nat)
    requires
        all_digits(s),
        s.len() <= n,
    ensures
        digits_value(s) is Some,
        digits_value(s)->0 < pow16(s.len()),
        hex_len(digits_value(s)->0) <= s.len(),
        fixed_width(digits_value(s)->0, n) == zeros((n - s.len()) as nat) + in_lower_case(s),
    decreases s.len(),
{
    if s.len() == 0 {
        lemma_fixed_width_pads(0, n);
    } else {
        let front = s.drop_last();
        assert(all_digits(front)) by {
            assert forall|i: int| 0 <= i < front.len() implies (#[trigger] digit_value(
                front[i],
            )) is Some by {
                assert(front[i] == s[i]);
            }
        }
        lemma_digits_round_trip(front, (n - 1) as nat);
        lemma_hex_len_bound(digits_value(s)->0, s.len());
    }
}

/// A literal of one to sixteen digits, with or without a plus sign in front,
/// is read as a value whose sixteen-digit rendering (leading zeros, then its
/// significant digits) is the literal's digits in lower case, filled with
/// zeros on the left.
pub proof fn lemma_literal_round_trip(s: Seq<char>)
    requires
        1 <= without_sign(s).len() <= 16,
        all_digits(without_sign(s)),
    ensures
        literal_value(s) is Some,
        zeros((16 - hex_len(literal_value(s)->0 as nat)) as nat) + hex_digits(
            literal_value(s)->0 as nat,
        ) == zeros((16 - without_sign(s).len()) as nat) + in_lower_case(without_sign(s)),
{
    let digits = without_sign(s);
    lemma_digits_round_trip(digits, 16);
    let v = digits_value(digits)->0;
    assert(pow16(16) == 0x1_0000_0000_0000_0000) by {
        reveal_with_fuel(pow16, 17);
    }
    lemma_pow16_grows(digits.len(), 16);
    lemma_fixed_width_pads(v, 16);
}

/// 16 to a larger power is no smaller.
pub proof fn lemma_pow16_grows(m: nat, n: nat)
    requires
        m <= n,
    ensures
        pow16(m) <= pow16(n),
        pow16(m) >= 1,
    decreases n,
{
    if m < n {
        lemma_pow16_grows(m, (n - 1) as nat);
    } else if n > 0 {
        lemma_pow16_grows((m - 1) as nat, (n - 1) as nat);
    }
}

/// The lower-case character for a digit below 16.
fn hex_char(d: u8) -> (c: char)
    requires
        d < 16,
    ensures
        c == digit_char(d as nat),
{
    if d < 10 {
        ('0' as u8 + d) as char
    } else {
        ('a' as u8 + (d - 10)) as char
    }
}

/// The number of zeros in front of a value written in sixteen hexadecimal
/// digits: sixteen less the digits that the value takes.
pub fn leading_zero_digits(v: u64) -> (n: u32)
    ensures
        n == 16 - hex_len(v as nat),
        n <= 16,
{
    proof {
        lemma_leading_zeros(v);
    }
    v.leading_zeros() / 4
}

/// A quarter of the leading zero bits of `v`, rounded down, is the number of
/// its leading zero digits.
proof fn lemma_leading_zeros(v: u64)
    ensures
        vstd::std_specs::bits::u64_leading_zeros(v) / 4 == 16 - hex_len(v as nat),
        hex_len(v as nat) <= 16,
    decreases v,
{
    reveal_with_fuel(vstd::std_specs::bits::u64_leading_zeros, 5);
    lemma_hex_len_u64(v);
    if v >= 16 {
        lemma_leading_zeros(v / 16);
    } else {
        reveal_with_fuel(hex_len, 2);
    }
}

/// The lower-case hexadecimal digits of `v` without leading zeros, most
/// significant first; none for zero.
pub fn significant_digits(v: u64) -> (d: Vec<char>)
    ensures
        d@ == hex_digits(v as nat),
    decreases v,
{
    if v == 0 {
        Vec::new()
    } else {
        let mut d = significant_digits(v / 16);
        d.push(hex_char((v % 16) as u8));
        d
    }
}

} // verus!
