//! Decimal text: the digits of integers and of byte-string lengths.

use vstd::prelude::*;

verus! {

/// Whether `c` is one of the ten ASCII decimal digits.
pub open spec fn is_digit(c: char) -> bool {
    '0' <= c && c <= '9'
}

/// The number that the decimal digit `c` stands for.
pub open spec fn digit_value(c: char) -> nat
    recommends
        is_digit(c),
{
    (c as int - '0' as int) as nat
}

/// Whether every character of `text` is a decimal digit.
pub open spec fn all_digits(text: Seq<char>) -> bool {
    forall|i: int| 0 <= i < text.len() ==> is_digit(#[trigger] text[i])
}

/// The number that a run of decimal digits denotes, most significant digit
/// first. The empty run denotes zero.
pub open spec fn decimal_value(digits: Seq<char>) -> nat
    decreases digits.len(),
{
    if digits.len() == 0 {
        0
    } else {
        decimal_value(digits.drop_last()) * 10 + digit_value(digits.last())
    }
}

/// The 64-bit signed integer that `text` denotes: an optional `-`, then one
/// or more decimal digits, the whole within the range of `i64`. Leading
/// zeros and `-0` are accepted; a `+`, a blank or any other character is not.
pub open spec fn decimal_i64(text: Seq<char>) -> Option<i64> {
    if text.len() > 0 && text[0] == '-' {
        let digits = text.subrange(1, text.len() as int);
        if digits.len() > 0 && all_digits(digits) && decimal_value(digits)
            <= 0x8000_0000_0000_0000 {
            Some((-(decimal_value(digits) as int)) as i64)
        } else {
            None
        }
    } else if text.len() > 0 && all_digits(text) && decimal_value(text) <= 0x7fff_ffff_ffff_ffff {
        Some(decimal_value(text) as i64)
    } else {
        None
    }
}

/// The character of the decimal digit `d`.
pub open spec fn digit_char(d: nat) -> char
    recommends
        d < 10,
{
    ('0' as int + d) as char
}

/// The decimal digits of `v`, most significant first, without leading
/// zeros; zero is the single digit `0`.
pub open spec fn decimal_digits(v: nat) -> Seq<char>
    decreases v,
{
    if v < 10 {
        seq![digit_char(v)]
    } else {
        decimal_digits(v / 10).push(digit_char(v % 10))
    }
}

/// The text form of `n`: its decimal digits, after a `-` if it is negative.
pub open spec fn decimal_text(n: int) -> Seq<char> {
    if n < 0 {
        seq!['-'] + decimal_digits((-n) as nat)
    } else {
        decimal_digits(n as nat)
    }
}

/// Whether `c` is a character of the text form of an integer.
pub open spec fn is_integer_char(c: char) -> bool {
    is_digit(c) || c == '-'
}

/// The decimal digits of a number are digits, and denote that number.
pub proof fn lemma_decimal_digits(v: nat)
    ensures
        decimal_digits(v).len() > 0,
        all_digits(decimal_digits(v)),
        decimal_value(decimal_digits(v)) == v,
    decreases v,
{
    if v < 10 {
        let digits = seq![digit_char(v)];
        assert(digits.drop_last() =~= Seq::<char>::empty());
        assert(decimal_value(digits.drop_last()) == 0);
        assert(digits.last() == digit_char(v));
    } else {
        lemma_decimal_digits(v / 10);
        let digits = decimal_digits(v / 10).push(digit_char(v % 10));
        assert(digits.drop_last() =~= decimal_digits(v / 10));
        assert(digits.last() == digit_char(v % 10));
        assert forall|i: int| 0 <= i < digits.len() implies is_digit(#[trigger] digits[i]) by {
            if i < digits.len() - 1 {
                assert(digits[i] == decimal_digits(v / 10)[i]);
            }
        }
    }
}

/// Reading the text form of a 64-bit integer gives the integer back, and
/// the text holds nothing but digits and `-`.
pub proof fn lemma_decimal_text_round_trip(n: i64)
    ensures
        decimal_i64(decimal_text(n as int)) == Some(n),
        decimal_text(n as int).len() > 0,
        forall|i: int|
            0 <= i < decimal_text(n as int).len() ==> is_integer_char(
                #[trigger] decimal_text(n as int)[i],
            ),
{
    let text = decimal_text(n as int);
    if n < 0 {
        let magnitude = (-n) as nat;
        lemma_decimal_digits(magnitude);
        assert(text.subrange(1, text.len() as int) =~= decimal_digits(magnitude));
        assert forall|i: int| 0 <= i < text.len() implies is_integer_char(#[trigger] text[i]) by {
            if i > 0 {
                assert(text[i] == decimal_digits(magnitude)[i - 1]);
            }
        }
    } else {
        lemma_decimal_digits(n as nat);
        assert(is_digit(text[0]));
    }
}

/// A run of digits denotes at least as much as any of its prefixes.
pub proof fn lemma_decimal_value_prefix(digits: Seq<char>, k: int)
    requires
        0 <= k <= digits.len(),
    ensures
        decimal_value(digits.subrange(0, k)) <= decimal_value(digits),
    decreases digits.len() - k,
{
    if k == digits.len() {
        assert(digits.subrange(0, k) == digits);
    } else {
        lemma_decimal_value_prefix(digits.drop_last(), k);
        assert(digits.drop_last().subrange(0, k) == digits.subrange(0, k));
    }
}

/// Reads `text` as a 64-bit signed decimal integer.
pub fn parse_i64(text: &Vec<char>) -> (r: Option<i64>)
    ensures
        r == decimal_i64(text@),
{
    let n: usize = text.len();
    if n == 0 {
        return None;
    }
    let negative: bool = text[0] == '-';
    let start: usize = if negative { 1 } else { 0 };
    if start == n {
        return None;
    }
    let ghost digits: Seq<char> = text@.subrange(start as int, n as int);
    let mut magnitude: u64 = 0;
    let mut i: usize = start;
    while i < n
        invariant
            n == text.len(),
            start < n,
            start <= i <= n,
            negative == (text@[0] == '-'),
            start == if negative { 1usize } else { 0usize },
            digits == text@.subrange(start as int, n as int),
            all_digits(digits.subrange(0, i - start)),
            magnitude == decimal_value(digits.subrange(0, i - start)),
        decreases n - i,
    {
        let c: char = text[i];
        if !(c >= '0' && c <= '9') {
            assert(!is_digit(digits[i - start]));
            return None;
        }
        let d: u64 = (c as u8 - 0x30u8) as u64;
        proof {
            let next = digits.subrange(0, i - start + 1);
            assert(next.drop_last() == digits.subrange(0, i - start));
            assert(next.last() == c);
            assert(decimal_value(next) == magnitude * 10 + d);
            lemma_decimal_value_prefix(digits, i - start + 1);
            assert(!negative ==> digits == text@);
            assert(d <= 9);
        }
        let scaled: u64 = match magnitude.checked_mul(10) {
            Some(m) => m,
            None => {
                return None;
            },
        };
        magnitude = match scaled.checked_add(d) {
            Some(m) => m,
            None => {
                return None;
            },
        };
        i = i + 1;
    }
    assert(digits.subrange(0, n - start) == digits);
    assert(!negative ==> digits == text@);
    if negative {
        if magnitude > 0x8000_0000_0000_0000u64 {
            None
        } else if magnitude == 0x8000_0000_0000_0000u64 {
            Some(i64::MIN)
        } else {
            Some(-(magnitude as i64))
        }
    } else {
        if magnitude > 0x7fff_ffff_ffff_ffffu64 {
            None
        } else {
            Some(magnitude as i64)
        }
    }
}

} // verus!
