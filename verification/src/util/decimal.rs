//! Unsigned decimal numbers as text.

use crate::util::text::lower_text;
use vstd::prelude::*;
use vstd::string::*;

verus! {

/// Whether `c` is one of the ten decimal digits.
pub open spec fn is_digit(c: char) -> bool {
    '0' <= c <= '9'
}

/// The value of a decimal digit.
pub open spec fn digit_value(c: char) -> nat {
    if is_digit(c) {
        (c as nat - 0x30) as nat
    } else {
        0
    }
}

/// Every character of `text` is a decimal digit.
pub open spec fn all_digits(text: Seq<char>) -> bool {
    forall|i: int| 0 <= i < text.len() ==> is_digit(#[trigger] text[i])
}

/// The number that a run of decimal digits stands for, the first digit
/// counting most.
pub open spec fn digits_value(text: Seq<char>) -> nat
    decreases text.len(),
{
    if text.len() == 0 {
        0
    } else {
        digits_value(text.drop_last()) * 10 + digit_value(text.last())
    }
}

/// What stands behind an optional leading `+`.
pub open spec fn unsigned_part(text: Seq<char>) -> Seq<char> {
    if text.len() > 0 && text[0] == '+' {
        text.subrange(1, text.len() as int)
    } else {
        text
    }
}

/// The number that `text` stands for: an optional `+`, then at least one
/// digit and nothing but digits, and a value that a `usize` can hold.
pub open spec fn decimal_value(text: Seq<char>) -> Option<usize> {
    let digits = unsigned_part(text);
    if digits.len() > 0 && all_digits(digits) && digits_value(digits) <= usize::MAX {
        Some(digits_value(digits) as usize)
    } else {
        None
    }
}

/// The character for a value below ten.
pub open spec fn digit_char(value: nat) -> char {
    (0x30 + value) as u8 as char
}

/// The decimal text of `n`, without sign or leading zeros.
pub open spec fn decimal_text(n: nat) -> Seq<char>
    decreases n,
{
    if n < 10 {
        seq![digit_char(n)]
    } else {
        decimal_text(n / 10).push(digit_char(n % 10))
    }
}

/// A run of digits is worth at least as much as any run it starts with.
proof fn lemma_prefix_value(text: Seq<char>, k: int)
    requires
        0 <= k <= text.len(),
    ensures
        digits_value(text.subrange(0, k)) <= digits_value(text),
    decreases text.len(),
{
    if k == text.len() {
        assert(text.subrange(0, k) =~= text);
    } else {
        lemma_prefix_value(text.drop_last(), k);
        assert(text.drop_last().subrange(0, k) =~= text.subrange(0, k));
    }
}

/// The decimal text of a number is a run of digits that is worth the number.
proof fn lemma_decimal_text_digits(n: nat)
    ensures
        decimal_text(n).len() > 0,
        all_digits(decimal_text(n)),
        digits_value(decimal_text(n)) == n,
    decreases n,
{
    if n < 10 {
        let text = decimal_text(n);
        assert(text.drop_last() =~= Seq::<char>::empty());
        assert(digits_value(text.drop_last()) == 0);
    } else {
        lemma_decimal_text_digits(n / 10);
        let text = decimal_text(n);
        assert(text.drop_last() =~= decimal_text(n / 10));
    }
}

/// Reading takes back what writing gave: the decimal text of a `usize` is
/// read as that number.
pub proof fn lemma_decimal_round_trip(n: usize)
    ensures
        decimal_value(decimal_text(n as nat)) == Some(n),
{
    lemma_decimal_text_digits(n as nat);
    let text = decimal_text(n as nat);
    assert(is_digit(text[0]));
}

/// The case of letters makes no difference to a number: text reads as the
/// same number, or as none, when it is lowered.
pub proof fn lemma_decimal_value_lower(text: Seq<char>)
    ensures
        decimal_value(lower_text(text)) == decimal_value(text),
{
    let lowered = lower_text(text);
    let digits = unsigned_part(text);
    let lowered_digits = unsigned_part(lowered);
    assert(lowered_digits =~= lower_text(digits));
    if all_digits(digits) {
        assert(lowered_digits =~= digits);
    } else {
        let i = choose|i: int| 0 <= i < digits.len() && !is_digit(#[trigger] digits[i]);
        assert(!is_digit(lowered_digits[i]));
    }
}

/// Reads an unsigned decimal number as `str::parse::<usize>` does.
pub fn parse_usize(text: &str) -> (value: Option<usize>)
    ensures
        value == decimal_value(text@),
{
    broadcast use vstd::string::is_ascii_spec_bytes;

    if !text.is_ascii() {
        proof {
            let i = choose|i: int| 0 <= i < text@.len() && !('\0' <= #[trigger] text@[i] <= '\u{7f}');
            if i > 0 || text@[0] != '+' {
                let digits = unsigned_part(text@);
                let at = if text@[0] == '+' { i - 1 } else { i };
                assert(digits[at] == text@[i]);
                assert(!is_digit(digits[at]));
            }
        }
        return None;
    }
    let bytes = text.as_bytes();
    let len: usize = bytes.len();
    let start: usize = if len > 0 && bytes[0] == 0x2b { 1 } else { 0 };
    if start == len {
        return None;
    }
    let ghost digits = unsigned_part(text@);
    assert(digits =~= text@.subrange(start as int, len as int));
    let mut value: usize = 0;
    let mut i: usize = start;
    while i < len
        invariant
            start <= i <= len,
            len == text@.len(),
            len == bytes@.len(),
            forall|j: int| 0 <= j < len ==> bytes@[j] == text@[j] as u8,
            text.is_ascii(),
            digits == text@.subrange(start as int, len as int),
            digits == unsigned_part(text@),
            all_digits(digits.subrange(0, i - start)),
            value == digits_value(digits.subrange(0, i - start)),
        decreases len - i,
    {
        let b: u8 = bytes[i];
        let ghost seen = digits.subrange(0, i - start);
        let ghost next = digits.subrange(0, i + 1 - start);
        assert(next.drop_last() =~= seen);
        assert(next.last() == text@[i as int]);
        assert('\0' <= text@[i as int] <= '\u{7f}');
        if b < 0x30 || b > 0x39 {
            assert(!is_digit(digits[i - start]));
            return None;
        }
        let d: usize = (b - 0x30) as usize;
        assert(d == digit_value(text@[i as int]));
        if value > (usize::MAX - d) / 10 {
            proof {
                assert(digits_value(next) > usize::MAX);
                lemma_prefix_value(digits, i + 1 - start);
            }
            return None;
        }
        value = value * 10 + d;
        i += 1;
    }
    assert(digits.subrange(0, len - start) =~= digits);
    Some(value)
}

/// Writes `n` in decimal.
pub fn to_decimal(n: usize) -> (text: String)
    ensures
        text@ == decimal_text(n as nat),
    decreases n,
{
    if n < 10 {
        let mut text = String::new();
        text.push((0x30 + n as u8) as char);
        assert(text@ =~= decimal_text(n as nat));
        text
    } else {
        let mut text = to_decimal(n / 10);
        text.push((0x30 + (n % 10) as u8) as char);
        text
    }
}

} // verus!
