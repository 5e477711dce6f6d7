//! Unsigned numbers as binary text.

use vstd::prelude::*;
use vstd::string::*;

verus! {

/// The binary text of `n`, without leading zeros.
pub open spec fn binary_text(n: nat) -> Seq<char>
    decreases n,
{
    if n < 2 {
        seq![if n == 0 { '0' } else { '1' }]
    } else {
        binary_text(n / 2).push(if n % 2 == 0 { '0' } else { '1' })
    }
}

/// The first `limit` characters of `text`, or all of it where it has fewer.
pub open spec fn truncated(text: Seq<char>, limit: usize) -> Seq<char> {
    if limit < text.len() {
        text.subrange(0, limit as int)
    } else {
        text
    }
}

/// Writes `n` in binary.
pub fn to_binary(n: u64) -> (text: String)
    ensures
        text@ == binary_text(n as nat),
    decreases n,
{
    if n < 2 {
        let mut text = String::new();
        text.push(if n == 0 { '0' } else { '1' });
        assert(text@ =~= binary_text(n as nat));
        text
    } else {
        let mut text = to_binary(n / 2);
        text.push(if n % 2 == 0 { '0' } else { '1' });
        text
    }
}

/// Cuts `text` down to its first `limit` characters.
pub fn truncate(text: String, limit: usize) -> (cut: String)
    ensures
        cut@ == truncated(text@, limit),
{
    if limit < text.as_str().unicode_len() {
        text.as_str().substring_char(0, limit).to_owned()
    } else {
        text
    }
}

} // verus!
