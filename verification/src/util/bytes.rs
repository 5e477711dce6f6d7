//! Rendering raw bytes as text.

use crate::util::decimal::{decimal_text, to_decimal};
use crate::util::hexadecimal::{encode, hex_text};
use vstd::prelude::*;
use vstd::string::*;

verus! {

/// Each byte of `raw` as the character with that code.
pub open spec fn byte_chars(raw: Seq<u8>) -> Seq<char> {
    Seq::new(raw.len(), |i: int| raw[i] as char)
}

/// Renders each byte as the character with that code.
pub fn byte_to_string(raw: &[u8]) -> (text: String)
    ensures
        text@ == byte_chars(raw@),
{
    let mut text = String::new();
    let mut i: usize = 0;
    while i < raw.len()
        invariant
            i <= raw@.len(),
            text@ == byte_chars(raw@.subrange(0, i as int)),
        decreases raw@.len() - i,
    {
        text.push(raw[i] as char);
        assert(text@ =~= byte_chars(raw@.subrange(0, i + 1)));
        i += 1;
    }
    assert(raw@.subrange(0, i as int) =~= raw@);
    text
}

/// Renders `raw` in lower case hexadecimal behind `0x`.
pub fn byte_to_hex_string(raw: &[u8]) -> (text: String)
    ensures
        text@ == seq!['0', 'x'] + hex_text(raw@),
{
    proof {
        reveal_strlit("0x");
    }
    let mut text = "0x".to_owned();
    assert(text@ =~= seq!['0', 'x']);
    text.append(encode(raw).as_str());
    text
}

/// The decimal values of `raw`, with a comma and a space between any two.
pub open spec fn byte_items(raw: Seq<u8>) -> Seq<char>
    decreases raw.len(),
{
    if raw.len() == 0 {
        Seq::<char>::empty()
    } else if raw.len() == 1 {
        decimal_text(raw[0] as nat)
    } else {
        byte_items(raw.drop_last()) + seq![',', ' '] + decimal_text(raw.last() as nat)
    }
}

/// `raw` as a list of decimal values in square brackets.
pub open spec fn byte_list(raw: Seq<u8>) -> Seq<char> {
    seq!['['] + byte_items(raw) + seq![']']
}

/// Renders `raw` as a list of decimal values in square brackets.
pub fn byte_to_list_string(raw: &[u8]) -> (text: String)
    ensures
        text@ == byte_list(raw@),
{
    proof {
        reveal_strlit("[");
        reveal_strlit(", ");
        reveal_strlit("]");
    }
    let mut text = "[".to_owned();
    assert(text@ =~= seq!['['] + byte_items(raw@.subrange(0, 0)));
    let mut i: usize = 0;
    while i < raw.len()
        invariant
            i <= raw@.len(),
            text@ == seq!['['] + byte_items(raw@.subrange(0, i as int)),
            ", "@ == seq![',', ' '],
        decreases raw@.len() - i,
    {
        let ghost seen = raw@.subrange(0, i as int);
        let ghost next = raw@.subrange(0, i + 1);
        assert(next.drop_last() =~= seen);
        if i > 0 {
            text.append(", ");
        }
        text.append(to_decimal(raw[i] as usize).as_str());
        assert(text@ =~= seq!['['] + byte_items(next));
        i += 1;
    }
    assert(raw@.subrange(0, i as int) =~= raw@);
    text.append("]");
    assert("]"@ =~= seq![']']);
    text
}

} // verus!
