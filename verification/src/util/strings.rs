//! What this crate relies on of `String` and `str` beyond what `vstd` states.

use vstd::prelude::*;
use vstd::utf8::{decode_utf8, valid_utf8};

verus! {

/// `std::str::Utf8Error`, carried through and never looked into.
#[verifier::external_type_specification]
#[verifier::external_body]
pub struct ExUtf8Error(std::str::Utf8Error);

/// Trusted: `String::push` appends the one character.
pub assume_specification[ String::push ](text: &mut String, c: char)
    ensures
        final(text)@ == old(text)@.push(c),
;

/// Trusted: `std::str::from_utf8` accepts exactly the well formed UTF-8, and
/// the text it returns holds the characters that the bytes encode.
pub assume_specification[ std::str::from_utf8 ](bytes: &[u8]) -> (text: Result<&str, std::str::Utf8Error>)
    ensures
        text is Ok <==> valid_utf8(bytes@),
        text matches Ok(s) ==> s@ == decode_utf8(bytes@),
;

} // verus!
