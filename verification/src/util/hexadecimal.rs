//! Hexadecimal text, as the `hex` crate reads and writes it.

use vstd::prelude::*;

verus! {

/// Why hexadecimal text could not be decoded.
#[derive(Debug, Clone, Copy, PartialEq, Eq, Structural)]
pub enum HexError {
    /// A character that is no hexadecimal digit, and where it stands.
    InvalidHexCharacter { c: char, index: usize },
    /// The text has an odd number of characters.
    OddLength,
    /// The text does not fill the output exactly.
    InvalidStringLength,
}

/// The value of one hexadecimal digit, of either case.
pub open spec fn hex_value(digit: u8) -> Option<u8> {
    if 0x30 <= digit <= 0x39 {
        Some((digit - 0x30) as u8)
    } else if 0x41 <= digit <= 0x46 {
        Some((digit - 0x41 + 10) as u8)
    } else if 0x61 <= digit <= 0x66 {
        Some((digit - 0x61 + 10) as u8)
    } else {
        None
    }
}

/// Every character of `text` is a hexadecimal digit.
pub open spec fn all_hex(text: Seq<u8>) -> bool {
    forall|i: int| 0 <= i < text.len() ==> (#[trigger] hex_value(text[i])) is Some
}

/// `index` is where the first character of `text` stands that is no
/// hexadecimal digit.
pub open spec fn is_first_invalid(text: Seq<u8>, index: int) -> bool {
    &&& 0 <= index < text.len()
    &&& hex_value(text[index]) is None
    &&& forall|j: int| 0 <= j < index ==> (#[trigger] hex_value(text[j])) is Some
}

/// The bytes that hexadecimal text of even length stands for, two digits a byte.
pub open spec fn hex_bytes(text: Seq<u8>) -> Seq<u8> {
    Seq::new(
        text.len() / 2,
        |i: int| (hex_value(text[2 * i]).unwrap_or(0) * 16 + hex_value(text[2 * i + 1]).unwrap_or(0)) as u8,
    )
}

/// What decoding `text` into a buffer of `out_len` bytes gives: the bytes, or
/// the first fault found. The length is looked at before the characters.
pub open spec fn hex_decode(text: Seq<u8>, out_len: nat) -> Result<Seq<u8>, HexError> {
    if text.len() % 2 != 0 {
        Err(HexError::OddLength)
    } else if text.len() / 2 != out_len {
        Err(HexError::InvalidStringLength)
    } else if !all_hex(text) {
        let index = choose|index: int| is_first_invalid(text, index);
        Err(HexError::InvalidHexCharacter { c: text[index] as char, index: index as usize })
    } else {
        Ok(hex_bytes(text))
    }
}

/// The digit that `hex::encode` writes for a value below sixteen.
pub open spec fn hex_digit(value: u8) -> char {
    if value < 10 {
        (0x30 + value) as char
    } else {
        (0x61 + value - 10) as char
    }
}

/// The lower case hexadecimal text of `bytes`, two digits a byte.
pub open spec fn hex_text(bytes: Seq<u8>) -> Seq<char> {
    Seq::new(
        2 * bytes.len(),
        |i: int|
            if i % 2 == 0 {
                hex_digit(bytes[i / 2] / 16)
            } else {
                hex_digit(bytes[i / 2] % 16)
            },
    )
}

/// The hexadecimal text of `bytes` as the bytes of its characters.
pub open spec fn hex_text_bytes(bytes: Seq<u8>) -> Seq<u8> {
    Seq::new(hex_text(bytes).len(), |i: int| hex_text(bytes)[i] as u8)
}

/// Decoding reads what encoding writes: the hexadecimal text of any bytes
/// decodes, into a buffer of their length, to those bytes.
pub proof fn lemma_hex_round_trip(bytes: Seq<u8>)
    ensures
        hex_decode(hex_text_bytes(bytes), bytes.len()) == Ok::<Seq<u8>, HexError>(bytes),
{
    let text = hex_text_bytes(bytes);
    assert forall|i: int| 0 <= i < text.len() implies (#[trigger] hex_value(text[i])) is Some by {
        lemma_digit_value(bytes[i / 2] / 16);
        lemma_digit_value(bytes[i / 2] % 16);
    }
    assert forall|i: int| 0 <= i < bytes.len() implies #[trigger] hex_bytes(text)[i] == bytes[i] by {
        lemma_digit_value(bytes[i] / 16);
        lemma_digit_value(bytes[i] % 16);
        assert(text[2 * i] == hex_digit(bytes[(2 * i) / 2] / 16) as u8);
        assert(text[2 * i + 1] == hex_digit(bytes[(2 * i + 1) / 2] % 16) as u8);
    }
    assert(hex_bytes(text) =~= bytes);
}

/// The digit written for a value below sixteen has that value.
proof fn lemma_digit_value(value: u8)
    requires
        value < 16,
    ensures
        hex_value(hex_digit(value) as u8) == Some(value),
{
}

/// Calls `hex::decode_to_slice` on `data` and the whole of `out`.
///
/// Trusted: the call fails on text of odd length, then on text that is not
/// twice as long as `out`, then on the first character that is no digit;
/// otherwise it fills `out` with the decoded bytes. The length of `out` never
/// changes.
#[verifier::external_body]
pub(crate) fn decode_to_slice(data: &[u8], out: &mut Vec<u8>) -> (result: Result<(), HexError>)
    ensures
        final(out)@.len() == old(out)@.len(),
        match hex_decode(data@, old(out)@.len()) {
            Ok(bytes) => result is Ok && final(out)@ == bytes,
            Err(fault) => result == Err::<(), HexError>(fault),
        },
{
    match ::hex::decode_to_slice(data, out.as_mut_slice()) {
        Ok(()) => Ok(()),
        Err(::hex::FromHexError::InvalidHexCharacter { c, index }) => Err(
            HexError::InvalidHexCharacter { c, index },
        ),
        Err(::hex::FromHexError::OddLength) => Err(HexError::OddLength),
        Err(::hex::FromHexError::InvalidStringLength) => Err(HexError::InvalidStringLength),
    }
}

/// Calls `hex::encode`.
///
/// Trusted: the result holds two lower case digits for each byte, the high
/// half first.
#[verifier::external_body]
pub(crate) fn encode(data: &[u8]) -> (text: String)
    ensures
        text@ == hex_text(data@),
{
    ::hex::encode(data)
}

} // verus!
