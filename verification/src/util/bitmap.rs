//! The presence bitmap: which of the fields 1 to 64 a message carries.
//!
//! On the wire field 1 is the most significant bit of the first byte. The
//! decoded bitmap is a `u64` that keeps this order: field `n` is bit `64 - n`.

use crate::util::decimal::{decimal_text, to_decimal};
use crate::util::hexadecimal::{decode_to_slice, hex_decode, hex_text_bytes, lemma_hex_round_trip, HexError};
use vstd::prelude::*;
use vstd::string::*;

verus! {

/// Why a presence bitmap could not be decoded.
#[derive(Debug, Clone, Copy, PartialEq, Eq, Structural)]
pub enum DecodeBitmapError {
    BitmapTooLarge { actual: usize, expected: usize },
    BitmapTooShort { actual: usize, expected: usize },
    InvalidChar { c: char, index: usize },
    OddLength,
}

/// Whether a decoded bitmap marks field `field` (1 to 64) as present.
pub open spec fn field_present(bitmap: u64, field: u64) -> bool
    recommends
        1 <= field <= 64,
{
    (bitmap >> ((64 - field) as u64)) & 1 == 1
}

/// Whether the wire bytes of a bitmap mark field `field` (1 to 64) as present:
/// the byte that holds the field exists and the field's bit in it is set.
pub open spec fn wire_bit(raw: Seq<u8>, field: u64) -> bool
    recommends
        1 <= field <= 64,
{
    let k = (field - 1) as u64;
    &&& k / 8 < raw.len()
    &&& ((raw[(k / 8) as int] as u64) >> ((7 - k % 8) as u64)) & 1 == 1
}

/// The bitmap that wire bytes stand for: the first byte is the most
/// significant of the `u64`, and where there are fewer than eight the low
/// bytes are zero. A `u64` has room for the fields 1 to 64, so bytes past
/// the eighth add nothing.
pub open spec fn bitmap_value(raw: Seq<u8>) -> u64
    decreases raw.len(),
{
    if raw.len() == 0 {
        0
    } else {
        let i = raw.len() - 1;
        let higher = bitmap_value(raw.drop_last());
        if i < 8 {
            higher | ((raw[i] as u64) << ((8 * (7 - i)) as u64))
        } else {
            higher
        }
    }
}

/// `bitmap` marks exactly the fields that the wire bytes `raw` mark.
pub open spec fn decodes_to(raw: Seq<u8>, bitmap: u64) -> bool {
    forall|field: u64| 1 <= field <= 64 ==> #[trigger] field_present(bitmap, field) == wire_bit(raw, field)
}

proof fn lemma_place_byte(acc: u64, byte: u8, i: u64, field: u64)
    by (bit_vector)
    requires
        i < 8,
        1 <= field <= 64,
    ensures
        (((acc | ((byte as u64) << ((8 * (7 - i)) as u64))) >> ((64 - field) as u64)) & 1 == 1) == (((acc
            >> ((64 - field) as u64)) & 1 == 1) || (((field - 1) as u64) / 8 == i && ((byte as u64) >> ((7
            - ((field - 1) as u64) % 8) as u64)) & 1 == 1)),
{
}

/// The bitmap that wire bytes stand for marks exactly the fields 1 to 64
/// that the bytes mark.
pub proof fn lemma_bitmap_value_decodes(raw: Seq<u8>)
    ensures
        decodes_to(raw, bitmap_value(raw)),
    decreases raw.len(),
{
    if raw.len() == 0 {
        assert forall|field: u64| 1 <= field <= 64 implies !#[trigger] field_present(0, field) by {
            lemma_empty_bitmap(field);
        }
    } else {
        let i = raw.len() - 1;
        let higher = bitmap_value(raw.drop_last());
        lemma_bitmap_value_decodes(raw.drop_last());
        assert forall|field: u64| 1 <= field <= 64 implies #[trigger] field_present(bitmap_value(raw), field)
            == wire_bit(raw, field) by {
            assert(field_present(higher, field) == wire_bit(raw.drop_last(), field));
            if i < 8 {
                lemma_place_byte(higher, raw[i], i as u64, field);
            }
        }
    }
}

proof fn lemma_empty_bitmap(field: u64)
    by (bit_vector)
    requires
        1 <= field <= 64,
    ensures
        !((0u64 >> ((64 - field) as u64)) & 1 == 1),
{
}

/// The wire bytes that a binary bitmap of `size` bytes is decoded from, or why
/// `raw` is refused: the length must be exact.
pub open spec fn binary_bitmap(raw: Seq<u8>, size: usize) -> Result<Seq<u8>, DecodeBitmapError> {
    if raw.len() < size {
        Err(DecodeBitmapError::BitmapTooShort { actual: raw.len() as usize, expected: size })
    } else if raw.len() > size {
        Err(DecodeBitmapError::BitmapTooLarge { actual: raw.len() as usize, expected: size })
    } else {
        Ok(raw)
    }
}

/// The bitmap error that stands for a fault in the hexadecimal text of a
/// bitmap, `actual` characters long where `expected` were declared.
pub open spec fn hex_fault(fault: HexError, actual: usize, expected: usize) -> DecodeBitmapError {
    match fault {
        HexError::InvalidHexCharacter { c, index } => DecodeBitmapError::InvalidChar { c, index },
        HexError::InvalidStringLength => if actual < expected {
            DecodeBitmapError::BitmapTooShort { actual, expected }
        } else {
            DecodeBitmapError::BitmapTooLarge { actual, expected }
        },
        HexError::OddLength => DecodeBitmapError::OddLength,
    }
}

/// The wire bytes that a bitmap packed as `size` hexadecimal characters stands
/// for, or why `raw` is refused. Two characters make a byte, so `raw` must
/// hold `size / 2` pairs.
pub open spec fn ascii_bitmap(raw: Seq<u8>, size: usize) -> Result<Seq<u8>, DecodeBitmapError> {
    match hex_decode(raw, (size / 2) as nat) {
        Ok(bytes) => Ok(bytes),
        Err(fault) => Err(hex_fault(fault, raw.len() as usize, size)),
    }
}

/// `result` is what decoding gives where `wire` says which bytes are decoded
/// or why there are none.
pub open spec fn decoded(wire: Result<Seq<u8>, DecodeBitmapError>, result: Result<u64, DecodeBitmapError>) -> bool {
    match wire {
        Ok(bytes) => result == Ok::<u64, DecodeBitmapError>(bitmap_value(bytes)) && decodes_to(
            bytes,
            bitmap_value(bytes),
        ),
        Err(e) => result == Err::<u64, DecodeBitmapError>(e),
    }
}

impl DecodeBitmapError {
    /// What the error says to a reader.
    pub open spec fn message(self) -> Seq<char> {
        match self {
            DecodeBitmapError::BitmapTooLarge { actual, expected }
            | DecodeBitmapError::BitmapTooShort { actual, expected } => "bitmap was "@ + decimal_text(
                actual as nat,
            ) + " bytes but expected "@ + decimal_text(expected as nat),
            DecodeBitmapError::InvalidChar { c, index } => "invalid char "@ + seq![c] + " at index "@
                + decimal_text(index as nat) + " for bitmap"@,
            DecodeBitmapError::OddLength => "odd string length not allowed for bitmap"@,
        }
    }

    /// Renders the error for a reader.
    pub fn to_string(&self) -> (text: String)
        ensures
            text@ == self.message(),
    {
        match self {
            DecodeBitmapError::BitmapTooLarge { actual, expected }
            | DecodeBitmapError::BitmapTooShort { actual, expected } => {
                let mut text = "bitmap was ".to_owned();
                text.append(to_decimal(*actual).as_str());
                text.append(" bytes but expected ");
                text.append(to_decimal(*expected).as_str());
                text
            },
            DecodeBitmapError::InvalidChar { c, index } => {
                let mut text = "invalid char ".to_owned();
                text.push(*c);
                text.append(" at index ");
                text.append(to_decimal(*index).as_str());
                text.append(" for bitmap");
                text
            },
            DecodeBitmapError::OddLength => "odd string length not allowed for bitmap".to_owned(),
        }
    }

    /// Turns a fault in hexadecimal text into the bitmap error it stands for.
    pub fn from(hex_error: HexError, actual: usize, expected: usize) -> (error: Self)
        ensures
            error == hex_fault(hex_error, actual, expected),
    {
        match hex_error {
            HexError::InvalidHexCharacter { c, index } => DecodeBitmapError::InvalidChar { c, index },
            HexError::InvalidStringLength => if actual < expected {
                DecodeBitmapError::BitmapTooShort { actual, expected }
            } else {
                DecodeBitmapError::BitmapTooLarge { actual, expected }
            },
            HexError::OddLength => DecodeBitmapError::OddLength,
        }
    }
}

/// How packed bitmap text fails on its length alone. Text of odd length is
/// refused as such, whatever was declared. Text of even length that holds
/// more or fewer pairs than declared is too large or too short, and the
/// error carries the length of the text and the declared size.
pub proof fn lemma_ascii_bitmap_length_faults(raw: Seq<u8>, size: usize)
    requires
        raw.len() <= usize::MAX,
    ensures
        raw.len() % 2 != 0 ==> ascii_bitmap(raw, size) == Err::<Seq<u8>, DecodeBitmapError>(
            DecodeBitmapError::OddLength,
        ),
        raw.len() % 2 == 0 && raw.len() / 2 < size / 2 ==> ascii_bitmap(raw, size) == Err::<
            Seq<u8>,
            DecodeBitmapError,
        >(DecodeBitmapError::BitmapTooShort { actual: raw.len() as usize, expected: size }),
        raw.len() % 2 == 0 && raw.len() > size ==> ascii_bitmap(raw, size) == Err::<
            Seq<u8>,
            DecodeBitmapError,
        >(DecodeBitmapError::BitmapTooLarge { actual: raw.len() as usize, expected: size }),
        raw.len() % 2 == 0 && size % 2 == 0 && raw.len() < size ==> ascii_bitmap(raw, size) == Err::<
            Seq<u8>,
            DecodeBitmapError,
        >(DecodeBitmapError::BitmapTooShort { actual: raw.len() as usize, expected: size }),
{
}

/// A packed bitmap marks what the binary bitmap behind it marks: the
/// hexadecimal text of any bytes, declared with its own length, stands for
/// those bytes, which a binary bitmap of their length is decoded from too.
pub proof fn lemma_packed_bitmap_is_binary(bytes: Seq<u8>)
    requires
        2 * bytes.len() <= usize::MAX,
    ensures
        ascii_bitmap(hex_text_bytes(bytes), (2 * bytes.len()) as usize) == Ok::<Seq<u8>, DecodeBitmapError>(
            bytes,
        ),
        binary_bitmap(bytes, bytes.len() as usize) == Ok::<Seq<u8>, DecodeBitmapError>(bytes),
{
    lemma_hex_round_trip(bytes);
}

/// Decodes a presence bitmap packed as hexadecimal text, declared as `size`
/// characters.
///
/// Text of odd length is refused, then text that does not hold `size / 2`
/// pairs, then the first character that is no hexadecimal digit. Otherwise the
/// result marks the fields that the bytes behind the text mark.
pub fn decode_ascii_bitmap(raw_bitmap: &[u8], size: usize) -> (result: Result<u64, DecodeBitmapError>)
    ensures
        decoded(ascii_bitmap(raw_bitmap@, size), result),
{
    let byte_size: usize = size / 2;
    let mut bytes: Vec<u8> = vec![0u8; byte_size];
    match decode_to_slice(raw_bitmap, &mut bytes) {
        Ok(()) => decode_bitmap(bytes.as_slice(), byte_size),
        Err(e) => Err(DecodeBitmapError::from(e, raw_bitmap.len(), size)),
    }
}

/// Decodes a binary presence bitmap of exactly `size` bytes.
///
/// A slice of another length is refused, with both lengths in the error.
/// Otherwise the result marks field `n`, from 1 to 64, exactly when bit
/// `(n - 1) % 8`, counted from the most significant, of byte `(n - 1) / 8`
/// is set.
pub fn decode_bitmap(raw_bitmap: &[u8], size: usize) -> (result: Result<u64, DecodeBitmapError>)
    ensures
        decoded(binary_bitmap(raw_bitmap@, size), result),
{
    let bitmap_len: usize = raw_bitmap.len();
    if bitmap_len != size {
        let decode_err = if bitmap_len < size {
            DecodeBitmapError::BitmapTooShort { actual: bitmap_len, expected: size }
        } else {
            DecodeBitmapError::BitmapTooLarge { actual: bitmap_len, expected: size }
        };
        return Err(decode_err);
    }
    let mut bitmap: u64 = 0;
    let mut i: usize = 0;
    while i < size
        invariant
            i <= size,
            size == raw_bitmap@.len(),
            bitmap == bitmap_value(raw_bitmap@.subrange(0, i as int)),
        decreases size - i,
    {
        let byte: u8 = raw_bitmap[i];
        assert(raw_bitmap@.subrange(0, i + 1).drop_last() =~= raw_bitmap@.subrange(0, i as int));
        if i < 8 {
            let shift: u64 = 8 * (7 - i as u64);
            bitmap = bitmap | ((byte as u64) << shift);
        }
        i += 1;
    }
    proof {
        assert(raw_bitmap@.subrange(0, i as int) =~= raw_bitmap@);
        lemma_bitmap_value_decodes(raw_bitmap@);
    }
    Ok(bitmap)
}

} // verus!
