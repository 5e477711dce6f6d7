//! Reading a payload piece by piece: bytes, the primary bitmap, one field.
//!
//! Every read goes through `tokenise_next_bytes`, which never hands out a
//! short slice. The spec functions here say, for a payload and an offset,
//! what a read gives and where the offset stands afterwards.

use crate::iso8583::spec::definitions::{DataType, Field};
use crate::util::bitmap::{
    ascii_bitmap,
    bitmap_value,
    decode_ascii_bitmap,
    decode_bitmap,
    DecodeBitmapError,
};
use crate::util::bytes::{byte_chars, byte_list, byte_to_list_string, byte_to_string};
use crate::util::decimal::{decimal_text, decimal_value, parse_usize, to_decimal};
use std::collections::HashMap;
use vstd::prelude::*;
use vstd::slice::{slice_subrange, slice_to_vec};
use vstd::string::*;
use vstd::utf8::{decode_utf8, valid_utf8};

verus! {

broadcast use vstd::std_specs::hash::group_hash_axioms;

/// Why a payload could not be tokenised.
#[derive(Debug, PartialEq)]
pub enum Iso8583TokeniseError {
    /// A read of `count` bytes at offset `from` passes the payload's `max` bytes.
    Overflow { from: usize, count: usize, max: usize },
    /// A length prefix that is text but no decimal number.
    InvalidVarLength(String),
    /// Bytes that are not UTF-8 where text is required.
    InvalidData(Vec<u8>),
    /// The message type defines no field of that number.
    NoTokenDefinition,
    /// The registry does not know the message type.
    NoMtiDefinition,
    /// A bitmap field whose encoding is neither binary nor packed.
    InvalidFieldDefinition,
    BadBitmap(DecodeBitmapError),
}

/// An `Iso8583TokeniseError` with its text and bytes as sequences.
pub enum TokeniseFault {
    Overflow { from: usize, count: usize, max: usize },
    InvalidVarLength(Seq<char>),
    InvalidData(Seq<u8>),
    NoTokenDefinition,
    NoMtiDefinition,
    InvalidFieldDefinition,
    BadBitmap(DecodeBitmapError),
}

impl View for Iso8583TokeniseError {
    type V = TokeniseFault;

    open spec fn view(&self) -> TokeniseFault {
        match self {
            Iso8583TokeniseError::Overflow { from, count, max } => TokeniseFault::Overflow {
                from: *from,
                count: *count,
                max: *max,
            },
            Iso8583TokeniseError::InvalidVarLength(text) => TokeniseFault::InvalidVarLength(text@),
            Iso8583TokeniseError::InvalidData(bytes) => TokeniseFault::InvalidData(bytes@),
            Iso8583TokeniseError::NoTokenDefinition => TokeniseFault::NoTokenDefinition,
            Iso8583TokeniseError::NoMtiDefinition => TokeniseFault::NoMtiDefinition,
            Iso8583TokeniseError::InvalidFieldDefinition => TokeniseFault::InvalidFieldDefinition,
            Iso8583TokeniseError::BadBitmap(e) => TokeniseFault::BadBitmap(*e),
        }
    }
}

impl TokeniseFault {
    /// What the error says to a reader.
    pub open spec fn message(self) -> Seq<char> {
        match self {
            TokeniseFault::Overflow { from, count, max } => "overflow reading from "@ + decimal_text(
                from as nat,
            ) + " by "@ + decimal_text(count as nat) + ", max "@ + decimal_text(max as nat),
            TokeniseFault::InvalidVarLength(text) => "invalid variable length: "@ + text,
            TokeniseFault::InvalidData(bytes) => "invalid data read "@ + byte_list(bytes),
            TokeniseFault::NoTokenDefinition => "no token definition found"@,
            TokeniseFault::NoMtiDefinition => "no MTI definition found"@,
            TokeniseFault::InvalidFieldDefinition => "invalid field definition"@,
            TokeniseFault::BadBitmap(_) => "invalid bitmap"@,
        }
    }
}

impl Iso8583TokeniseError {
    /// Renders the error for a reader.
    pub fn to_string(&self) -> (text: String)
        ensures
            text@ == self@.message(),
    {
        match self {
            Iso8583TokeniseError::Overflow { from, count, max } => {
                let mut text = "overflow reading from ".to_owned();
                text.append(to_decimal(*from).as_str());
                text.append(" by ");
                text.append(to_decimal(*count).as_str());
                text.append(", max ");
                text.append(to_decimal(*max).as_str());
                text
            },
            Iso8583TokeniseError::InvalidVarLength(len) => {
                let mut text = "invalid variable length: ".to_owned();
                text.append(len.as_str());
                text
            },
            Iso8583TokeniseError::InvalidData(data) => {
                let mut text = "invalid data read ".to_owned();
                text.append(byte_to_list_string(data.as_slice()).as_str());
                text
            },
            Iso8583TokeniseError::NoTokenDefinition => "no token definition found".to_owned(),
            Iso8583TokeniseError::NoMtiDefinition => "no MTI definition found".to_owned(),
            Iso8583TokeniseError::InvalidFieldDefinition => "invalid field definition".to_owned(),
            Iso8583TokeniseError::BadBitmap(_) => "invalid bitmap".to_owned(),
        }
    }

    /// The bitmap error behind this error, where there is one.
    pub fn source(&self) -> (cause: Option<&DecodeBitmapError>)
        ensures
            match *self {
                Iso8583TokeniseError::BadBitmap(e) => cause == Some(&e),
                _ => cause is None,
            },
    {
        match self {
            Iso8583TokeniseError::BadBitmap(bitmap_err) => Some(bitmap_err),
            _ => None,
        }
    }
}

impl From<DecodeBitmapError> for Iso8583TokeniseError {
    fn from(err: DecodeBitmapError) -> (error: Self) {
        Iso8583TokeniseError::BadBitmap(err)
    }
}

impl vstd::std_specs::convert::FromSpecImpl<DecodeBitmapError> for Iso8583TokeniseError {
    open spec fn obeys_from_spec() -> bool {
        true
    }

    open spec fn from_spec(err: DecodeBitmapError) -> Self {
        Iso8583TokeniseError::BadBitmap(err)
    }
}

/// The outcome of one read and the offset after it.
pub struct Read<T> {
    pub outcome: Result<T, TokeniseFault>,
    pub pointer: usize,
}

/// Reading `count` bytes at offset `from`: the bytes, with the offset behind
/// them, or an overflow that leaves the offset where it was.
pub open spec fn read_bytes(payload: Seq<u8>, from: usize, count: usize) -> Read<Seq<u8>> {
    if from + count > payload.len() {
        Read {
            outcome: Err(TokeniseFault::Overflow { from, count, max: payload.len() as usize }),
            pointer: from,
        }
    } else {
        Read { outcome: Ok(payload.subrange(from as int, from + count)), pointer: (from + count) as usize }
    }
}

/// Reading the bitmap that `defn` defines at offset `from`: its wire bytes.
///
/// The field's bytes are read first. A binary bitmap is those bytes, a
/// packed one the bytes that their hexadecimal text stands for; a field of
/// any other encoding defines no bitmap.
pub open spec fn read_bitmap(payload: Seq<u8>, from: usize, defn: Field) -> Read<Seq<u8>> {
    let raw = read_bytes(payload, from, defn.size);
    match raw.outcome {
        Err(_) => raw,
        Ok(bytes) => Read {
            outcome: match defn.data_type {
                DataType::Binary => Ok(bytes),
                DataType::Packed => match ascii_bitmap(bytes, defn.size) {
                    Ok(wire) => Ok(wire),
                    Err(e) => Err(TokeniseFault::BadBitmap(e)),
                },
                _ => Err(TokeniseFault::InvalidFieldDefinition),
            },
            pointer: raw.pointer,
        },
    }
}

/// What a length prefix says: its bytes must be UTF-8 and the text a
/// decimal number.
pub open spec fn prefix_value(prefix: Seq<u8>) -> Result<usize, TokeniseFault> {
    if !valid_utf8(prefix) {
        Err(TokeniseFault::InvalidData(prefix))
    } else {
        match decimal_value(decode_utf8(prefix)) {
            Some(length) => Ok(length),
            None => Err(TokeniseFault::InvalidVarLength(byte_chars(prefix))),
        }
    }
}

/// Finding the length of the value of `field` at offset `from`: a variable
/// kind reads it from its prefix, any other takes no bytes and has the byte
/// size of its definition.
pub open spec fn read_length(payload: Seq<u8>, from: usize, field: Field) -> Read<usize> {
    match field.ftype.prefix_width() {
        Some(width) => {
            let prefix = read_bytes(payload, from, width);
            Read {
                outcome: match prefix.outcome {
                    Ok(bytes) => prefix_value(bytes),
                    Err(e) => Err(e),
                },
                pointer: prefix.pointer,
            }
        },
        None => Read { outcome: Ok(field.size), pointer: from },
    }
}

/// The text of a field's value: its bytes must be UTF-8.
pub open spec fn value_text(raw: Seq<u8>) -> Result<Seq<char>, TokeniseFault> {
    if valid_utf8(raw) {
        Ok(decode_utf8(raw))
    } else {
        Err(TokeniseFault::InvalidData(raw))
    }
}

/// Reading field `field_num` at offset `from`: the field must be defined,
/// then its length is found, then its value is read and taken as text.
pub open spec fn read_field(payload: Seq<u8>, from: usize, fields: Map<u16, Field>, field_num: u16) -> Read<
    Seq<char>,
> {
    if !fields.contains_key(field_num) {
        Read { outcome: Err(TokeniseFault::NoTokenDefinition), pointer: from }
    } else {
        let length = read_length(payload, from, fields[field_num]);
        match length.outcome {
            Err(e) => Read { outcome: Err(e), pointer: length.pointer },
            Ok(count) => {
                let raw = read_bytes(payload, length.pointer, count);
                Read {
                    outcome: match raw.outcome {
                        Ok(bytes) => value_text(bytes),
                        Err(e) => Err(e),
                    },
                    pointer: raw.pointer,
                }
            },
        }
    }
}

/// A length prefix that asks for more than the payload has left ends in an
/// overflow: where field `field_num` is of variable length, its prefix at
/// offset `from` can be read and says `count`, and fewer than `count` bytes
/// follow the prefix, reading the field fails with an overflow that reports
/// the offset behind the prefix, `count` and the length of the payload.
pub proof fn lemma_prefix_past_payload_overflows(
    payload: Seq<u8>,
    from: usize,
    fields: Map<u16, Field>,
    field_num: u16,
    count: usize,
)
    requires
        payload.len() <= usize::MAX,
        fields.contains_key(field_num),
        fields[field_num].ftype.prefix_width() is Some,
        read_length(payload, from, fields[field_num]).outcome == Ok::<usize, TokeniseFault>(count),
        from + fields[field_num].ftype.prefix_width()->Some_0 + count > payload.len(),
    ensures
        read_field(payload, from, fields, field_num).outcome == Err::<Seq<char>, TokeniseFault>(
            TokeniseFault::Overflow {
                from: (from + fields[field_num].ftype.prefix_width()->Some_0) as usize,
                count,
                max: payload.len() as usize,
            },
        ),
        read_field(payload, from, fields, field_num).pointer == from
            + fields[field_num].ftype.prefix_width()->Some_0,
{
}

/// No read passes the end of the payload: whatever is read, and whether or
/// not it succeeds, the offset never moves back, and where it started inside
/// the payload it stays inside.
pub proof fn lemma_reads_stay_in_payload(
    payload: Seq<u8>,
    from: usize,
    fields: Map<u16, Field>,
    field_num: u16,
    defn: Field,
    count: usize,
)
    requires
        from <= payload.len() <= usize::MAX,
    ensures
        from <= read_bytes(payload, from, count).pointer <= payload.len(),
        from <= read_bitmap(payload, from, defn).pointer <= payload.len(),
        from <= read_length(payload, from, defn).pointer <= payload.len(),
        from <= read_field(payload, from, fields, field_num).pointer <= payload.len(),
        read_bytes(payload, from, count).outcome matches Ok(bytes) ==> bytes.len() == count,
{
}

/// Reads `size` bytes at `*pointer` and moves the offset behind them. Where
/// the payload has not that many left, nothing is read and the offset stays.
pub fn tokenise_next_bytes<'a>(payload: &'a [u8], pointer: &mut usize, size: usize) -> (result: Result<
    &'a [u8],
    Iso8583TokeniseError,
>)
    ensures
        *final(pointer) == read_bytes(payload@, *old(pointer), size).pointer,
        match read_bytes(payload@, *old(pointer), size).outcome {
            Ok(bytes) => result is Ok && result->Ok_0@ == bytes,
            Err(fault) => result is Err && result->Err_0@ == fault,
        },
{
    let from: usize = *pointer;
    if size > payload.len() || from > payload.len() - size {
        return Err(Iso8583TokeniseError::Overflow { from, count: size, max: payload.len() });
    }
    let result = slice_subrange(payload, from, from + size);
    *pointer = from + size;
    Ok(result)
}

/// Reads the bitmap that `bitmap_defn` defines and decodes it. The offset
/// moves behind the field's bytes before they are looked at.
pub fn tokenise_next_bitmap(payload: &[u8], pointer: &mut usize, bitmap_defn: &Field) -> (result: Result<
    u64,
    Iso8583TokeniseError,
>)
    ensures
        *final(pointer) == read_bitmap(payload@, *old(pointer), *bitmap_defn).pointer,
        match read_bitmap(payload@, *old(pointer), *bitmap_defn).outcome {
            Ok(wire) => result is Ok && result->Ok_0 == bitmap_value(wire),
            Err(fault) => result is Err && result->Err_0@ == fault,
        },
{
    let size: usize = bitmap_defn.size;
    let raw_bitmap = match tokenise_next_bytes(payload, pointer, size) {
        Ok(raw_bitmap) => raw_bitmap,
        Err(e) => {
            return Err(e);
        },
    };
    let decoded = match bitmap_defn.data_type {
        DataType::Binary => decode_bitmap(raw_bitmap, size),
        DataType::Packed => decode_ascii_bitmap(raw_bitmap, size),
        _ => {
            return Err(Iso8583TokeniseError::InvalidFieldDefinition);
        },
    };
    match decoded {
        Ok(bitmap) => Ok(bitmap),
        Err(e) => Err(Iso8583TokeniseError::from(e)),
    }
}

/// Finds the length of the value of `field`, reading its prefix where it
/// has one.
pub fn get_field_length(payload: &[u8], pointer: &mut usize, field: &Field) -> (result: Result<
    usize,
    Iso8583TokeniseError,
>)
    ensures
        *final(pointer) == read_length(payload@, *old(pointer), *field).pointer,
        match read_length(payload@, *old(pointer), *field).outcome {
            Ok(length) => result is Ok && result->Ok_0 == length,
            Err(fault) => result is Err && result->Err_0@ == fault,
        },
{
    match field.ftype.var_size_len() {
        Some(field_size_len) => {
            let field_size_str = match tokenise_next_bytes(payload, pointer, field_size_len) {
                Ok(bytes) => bytes,
                Err(e) => {
                    return Err(e);
                },
            };
            let text = match std::str::from_utf8(field_size_str) {
                Ok(text) => text,
                Err(_) => {
                    return Err(Iso8583TokeniseError::InvalidData(slice_to_vec(field_size_str)));
                },
            };
            match parse_usize(text) {
                Some(length) => Ok(length),
                None => Err(Iso8583TokeniseError::InvalidVarLength(byte_to_string(field_size_str))),
            }
        },
        None => Ok(field.size),
    }
}

/// Reads the value of field `field_num` as text.
pub fn tokenise_next_field(
    payload: &[u8],
    pointer: &mut usize,
    mti_spec: &HashMap<u16, Field>,
    field_num: &u16,
) -> (result: Result<String, Iso8583TokeniseError>)
    ensures
        *final(pointer) == read_field(payload@, *old(pointer), mti_spec@, *field_num).pointer,
        match read_field(payload@, *old(pointer), mti_spec@, *field_num).outcome {
            Ok(text) => result is Ok && result->Ok_0@ == text,
            Err(fault) => result is Err && result->Err_0@ == fault,
        },
{
    let field = match mti_spec.get(field_num) {
        Some(field) => field,
        None => {
            return Err(Iso8583TokeniseError::NoTokenDefinition);
        },
    };
    let field_size: usize = match get_field_length(payload, pointer, field) {
        Ok(field_size) => field_size,
        Err(e) => {
            return Err(e);
        },
    };
    let field_value_raw = match tokenise_next_bytes(payload, pointer, field_size) {
        Ok(bytes) => bytes,
        Err(e) => {
            return Err(e);
        },
    };
    match std::str::from_utf8(field_value_raw) {
        Ok(text) => Ok(text.to_owned()),
        Err(_) => Err(Iso8583TokeniseError::InvalidData(slice_to_vec(field_value_raw))),
    }
}

} // verus!
