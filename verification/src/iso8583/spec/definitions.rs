//! Field definitions and the textual grammar that declares them.
//!
//! A declaration reads `Kind(Body)`: `Fixed(size:encoding)`, `LVar(encoding)`,
//! `LLVar(encoding)`, `LLLVar(encoding)`, `Bitmap(size)` or
//! `AsciiBitmap(size)`. Keywords are matched without regard to case.

use crate::util::decimal::{decimal_text, decimal_value, lemma_decimal_value_lower, parse_usize, to_decimal};
use crate::util::text::{
    chars_of,
    cut_at,
    find_char,
    lemma_lower_text_idempotent,
    lemma_split_once_lower,
    lower_text,
    lowered_is,
    split_once,
    string_of,
};
use std::str::FromStr;
use vstd::prelude::*;
use vstd::string::*;

verus! {

/// Why a field declaration was refused, with the text at fault.
#[derive(Debug)]
pub enum FieldParseError {
    InvalidDataType(String),
    InvalidFormat(String),
    InvalidType(String),
    InvalidLength(String),
    JunkTrail(String),
}

/// A `FieldParseError` with its text as a sequence of characters.
pub enum FieldParseFault {
    InvalidDataType(Seq<char>),
    InvalidFormat(Seq<char>),
    InvalidType(Seq<char>),
    InvalidLength(Seq<char>),
    JunkTrail(Seq<char>),
}

impl View for FieldParseError {
    type V = FieldParseFault;

    open spec fn view(&self) -> FieldParseFault {
        match self {
            FieldParseError::InvalidDataType(text) => FieldParseFault::InvalidDataType(text@),
            FieldParseError::InvalidFormat(text) => FieldParseFault::InvalidFormat(text@),
            FieldParseError::InvalidType(text) => FieldParseFault::InvalidType(text@),
            FieldParseError::InvalidLength(text) => FieldParseFault::InvalidLength(text@),
            FieldParseError::JunkTrail(text) => FieldParseFault::JunkTrail(text@),
        }
    }
}

/// How the content of a field is encoded. Only a bitmap is decoded
/// differently for it.
#[derive(Debug, Clone, Copy, PartialEq, Eq, Structural)]
pub enum DataType {
    Alpha,
    Alphanum,
    Binary,
    Hex,
    Numeric,
    Packed,
}

/// The encoding that a keyword names, matched without regard to case.
pub open spec fn data_type_of(text: Seq<char>) -> Option<DataType> {
    let word = lower_text(text);
    if word == "alpha"@ || word == "a"@ {
        Some(DataType::Alpha)
    } else if word == "alphanum"@ || word == "alphanumeric"@ || word == "an"@ {
        Some(DataType::Alphanum)
    } else if word == "bin"@ || word == "binary"@ || word == "bit"@ || word == "bitmap"@ {
        Some(DataType::Binary)
    } else if word == "hex"@ || word == "hexadecimal"@ || word == "h"@ {
        Some(DataType::Hex)
    } else if word == "numeric"@ || word == "n"@ {
        Some(DataType::Numeric)
    } else if word == "packed"@ || word == "asciihex"@ {
        Some(DataType::Packed)
    } else {
        None
    }
}

/// What parsing `text` as an encoding gives.
pub open spec fn parse_data_type(text: Seq<char>) -> Result<DataType, FieldParseFault> {
    match data_type_of(text) {
        Some(data_type) => Ok(data_type),
        None => Err(FieldParseFault::InvalidDataType(text)),
    }
}

impl DataType {
    /// The name of the encoding as it is rendered.
    pub open spec fn name(self) -> Seq<char> {
        match self {
            DataType::Alpha => "Alpha"@,
            DataType::Alphanum => "Alphanum"@,
            DataType::Binary => "Binary"@,
            DataType::Hex => "Hex"@,
            DataType::Numeric => "Numeric"@,
            DataType::Packed => "Packed"@,
        }
    }

    /// Renders the encoding by its name.
    pub fn to_string(&self) -> (text: String)
        ensures
            text@ == self.name(),
    {
        match self {
            DataType::Alpha => "Alpha".to_owned(),
            DataType::Alphanum => "Alphanum".to_owned(),
            DataType::Binary => "Binary".to_owned(),
            DataType::Hex => "Hex".to_owned(),
            DataType::Numeric => "Numeric".to_owned(),
            DataType::Packed => "Packed".to_owned(),
        }
    }
}

/// The encoding that a keyword names.
fn encoding_of(text: &[char]) -> (data_type: Option<DataType>)
    ensures
        data_type == data_type_of(text@),
{
    if lowered_is(text, "alpha") || lowered_is(text, "a") {
        Some(DataType::Alpha)
    } else if lowered_is(text, "alphanum") || lowered_is(text, "alphanumeric") || lowered_is(text, "an") {
        Some(DataType::Alphanum)
    } else if lowered_is(text, "bin") || lowered_is(text, "binary") || lowered_is(text, "bit") || lowered_is(
        text,
        "bitmap",
    ) {
        Some(DataType::Binary)
    } else if lowered_is(text, "hex") || lowered_is(text, "hexadecimal") || lowered_is(text, "h") {
        Some(DataType::Hex)
    } else if lowered_is(text, "numeric") || lowered_is(text, "n") {
        Some(DataType::Numeric)
    } else if lowered_is(text, "packed") || lowered_is(text, "asciihex") {
        Some(DataType::Packed)
    } else {
        None
    }
}

impl FromStr for DataType {
    type Err = FieldParseError;

    /// Reads an encoding keyword or one of its aliases.
    fn from_str(s: &str) -> (result: Result<Self, Self::Err>)
        ensures
            parsed_as(result, parse_data_type(s@)),
    {
        match encoding_of(chars_of(s).as_slice()) {
            Some(data_type) => Ok(data_type),
            None => Err(FieldParseError::InvalidDataType(s.to_owned())),
        }
    }
}

/// How the length of a field is fixed: by its definition, by a decimal
/// prefix in the payload, or as a bitmap.
#[derive(Debug, Clone, Copy, PartialEq, Eq, Structural)]
pub enum FieldType {
    Fixed,
    LVar,
    LLVar,
    LLLVar,
    Bitmap,
    AsciiBitmap,
}

/// The kind that a keyword names, matched without regard to case.
pub open spec fn field_type_of(text: Seq<char>) -> Option<FieldType> {
    let word = lower_text(text);
    if word == "fixed"@ {
        Some(FieldType::Fixed)
    } else if word == "lvar"@ {
        Some(FieldType::LVar)
    } else if word == "llvar"@ {
        Some(FieldType::LLVar)
    } else if word == "lllvar"@ {
        Some(FieldType::LLLVar)
    } else if word == "bitmap"@ {
        Some(FieldType::Bitmap)
    } else if word == "asciibitmap"@ {
        Some(FieldType::AsciiBitmap)
    } else {
        None
    }
}

/// What parsing `text` as a kind gives.
pub open spec fn parse_field_type(text: Seq<char>) -> Result<FieldType, FieldParseFault> {
    match field_type_of(text) {
        Some(ftype) => Ok(ftype),
        None => Err(FieldParseFault::InvalidType(text)),
    }
}

impl FieldType {
    /// The number of decimal digits that give a variable field's length in
    /// the payload; `None` for a kind whose length the definition fixes.
    pub open spec fn prefix_width(self) -> Option<usize> {
        match self {
            FieldType::LLLVar => Some(3usize),
            FieldType::LLVar => Some(2usize),
            FieldType::LVar => Some(1usize),
            _ => None,
        }
    }

    /// The name of the kind as it is rendered.
    pub open spec fn name(self) -> Seq<char> {
        match self {
            FieldType::Fixed => "Fixed"@,
            FieldType::LVar => "LVar"@,
            FieldType::LLVar => "LLVar"@,
            FieldType::LLLVar => "LLLVar"@,
            FieldType::Bitmap => "Bitmap"@,
            FieldType::AsciiBitmap => "AsciiBitmap"@,
        }
    }

    /// The width of the length prefix of a variable kind.
    pub fn var_size_len(&self) -> (width: Option<usize>)
        ensures
            width == self.prefix_width(),
    {
        match self {
            FieldType::LLLVar => Some(3),
            FieldType::LLVar => Some(2),
            FieldType::LVar => Some(1),
            _ => None,
        }
    }

    /// Renders the kind by its name.
    pub fn to_string(&self) -> (text: String)
        ensures
            text@ == self.name(),
    {
        match self {
            FieldType::Fixed => "Fixed".to_owned(),
            FieldType::LVar => "LVar".to_owned(),
            FieldType::LLVar => "LLVar".to_owned(),
            FieldType::LLLVar => "LLLVar".to_owned(),
            FieldType::Bitmap => "Bitmap".to_owned(),
            FieldType::AsciiBitmap => "AsciiBitmap".to_owned(),
        }
    }
}

/// The kind that a keyword names.
fn kind_of(text: &[char]) -> (ftype: Option<FieldType>)
    ensures
        ftype == field_type_of(text@),
{
    if lowered_is(text, "fixed") {
        Some(FieldType::Fixed)
    } else if lowered_is(text, "lvar") {
        Some(FieldType::LVar)
    } else if lowered_is(text, "llvar") {
        Some(FieldType::LLVar)
    } else if lowered_is(text, "lllvar") {
        Some(FieldType::LLLVar)
    } else if lowered_is(text, "bitmap") {
        Some(FieldType::Bitmap)
    } else if lowered_is(text, "asciibitmap") {
        Some(FieldType::AsciiBitmap)
    } else {
        None
    }
}

impl FromStr for FieldType {
    type Err = FieldParseError;

    /// Reads a kind keyword.
    fn from_str(s: &str) -> (result: Result<Self, Self::Err>)
        ensures
            parsed_as(result, parse_field_type(s@)),
    {
        match kind_of(chars_of(s).as_slice()) {
            Some(ftype) => Ok(ftype),
            None => Err(FieldParseError::InvalidType(s.to_owned())),
        }
    }
}

/// The number of bytes that a field of kind `ftype` and declared size
/// `raw_size` takes in the payload: a packed bitmap holds four declared bits
/// in a character, a binary bitmap eight in a byte, and both round up.
pub open spec fn byte_size(ftype: FieldType, raw_size: usize) -> usize {
    match ftype {
        FieldType::AsciiBitmap => ((raw_size + 3) / 4) as usize,
        FieldType::Bitmap => ((raw_size + 7) / 8) as usize,
        _ => raw_size,
    }
}

/// The byte size of a bitmap is its declared size divided by the bits that
/// a byte carries, rounded up: the fewest bytes that hold the declared bits.
/// Any other kind takes its declared size.
pub proof fn lemma_byte_size_rounds_up(ftype: FieldType, raw_size: usize)
    ensures
        ftype == FieldType::AsciiBitmap ==> 4 * (byte_size(ftype, raw_size) - 1) < raw_size <= 4 * byte_size(
            ftype,
            raw_size,
        ),
        ftype == FieldType::Bitmap ==> 8 * (byte_size(ftype, raw_size) - 1) < raw_size <= 8 * byte_size(
            ftype,
            raw_size,
        ),
        ftype != FieldType::AsciiBitmap && ftype != FieldType::Bitmap ==> byte_size(ftype, raw_size)
            == raw_size,
{
}

/// The definition of one field of a message.
#[derive(Debug, Clone, Copy, PartialEq, Eq, Structural)]
pub struct Field {
    pub ftype: FieldType,
    /// The declared size: for a bitmap, the number of fields it covers.
    pub raw_size: usize,
    /// The number of bytes the field takes in the payload.
    pub size: usize,
    pub data_type: DataType,
}

impl Field {
    /// The field that `Field::new` makes of its arguments.
    pub open spec fn of(ftype: FieldType, raw_size: usize, data_type: DataType) -> Field {
        Field { ftype, raw_size, size: byte_size(ftype, raw_size), data_type }
    }

    /// The byte size is the one derived from the kind and the declared size.
    pub open spec fn is_derived(self) -> bool {
        self.size == byte_size(self.ftype, self.raw_size)
    }

    /// The rendering `Kind:byte_size:encoding`.
    pub open spec fn rendering(self) -> Seq<char> {
        self.ftype.name() + seq![':'] + decimal_text(self.size as nat) + seq![':'] + self.data_type.name()
    }

    /// Makes a field definition, deriving the byte size.
    pub fn new(ftype: FieldType, raw_size: usize, data_type: DataType) -> (field: Self)
        ensures
            field == Field::of(ftype, raw_size, data_type),
            field.is_derived(),
    {
        let size: usize = match ftype {
            FieldType::AsciiBitmap => raw_size / 4 + if raw_size % 4 == 0 { 0 } else { 1 },
            FieldType::Bitmap => raw_size / 8 + if raw_size % 8 == 0 { 0 } else { 1 },
            _ => raw_size,
        };
        Field { ftype, raw_size, size, data_type }
    }

    /// Renders the definition as `Kind:byte_size:encoding`, for diagnostics.
    pub fn to_string(&self) -> (text: String)
        ensures
            text@ == self.rendering(),
    {
        proof {
            reveal_strlit(":");
        }
        let mut text = self.ftype.to_string();
        text.append(":");
        text.append(to_decimal(self.size).as_str());
        text.append(":");
        text.append(self.data_type.to_string().as_str());
        assert(":"@ =~= seq![':']);
        text
    }
}

/// What the body of a declaration of kind `ftype` gives. `whole` is the
/// declaration it stands in, which a fault in the form reports.
///
/// A fixed field declares `size:encoding`. A variable field declares its
/// encoding alone and has size 0. A bitmap declares its size alone and has
/// the encoding of its kind.
pub open spec fn parse_body(ftype: FieldType, body: Seq<char>, whole: Seq<char>) -> Result<
    Field,
    FieldParseFault,
> {
    match ftype {
        FieldType::Fixed => match split_once(body, ':') {
            None => Err(FieldParseFault::InvalidFormat(whole)),
            Some((size_text, type_text)) => match decimal_value(size_text) {
                None => Err(FieldParseFault::InvalidLength(size_text)),
                Some(size) => match data_type_of(type_text) {
                    None => Err(FieldParseFault::InvalidDataType(type_text)),
                    Some(data_type) => Ok(Field::of(ftype, size, data_type)),
                },
            },
        },
        FieldType::LVar | FieldType::LLVar | FieldType::LLLVar => if body.contains(':') {
            Err(FieldParseFault::InvalidFormat(whole))
        } else {
            match data_type_of(body) {
                None => Err(FieldParseFault::InvalidDataType(body)),
                Some(data_type) => Ok(Field::of(ftype, 0, data_type)),
            }
        },
        FieldType::Bitmap | FieldType::AsciiBitmap => if body.contains(':') {
            Err(FieldParseFault::InvalidFormat(whole))
        } else {
            match decimal_value(body) {
                None => Err(FieldParseFault::InvalidLength(body)),
                Some(size) => Ok(Field::of(ftype, size, bitmap_encoding(ftype))),
            }
        },
    }
}

/// The encoding that a bitmap kind forces: a packed bitmap is hexadecimal
/// text, any other is binary.
pub open spec fn bitmap_encoding(ftype: FieldType) -> DataType {
    if ftype == FieldType::AsciiBitmap {
        DataType::Packed
    } else {
        DataType::Binary
    }
}

/// What parsing a field declaration gives.
///
/// The text is cut at the first `(`, the keyword before it names the kind,
/// the rest is cut at the first `)`, nothing may follow that, and the body
/// between the two is read as the kind asks.
pub open spec fn parse_field(text: Seq<char>) -> Result<Field, FieldParseFault> {
    match split_once(text, '(') {
        None => Err(FieldParseFault::InvalidFormat(text)),
        Some((keyword, rest)) => match field_type_of(keyword) {
            None => Err(FieldParseFault::InvalidType(keyword)),
            Some(ftype) => match split_once(rest, ')') {
                None => Err(FieldParseFault::InvalidFormat(text)),
                Some((body, trail)) => if trail.len() > 0 {
                    Err(FieldParseFault::JunkTrail(trail))
                } else {
                    parse_body(ftype, body, text)
                },
            },
        },
    }
}

/// A declaration that parses has one rendering, fixed by its text: the name
/// of its kind, the byte size derived from the declared size, and the name
/// of its encoding. A variable kind declares no size and renders 0; a bitmap
/// renders the encoding of its kind.
pub proof fn lemma_parse_then_render(text: Seq<char>)
    requires
        parse_field(text) is Ok,
    ensures
        ({
            let field = parse_field(text)->Ok_0;
            &&& field.is_derived()
            &&& field.rendering() == field.ftype.name() + seq![':'] + decimal_text(
                byte_size(field.ftype, field.raw_size) as nat,
            ) + seq![':'] + field.data_type.name()
            &&& field.ftype.prefix_width() is Some ==> field.raw_size == 0 && field.size == 0
            &&& field.ftype == FieldType::Bitmap ==> field.data_type == DataType::Binary
            &&& field.ftype == FieldType::AsciiBitmap ==> field.data_type == DataType::Packed
        }),
{
}

/// The case of letters makes no difference to a declaration: lowered, it
/// declares the same field, or is refused as well. So the rendering of a
/// declaration does not depend on how its keywords are capitalised.
pub proof fn lemma_parse_ignores_case(text: Seq<char>)
    ensures
        parse_field(text) matches Ok(field) ==> parse_field(lower_text(text)) == Ok::<Field, FieldParseFault>(
            field,
        ),
        parse_field(text) is Err ==> parse_field(lower_text(text)) is Err,
{
    lemma_split_once_lower(text, '(');
    match split_once(text, '(') {
        None => {},
        Some((keyword, rest)) => {
            lemma_lower_text_idempotent(keyword);
            lemma_split_once_lower(rest, ')');
            match split_once(rest, ')') {
                None => {},
                Some((body, trail)) => {
                    lemma_split_once_lower(body, ':');
                    lemma_decimal_value_lower(body);
                    lemma_lower_text_idempotent(body);
                    match split_once(body, ':') {
                        None => {},
                        Some((size_text, type_text)) => {
                            lemma_decimal_value_lower(size_text);
                            lemma_lower_text_idempotent(type_text);
                        },
                    }
                },
            }
        },
    }
}

/// `result` is the outcome `expected`, its text taken as characters.
pub open spec fn parsed_as<T>(result: Result<T, FieldParseError>, expected: Result<T, FieldParseFault>) -> bool {
    match expected {
        Ok(value) => result == Ok::<T, FieldParseError>(value),
        Err(fault) => result is Err && result->Err_0@ == fault,
    }
}

/// Reads the size of a declaration.
fn parse_size(size_text: &[char]) -> (result: Result<usize, FieldParseError>)
    ensures
        match decimal_value(size_text@) {
            Some(size) => result == Ok::<usize, FieldParseError>(size),
            None => result is Err && result->Err_0@ == FieldParseFault::InvalidLength(size_text@),
        },
{
    let text = string_of(size_text);
    match parse_usize(text.as_str()) {
        Some(size) => Ok(size),
        None => Err(FieldParseError::InvalidLength(text)),
    }
}

/// Reads the encoding of a declaration.
fn parse_encoding(type_text: &[char]) -> (result: Result<DataType, FieldParseError>)
    ensures
        parsed_as(result, parse_data_type(type_text@)),
{
    match encoding_of(type_text) {
        Some(data_type) => Ok(data_type),
        None => Err(FieldParseError::InvalidDataType(string_of(type_text))),
    }
}

/// Reads the body of a declaration of kind `ftype` that stands in `whole`.
fn parse_field_body(ftype: FieldType, body: &[char], whole: &str) -> (result: Result<Field, FieldParseError>)
    ensures
        parsed_as(result, parse_body(ftype, body@, whole@)),
{
    match ftype {
        FieldType::Fixed => {
            let (size_text, type_text) = match cut_at(body, ':') {
                Some(parts) => parts,
                None => {
                    return Err(FieldParseError::InvalidFormat(whole.to_owned()));
                },
            };
            let size: usize = match parse_size(size_text) {
                Ok(size) => size,
                Err(e) => {
                    return Err(e);
                },
            };
            match parse_encoding(type_text) {
                Ok(data_type) => Ok(Field::new(ftype, size, data_type)),
                Err(e) => Err(e),
            }
        },
        FieldType::LVar | FieldType::LLVar | FieldType::LLLVar => {
            if find_char(body, ':').is_some() {
                return Err(FieldParseError::InvalidFormat(whole.to_owned()));
            }
            match parse_encoding(body) {
                Ok(data_type) => Ok(Field::new(ftype, 0, data_type)),
                Err(e) => Err(e),
            }
        },
        FieldType::Bitmap | FieldType::AsciiBitmap => {
            if find_char(body, ':').is_some() {
                return Err(FieldParseError::InvalidFormat(whole.to_owned()));
            }
            let data_type = match ftype {
                FieldType::AsciiBitmap => DataType::Packed,
                _ => DataType::Binary,
            };
            match parse_size(body) {
                Ok(size) => Ok(Field::new(ftype, size, data_type)),
                Err(e) => Err(e),
            }
        },
    }
}

impl FromStr for Field {
    type Err = FieldParseError;

    /// Reads a field declaration `Kind(Body)`.
    fn from_str(s: &str) -> (result: Result<Self, Self::Err>)
        ensures
            parsed_as(result, parse_field(s@)),
    {
        let chars = chars_of(s);
        let (keyword, rest) = match cut_at(chars.as_slice(), '(') {
            Some(parts) => parts,
            None => {
                return Err(FieldParseError::InvalidFormat(s.to_owned()));
            },
        };
        let ftype = match kind_of(keyword) {
            Some(ftype) => ftype,
            None => {
                return Err(FieldParseError::InvalidType(string_of(keyword)));
            },
        };
        let (body, junk_trail) = match cut_at(rest, ')') {
            Some(parts) => parts,
            None => {
                return Err(FieldParseError::InvalidFormat(s.to_owned()));
            },
        };
        if junk_trail.len() > 0 {
            return Err(FieldParseError::JunkTrail(string_of(junk_trail)));
        }
        parse_field_body(ftype, body, s)
    }
}

} // verus!
