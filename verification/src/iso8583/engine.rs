//! The engine: tokenising a whole message against a registry.
//!
//! A message starts with the four characters of its type indicator (MTI).
//! The primary bitmap follows, defined as field 0 of the message type, and
//! then the present fields in the order of their numbers.

use crate::parse::{Parser, Tokeniser};
use crate::iso8583::spec::definitions::Field;
use crate::iso8583::spec::Spec;
use crate::iso8583::tokenise::{
    read_bitmap,
    read_bytes,
    read_field,
    tokenise_next_bitmap,
    tokenise_next_bytes,
    tokenise_next_field,
    Iso8583TokeniseError,
    TokeniseFault,
};
use crate::util::binary::{binary_text, to_binary, truncate, truncated};
use crate::util::bitmap::{bitmap_value, field_present};
use crate::util::bytes::{byte_chars, byte_to_string};
use std::collections::HashMap;
use vstd::prelude::*;

verus! {

broadcast use vstd::std_specs::hash::group_hash_axioms;

/// The key under which `parse` keeps the message type indicator.
pub const MTI_KEY: u16 = 0xffff;

/// The key under which `parse` keeps the primary bitmap as binary text.
pub const BITMAP_KEY: u16 = 0;

/// What stands before the fields of a message.
pub struct Header {
    /// The message type indicator.
    pub mti: Seq<char>,
    /// The field definitions of the message type.
    pub fields: Map<u16, Field>,
    /// The primary bitmap.
    pub bitmap: u64,
    /// The offset of the first field.
    pub pointer: usize,
}

/// Reading the header of a message: the indicator is the first four bytes,
/// each taken as a character; the registry must know it and define its
/// field 0, which is read as the primary bitmap.
pub open spec fn read_header(registry: Map<Seq<char>, Map<u16, Field>>, payload: Seq<u8>) -> Result<
    Header,
    TokeniseFault,
> {
    match read_bytes(payload, 0, 4).outcome {
        Err(e) => Err(e),
        Ok(mti_bytes) => {
            let mti = byte_chars(mti_bytes);
            if !registry.contains_key(mti) {
                Err(TokeniseFault::NoMtiDefinition)
            } else if !registry[mti].contains_key(0) {
                Err(TokeniseFault::NoTokenDefinition)
            } else {
                let bitmap = read_bitmap(payload, 4, registry[mti][0]);
                match bitmap.outcome {
                    Err(e) => Err(e),
                    Ok(wire) => Ok(
                        Header { mti, fields: registry[mti], bitmap: bitmap_value(wire), pointer: bitmap.pointer },
                    ),
                }
            }
        },
    }
}

/// Reading the fields from number `next` up to 64 that `bitmap` marks, from
/// offset `from`, and adding their text to `tokens`. The first field that
/// cannot be read ends the walk with its fault.
pub open spec fn read_fields(
    payload: Seq<u8>,
    from: usize,
    fields: Map<u16, Field>,
    bitmap: u64,
    next: u16,
    tokens: Map<u16, Seq<char>>,
) -> Result<Map<u16, Seq<char>>, TokeniseFault>
    decreases 65 - next,
{
    if next < 1 || next > 64 {
        Ok(tokens)
    } else if !field_present(bitmap, next as u64) {
        read_fields(payload, from, fields, bitmap, (next + 1) as u16, tokens)
    } else {
        let field = read_field(payload, from, fields, next);
        match field.outcome {
            Err(e) => Err(e),
            Ok(text) => read_fields(
                payload,
                field.pointer,
                fields,
                bitmap,
                (next + 1) as u16,
                tokens.insert(next, text),
            ),
        }
    }
}

/// What tokenising a payload gives: the text of each present field under
/// its number, or the first fault met.
pub open spec fn tokenised(registry: Map<Seq<char>, Map<u16, Field>>, payload: Seq<u8>) -> Result<
    Map<u16, Seq<char>>,
    TokeniseFault,
> {
    match read_header(registry, payload) {
        Err(e) => Err(e),
        Ok(header) => read_fields(
            payload,
            header.pointer,
            header.fields,
            header.bitmap,
            1,
            Map::<u16, Seq<char>>::empty(),
        ),
    }
}

/// The primary bitmap as `parse` keeps it: in binary without leading zeros,
/// cut down to the declared size of the bitmap field.
pub open spec fn bitmap_text(bitmap: u64, defn: Field) -> Seq<char> {
    truncated(binary_text(bitmap as nat), defn.raw_size)
}

/// What parsing a payload gives: the tokens, and beside them the message
/// type indicator under `MTI_KEY` and the primary bitmap under `BITMAP_KEY`.
pub open spec fn parsed(registry: Map<Seq<char>, Map<u16, Field>>, payload: Seq<u8>) -> Result<
    Map<u16, Seq<char>>,
    TokeniseFault,
> {
    match read_header(registry, payload) {
        Err(e) => Err(e),
        Ok(header) => read_fields(
            payload,
            header.pointer,
            header.fields,
            header.bitmap,
            1,
            Map::<u16, Seq<char>>::empty().insert(MTI_KEY, header.mti).insert(
                BITMAP_KEY,
                bitmap_text(header.bitmap, registry[header.mti][0]),
            ),
        ),
    }
}

/// The text of each token.
pub open spec fn token_texts(tokens: Map<u16, String>) -> Map<u16, Seq<char>> {
    tokens.map_values(|text: String| text@)
}

/// `result` is the outcome `expected`, its text taken as characters.
pub open spec fn tokens_are(
    result: Result<HashMap<u16, String>, Iso8583TokeniseError>,
    expected: Result<Map<u16, Seq<char>>, TokeniseFault>,
) -> bool {
    match expected {
        Ok(tokens) => result is Ok && token_texts(result->Ok_0@) == tokens,
        Err(fault) => result is Err && result->Err_0@ == fault,
    }
}

/// A message of a type that the registry does not know is refused as such,
/// and so is one whose type defines no field 0.
pub proof fn lemma_unknown_message_types(registry: Map<Seq<char>, Map<u16, Field>>, payload: Seq<u8>)
    requires
        payload.len() >= 4,
    ensures
        !registry.contains_key(byte_chars(payload.subrange(0, 4))) ==> tokenised(registry, payload) == Err::<
            Map<u16, Seq<char>>,
            TokeniseFault,
        >(TokeniseFault::NoMtiDefinition),
        registry.contains_key(byte_chars(payload.subrange(0, 4))) && !registry[byte_chars(
            payload.subrange(0, 4),
        )].contains_key(0) ==> tokenised(registry, payload) == Err::<Map<u16, Seq<char>>, TokeniseFault>(
            TokeniseFault::NoTokenDefinition,
        ),
{
}

/// Parsing fails where tokenising fails, and with the same fault.
pub proof fn lemma_parse_fails_as_tokenise(registry: Map<Seq<char>, Map<u16, Field>>, payload: Seq<u8>)
    ensures
        parsed(registry, payload) is Err <==> tokenised(registry, payload) is Err,
        parsed(registry, payload) is Err ==> parsed(registry, payload) == tokenised(registry, payload),
{
    match read_header(registry, payload) {
        Err(e) => {},
        Ok(header) => {
            let extra = Map::<u16, Seq<char>>::empty().insert(MTI_KEY, header.mti).insert(
                BITMAP_KEY,
                bitmap_text(header.bitmap, registry[header.mti][0]),
            );
            lemma_walk_keeps_faults(
                payload,
                header.pointer,
                header.fields,
                header.bitmap,
                1,
                Map::<u16, Seq<char>>::empty(),
                extra,
            );
        },
    }
}

/// Which fields are read, and whether one of them fails, does not depend on
/// the tokens found before.
proof fn lemma_walk_keeps_faults(
    payload: Seq<u8>,
    from: usize,
    fields: Map<u16, Field>,
    bitmap: u64,
    next: u16,
    one: Map<u16, Seq<char>>,
    other: Map<u16, Seq<char>>,
)
    ensures
        read_fields(payload, from, fields, bitmap, next, one) matches Err(e) ==> read_fields(
            payload,
            from,
            fields,
            bitmap,
            next,
            other,
        ) == Err::<Map<u16, Seq<char>>, TokeniseFault>(e),
        read_fields(payload, from, fields, bitmap, next, one) is Ok ==> read_fields(
            payload,
            from,
            fields,
            bitmap,
            next,
            other,
        ) is Ok,
    decreases 65 - next,
{
    if 1 <= next <= 64 {
        if !field_present(bitmap, next as u64) {
            lemma_walk_keeps_faults(payload, from, fields, bitmap, (next + 1) as u16, one, other);
        } else {
            let field = read_field(payload, from, fields, next);
            match field.outcome {
                Err(e) => {},
                Ok(text) => {
                    lemma_walk_keeps_faults(
                        payload,
                        field.pointer,
                        fields,
                        bitmap,
                        (next + 1) as u16,
                        one.insert(next, text),
                        other.insert(next, text),
                    );
                },
            }
        }
    }
}

/// A walk that succeeds adds exactly the fields from `next` to 64 that the
/// bitmap marks, and keeps what was found before under other numbers.
pub proof fn lemma_walk_adds_marked_fields(
    payload: Seq<u8>,
    from: usize,
    fields: Map<u16, Field>,
    bitmap: u64,
    next: u16,
    tokens: Map<u16, Seq<char>>,
)
    requires
        next >= 1,
        read_fields(payload, from, fields, bitmap, next, tokens) is Ok,
    ensures
        forall|k: u16| #[trigger]
            read_fields(payload, from, fields, bitmap, next, tokens)->Ok_0.contains_key(k) <==> tokens.contains_key(
                k,
            ) || (next <= k <= 64 && field_present(bitmap, k as u64)),
        forall|k: u16|
            tokens.contains_key(k) && !(next <= k <= 64) ==> #[trigger] read_fields(
                payload,
                from,
                fields,
                bitmap,
                next,
                tokens,
            )->Ok_0[k] == tokens[k],
    decreases 65 - next,
{
    if next <= 64 {
        if !field_present(bitmap, next as u64) {
            lemma_walk_adds_marked_fields(payload, from, fields, bitmap, (next + 1) as u16, tokens);
        } else {
            let field = read_field(payload, from, fields, next);
            lemma_walk_adds_marked_fields(
                payload,
                field.pointer,
                fields,
                bitmap,
                (next + 1) as u16,
                tokens.insert(next, field.outcome->Ok_0),
            );
        }
    }
}

/// The tokens of a message are the fields 1 to 64 that its primary bitmap
/// marks, no more and no fewer.
pub proof fn lemma_tokens_are_the_marked_fields(registry: Map<Seq<char>, Map<u16, Field>>, payload: Seq<u8>)
    requires
        tokenised(registry, payload) is Ok,
    ensures
        read_header(registry, payload) is Ok,
        forall|k: u16| #[trigger]
            tokenised(registry, payload)->Ok_0.contains_key(k) <==> 1 <= k <= 64 && field_present(
                read_header(registry, payload)->Ok_0.bitmap,
                k as u64,
            ),
{
    let header = read_header(registry, payload)->Ok_0;
    lemma_walk_adds_marked_fields(
        payload,
        header.pointer,
        header.fields,
        header.bitmap,
        1,
        Map::<u16, Seq<char>>::empty(),
    );
}

/// Parsing gives what tokenising gives and, under their own keys, the
/// message type indicator and the primary bitmap as text.
pub proof fn lemma_parsed_extends_tokenised(registry: Map<Seq<char>, Map<u16, Field>>, payload: Seq<u8>)
    requires
        parsed(registry, payload) is Ok,
    ensures
        tokenised(registry, payload) is Ok,
        read_header(registry, payload) is Ok,
        forall|k: u16| #[trigger]
            parsed(registry, payload)->Ok_0.contains_key(k) <==> k == MTI_KEY || k == BITMAP_KEY || tokenised(
                registry,
                payload,
            )->Ok_0.contains_key(k),
        parsed(registry, payload)->Ok_0[MTI_KEY] == read_header(registry, payload)->Ok_0.mti,
        parsed(registry, payload)->Ok_0[BITMAP_KEY] == bitmap_text(
            read_header(registry, payload)->Ok_0.bitmap,
            registry[read_header(registry, payload)->Ok_0.mti][0],
        ),
{
    let header = read_header(registry, payload)->Ok_0;
    let extra = Map::<u16, Seq<char>>::empty().insert(MTI_KEY, header.mti).insert(
        BITMAP_KEY,
        bitmap_text(header.bitmap, registry[header.mti][0]),
    );
    lemma_walk_keeps_faults(
        payload,
        header.pointer,
        header.fields,
        header.bitmap,
        1,
        extra,
        Map::<u16, Seq<char>>::empty(),
    );
    lemma_walk_adds_marked_fields(payload, header.pointer, header.fields, header.bitmap, 1, extra);
    lemma_walk_adds_marked_fields(
        payload,
        header.pointer,
        header.fields,
        header.bitmap,
        1,
        Map::<u16, Seq<char>>::empty(),
    );
}

/// The header of a message as it was read, with the definition of its bitmap.
struct MessageHeader<'a> {
    mti: String,
    fields: &'a HashMap<u16, Field>,
    bitmap_defn: &'a Field,
    bitmap: u64,
    pointer: usize,
}

/// Reads the header of a message.
fn tokenise_header<'a>(spec: &'a Spec, payload: &[u8]) -> (result: Result<
    MessageHeader<'a>,
    Iso8583TokeniseError,
>)
    ensures
        match read_header(spec@, payload@) {
            Ok(header) => {
                &&& result is Ok
                &&& result->Ok_0.mti@ == header.mti
                &&& result->Ok_0.fields@ == header.fields
                &&& result->Ok_0.bitmap == header.bitmap
                &&& result->Ok_0.pointer == header.pointer
                &&& spec@.contains_key(header.mti)
                &&& spec@[header.mti].contains_key(0)
                &&& *result->Ok_0.bitmap_defn == spec@[header.mti][0]
            },
            Err(fault) => result is Err && result->Err_0@ == fault,
        },
{
    let mut pointer: usize = 0;
    let mti = match tokenise_next_bytes(payload, &mut pointer, 4) {
        Ok(bytes) => byte_to_string(bytes),
        Err(e) => {
            return Err(e);
        },
    };
    let fields = match spec.get_mti_spec(mti.as_str()) {
        Some(fields) => fields,
        None => {
            return Err(Iso8583TokeniseError::NoMtiDefinition);
        },
    };
    let bitmap_defn = match fields.get(&0) {
        Some(bitmap_defn) => bitmap_defn,
        None => {
            return Err(Iso8583TokeniseError::NoTokenDefinition);
        },
    };
    match tokenise_next_bitmap(payload, &mut pointer, bitmap_defn) {
        Ok(bitmap) => Ok(MessageHeader { mti, fields, bitmap_defn, bitmap, pointer }),
        Err(e) => Err(e),
    }
}

/// Reads the fields 1 to 64 that `bitmap` marks, from offset `from`, and
/// adds them to those `found` before.
fn tokenise_fields(
    payload: &[u8],
    from: usize,
    fields: &HashMap<u16, Field>,
    bitmap: u64,
    found: HashMap<u16, String>,
) -> (result: Result<HashMap<u16, String>, Iso8583TokeniseError>)
    ensures
        tokens_are(result, read_fields(payload@, from, fields@, bitmap, 1, token_texts(found@))),
{
    let ghost whole = read_fields(payload@, from, fields@, bitmap, 1, token_texts(found@));
    let mut pointer: usize = from;
    let mut tokens = found;
    let mut field_num: u16 = 1;
    while field_num <= 64
        invariant
            1 <= field_num <= 65,
            whole == read_fields(payload@, from, fields@, bitmap, 1, token_texts(found@)),
            read_fields(payload@, pointer, fields@, bitmap, field_num, token_texts(tokens@)) == whole,
        decreases 65 - field_num,
    {
        if (bitmap >> (64 - field_num as u64)) & 1 == 1 {
            let ghost before = tokens@;
            match tokenise_next_field(payload, &mut pointer, fields, &field_num) {
                Ok(field_value) => {
                    tokens.insert(field_num, field_value);
                    assert(token_texts(tokens@) =~= token_texts(before).insert(field_num, field_value@));
                },
                Err(e) => {
                    return Err(e);
                },
            }
        }
        field_num += 1;
    }
    Ok(tokens)
}

/// Tokenises a payload against a registry: the text of each present field,
/// by field number.
pub fn tokenise(spec: &Spec, payload: &[u8]) -> (result: Result<HashMap<u16, String>, Iso8583TokeniseError>)
    ensures
        tokens_are(result, tokenised(spec@, payload@)),
{
    let header = match tokenise_header(spec, payload) {
        Ok(header) => header,
        Err(e) => {
            return Err(e);
        },
    };
    let tokens: HashMap<u16, String> = HashMap::new();
    assert(token_texts(tokens@) =~= Map::<u16, Seq<char>>::empty());
    tokenise_fields(payload, header.pointer, header.fields, header.bitmap, tokens)
}

/// Tokenises a payload as `tokenise` does and keeps, beside the fields, the
/// message type indicator and the primary bitmap under keys of their own.
pub fn parse(spec: &Spec, payload: &[u8]) -> (result: Result<HashMap<u16, String>, Iso8583TokeniseError>)
    ensures
        tokens_are(result, parsed(spec@, payload@)),
{
    let header = match tokenise_header(spec, payload) {
        Ok(header) => header,
        Err(e) => {
            return Err(e);
        },
    };
    let mut tokens: HashMap<u16, String> = HashMap::new();
    assert(token_texts(tokens@) =~= Map::<u16, Seq<char>>::empty());
    let ghost mti = header.mti@;
    tokens.insert(MTI_KEY, header.mti);
    let bitmap_str = truncate(to_binary(header.bitmap), header.bitmap_defn.raw_size);
    tokens.insert(BITMAP_KEY, bitmap_str);
    assert(token_texts(tokens@) =~= Map::<u16, Seq<char>>::empty().insert(MTI_KEY, mti).insert(
        BITMAP_KEY,
        bitmap_str@,
    ));
    tokenise_fields(payload, header.pointer, header.fields, header.bitmap, tokens)
}

/// An engine that decodes messages against the registry it was made with.
pub struct Iso8583Engine {
    spec: Spec,
}

impl Iso8583Engine {
    /// The registry of the engine.
    pub closed spec fn registry(&self) -> Map<Seq<char>, Map<u16, Field>> {
        self.spec@
    }

    /// An engine for the message types of `spec`.
    pub fn new(spec: Spec) -> (engine: Self)
        ensures
            engine.registry() == spec@,
    {
        Iso8583Engine { spec }
    }
}

impl Tokeniser for Iso8583Engine {
    type Err = Iso8583TokeniseError;

    fn tokenise(&self, payload: &[u8]) -> (result: Result<HashMap<u16, String>, Iso8583TokeniseError>)
        ensures
            tokens_are(result, tokenised(self.registry(), payload@)),
    {
        tokenise(&self.spec, payload)
    }
}

impl Parser<u16> for Iso8583Engine {
    type Err = Iso8583TokeniseError;

    fn parse(&self, payload: &[u8]) -> (result: Result<HashMap<u16, String>, Iso8583TokeniseError>)
        ensures
            tokens_are(result, parsed(self.registry(), payload@)),
    {
        parse(&self.spec, payload)
    }
}

} // verus!
