//! Building a registry one message type at a time.

use crate::iso8583::spec::definitions::{DataType, Field, FieldType};
use crate::iso8583::spec::Spec;
use std::collections::HashMap;
use vstd::prelude::*;

verus! {

broadcast use vstd::std_specs::hash::group_hash_axioms;

/// The encoding of a field that declares none: that of its kind for a
/// bitmap, alphanumeric for any other.
pub open spec fn default_data_type(ftype: FieldType) -> DataType {
    match ftype {
        FieldType::Bitmap => DataType::Binary,
        FieldType::AsciiBitmap => DataType::Packed,
        _ => DataType::Alphanum,
    }
}

/// A registry under construction: the message types that are complete, and
/// the one whose fields are being added.
pub struct SpecBuilder {
    spec: Spec,
    mti: String,
    fields: HashMap<u16, Field>,
}

impl SpecBuilder {
    /// The message types that are complete.
    pub closed spec fn complete(&self) -> Map<Seq<char>, Map<u16, Field>> {
        self.spec@
    }

    /// The indicator of the message type under construction.
    pub closed spec fn current_mti(&self) -> Seq<char> {
        self.mti@
    }

    /// The fields added so far to the message type under construction.
    pub closed spec fn current_fields(&self) -> Map<u16, Field> {
        self.fields@
    }

    /// The registry that `build` gives: the message type under construction
    /// takes the place of any complete one with the same indicator.
    pub open spec fn built(&self) -> Map<Seq<char>, Map<u16, Field>> {
        self.complete().insert(self.current_mti(), self.current_fields())
    }

    /// Starts with the message type `first_mti`, without fields yet.
    pub fn new(first_mti: &str) -> (builder: Self)
        ensures
            builder.complete() == Map::<Seq<char>, Map<u16, Field>>::empty(),
            builder.current_mti() == first_mti@,
            builder.current_fields() == Map::<u16, Field>::empty(),
    {
        SpecBuilder { spec: Spec::new(), mti: first_mti.to_owned(), fields: HashMap::new() }
    }

    /// Defines field `field_num` of the current message type in full.
    pub fn field(self, field_num: u16, ftype: FieldType, size: usize, data_type: DataType) -> (builder: Self)
        ensures
            builder.complete() == self.complete(),
            builder.current_mti() == self.current_mti(),
            builder.current_fields() == self.current_fields().insert(
                field_num,
                Field::of(ftype, size, data_type),
            ),
    {
        let mut builder = self;
        builder.fields.insert(field_num, Field::new(ftype, size, data_type));
        builder
    }

    /// Defines field `field_num` as one of variable length: its declared size
    /// is 0.
    pub fn var_field(self, field_num: u16, ftype: FieldType, data_type: DataType) -> (builder: Self)
        ensures
            builder.complete() == self.complete(),
            builder.current_mti() == self.current_mti(),
            builder.current_fields() == self.current_fields().insert(field_num, Field::of(ftype, 0, data_type)),
    {
        self.field(field_num, ftype, 0, data_type)
    }

    /// Defines field `field_num` by kind and size, with the encoding that the
    /// kind has by default.
    pub fn sized_field(self, field_num: u16, ftype: FieldType, size: usize) -> (builder: Self)
        ensures
            builder.complete() == self.complete(),
            builder.current_mti() == self.current_mti(),
            builder.current_fields() == self.current_fields().insert(
                field_num,
                Field::of(ftype, size, default_data_type(ftype)),
            ),
    {
        let data_type = match ftype {
            FieldType::Bitmap => DataType::Binary,
            FieldType::AsciiBitmap => DataType::Packed,
            _ => DataType::Alphanum,
        };
        self.field(field_num, ftype, size, data_type)
    }

    /// Completes the current message type and starts `next_mti`.
    pub fn mti(self, next_mti: &str) -> (builder: Self)
        ensures
            builder.complete() == self.built(),
            builder.current_mti() == next_mti@,
            builder.current_fields() == Map::<u16, Field>::empty(),
    {
        let mut spec = self.spec;
        spec.add_mti_spec(self.mti, self.fields);
        SpecBuilder { spec, mti: next_mti.to_owned(), fields: HashMap::new() }
    }

    /// Completes the current message type and hands the registry over.
    pub fn build(self) -> (spec: Spec)
        ensures
            spec@ == self.built(),
    {
        let mut spec = self.spec;
        spec.add_mti_spec(self.mti, self.fields);
        spec
    }
}

/// The registry of the simulator: message type `0200` with a packed bitmap
/// over eight fields, a variable alphabetic field 1 and a fixed field 8.
pub fn iso8583_spec() -> (spec: Spec)
    ensures
        spec@ == Map::<Seq<char>, Map<u16, Field>>::empty().insert(
            "0200"@,
            Map::<u16, Field>::empty().insert(0, Field::of(FieldType::AsciiBitmap, 8, DataType::Packed)).insert(
                1,
                Field::of(FieldType::LLLVar, 0, DataType::Alpha),
            ).insert(8, Field::of(FieldType::Fixed, 15, DataType::Alphanum)),
        ),
{
    SpecBuilder::new("0200").sized_field(0, FieldType::AsciiBitmap, 8).var_field(
        1,
        FieldType::LLLVar,
        DataType::Alpha,
    ).field(8, FieldType::Fixed, 15, DataType::Alphanum).build()
}

} // verus!
