//! The registry of message specifications, and the field definitions in it.

pub mod builder;
pub mod definitions;

pub use builder::{iso8583_spec, SpecBuilder};
pub use definitions::{DataType, Field, FieldParseError, FieldType};

use std::collections::HashMap;
use vstd::hash_map::StringHashMap;
use vstd::prelude::*;

verus! {

broadcast use vstd::std_specs::hash::group_hash_axioms;

/// The field definitions of each message type, by its indicator (MTI).
///
/// Within a message type the definitions are kept by field number; number 0
/// defines the primary bitmap. Nothing is checked when a message type is
/// added: a definition that cannot be used shows when a message is decoded.
pub struct Spec {
    message_specs: StringHashMap<HashMap<u16, Field>>,
}

impl View for Spec {
    type V = Map<Seq<char>, Map<u16, Field>>;

    closed spec fn view(&self) -> Map<Seq<char>, Map<u16, Field>> {
        self.message_specs@.map_values(|fields: HashMap<u16, Field>| fields@)
    }
}

impl Spec {
    /// A registry without any message type.
    pub fn new() -> (spec: Self)
        ensures
            spec@ == Map::<Seq<char>, Map<u16, Field>>::empty(),
    {
        let spec = Spec { message_specs: StringHashMap::new() };
        assert(spec@ =~= Map::<Seq<char>, Map<u16, Field>>::empty());
        spec
    }

    /// Sets the definitions of the message type `mti`, in place of any that
    /// it had.
    pub fn add_mti_spec(&mut self, mti: String, fields: HashMap<u16, Field>)
        ensures
            final(self)@ == old(self)@.insert(mti@, fields@),
    {
        self.message_specs.insert(mti, fields);
        assert(self@ =~= old(self)@.insert(mti@, fields@));
    }

    /// Sets the definitions of the message type `mti`, as `add_mti_spec` does.
    pub fn add_spec(&mut self, mti: String, fields: HashMap<u16, Field>)
        ensures
            final(self)@ == old(self)@.insert(mti@, fields@),
    {
        self.add_mti_spec(mti, fields);
    }

    /// All message types with their definitions.
    pub fn get_mti_specs(&self) -> (all: &StringHashMap<HashMap<u16, Field>>)
        ensures
            all@.dom() == self@.dom(),
            forall|mti: Seq<char>| #[trigger] self@.contains_key(mti) ==> all@[mti]@ == self@[mti],
    {
        assert(self.message_specs@.dom() =~= self@.dom());
        &self.message_specs
    }

    /// Whether the message type `mti` has definitions.
    pub fn has_mti_spec(&self, mti: &str) -> (known: bool)
        ensures
            known == self@.contains_key(mti@),
    {
        self.message_specs.contains_key(mti)
    }

    /// The definitions of the message type `mti`, by field number.
    pub fn get_mti_spec(&self, mti: &str) -> (fields: Option<&HashMap<u16, Field>>)
        ensures
            match fields {
                Some(fields) => self@.contains_key(mti@) && fields@ == self@[mti@],
                None => !self@.contains_key(mti@),
            },
    {
        self.message_specs.get(mti)
    }
}

impl Default for Spec {
    fn default() -> (spec: Self)
        ensures
            spec@ == Map::<Seq<char>, Map<u16, Field>>::empty(),
    {
        Self::new()
    }
}

} // verus!
