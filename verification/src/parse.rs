//! What an engine offers: turning a payload into its fields and back.

use std::collections::HashMap;
use vstd::prelude::*;

verus! {

/// Splits a payload into the text of its fields, by field number.
pub trait Tokeniser {
    type Err;

    fn tokenise(&self, payload: &[u8]) -> Result<HashMap<u16, String>, Self::Err>;
}

/// Reads a payload into values kept under keys of type `K`.
pub trait Parser<K> {
    type Err;

    fn parse(&self, payload: &[u8]) -> Result<HashMap<K, String>, Self::Err>;
}

/// Writes values kept under keys of type `K` back into a payload.
pub trait Unparser<K> {
    type Err;

    fn unparse(&self, payload: HashMap<K, String>, out: &mut [u8]) -> Result<(), Self::Err>;
}

} // verus!
