//! ISO 8583 messages: their specification and their decoding.

pub mod engine;
pub mod spec;
pub mod tokenise;

pub use engine::Iso8583Engine;
pub use tokenise::Iso8583TokeniseError;
