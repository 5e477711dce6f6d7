//! Decoding of ISO 8583 style financial messages: field definitions, the
//! presence bitmap and the tokeniser that walks a payload field by field.

pub mod parse;
pub mod iso8583;
pub mod util;
