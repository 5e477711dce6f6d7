//! Byte level helpers shared by the message decoders.

pub mod binary;
pub mod bitmap;
pub mod bytes;
pub mod decimal;
pub mod hexadecimal;
pub mod strings;
pub mod text;

pub use bitmap::{decode_ascii_bitmap, decode_bitmap, DecodeBitmapError};
pub use bytes::{byte_to_hex_string, byte_to_string};
