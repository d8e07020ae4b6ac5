//! Conversion of cartridge ROM images between three equivalent byte-order
//! encodings of the same binary data, identified by a fixed 4-byte header
//! signature.

pub mod convert;
pub mod ext;
pub mod rom;
pub mod swap;
