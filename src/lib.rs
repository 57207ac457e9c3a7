//! A codec for XDR (RFC 4506): big-endian, 4-byte aligned encoding of
//! booleans, integers, floats, strings, opaque data, optional values,
//! sequences, structs and unions.
//!
//! `wire` lays out words and padding, `value` models the primitive values and
//! their wire form, `decoder` and `encoder` read and write them, and `laws`
//! proves that what is written reads back unchanged.

pub mod decoder;
pub mod encoder;
pub mod errors;
pub mod laws;
pub mod value;
pub mod wire;
