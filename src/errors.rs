//! The failures that encoding and decoding report.
use vstd::prelude::*;

verus! {

/// A codec failure, with the context needed to tell where it happened.
///
/// Floating-point payloads are carried as their IEEE-754 bit patterns.
#[derive(Debug, Clone, PartialEq, Eq)]
pub enum Error {
    Custom(String),
    DeserializeBool,
    DeserializeDouble,
    DeserializeFloat,
    DeserializeInteger(u8),
    DeserializeOpaque,
    DeserializeOption,
    DeserializeString,
    DeserializeStruct(String),
    DeserializeStructField(String, String),
    DeserializeUnknownType,
    DeserializeUnsignedInteger(u8),
    InvalidBool,
    InvalidDataType(String),
    InvalidOption,
    InvalidInteger(u8, i32),
    InvalidUnsignedInteger(u8, u32),
    SequenceTooLong(usize),
    SerializeBool(bool),
    SerializeDouble(u64),
    SerializeEnum(String, String),
    SerializeFloat(u32),
    SerializeHyperInteger(i64),
    SerializeInteger(i32),
    SerializeNone,
    SerializeOpaque(usize),
    SerializeSome,
    SerializeString(String),
    SerializeSequenceElement(usize),
    SerializeSequenceFatalError,
    SerializeSequenceLength(usize),
    SerializeSequenceWithUnknownLength,
    SerializeStruct(String),
    SerializeStructFatalError(String),
    SerializeStructField(String, String),
    SerializeUnionVariant(String, String),
    SerializeUnsignedHyperInteger(u64),
    SerializeUnsignedInteger(u32),
    StringIsNotAscii(String),
    StringIsTooLong(String),
    /// The byte source ended before the unit being read: `needed` more bytes
    /// were wanted at `position`.
    UnexpectedEof { position: u64, needed: u64 },
}

impl Error {
    /// A failure described by a free-form message.
    pub fn custom(message: String) -> (r: Error)
        ensures
            r == Error::Custom(message),
    {
        Error::Custom(message)
    }
}

} // verus!
