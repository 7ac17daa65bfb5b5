//! Errors of the payload codecs.
use vstd::prelude::*;

verus! {

/// The direction in which a payload was being processed.
pub const STAGE_DECODING: &'static str = "decoding";

/// A parser reached the end of a payload before a required delimiter or field.
#[derive(Debug)]
pub struct NotEnoughData {
    /// Decoding or encoding.
    pub stage: &'static str,
    /// The kind of item that was being processed.
    pub item: &'static str,
    /// What was missing.
    pub msg: &'static str,
    /// How many bytes were needed.
    pub expected: usize,
    /// How many bytes were there.
    pub got: usize,
    /// The bytes that could not be parsed.
    pub offending_bytes: Vec<u8>,
}

/// A payload broke the structure of its item.
#[derive(Debug)]
pub struct InvalidData {
    /// What was wrong.
    pub msg: &'static str,
    /// The bytes that could not be parsed.
    pub offending_bytes: Vec<u8>,
}

/// Why a payload could not be parsed.
#[derive(Debug)]
pub enum ProtocolError {
    NotEnoughData(NotEnoughData),
    InvalidData(InvalidData),
    /// A frame code that is not expected here.
    UnknownCode(u8),
}

} // verus!
