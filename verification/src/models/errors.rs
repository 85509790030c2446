//! Error types of the leaf models.

use crate::vlq::VlqError;
use vstd::prelude::*;

verus! {

/// Ways decoding a leaf model from bytes can fail.
#[derive(Debug, Clone, Copy, PartialEq, Eq, Structural)]
pub enum ModelParseError {
    /// A `ShortString` buffer was longer than 255 bytes; carries the length.
    InvalidShortStringLength(usize),
    /// A `ShortString` buffer was not valid UTF-8.
    InvalidUtf8Buffer,
    /// A peer-address payload had a byte count that fits neither address
    /// family; carries the count.
    InvalidPeerAddrLength(usize),
    /// The port bytes of a peer-address payload did not decode as a `u16`.
    InvalidPortEncoding(VlqError),
}

/// Ways serializing a leaf model can fail.
#[derive(Debug, Clone, Copy, PartialEq, Eq, Structural)]
pub enum ModelSerializeError {
    /// The backing buffer refused the bytes.
    CannotWriteData,
}

} // verus!
