//! Error types of the feature registry.

use crate::models::errors::{ModelParseError, ModelSerializeError};
use crate::vlq::VlqError;
use vstd::prelude::*;

verus! {

/// Ways parsing one feature payload can fail.
#[derive(Debug, Clone, Copy, PartialEq, Eq, Structural)]
pub enum FeatureParseError {
    /// The payload ended before a required raw field.
    CannotReadData,
    /// A VLQ-encoded field of the payload did not decode.
    CannotVlqDecodeData(VlqError),
    /// A local-address payload was rejected by the address model.
    CannotParseLocalAddress(ModelParseError),
}

/// Ways serializing one feature payload can fail.
#[derive(Debug, Clone, Copy, PartialEq, Eq, Structural)]
pub enum FeatureSerializeError {
    /// The address model refused to serialize.
    CannotSerializeLocalAddress(ModelSerializeError),
    /// The backing buffer refused the bytes.
    CannotWriteData,
}

/// Ways the feature layer as a whole can fail.
#[derive(Debug, Clone, Copy, PartialEq, Eq, Structural)]
pub enum FeaturesError {
    /// More than 255 features were handed to the collection; carries the
    /// count.
    TooMuchPeerFeatures(usize),
    /// A feature could not be serialized.
    CannotSerializeFeature(FeatureSerializeError),
    /// A feature could not be parsed from received data.
    CannotParseFeature(FeatureParseError),
}

} // verus!
