//! Wire codec for the peer-to-peer handshake message of an Ergo-style node:
//! parsing a byte buffer into a structured [`Handshake`] and serializing a
//! [`Handshake`] back into bytes that a reference node accepts, with the
//! variable-length-quantity (VLQ) integer primitives the format is built on.

pub mod bytes;
pub mod clock;
pub mod features;
pub mod handshake;
pub mod models;
pub mod utf8;
pub mod vlq;

pub use features::{FeatureParseError, FeatureSerializeError, Features, FeaturesError, Mode,
    PeerFeature, SessionId};
pub use handshake::{Handshake, HsSpecReaderError, HsSpecWriterError};
pub use models::{IpOctets, MagicBytes, ModelParseError, ModelSerializeError, PeerAddr,
    ShortString, Version};
pub use vlq::{TryFromVlq, TryIntoVlq, VlqError};
