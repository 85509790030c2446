//! Leaf data models of the handshake message: validated short strings, the
//! protocol version triple, the network magic bytes and the peer address,
//! each with its own validation and byte-conversion rules.

pub mod errors;
pub mod magic;
pub mod peer_addr;
pub mod short_string;
pub mod version;

pub use errors::{ModelParseError, ModelSerializeError};
pub use magic::MagicBytes;
pub use peer_addr::{IpOctets, PeerAddr, SpecPeerAddr};
pub use short_string::ShortString;
pub use version::Version;
