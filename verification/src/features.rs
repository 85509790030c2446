//! The peer-feature extension mechanism: three recognized feature kinds, a
//! catch-all for unknown ids, and the bounded feature collection.

pub mod errors;
pub mod mode;
pub mod registry;
pub mod session_id;

pub use errors::{FeatureParseError, FeatureSerializeError, FeaturesError};
pub use mode::Mode;
pub use registry::{parse_feature, serialize_feature, Features, PeerFeature, SpecFeature};
pub use session_id::{SessionId, SpecSessionId};
