//! The protocol version triple.

use crate::bytes::bytes_equal;
use vstd::prelude::*;

verus! {

/// Three raw bytes (major, minor, patch); no semantic validation beyond the
/// byte count.
#[derive(Debug, Clone, Copy)]
pub struct Version(pub [u8; 3]);

impl Version {
    /// The fixed byte length of a version on the wire.
    pub const SIZE: usize = 3;
}

impl View for Version {
    type V = Seq<u8>;

    open spec fn view(&self) -> Seq<u8> {
        self.0@
    }
}

impl PartialEq for Version {
    fn eq(&self, other: &Self) -> (r: bool) {
        bytes_equal(self.0.as_slice(), other.0.as_slice())
    }
}

impl vstd::std_specs::cmp::PartialEqSpecImpl for Version {
    open spec fn obeys_eq_spec() -> bool {
        true
    }

    open spec fn eq_spec(&self, other: &Self) -> bool {
        self@ == other@
    }
}

} // verus!
