//! The four magic bytes that identify a network.

use crate::bytes::bytes_equal;
use vstd::prelude::*;

verus! {

/// Four raw bytes discriminating the network a peer speaks for.
#[derive(Debug, Clone, Copy)]
pub struct MagicBytes(pub [u8; 4]);

impl MagicBytes {
    /// The fixed byte length of the magic on the wire.
    pub const SIZE: usize = 4;
}

impl View for MagicBytes {
    type V = Seq<u8>;

    open spec fn view(&self) -> Seq<u8> {
        self.0@
    }
}

impl PartialEq for MagicBytes {
    fn eq(&self, other: &Self) -> (r: bool) {
        bytes_equal(self.0.as_slice(), other.0.as_slice())
    }
}

impl vstd::std_specs::cmp::PartialEqSpecImpl for MagicBytes {
    open spec fn obeys_eq_spec() -> bool {
        true
    }

    open spec fn eq_spec(&self, other: &Self) -> bool {
        self@ == other@
    }
}

} // verus!
