//! The clock read used for the outgoing timestamp field.

use std::time::{SystemTime, UNIX_EPOCH};
use vstd::prelude::*;

verus! {

/// Milliseconds since the Unix epoch, for the timestamp field of an outgoing
/// handshake.
///
/// Relies on std's `SystemTime::now`: the value depends on the system clock,
/// so nothing is promised of it; every caller must work for any value.
#[verifier::external_body]
pub fn make_timestamp() -> u64 {
    let now = SystemTime::now().duration_since(UNIX_EPOCH).expect(
        "internal error: current time is before unix epoch",
    );
    now.as_millis() as u64
}

} // verus!
