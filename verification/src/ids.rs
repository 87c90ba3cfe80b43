//! Identifiers drawn at random for documents and match records.

use vstd::prelude::*;

verus! {

/// Draws a 64-bit identifier with `rand::random`. Nothing is claimed of the
/// value: every `u64` can come back, and two calls may return the same one.
#[verifier::external_body]
pub(crate) fn fresh_id() -> u64 {
    rand::random::<u64>()
}

} // verus!
