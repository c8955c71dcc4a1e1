//! Identifier generation for new records.

use vstd::prelude::*;

verus! {

/// Relies on uuid::Uuid::now_v7, which draws a version-7 UUID from the
/// clock and per-process random state, and on uuid::Uuid::as_u128, which
/// returns the UUID's 128 bits. The value depends on time and chance, so
/// nothing is promised of it; the registry checks it against the stored
/// identifiers itself.
#[verifier::external_body]
pub(crate) fn fresh_id() -> u128 {
    uuid::Uuid::now_v7().as_u128()
}

} // verus!
