//! Server-assigned record identifiers.
//!
//! Records are keyed by opaque 128-bit identifiers drawn at creation time.

use vstd::prelude::*;

verus! {

/// Relies on `uuid::Uuid::new_v4` (and `Uuid::as_u128` to read its bits):
/// a randomly generated 128-bit identifier.  Nothing is assumed of the
/// value, so callers must check for themselves that it is unused.
#[verifier::external_body]
pub(crate) fn fresh_id() -> u128 {
    uuid::Uuid::new_v4().as_u128()
}

} // verus!
