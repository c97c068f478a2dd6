//! Fresh identifiers for projects, objects and points.

use vstd::prelude::*;

verus! {

/// Relies on `uuid::Uuid::new_v4` (read through `Uuid::as_u128`): a freshly
/// generated random version-4 identifier. Nothing is promised of its value.
#[verifier::external_body]
pub(crate) fn new_id() -> u128 {
    uuid::Uuid::new_v4().as_u128()
}

} // verus!
