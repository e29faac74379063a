use vstd::prelude::*;

verus! {

/// Relies on `uuid::Uuid::new_v4` for a fresh random identifier, taken as its
/// 128-bit value (`Uuid::as_u128`). Nothing is promised of the value.
#[verifier::external_body]
pub(crate) fn new_id() -> (r: u128) {
    uuid::Uuid::new_v4().as_u128()
}

} // verus!
