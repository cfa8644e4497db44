use vstd::prelude::*;

verus! {

/// Relies on uuid::Uuid::new_v4 for fresh random identifiers, keeping the
/// low 64 bits of the drawn value.  The result is random, so nothing is
/// assumed about it; every caller states what holds whatever comes back.
#[verifier::external_body]
pub(crate) fn fresh_id() -> u64 {
    uuid::Uuid::new_v4().as_u64_pair().1
}

} // verus!
