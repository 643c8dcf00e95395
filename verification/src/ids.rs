//! Fresh identifiers for events and rooms.
//!
//! Ids are drawn at random; two draws may or may not differ, so nothing is
//! promised of the value.  Every function that consumes an id takes it as an
//! argument and is verified for every value of it.

use vstd::prelude::*;

verus! {

/// Relies on uuid::Uuid::new_v4: a fresh random version-4 UUID, carried as
/// its 128-bit value.  The result is random, so nothing is promised of it.
#[verifier::external_body]
pub(crate) fn fresh_id() -> u128 {
    uuid::Uuid::new_v4().as_u128()
}

} // verus!
