//! Random values from the `rand` and `uuid` crates. Nothing in this module
//! is proved, and nothing is claimed of a random value beyond its range.

use rand::rngs::OsRng;
use rand::{thread_rng, Rng, RngCore};
use uuid::Uuid;
use vstd::prelude::*;

verus! {

/// A salt filled by `OsRng.fill_bytes`. Nothing is claimed of its bytes.
#[verifier::external_body]
pub(crate) fn fresh_salt() -> (salt: [u8; 32]) {
    let mut salt = [0u8; 32];
    OsRng.fill_bytes(&mut salt);
    salt
}

/// An index drawn by `thread_rng().gen_range(0..bound)`, which panics on an
/// empty range and otherwise returns a value of the range.
#[verifier::external_body]
pub(crate) fn random_below(bound: usize) -> (index: usize)
    requires
        bound > 0,
    ensures
        index < bound,
{
    thread_rng().gen_range(0..bound)
}

/// The sixteen bytes of `Uuid::new_v4()`: random but for the version, which
/// is 4, and the variant, which is the one of RFC 4122.
#[verifier::external_body]
pub(crate) fn fresh_entry_id() -> (id: [u8; 16])
    ensures
        id@[6] / 16 == 4,
        id@[8] / 64 == 2,
{
    Uuid::new_v4().into_bytes()
}

} // verus!
