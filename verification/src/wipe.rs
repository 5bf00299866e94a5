//! Overwriting secrets in memory with the `zeroize` crate. Nothing in this
//! module is proved: each item states what the crate's code does.

use vstd::prelude::*;
use zeroize::Zeroize;

verus! {

/// Overwrites a byte array by `Zeroize::zeroize`, which stores zero in
/// every element and does not unwind.
#[verifier::external_body]
pub(crate) fn wipe_bytes<const N: usize>(bytes: &mut [u8; N])
    ensures
        forall|i: int| 0 <= i < N ==> final(bytes)@[i] == 0u8,
    opens_invariants none
    no_unwind
{
    bytes.zeroize();
}

/// Overwrites a string by `Zeroize::zeroize`, which stores zero over its
/// bytes and spare capacity and then clears it, and does not unwind.
#[verifier::external_body]
pub(crate) fn wipe_string(text: &mut String)
    ensures
        final(text)@ == Seq::<char>::empty(),
    opens_invariants none
    no_unwind
{
    text.zeroize();
}

} // verus!
