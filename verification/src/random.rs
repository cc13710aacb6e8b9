//! The source of the random byte that `CXNN` uses.

use vstd::prelude::*;

verus! {

/// Calls `rand::random::<u8>()`, which draws a byte from the generator that
/// the `rand` crate keeps for each thread. Nothing is claimed of the byte: two
/// calls may differ, and every value is possible.
#[verifier::external_body]
pub(crate) fn random_byte() -> (byte: u8) {
    rand::random::<u8>()
}

} // verus!
