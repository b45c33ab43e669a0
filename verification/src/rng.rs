//! The entropy collaborator: fresh random bytes for default seeds and noise.

use vstd::prelude::*;

verus! {

/// Relies on getrandom::getrandom: fills a buffer from the platform entropy
/// source, and aborts if the source fails. Nothing is assumed of the values;
/// callers state only what holds of every outcome.
#[verifier::external_body]
pub(crate) fn random_bytes(n: usize) -> (r: Vec<u8>)
    ensures
        r@.len() == n,
{
    let mut buf = vec![0u8; n];
    getrandom::getrandom(&mut buf).expect("RNG failure");
    buf
}

} // verus!
