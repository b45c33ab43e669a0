//! The streaming-hash collaborator: a 64-byte digest that is a deterministic
//! function of the exact bytes hashed.

use sha2::Digest;
use vstd::prelude::*;

verus! {

/// The 64-byte SHA-512 digest of a byte sequence. Nothing is stated of its
/// value beyond what the trusted wrapper below says: it is a function of the
/// input bytes alone.
pub uninterp spec fn sha512_of(input: Seq<u8>) -> Seq<u8>;

/// Relies on sha2::Sha512 through Digest::digest: the result is a 64-byte
/// digest that depends on the input bytes alone.
#[verifier::external_body]
pub(crate) fn sha512(input: &[u8]) -> (r: [u8; 64])
    ensures
        r@ == sha512_of(input@),
        r@.len() == 64,
{
    let out = sha2::Sha512::digest(input);
    let mut r = [0u8; 64];
    r.copy_from_slice(&out);
    r
}

} // verus!
