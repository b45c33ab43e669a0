//! The group-arithmetic collaborator: the Edwards curve group law behind
//! opaque byte-level operations, and the verified identity-encoding test.

use curve25519_dalek::edwards::{CompressedEdwardsY, EdwardsPoint};
use curve25519_dalek::scalar::Scalar;
use vstd::prelude::*;
use crate::bytes::le_int;
use crate::scalar::group_order;

verus! {

/// The compressed encoding of s·B, where B is the Ed25519 base point and s a
/// scalar value already reduced modulo the group order. A function of the
/// scalar alone; nothing is stated of its value.
pub uninterp spec fn base_mult_enc(s: int) -> Seq<u8>;

/// Whether 32 bytes decompress to a point of the curve. A function of the
/// bytes alone.
pub uninterp spec fn point_decodes(pk: Seq<u8>) -> bool;

/// The compressed encoding of h·(−A) + s·B, where A is the point the public
/// key bytes decode to, and h and s are scalar values already reduced modulo
/// the group order. A function of the three arguments alone.
pub uninterp spec fn double_mult_enc(h: int, pk: Seq<u8>, s: int) -> Seq<u8>;

/// True exactly of the canonical encoding of the group's neutral element:
/// y = 1 with the sign bit clear.
pub open spec fn is_identity_enc(pk: Seq<u8>) -> bool {
    pk.len() == 32 && pk[0] == 1 && (forall|i: int| 1 <= i < pk.len() ==> pk[i] == 0)
}

/// Tests for the canonical identity encoding, accumulating differences with
/// bitwise or instead of branching on the data.
pub fn is_identity(pk: &[u8]) -> (r: bool)
    requires
        pk@.len() == 32,
    ensures
        r == is_identity_enc(pk@),
{
    let mut acc: u8 = pk[0] ^ 1;
    proof {
        let p0 = pk@[0];
        assert(((p0 ^ 1) == 0) == (p0 == 1)) by (bit_vector);
    }
    let mut i: usize = 1;
    while i < 32
        invariant
            1 <= i <= 32,
            pk@.len() == 32,
            (acc == 0) <==> (pk@[0] == 1 && (forall|j: int| 1 <= j < i ==> pk@[j] == 0)),
        decreases 32 - i,
    {
        let x: u8 = pk[i];
        proof {
            let pi = pk@[i as int];
            assert(((acc | pi) == 0) == (acc == 0 && pi == 0)) by (bit_vector);
        }
        acc = acc | x;
        i = i + 1;
    }
    acc == 0
}

/// Relies on curve25519_dalek EdwardsPoint::mul_base, fixed-base scalar
/// multiplication in time independent of the scalar, with the argument reduced
/// by Scalar::from_bytes_mod_order and the result encoded canonically by
/// EdwardsPoint::compress.
#[verifier::external_body]
pub(crate) fn ge_scalarmult_base(s: &[u8]) -> (r: [u8; 32])
    requires
        s@.len() == 32,
    ensures
        r@ == base_mult_enc(le_int(s@) % group_order()),
{
    let mut b = [0u8; 32];
    b.copy_from_slice(s);
    EdwardsPoint::mul_base(&Scalar::from_bytes_mod_order(b)).compress().to_bytes()
}

/// Relies on curve25519_dalek CompressedEdwardsY::decompress, which fails
/// exactly on bytes that encode no curve point, on point negation, and on
/// EdwardsPoint::vartime_double_scalar_mul_basepoint, which computes
/// h·(−A) + s·B; the result is encoded canonically by EdwardsPoint::compress.
#[verifier::external_body]
pub(crate) fn ge_double_scalarmult_negated(h: &[u8], pk: &[u8], s: &[u8]) -> (r: Option<[u8; 32]>)
    requires
        h@.len() == 32,
        pk@.len() == 32,
        s@.len() == 32,
    ensures
        (r is Some) <==> point_decodes(pk@),
        r is Some ==> r.unwrap()@ == double_mult_enc(
            le_int(h@) % group_order(), pk@, le_int(s@) % group_order()),
{
    let mut pkb = [0u8; 32];
    pkb.copy_from_slice(pk);
    let a = match CompressedEdwardsY(pkb).decompress() {
        Some(p) => p,
        None => {
            return None;
        },
    };
    let mut hb = [0u8; 32];
    hb.copy_from_slice(h);
    let mut sb = [0u8; 32];
    sb.copy_from_slice(s);
    let hs = Scalar::from_bytes_mod_order(hb);
    let ss = Scalar::from_bytes_mod_order(sb);
    Some(EdwardsPoint::vartime_double_scalar_mul_basepoint(&hs, &(-a), &ss).compress().to_bytes())
}

} // verus!
