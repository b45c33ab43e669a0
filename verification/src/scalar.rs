//! The scalar-field collaborator: integers modulo the group order L, encoded
//! as 32 little-endian bytes, together with the verified canonicality test.

use curve25519_dalek::scalar::Scalar;
use vstd::prelude::*;
use crate::bytes::{le_int, lemma_le_int_cmp, lemma_le_int_nonneg};

verus! {

/// The order L of the subgroup generated by the Ed25519 base point:
/// 2^252 + 27742317777372353535851937790883648493.
pub open spec fn group_order() -> int {
    0x1000000000000000000000000000000014def9dea2f79cd65812631a5cf5d3edint
}

/// The 32 little-endian bytes of the group order.
pub open spec fn l_bytes_spec() -> Seq<u8> {
    seq![
        0xedu8, 0xd3u8, 0xf5u8, 0x5cu8, 0x1au8, 0x63u8, 0x12u8, 0x58u8,
        0xd6u8, 0x9cu8, 0xf7u8, 0xa2u8, 0xdeu8, 0xf9u8, 0xdeu8, 0x14u8,
        0x00u8, 0x00u8, 0x00u8, 0x00u8, 0x00u8, 0x00u8, 0x00u8, 0x00u8,
        0x00u8, 0x00u8, 0x00u8, 0x00u8, 0x00u8, 0x00u8, 0x00u8, 0x10u8,
    ]
}

/// The byte table above denotes exactly the group order.
#[verifier::rlimit(100)]
pub proof fn lemma_l_bytes_value()
    ensures
        le_int(l_bytes_spec()) == group_order(),
{
    reveal_with_fuel(le_int, 33);
}

/// The group order, as bytes, for the canonicality scan.
fn l_bytes() -> (r: [u8; 32])
    ensures
        r@ == l_bytes_spec(),
{
    let r: [u8; 32] = [
        0xed, 0xd3, 0xf5, 0x5c, 0x1a, 0x63, 0x12, 0x58,
        0xd6, 0x9c, 0xf7, 0xa2, 0xde, 0xf9, 0xde, 0x14,
        0x00, 0x00, 0x00, 0x00, 0x00, 0x00, 0x00, 0x00,
        0x00, 0x00, 0x00, 0x00, 0x00, 0x00, 0x00, 0x10,
    ];
    assert(r@ =~= l_bytes_spec());
    r
}

/// Scans a 32-byte scalar against the group order without data-dependent
/// branching. Returns true exactly when the scalar is not canonical, that is
/// when its little-endian value is at least L.
pub fn check_lt_l(s: &[u8]) -> (r: bool)
    requires
        s@.len() == 32,
    ensures
        r == (le_int(s@) >= group_order()),
{
    let l = l_bytes();
    let mut c: u8 = 0;
    let mut n: u8 = 1;
    proof {
        assert(s@.subrange(32, 32) =~= l_bytes_spec().subrange(32, 32));
    }
    let mut i: usize = 32;
    while i > 0
        invariant
            i <= 32,
            s@.len() == 32,
            l@ == l_bytes_spec(),
            c == 0 || c == 1,
            n == 0 || n == 1,
            (c == 1) <==> (le_int(s@.subrange(i as int, 32))
                < le_int(l_bytes_spec().subrange(i as int, 32))),
            (n == 1) <==> (s@.subrange(i as int, 32)
                == l_bytes_spec().subrange(i as int, 32)),
        decreases i,
    {
        i = i - 1;
        let si: u8 = s[i];
        let li: u8 = l[i];
        let d: u32 = (si as u32).wrapping_sub(li as u32);
        proof {
            if si < li {
                assert(d >> 31 == 1) by (bit_vector)
                    requires d >= 0xffffff01u32;
            } else {
                assert(d >> 31 == 0) by (bit_vector)
                    requires d < 0x100u32;
            }
        }
        let lt: u8 = (d >> 31) as u8;
        let x: u8 = si ^ li;
        let e: u32 = (x as u32).wrapping_sub(1);
        proof {
            assert(((si ^ li) == 0) == (si == li)) by (bit_vector);
            if x == 0 {
                assert(e >> 31 == 1) by (bit_vector)
                    requires e == 0xffffffffu32;
            } else {
                assert(e >> 31 == 0) by (bit_vector)
                    requires e < 0x100u32;
            }
        }
        let eqm: u8 = (e >> 31) as u8;
        let cnew: u8 = c | (lt & n);
        let nnew: u8 = n & eqm;
        proof {
            assert(((c | (lt & n)) == 1 <==> (c == 1 || (lt == 1 && n == 1)))
                && ((c | (lt & n)) == 0 || (c | (lt & n)) == 1)) by (bit_vector)
                requires
                    c == 0 || c == 1,
                    n == 0 || n == 1,
                    lt == 0 || lt == 1;
            assert(((n & eqm) == 1 <==> (n == 1 && eqm == 1))
                && ((n & eqm) == 0 || (n & eqm) == 1)) by (bit_vector)
                requires
                    n == 0 || n == 1,
                    eqm == 0 || eqm == 1;
            let a = s@.subrange(i as int, 32);
            let b = l_bytes_spec().subrange(i as int, 32);
            assert(a.drop_first() =~= s@.subrange(i + 1, 32));
            assert(b.drop_first() =~= l_bytes_spec().subrange(i + 1, 32));
            assert(a.first() == s@[i as int]);
            assert(b.first() == l_bytes_spec()[i as int]);
            lemma_le_int_cmp(a, b);
            assert((a == b) <==> (a.drop_first() == b.drop_first() && a.first() == b.first()))
                by {
                    if a.drop_first() == b.drop_first() && a.first() == b.first() {
                        assert forall|j: int| 0 <= j < a.len() implies a[j] == b[j] by {
                            if j > 0 {
                                assert(a[j] == a.drop_first()[j - 1]);
                                assert(b[j] == b.drop_first()[j - 1]);
                            }
                        }
                        assert(a =~= b);
                    }
                }
        }
        c = cnew;
        n = nnew;
    }
    proof {
        assert(s@.subrange(0, 32) =~= s@);
        assert(l_bytes_spec().subrange(0, 32) =~= l_bytes_spec());
        lemma_l_bytes_value();
        lemma_le_int_nonneg(s@);
    }
    c == 0
}

/// Relies on curve25519_dalek Scalar::from_bytes_mod_order_wide, which reduces
/// a 512-bit little-endian integer modulo the group order, and on
/// Scalar::to_bytes, the canonical little-endian encoding of the result.
#[verifier::external_body]
pub(crate) fn sc_reduce(wide: &[u8]) -> (r: [u8; 32])
    requires
        wide@.len() == 64,
    ensures
        le_int(r@) == le_int(wide@) % group_order(),
{
    let mut w = [0u8; 64];
    w.copy_from_slice(wide);
    Scalar::from_bytes_mod_order_wide(&w).to_bytes()
}

/// Relies on curve25519_dalek scalar arithmetic: Scalar::from_bytes_mod_order,
/// multiplication and addition modulo the group order, and Scalar::to_bytes,
/// the canonical little-endian encoding of the result. Reducing each operand
/// first does not change a·b + c modulo the group order.
#[verifier::external_body]
pub(crate) fn sc_muladd(a: &[u8], b: &[u8], c: &[u8]) -> (r: [u8; 32])
    requires
        a@.len() == 32,
        b@.len() == 32,
        c@.len() == 32,
    ensures
        le_int(r@) == (le_int(a@) * le_int(b@) + le_int(c@)) % group_order(),
{
    let mut ab = [0u8; 32];
    ab.copy_from_slice(a);
    let mut bb = [0u8; 32];
    bb.copy_from_slice(b);
    let mut cb = [0u8; 32];
    cb.copy_from_slice(c);
    let r = Scalar::from_bytes_mod_order(ab) * Scalar::from_bytes_mod_order(bb)
        + Scalar::from_bytes_mod_order(cb);
    r.to_bytes()
}

} // verus!
