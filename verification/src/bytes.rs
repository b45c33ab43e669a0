//! Little-endian byte arithmetic and branch-free byte-sequence tests shared by
//! the signature layer.

use vstd::prelude::*;
use vstd::arithmetic::div_mod::lemma_fundamental_div_mod_converse;

verus! {

/// The integer denoted by a byte sequence read as a little-endian number.
pub open spec fn le_int(s: Seq<u8>) -> int
    decreases s.len(),
{
    if s.len() == 0 {
        0
    } else {
        s.first() + 256 * le_int(s.drop_first())
    }
}

/// True when every byte of the sequence is zero.
pub open spec fn all_zero(s: Seq<u8>) -> bool {
    forall|i: int| 0 <= i < s.len() ==> s[i] == 0
}

/// Every byte sequence denotes a non-negative integer.
pub proof fn lemma_le_int_nonneg(s: Seq<u8>)
    ensures
        le_int(s) >= 0,
    decreases s.len(),
{
    if s.len() > 0 {
        lemma_le_int_nonneg(s.drop_first());
    }
}

/// Little-endian reading is injective: two sequences of the same length that
/// denote the same integer are the same sequence.
pub proof fn lemma_le_int_injective(a: Seq<u8>, b: Seq<u8>)
    requires
        a.len() == b.len(),
        le_int(a) == le_int(b),
    ensures
        a == b,
    decreases a.len(),
{
    if a.len() == 0 {
        assert(a =~= b);
    } else {
        lemma_le_int_nonneg(a.drop_first());
        lemma_le_int_nonneg(b.drop_first());
        lemma_fundamental_div_mod_converse(
            le_int(a), 256, le_int(a.drop_first()), a.first() as int);
        lemma_fundamental_div_mod_converse(
            le_int(b), 256, le_int(b.drop_first()), b.first() as int);
        lemma_le_int_injective(a.drop_first(), b.drop_first());
        assert forall|i: int| 0 <= i < a.len() implies a[i] == b[i] by {
            if i > 0 {
                assert(a[i] == a.drop_first()[i - 1]);
                assert(b[i] == b.drop_first()[i - 1]);
            }
        }
        assert(a =~= b);
    }
}

/// Comparing little-endian values: the tail (the high bytes) dominates, and
/// the first byte breaks ties.
pub proof fn lemma_le_int_cmp(a: Seq<u8>, b: Seq<u8>)
    requires
        a.len() == b.len(),
        a.len() >= 1,
    ensures
        (le_int(a) < le_int(b)) <==> (le_int(a.drop_first()) < le_int(b.drop_first())
            || (a.drop_first() == b.drop_first() && a.first() < b.first())),
{
    let x = le_int(a.drop_first());
    let y = le_int(b.drop_first());
    lemma_le_int_nonneg(a.drop_first());
    lemma_le_int_nonneg(b.drop_first());
    if x == y {
        lemma_le_int_injective(a.drop_first(), b.drop_first());
    }
    if x < y {
        assert(a.first() + 256 * x < 256 * (x + 1));
        assert(256 * (x + 1) <= 256 * y);
    }
    if x > y {
        assert(b.first() + 256 * y < 256 * (y + 1));
        assert(256 * (y + 1) <= 256 * x);
    }
}

/// Appends the bytes of `src` to `dst`.
pub fn append_bytes(dst: &mut Vec<u8>, src: &[u8])
    ensures
        final(dst)@ == old(dst)@ + src@,
{
    let ghost orig: Seq<u8> = dst@;
    let n = src.len();
    let mut i: usize = 0;
    while i < n
        invariant
            i <= n,
            n == src@.len(),
            dst@ == orig + src@.subrange(0, i as int),
        decreases n - i,
    {
        dst.push(src[i]);
        assert(dst@ =~= orig + src@.subrange(0, i + 1));
        i = i + 1;
    }
    assert(src@.subrange(0, n as int) =~= src@);
}

/// Order-independent byte comparison: differences are accumulated with
/// bitwise operations instead of being branched on.
pub fn ct_eq(a: &[u8], b: &[u8]) -> (r: bool)
    requires
        a@.len() == b@.len(),
    ensures
        r == (a@ == b@),
{
    let n = a.len();
    let mut acc: u8 = 0;
    let mut i: usize = 0;
    while i < n
        invariant
            i <= n,
            n == a@.len(),
            a@.len() == b@.len(),
            (acc == 0) <==> (forall|j: int| 0 <= j < i ==> a@[j] == b@[j]),
        decreases n - i,
    {
        let x: u8 = a[i] ^ b[i];
        proof {
            let ai = a@[i as int];
            let bi = b@[i as int];
            assert(((ai ^ bi) == 0) == (ai == bi)) by (bit_vector);
            assert(((acc | (ai ^ bi)) == 0) == (acc == 0 && (ai ^ bi) == 0)) by (bit_vector);
        }
        acc = acc | x;
        i = i + 1;
    }
    if acc == 0 {
        assert(a@ =~= b@);
        true
    } else {
        assert(a@ != b@) by {
            if a@ == b@ {
                assert(forall|j: int| 0 <= j < n ==> a@[j] == b@[j]);
            }
        }
        false
    }
}

/// Tests whether every byte is zero, accumulating with bitwise or instead of
/// branching on the data.
pub fn is_zeros(a: &[u8]) -> (r: bool)
    ensures
        r == all_zero(a@),
{
    let n = a.len();
    let mut acc: u8 = 0;
    let mut i: usize = 0;
    while i < n
        invariant
            i <= n,
            n == a@.len(),
            (acc == 0) <==> (forall|j: int| 0 <= j < i ==> a@[j] == 0),
        decreases n - i,
    {
        let x: u8 = a[i];
        proof {
            let ai = a@[i as int];
            assert(((acc | ai) == 0) == (acc == 0 && ai == 0)) by (bit_vector);
        }
        acc = acc | x;
        i = i + 1;
    }
    if acc == 0 {
        true
    } else {
        assert(!all_zero(a@)) by {
            if all_zero(a@) {
                assert(forall|j: int| 0 <= j < n ==> a@[j] == 0);
            }
        }
        false
    }
}

} // verus!
