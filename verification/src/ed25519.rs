//! The EdDSA signature layer: value types, key derivation, signing, and
//! verification with its defensive checks.

use vstd::prelude::*;
use vstd::slice::slice_subrange;
use vstd::arithmetic::div_mod::{lemma_mod_bound, lemma_mod_twice, lemma_small_mod};
use crate::bytes::{all_zero, append_bytes, ct_eq, is_zeros, le_int, lemma_le_int_injective,
    lemma_le_int_nonneg};
use crate::digest::{sha512, sha512_of};
use crate::group::{base_mult_enc, double_mult_enc, ge_double_scalarmult_negated,
    ge_scalarmult_base, is_identity, is_identity_enc, point_decodes};
use crate::rng::random_bytes;
use crate::scalar::{check_lt_l, group_order, sc_muladd, sc_reduce};

verus! {

/// Why a signature was not accepted. Verification never aborts: every
/// malformed input falls into one of these kinds.
#[derive(Clone, Copy, Debug, PartialEq, Eq)]
pub enum Error {
    /// The public key bytes do not decode to a curve point.
    InvalidPublicKey,
    /// The public key is all zero, or encodes the identity element.
    WeakPublicKey,
    /// The S half of the signature is not below the group order.
    NoncanonicalSignature,
    /// The recomputed commitment does not match the R half of the signature.
    SignatureMismatch,
}

/// A public key: a compressed group element.
#[derive(Clone, Copy, Debug)]
pub struct PublicKey([u8; 32]);

/// A secret key: the seed followed by the matching public key bytes.
#[derive(Clone, Copy)]
pub struct SecretKey([u8; 64]);

/// A key pair, derived together from one seed.
#[derive(Clone, Copy)]
pub struct KeyPair {
    /// Public key part of the key pair.
    pub pk: PublicKey,
    /// Secret key part of the key pair.
    pub sk: SecretKey,
}

/// A signature: the commitment R followed by the little-endian scalar S.
#[derive(Clone, Copy, Debug)]
pub struct Signature([u8; 64]);

/// A seed, which a key pair can be derived from.
pub struct Seed([u8; 32]);

/// Noise, for non-deterministic signatures.
pub struct Noise([u8; 16]);

impl View for PublicKey {
    type V = Seq<u8>;

    closed spec fn view(&self) -> Seq<u8> {
        self.0@
    }
}

impl View for SecretKey {
    type V = Seq<u8>;

    closed spec fn view(&self) -> Seq<u8> {
        self.0@
    }
}

impl View for Signature {
    type V = Seq<u8>;

    closed spec fn view(&self) -> Seq<u8> {
        self.0@
    }
}

impl View for Seed {
    type V = Seq<u8>;

    closed spec fn view(&self) -> Seq<u8> {
        self.0@
    }
}

impl View for Noise {
    type V = Seq<u8>;

    closed spec fn view(&self) -> Seq<u8> {
        self.0@
    }
}

/// The clamping rule, applied to a 64-byte digest: the low three bits of the
/// first byte cleared, and in the last byte of the scalar half (byte 31) the
/// high bit cleared and the next bit set.
pub open spec fn clamped(h: Seq<u8>) -> Seq<u8>
    recommends
        h.len() == 64,
{
    h.update(0, h[0] & 248).update(31, (h[31] & 63) | 64)
}

/// The clamped digest of a seed: the signing scalar in its first half, the
/// deterministic nonce prefix in its second.
pub open spec fn az_of(seed: Seq<u8>) -> Seq<u8> {
    clamped(sha512_of(seed))
}

/// The public key bytes derived from a seed.
pub open spec fn derived_pk(seed: Seq<u8>) -> Seq<u8> {
    base_mult_enc(le_int(az_of(seed).subrange(0, 32)) % group_order())
}

/// What is hashed, ahead of the message, to seed the nonce: noise and the
/// whole clamped digest when noise is given, the deterministic prefix alone
/// otherwise.
pub open spec fn nonce_input(az: Seq<u8>, noise: Option<Seq<u8>>) -> Seq<u8> {
    match noise {
        Some(nz) => nz + az,
        None => az.subrange(32, 64),
    }
}

/// The per-signature nonce scalar.
pub open spec fn nonce_scalar(az: Seq<u8>, msg: Seq<u8>, noise: Option<Seq<u8>>) -> int {
    le_int(sha512_of(nonce_input(az, noise) + msg)) % group_order()
}

/// The challenge scalar: the reduced digest of R, the public key bytes, and
/// the message.
pub open spec fn challenge_scalar(rb: Seq<u8>, pk: Seq<u8>, msg: Seq<u8>) -> int {
    le_int(sha512_of(rb + pk + msg)) % group_order()
}

/// The signing relation: `sig` is exactly the signature the scheme assigns to
/// this secret key, message and noise choice.
pub open spec fn is_signature_of(
    sig: Seq<u8>,
    sk: Seq<u8>,
    msg: Seq<u8>,
    noise: Option<Seq<u8>>,
) -> bool {
    let az = az_of(sk.subrange(0, 32));
    let r = nonce_scalar(az, msg, noise);
    let rb = base_mult_enc(r);
    let h = challenge_scalar(rb, sk.subrange(32, 64), msg);
    &&& sig.len() == 64
    &&& sig.subrange(0, 32) == rb
    &&& le_int(sig.subrange(32, 64)) == (h * le_int(az.subrange(0, 32)) + r) % group_order()
}

/// The verification outcome: the defensive rejections in order, then the
/// group equation.
pub open spec fn verify_spec(pk: Seq<u8>, msg: Seq<u8>, sig: Seq<u8>) -> Result<(), Error>
    recommends
        pk.len() == 32,
        sig.len() == 64,
{
    let s = sig.subrange(32, 64);
    let rb = sig.subrange(0, 32);
    if le_int(s) >= group_order() {
        Err(Error::NoncanonicalSignature)
    } else if is_identity_enc(pk) || all_zero(pk) {
        Err(Error::WeakPublicKey)
    } else if !point_decodes(pk) {
        Err(Error::InvalidPublicKey)
    } else if double_mult_enc(challenge_scalar(rb, pk, msg), pk, le_int(s)) == rb {
        Ok(())
    } else {
        Err(Error::SignatureMismatch)
    }
}

/// The view of an optional noise value.
pub open spec fn noise_view(noise: Option<Noise>) -> Option<Seq<u8>> {
    match noise {
        Some(nz) => Some(nz@),
        None => None,
    }
}

impl PublicKey {
    /// Creates a public key from raw bytes.
    pub fn new(pk: [u8; 32]) -> (result: Self)
        ensures
            result@ == pk@,
    {
        PublicKey(pk)
    }

    /// Returns the public key as raw bytes.
    pub fn as_bytes(&self) -> (r: &[u8; 32])
        ensures
            r@ == self@,
    {
        &self.0
    }

    /// Verifies that `signature` is valid for `message` under this key.
    pub fn verify(&self, message: &[u8], signature: &Signature) -> (res: Result<(), Error>)
        ensures
            res == verify_spec(self@, message@, signature@),
    {
        let sigb: &[u8] = signature.0.as_slice();
        let s: &[u8] = slice_subrange(sigb, 32, 64);
        if check_lt_l(s) {
            return Err(Error::NoncanonicalSignature);
        }
        let pkb: &[u8] = self.0.as_slice();
        if is_identity(pkb) || is_zeros(pkb) {
            return Err(Error::WeakPublicKey);
        }
        let rb: &[u8] = slice_subrange(sigb, 0, 32);
        let mut hv: Vec<u8> = Vec::new();
        append_bytes(&mut hv, rb);
        append_bytes(&mut hv, pkb);
        append_bytes(&mut hv, message);
        let hdig = sha512(hv.as_slice());
        let hram = sc_reduce(hdig.as_slice());
        proof {
            assert(hv@ =~= signature@.subrange(0, 32) + self@ + message@);
            lemma_mod_twice(le_int(hdig@), group_order());
            lemma_le_int_nonneg(s@);
            lemma_small_mod(le_int(s@) as nat, group_order() as nat);
        }
        let rcheck = match ge_double_scalarmult_negated(hram.as_slice(), pkb, s) {
            Some(r) => r,
            None => {
                return Err(Error::InvalidPublicKey);
            },
        };
        if ct_eq(rcheck.as_slice(), rb) {
            Ok(())
        } else {
            Err(Error::SignatureMismatch)
        }
    }
}

impl SecretKey {
    /// Creates a secret key from raw bytes.
    pub fn new(sk: [u8; 64]) -> (result: Self)
        ensures
            result@ == sk@,
    {
        SecretKey(sk)
    }

    /// Returns the secret key as raw bytes.
    pub fn as_bytes(&self) -> (r: &[u8; 64])
        ensures
            r@ == self@,
    {
        &self.0
    }

    /// Returns the public counterpart of a secret key.
    pub fn public_key(&self) -> (pk: PublicKey)
        ensures
            pk@ == self@.subrange(32, 64),
    {
        let mut pk = [0u8; 32];
        let mut i: usize = 0;
        while i < 32
            invariant
                i <= 32,
                pk@.len() == 32,
                forall|j: int| 0 <= j < i ==> pk@[j] == self@[32 + j],
            decreases 32 - i,
        {
            pk[i] = self.0[32 + i];
            i = i + 1;
        }
        proof {
            assert(pk@ =~= self@.subrange(32, 64));
        }
        PublicKey(pk)
    }

    /// Computes a signature for `message` with this secret key. The noise is
    /// optional: without it the nonce is a deterministic function of the key
    /// and message; with it the nonce also mixes the fresh randomness.
    pub fn sign(&self, message: &[u8], noise: Option<Noise>) -> (sig: Signature)
        ensures
            is_signature_of(sig@, self@, message@, noise_view(noise)),
    {
        let seed: &[u8] = slice_subrange(self.0.as_slice(), 0, 32);
        let pkb: &[u8] = slice_subrange(self.0.as_slice(), 32, 64);
        let mut az = sha512(seed);
        let ghost az0 = az@;
        az[0] = az[0] & 248;
        az[31] = (az[31] & 63) | 64;
        proof {
            assert(az@ =~= clamped(az0));
            assert(az@ =~= az_of(self@.subrange(0, 32)));
        }
        let mut ni: Vec<u8> = Vec::new();
        match &noise {
            Some(nz) => {
                append_bytes(&mut ni, nz.0.as_slice());
                append_bytes(&mut ni, az.as_slice());
            },
            None => {
                append_bytes(&mut ni, slice_subrange(az.as_slice(), 32, 64));
            },
        }
        proof {
            assert(ni@ =~= nonce_input(az@, noise_view(noise)));
        }
        append_bytes(&mut ni, message);
        let ndig = sha512(ni.as_slice());
        let nonce = sc_reduce(ndig.as_slice());
        proof {
            lemma_mod_twice(le_int(ndig@), group_order());
        }
        let rb = ge_scalarmult_base(nonce.as_slice());
        proof {
            assert(rb@ == base_mult_enc(nonce_scalar(az@, message@, noise_view(noise))));
        }
        let mut hv: Vec<u8> = Vec::new();
        append_bytes(&mut hv, rb.as_slice());
        append_bytes(&mut hv, pkb);
        append_bytes(&mut hv, message);
        let hdig = sha512(hv.as_slice());
        let hram = sc_reduce(hdig.as_slice());
        proof {
            assert(hv@ =~= rb@ + self@.subrange(32, 64) + message@);
        }
        let az_low: &[u8] = slice_subrange(az.as_slice(), 0, 32);
        let sbytes = sc_muladd(hram.as_slice(), az_low, nonce.as_slice());
        let mut sig = [0u8; 64];
        let mut i: usize = 0;
        while i < 32
            invariant
                i <= 32,
                sig@.len() == 64,
                rb@.len() == 32,
                forall|j: int| 0 <= j < i ==> sig@[j] == rb@[j],
            decreases 32 - i,
        {
            sig[i] = rb[i];
            i = i + 1;
        }
        let mut k: usize = 0;
        while k < 32
            invariant
                k <= 32,
                sig@.len() == 64,
                rb@.len() == 32,
                sbytes@.len() == 32,
                forall|j: int| 0 <= j < 32 ==> sig@[j] == rb@[j],
                forall|j: int| 0 <= j < k ==> sig@[32 + j] == sbytes@[j],
            decreases 32 - k,
        {
            sig[32 + k] = sbytes[k];
            k = k + 1;
        }
        proof {
            assert(sig@.subrange(0, 32) =~= rb@);
            assert(sig@.subrange(32, 64) =~= sbytes@);
        }
        Signature(sig)
    }

    /// Computes a signature and immediately re-verifies it against the
    /// public-key half of this key, as a defense against computational
    /// faults. A failed self-check is evidence of corruption, not an input
    /// error, and is reported as `None` rather than a signature.
    pub fn sign_checked(&self, message: &[u8], noise: Option<Noise>) -> (r: Option<Signature>)
        ensures
            r matches Some(sig) ==> is_signature_of(sig@, self@, message@, noise_view(noise))
                && verify_spec(self@.subrange(32, 64), message@, sig@) == Ok::<(), Error>(()),
            r is None ==> exists|sig: Seq<u8>|
                is_signature_of(sig, self@, message@, noise_view(noise))
                    && verify_spec(self@.subrange(32, 64), message@, sig) != Ok::<(), Error>(()),
    {
        let sig = self.sign(message, noise);
        match self.public_key().verify(message, &sig) {
            Ok(()) => Some(sig),
            Err(_) => {
                proof {
                    assert(is_signature_of(sig@, self@, message@, noise_view(noise)));
                }
                None
            },
        }
    }
}

impl Signature {
    /// Creates a signature from raw bytes.
    pub fn new(signature: [u8; 64]) -> (result: Self)
        ensures
            result@ == signature@,
    {
        Signature(signature)
    }

    /// Returns the signature as raw bytes.
    pub fn as_bytes(&self) -> (r: &[u8; 64])
        ensures
            r@ == self@,
    {
        &self.0
    }
}

impl Seed {
    /// Creates a seed from raw bytes.
    pub fn new(seed: [u8; 32]) -> (result: Self)
        ensures
            result@ == seed@,
    {
        Seed(seed)
    }
}

impl Default for Seed {
    /// Generates a random seed.
    fn default() -> Self {
        let v = random_bytes(32);
        let mut b = [0u8; 32];
        let mut i: usize = 0;
        while i < 32
            invariant
                i <= 32,
                v@.len() == 32,
            decreases 32 - i,
        {
            b[i] = v[i];
            i = i + 1;
        }
        Seed(b)
    }
}

impl Noise {
    /// Creates a new noise component from raw bytes.
    pub fn new(noise: [u8; 16]) -> (result: Self)
        ensures
            result@ == noise@,
    {
        Noise(noise)
    }
}

impl Default for Noise {
    /// Generates random noise.
    fn default() -> Self {
        let v = random_bytes(16);
        let mut b = [0u8; 16];
        let mut i: usize = 0;
        while i < 16
            invariant
                i <= 16,
                v@.len() == 16,
            decreases 16 - i,
        {
            b[i] = v[i];
            i = i + 1;
        }
        Noise(b)
    }
}

impl KeyPair {
    /// Derives a key pair from a secret seed, which must not be all zero.
    pub fn from_seed(seed: Seed) -> (kp: KeyPair)
        requires
            !all_zero(seed@),
        ensures
            kp.pk@ == derived_pk(seed@),
            kp.sk@ == seed@ + derived_pk(seed@),
            kp.pk@ == kp.sk@.subrange(32, 64),
    {
        let mut az = sha512(seed.0.as_slice());
        let ghost az0 = az@;
        az[0] = az[0] & 248;
        az[31] = (az[31] & 63) | 64;
        proof {
            assert(az@ =~= clamped(az0));
        }
        let pkb = ge_scalarmult_base(slice_subrange(az.as_slice(), 0, 32));
        let mut sk = [0u8; 64];
        let mut i: usize = 0;
        while i < 32
            invariant
                i <= 32,
                sk@.len() == 64,
                seed@.len() == 32,
                forall|j: int| 0 <= j < i ==> sk@[j] == seed@[j],
            decreases 32 - i,
        {
            sk[i] = seed.0[i];
            i = i + 1;
        }
        let mut k: usize = 0;
        while k < 32
            invariant
                k <= 32,
                sk@.len() == 64,
                seed@.len() == 32,
                pkb@.len() == 32,
                forall|j: int| 0 <= j < 32 ==> sk@[j] == seed@[j],
                forall|j: int| 0 <= j < k ==> sk@[32 + j] == pkb@[j],
            decreases 32 - k,
        {
            sk[32 + k] = pkb[k];
            k = k + 1;
        }
        proof {
            assert(sk@ =~= seed@ + derived_pk(seed@));
            assert(pkb@ =~= sk@.subrange(32, 64));
        }
        KeyPair { pk: PublicKey(pkb), sk: SecretKey(sk) }
    }
}

/// Law: a signature whose S half is at or above the group order is rejected
/// as noncanonical, whatever the key and message.
pub proof fn lemma_noncanonical_rejected(pk: Seq<u8>, msg: Seq<u8>, sig: Seq<u8>)
    requires
        sig.len() == 64,
        le_int(sig.subrange(32, 64)) >= group_order(),
    ensures
        verify_spec(pk, msg, sig) == Result::<(), Error>::Err(Error::NoncanonicalSignature),
{
}

/// Law: under a canonical S half, an all-zero public key, and the canonical
/// encoding of the identity element, are each rejected as weak keys, whatever
/// the message and the rest of the signature. (With a noncanonical S half the
/// canonicality rejection fires first.)
pub proof fn lemma_weak_key_rejected(pk: Seq<u8>, msg: Seq<u8>, sig: Seq<u8>)
    requires
        sig.len() == 64,
        le_int(sig.subrange(32, 64)) < group_order(),
        all_zero(pk) || is_identity_enc(pk),
    ensures
        verify_spec(pk, msg, sig) == Result::<(), Error>::Err(Error::WeakPublicKey),
{
}

/// Law: a signature that satisfies the signing relation carries a canonical
/// S half, so verification never rejects it as noncanonical, under any
/// public key.
pub proof fn lemma_signed_is_canonical(
    sig: Seq<u8>,
    sk: Seq<u8>,
    msg: Seq<u8>,
    noise: Option<Seq<u8>>,
    pk: Seq<u8>,
)
    requires
        is_signature_of(sig, sk, msg, noise),
    ensures
        le_int(sig.subrange(32, 64)) < group_order(),
        verify_spec(pk, msg, sig) != Result::<(), Error>::Err(Error::NoncanonicalSignature),
{
    let az = az_of(sk.subrange(0, 32));
    let r = nonce_scalar(az, msg, noise);
    let h = challenge_scalar(base_mult_enc(r), sk.subrange(32, 64), msg);
    lemma_mod_bound(h * le_int(az.subrange(0, 32)) + r, group_order());
}

/// Law: signing is deterministic. Any two byte strings that satisfy the
/// signing relation for one secret key, message and noise are identical; in
/// particular, repeated deterministic signing returns the same bytes.
pub proof fn lemma_sign_deterministic(
    sig1: Seq<u8>,
    sig2: Seq<u8>,
    sk: Seq<u8>,
    msg: Seq<u8>,
    noise: Option<Seq<u8>>,
)
    requires
        is_signature_of(sig1, sk, msg, noise),
        is_signature_of(sig2, sk, msg, noise),
    ensures
        sig1 == sig2,
{
    lemma_le_int_injective(sig1.subrange(32, 64), sig2.subrange(32, 64));
    assert(sig1 =~= sig1.subrange(0, 32) + sig1.subrange(32, 64));
    assert(sig2 =~= sig2.subrange(0, 32) + sig2.subrange(32, 64));
}

} // verus!
