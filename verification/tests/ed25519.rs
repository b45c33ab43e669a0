use ed25519_compact::scalar::check_lt_l;
use ed25519_compact::{Error, KeyPair, Noise, PublicKey, SecretKey, Seed, Signature};

fn h32(s: &str) -> [u8; 32] {
    let v = hex::decode(s).unwrap();
    let mut r = [0u8; 32];
    r.copy_from_slice(&v);
    r
}

fn h64(s: &str) -> [u8; 64] {
    let v = hex::decode(s).unwrap();
    let mut r = [0u8; 64];
    r.copy_from_slice(&v);
    r
}

// The little-endian bytes of the group order L.
const L_LE: [u8; 32] = [
    0xed, 0xd3, 0xf5, 0x5c, 0x1a, 0x63, 0x12, 0x58, 0xd6, 0x9c, 0xf7, 0xa2, 0xde, 0xf9, 0xde,
    0x14, 0x00, 0x00, 0x00, 0x00, 0x00, 0x00, 0x00, 0x00, 0x00, 0x00, 0x00, 0x00, 0x00, 0x00,
    0x00, 0x10,
];

#[test]
fn round_trip() {
    let kp = KeyPair::from_seed(Seed::new([0x42u8; 32]));
    for msg in [&b""[..], &b"test"[..], &b"a longer message with several words"[..]] {
        let sig = kp.sk.sign(msg, None);
        assert!(kp.pk.verify(msg, &sig).is_ok());
    }
}

#[test]
fn round_trip_with_noise() {
    let kp = KeyPair::from_seed(Seed::new([7u8; 32]));
    let msg = b"noisy";
    let sig = kp.sk.sign(msg, Some(Noise::new([9u8; 16])));
    assert!(kp.pk.verify(msg, &sig).is_ok());
}

#[test]
fn wrong_message_rejected() {
    let kp = KeyPair::from_seed(Seed::new([3u8; 32]));
    let sig = kp.sk.sign(b"test", None);
    assert_eq!(
        kp.pk.verify(b"A different message", &sig),
        Err(Error::SignatureMismatch)
    );
}

#[test]
fn rfc8032_vector_empty_message() {
    let seed = h32("9d61b19deffd5a60ba844af492ec2cc44449c5697b326919703bac031cae7f60");
    let kp = KeyPair::from_seed(Seed::new(seed));
    assert_eq!(
        kp.pk.as_bytes(),
        &h32("d75a980182b10ab7d54bfed3c964073a0ee172f3daa62325af021a68f707511a")
    );
    let mut sk = [0u8; 64];
    sk[..32].copy_from_slice(&seed);
    sk[32..].copy_from_slice(kp.pk.as_bytes());
    assert_eq!(kp.sk.as_bytes(), &sk);
    let sig = kp.sk.sign(b"", None);
    assert_eq!(
        sig.as_bytes(),
        &h64(
            "e5564300c360ac729086e2cc806e828a84877f1eb8e5d974d873e06522490155\
             5fb8821590a33bacc61e39701cf9b46bd25bf5f0595bbe24655141438e7a100b"
        )
    );
    assert!(kp.pk.verify(b"", &sig).is_ok());
}

#[test]
fn rfc8032_vector_one_byte_message() {
    let seed = h32("4ccd089b28ff96da9db6c346ec114e0f5b8a319f35aba624da8cf6ed4fb8a6fb");
    let kp = KeyPair::from_seed(Seed::new(seed));
    assert_eq!(
        kp.pk.as_bytes(),
        &h32("3d4017c3e843895a92b70aa74d1b7ebc9c982ccf2ec4968cc0cd55f12af4660c")
    );
    let sig = kp.sk.sign(&[0x72], None);
    assert_eq!(
        sig.as_bytes(),
        &h64(
            "92a009a9f0d4cab8720e820b5f642540a2b27b5416503f8fb3762223ebdb69da\
             085ac1e43e15996e458f3613d0f11d8c387b2eaeb4302aeeb00d291612bb0c00"
        )
    );
    assert!(kp.pk.verify(&[0x72], &sig).is_ok());
}

#[test]
fn rfc8032_vector_two_byte_message() {
    let seed = h32("c5aa8df43f9f837bedb7442f31dcb7b166d38535076f094b85ce3a2e0b4458f7");
    let kp = KeyPair::from_seed(Seed::new(seed));
    assert_eq!(
        kp.pk.as_bytes(),
        &h32("fc51cd8e6218a1a38da47ed00230f0580816ed13ba3303ac5deb911548908025")
    );
    let sig = kp.sk.sign(&[0xaf, 0x82], None);
    assert_eq!(
        sig.as_bytes(),
        &h64(
            "6291d657deec24024827e69c3abe01a30ce548a284743a445e3680d7db5ac3ac\
             18ff9b538d16f290ae67f760984dc6594a7c15e9716ed28dc027beceea1ec40a"
        )
    );
    assert!(kp.pk.verify(&[0xaf, 0x82], &sig).is_ok());
}

#[test]
fn derivation_and_signing_deterministic() {
    let seed = [0x5au8; 32];
    let kp1 = KeyPair::from_seed(Seed::new(seed));
    let kp2 = KeyPair::from_seed(Seed::new(seed));
    assert_eq!(kp1.pk.as_bytes(), kp2.pk.as_bytes());
    assert_eq!(kp1.sk.as_bytes(), kp2.sk.as_bytes());
    let sig1 = kp1.sk.sign(b"same message", None);
    let sig2 = kp2.sk.sign(b"same message", None);
    assert_eq!(sig1.as_bytes(), sig2.as_bytes());
}

#[test]
fn distinct_noise_gives_distinct_signatures() {
    let kp = KeyPair::from_seed(Seed::new([0x11u8; 32]));
    let msg = b"same message";
    let mut n2 = [0u8; 16];
    n2[0] = 1;
    let sig1 = kp.sk.sign(msg, Some(Noise::new([0u8; 16])));
    let sig2 = kp.sk.sign(msg, Some(Noise::new(n2)));
    assert_ne!(sig1.as_bytes(), sig2.as_bytes());
    assert!(kp.pk.verify(msg, &sig1).is_ok());
    assert!(kp.pk.verify(msg, &sig2).is_ok());
}

#[test]
fn bit_flip_in_r_half_rejected() {
    let kp = KeyPair::from_seed(Seed::new([0x21u8; 32]));
    let msg = b"bits";
    let sig = kp.sk.sign(msg, None);
    let good = *sig.as_bytes();
    for byte in 0..32 {
        for bit in 0..8 {
            let mut bad = good;
            bad[byte] ^= 1 << bit;
            assert!(kp.pk.verify(msg, &Signature::new(bad)).is_err());
        }
    }
}

#[test]
fn bit_flip_in_s_half_rejected() {
    let kp = KeyPair::from_seed(Seed::new([0x22u8; 32]));
    let msg = b"bits";
    let sig = kp.sk.sign(msg, None);
    let good = *sig.as_bytes();
    for byte in 32..64 {
        for bit in 0..8 {
            let mut bad = good;
            bad[byte] ^= 1 << bit;
            assert!(kp.pk.verify(msg, &Signature::new(bad)).is_err());
        }
    }
}

#[test]
fn bit_flip_in_message_rejected() {
    let kp = KeyPair::from_seed(Seed::new([0x23u8; 32]));
    let msg = *b"msg";
    let sig = kp.sk.sign(&msg, None);
    for byte in 0..msg.len() {
        for bit in 0..8 {
            let mut bad = msg;
            bad[byte] ^= 1 << bit;
            assert_eq!(kp.pk.verify(&bad, &sig), Err(Error::SignatureMismatch));
        }
    }
}

#[test]
fn bit_flip_in_public_key_rejected() {
    let kp = KeyPair::from_seed(Seed::new([0x24u8; 32]));
    let msg = b"bits";
    let sig = kp.sk.sign(msg, None);
    let good = *kp.pk.as_bytes();
    for byte in 0..32 {
        for bit in 0..8 {
            let mut bad = good;
            bad[byte] ^= 1 << bit;
            assert!(PublicKey::new(bad).verify(msg, &sig).is_err());
        }
    }
}

#[test]
fn noncanonical_s_rejected() {
    let kp = KeyPair::from_seed(Seed::new([0x31u8; 32]));
    let msg = b"canonical";
    let sig = kp.sk.sign(msg, None);
    let good = *sig.as_bytes();

    // S = L.
    let mut at_l = good;
    at_l[32..].copy_from_slice(&L_LE);
    assert_eq!(
        kp.pk.verify(msg, &Signature::new(at_l)),
        Err(Error::NoncanonicalSignature)
    );

    // S = L + 1 (no carry: the low byte of L is 0xed).
    let mut above_l = at_l;
    above_l[32] = 0xee;
    assert_eq!(
        kp.pk.verify(msg, &Signature::new(above_l)),
        Err(Error::NoncanonicalSignature)
    );

    // S = 2^256 - 1.
    let mut all_ones = good;
    for b in &mut all_ones[32..] {
        *b = 0xff;
    }
    assert_eq!(
        kp.pk.verify(msg, &Signature::new(all_ones)),
        Err(Error::NoncanonicalSignature)
    );
}

#[test]
fn weak_public_keys_rejected() {
    let sig = Signature::new([0u8; 64]);
    let zero_pk = PublicKey::new([0u8; 32]);
    assert_eq!(zero_pk.verify(b"any", &sig), Err(Error::WeakPublicKey));

    let mut identity = [0u8; 32];
    identity[0] = 1;
    let identity_pk = PublicKey::new(identity);
    assert_eq!(identity_pk.verify(b"any", &sig), Err(Error::WeakPublicKey));

    // The canonicality gate fires before the weak-key gate.
    let mut bad_s = [0u8; 64];
    for b in &mut bad_s[32..] {
        *b = 0xff;
    }
    assert_eq!(
        zero_pk.verify(b"any", &Signature::new(bad_s)),
        Err(Error::NoncanonicalSignature)
    );
}

#[test]
fn undecodable_public_key_rejected() {
    // Scan y-coordinates until one is not on the curve; roughly half of all
    // byte strings fail to decode, and the rest can only mismatch.
    let sig = Signature::new([0u8; 64]);
    let mut saw_invalid = false;
    for y0 in 2u8..=60 {
        let mut pk = [0u8; 32];
        pk[0] = y0;
        match PublicKey::new(pk).verify(b"any", &sig) {
            Err(Error::InvalidPublicKey) => {
                saw_invalid = true;
            }
            Err(Error::SignatureMismatch) => {}
            other => panic!("unexpected outcome: {:?}", other),
        }
    }
    assert!(saw_invalid);
}

#[test]
fn self_checked_signing() {
    let kp = KeyPair::from_seed(Seed::new([0x55u8; 32]));
    let sig = kp.sk.sign_checked(b"checked", None).unwrap();
    assert!(kp.pk.verify(b"checked", &sig).is_ok());
    let plain = kp.sk.sign(b"checked", None);
    assert_eq!(sig.as_bytes(), plain.as_bytes());
}

#[test]
fn public_key_part_matches_secret_key() {
    let kp = KeyPair::from_seed(Seed::new([0x61u8; 32]));
    assert_eq!(kp.sk.public_key().as_bytes(), kp.pk.as_bytes());
    let rebuilt = SecretKey::new(*kp.sk.as_bytes());
    assert_eq!(rebuilt.public_key().as_bytes(), kp.pk.as_bytes());
}

#[test]
fn random_seed_and_noise() {
    let s1 = Seed::default();
    let s2 = Seed::default();
    let kp1 = KeyPair::from_seed(s1);
    let kp2 = KeyPair::from_seed(s2);
    // Two random seeds collide only with negligible probability; in
    // particular the entropy source did not hand the zeroed buffer back.
    assert_ne!(kp1.pk.as_bytes(), kp2.pk.as_bytes());
    let sig = kp1.sk.sign(b"random", Some(Noise::default()));
    assert!(kp1.pk.verify(b"random", &sig).is_ok());
    assert!(kp2.pk.verify(b"random", &sig).is_err());
}

#[test]
fn canonicality_scan_boundaries() {
    // check_lt_l reports "not canonical": true exactly when the value is >= L.
    assert!(!check_lt_l(&[0u8; 32]));
    assert!(!check_lt_l(&{
        let mut just_below = L_LE;
        just_below[0] = 0xec;
        just_below
    }));
    assert!(check_lt_l(&L_LE));
    assert!(check_lt_l(&[0xffu8; 32]));
}
