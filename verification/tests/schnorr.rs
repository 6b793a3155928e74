use blake2::{Blake2s256, Digest};
use curve25519_dalek::constants::RISTRETTO_BASEPOINT_COMPRESSED;
use curve25519_dalek::ristretto::RistrettoPoint;
use curve25519_dalek::scalar::Scalar;
use ristretto_schnorr::{RistrettoPublicKey, RistrettoSchnorr, RistrettoSecretKey};

/// The group order as little-endian bytes:
/// 2^252 + 27742317777372353535851937790883648493.
const GROUP_ORDER_BYTES: [u8; 32] = [
    0xed, 0xd3, 0xf5, 0x5c, 0x1a, 0x63, 0x12, 0x58, 0xd6, 0x9c, 0xf7, 0xa2, 0xde, 0xf9, 0xde,
    0x14, 0x00, 0x00, 0x00, 0x00, 0x00, 0x00, 0x00, 0x00, 0x00, 0x00, 0x00, 0x00, 0x00, 0x00,
    0x00, 0x10,
];

fn le_bytes(v: u64) -> [u8; 32] {
    let mut b = [0u8; 32];
    b[..8].copy_from_slice(&v.to_le_bytes());
    b
}

fn get_keypair() -> (RistrettoSecretKey, RistrettoPublicKey) {
    let k = RistrettoSecretKey::from_bytes_mod_order(rand::random::<[u8; 32]>());
    let pk = RistrettoPublicKey::from_secret_key(&k);
    (k, pk)
}

fn challenge_of(p: &RistrettoPublicKey, r: &RistrettoPublicKey, msg: &[u8]) -> [u8; 32] {
    let mut h = Blake2s256::new();
    h.update(p.to_bytes());
    h.update(r.to_bytes());
    h.update(msg);
    h.finalize().into()
}

#[test]
fn sign_and_verify_message() {
    let (k, p) = get_keypair();
    let (r, r_pub) = get_keypair();
    let e: [u8; 32] = challenge_of(&p, &r_pub, b"Small Gods");
    let sig = RistrettoSchnorr::sign(&k, &r, e);
    let s_calc = sig.get_signature();
    let r_calc = sig.get_public_nonce();
    assert!(r_pub == *r_calc);
    println!("sig: {}\nmsg: {:?}", s_calc.to_hex(), e);
    assert!(sig.verify(&p, &r_pub, &e));
}

#[test]
fn sign_matches_schnorr_equation() {
    // s = r + e * k over the scalar field: 3 + 5 * 2 = 13.
    let k = RistrettoSecretKey::from_bytes_mod_order(le_bytes(2));
    let r = RistrettoSecretKey::from_bytes_mod_order(le_bytes(3));
    let sig = RistrettoSchnorr::sign(&k, &r, le_bytes(5));
    assert_eq!(sig.get_signature().to_bytes(), le_bytes(13));
}

#[test]
fn end_to_end_fixed_keys() {
    // Fixed secret and nonce; challenge derived by hashing P, R and the
    // message; both sides of the verification equation recomputed with the
    // group library directly.
    let mut k_bytes = [0u8; 32];
    let mut r_bytes = [0u8; 32];
    for i in 0..32 {
        k_bytes[i] = i as u8 + 1;
        r_bytes[i] = 101 - i as u8;
    }
    let k = RistrettoSecretKey::from_bytes_mod_order(k_bytes);
    let r = RistrettoSecretKey::from_bytes_mod_order(r_bytes);
    let p = RistrettoPublicKey::from_secret_key(&k);
    let r_pub = RistrettoPublicKey::from_secret_key(&r);
    let e = challenge_of(&p, &r_pub, b"Small Gods");
    let sig = RistrettoSchnorr::sign(&k, &r, e);

    assert_eq!(sig.get_public_nonce().to_bytes(), r_pub.to_bytes());

    let es = Scalar::from_bytes_mod_order(e);
    let ks = Scalar::from_bytes_mod_order(k.to_bytes());
    let rs = Scalar::from_bytes_mod_order(r.to_bytes());
    let s_expected = rs + ks * es;
    assert_eq!(sig.get_signature().to_bytes(), s_expected.to_bytes());

    let lhs = RistrettoPoint::mul_base(&s_expected);
    let rhs = RistrettoPoint::mul_base(&rs) + es * RistrettoPoint::mul_base(&ks);
    assert_eq!(lhs.compress().to_bytes(), rhs.compress().to_bytes());

    assert!(sig.verify(&p, &r_pub, &e));
}

#[test]
fn verify_fails_on_wrong_challenge() {
    let k = RistrettoSecretKey::from_bytes_mod_order(le_bytes(2));
    let r = RistrettoSecretKey::from_bytes_mod_order(le_bytes(3));
    let p = RistrettoPublicKey::from_secret_key(&k);
    let r_pub = RistrettoPublicKey::from_secret_key(&r);
    let sig = RistrettoSchnorr::sign(&k, &r, le_bytes(5));
    assert!(sig.verify(&p, &r_pub, &le_bytes(5)));
    assert!(!sig.verify(&p, &r_pub, &le_bytes(6)));
}

#[test]
fn verify_fails_on_wrong_key() {
    let k = RistrettoSecretKey::from_bytes_mod_order(le_bytes(2));
    let k2 = RistrettoSecretKey::from_bytes_mod_order(le_bytes(4));
    let r = RistrettoSecretKey::from_bytes_mod_order(le_bytes(3));
    let pk2 = RistrettoPublicKey::from_secret_key(&k2);
    let r_pub = RistrettoPublicKey::from_secret_key(&r);
    let sig = RistrettoSchnorr::sign(&k, &r, le_bytes(5));
    assert!(!sig.verify(&pk2, &r_pub, &le_bytes(5)));
}

#[test]
fn public_nonce_is_recoverable() {
    let (k, _) = get_keypair();
    let (r, r_pub) = get_keypair();
    let sig = RistrettoSchnorr::sign(&k, &r, le_bytes(7));
    assert!(*sig.get_public_nonce() == r_pub);
}

#[test]
fn sign_is_deterministic() {
    let (k, _) = get_keypair();
    let (r, _) = get_keypair();
    let e = rand::random::<[u8; 32]>();
    let sig1 = RistrettoSchnorr::sign(&k, &r, e);
    let sig2 = RistrettoSchnorr::sign(&k, &r, e);
    assert!(sig1 == sig2);
    assert_eq!(sig1.get_signature().to_bytes(), sig2.get_signature().to_bytes());
    assert_eq!(sig1.get_public_nonce().to_bytes(), sig2.get_public_nonce().to_bytes());
}

#[test]
fn equal_signatures_from_different_paths() {
    let (k, _) = get_keypair();
    let (r, _) = get_keypair();
    let e = rand::random::<[u8; 32]>();
    let sig = RistrettoSchnorr::sign(&k, &r, e);
    // Rebuild the same (R, s) pair from its canonical encodings.
    let s = RistrettoSecretKey::from_bytes_mod_order(sig.get_signature().to_bytes());
    let rebuilt = RistrettoSchnorr::new(*sig.get_public_nonce(), s);
    assert!(sig == rebuilt);
    // A signature over another challenge differs.
    let mut e2 = e;
    e2[0] = e2[0].wrapping_add(1);
    let other = RistrettoSchnorr::sign(&k, &r, e2);
    assert!(sig != other);
}

#[test]
fn from_bytes_reduces_mod_group_order() {
    // The group order itself reduces to zero.
    let zero = RistrettoSecretKey::from_bytes_mod_order(GROUP_ORDER_BYTES);
    assert_eq!(zero.to_bytes(), [0u8; 32]);
    // A value below the order is untouched.
    let one = RistrettoSecretKey::from_bytes_mod_order(le_bytes(1));
    assert_eq!(one.to_bytes(), le_bytes(1));
}

#[test]
fn public_key_of_one_is_the_basepoint() {
    let one = RistrettoSecretKey::from_bytes_mod_order(le_bytes(1));
    let p = RistrettoPublicKey::from_secret_key(&one);
    assert_eq!(p.to_bytes(), RISTRETTO_BASEPOINT_COMPRESSED.to_bytes());
}

#[test]
fn to_hex_encodes_little_endian_bytes() {
    let k = RistrettoSecretKey::from_bytes_mod_order(le_bytes(0xab));
    let expected: String =
        String::from("ab") + &"00".repeat(31);
    assert_eq!(k.to_hex(), expected);
}
