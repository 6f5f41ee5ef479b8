use lighter_rs::curve::scalar::Scalar;
use lighter_rs::field::quintic::Fp5;
use lighter_rs::signature::schnorr::{public_key_from_secret, scalar_from_random_bytes, sign_hashed_message, sign_with_nonce, verify, Signature};

fn dummy_msg() -> Fp5 {
    Fp5::from_u64_arr([1, 2, 3, 4, 5])
}

fn scalar_with(b0: u8, b1: u8) -> Scalar {
    let mut b = [0u8; 40];
    b[0] = b0;
    b[1] = b1;
    Scalar::from_bytes_le(&b)
}

#[test]
fn sign_verify_roundtrip() {
    let sk = scalar_with(42, 0);
    let pk = public_key_from_secret(&sk);
    let msg = dummy_msg();
    let sig = sign_hashed_message(&msg, &sk);
    assert!(verify(&pk, &msg, &sig));
}

#[test]
fn sign_verify_random() {
    let sk = scalar_with(123, 0);
    let pk = public_key_from_secret(&sk);
    let msg = dummy_msg();
    let k = scalar_with(99, 1);
    let sig = sign_with_nonce(&msg, &sk, &k);
    assert!(verify(&pk, &msg, &sig));
}

#[test]
fn wrong_message_fails() {
    let sk = scalar_with(7, 0);
    let pk = public_key_from_secret(&sk);
    let msg = dummy_msg();
    let sig = sign_hashed_message(&msg, &sk);
    let other_msg = Fp5::from_u64_arr([99, 0, 0, 0, 0]);
    assert!(!verify(&pk, &other_msg, &sig));
}

#[test]
fn wrong_key_fails() {
    let sk = scalar_with(7, 0);
    let sk2 = scalar_with(8, 0);
    let pk2 = public_key_from_secret(&sk2);
    let msg = dummy_msg();
    let sig = sign_hashed_message(&msg, &sk);
    assert!(!verify(&pk2, &msg, &sig));
}

#[test]
fn sig_serialization() {
    let sk = scalar_with(1, 0);
    let msg = dummy_msg();
    let k = scalar_with(2, 0);
    let sig = sign_with_nonce(&msg, &sk, &k);
    let bytes = sig.to_bytes();
    assert_eq!(bytes.len(), 80);
    let sig2 = Signature::from_bytes(&bytes).unwrap();
    assert_eq!(sig.s, sig2.s);
    assert_eq!(sig.e, sig2.e);
}

#[test]
fn scalar_from_random_bytes_takes_first_forty_reduced() {
    let mut b = [0u8; 64];
    b[0] = 9;
    b[39] = 1;
    b[50] = 0xff;
    let mut first = [0u8; 40];
    first.copy_from_slice(&b[..40]);
    assert_eq!(scalar_from_random_bytes(&b), Scalar::from_bytes_le(&first));
    let all = scalar_from_random_bytes(&[0xffu8; 64]);
    assert!(all.is_canonical());
    assert_eq!(all, Scalar::from_bytes_le(&[0xffu8; 40]));
}

#[test]
fn signature_from_bytes_accepts_any_80_bytes() {
    let sig = Signature::from_bytes(&[0xffu8; 80]).unwrap();
    assert!(sig.is_canonical());
    assert!(Signature::from_bytes(&[0u8; 79]).is_err());
}
