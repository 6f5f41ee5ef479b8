use lighter_rs::curve::scalar::Scalar;
use lighter_rs::field::goldilocks::GoldilocksField;
use lighter_rs::field::quintic::Fp5;
use lighter_rs::hash::poseidon2::hash_to_quintic_extension;
use lighter_rs::signature::schnorr::{public_key_from_secret, verify, Signature};
use lighter_rs::signer::key_manager::KeyManager;

#[test]
fn keygen_sign_verify() {
    let km = KeyManager::generate();
    let pk = km.public_key_bytes();
    let msg = [42u8; 40];
    let sig = km.sign(&msg).unwrap();
    let sk_bytes = km.private_key_bytes();
    let km2 = KeyManager::from_bytes(&sk_bytes);
    let sig2 = km2.sign(&msg).unwrap();
    let msg_fp5 = Fp5::from_bytes_le(&msg).unwrap();
    let pk_fp5 = Fp5::from_bytes_le(&pk).unwrap();
    let sig_parsed = Signature::from_bytes(&sig).unwrap();
    let sig2_parsed = Signature::from_bytes(&sig2).unwrap();
    assert!(verify(&pk_fp5, &msg_fp5, &sig_parsed));
    assert!(verify(&pk_fp5, &msg_fp5, &sig2_parsed));
}

#[test]
fn batch_sign_all_verify() {
    let km = KeyManager::generate();
    let pk = km.public_key_bytes();
    let pk_fp5 = Fp5::from_bytes_le(&pk).unwrap();

    let msgs: Vec<Fp5> = (0..100u64)
        .map(|i| Fp5::from_u64_arr([i, i + 1, i + 2, i + 3, i + 4]))
        .collect();
    let sigs = km.batch_sign(&msgs);

    assert_eq!(sigs.len(), 100);
    for (msg, sig) in msgs.iter().zip(sigs.iter()) {
        let sig_parsed = Signature::from_bytes(sig).unwrap();
        assert!(verify(&pk_fp5, msg, &sig_parsed));
    }
}

#[test]
fn key_manager_from_hex_accepts_prefix_and_rejects_bad_input() {
    let mut bytes = [0u8; 40];
    bytes[0] = 5;
    let hex: String = bytes.iter().map(|b| format!("{:02x}", b)).collect();
    let km = KeyManager::from_hex(&format!("0x{}", hex)).unwrap();
    assert_eq!(km.private_key_bytes(), bytes);
    let pk = public_key_from_secret(&Scalar::from_bytes_le(&bytes)).to_bytes_le();
    assert_eq!(km.public_key_bytes(), pk);

    let short = KeyManager::from_hex("abcd").err().unwrap();
    assert_eq!(short, "expected 40 bytes, got 2");
    let bad = KeyManager::from_hex("zz").err().unwrap();
    assert!(bad.starts_with("hex decode: "));
}

#[test]
fn key_manager_sign_rejects_noncanonical_message() {
    let km = KeyManager::from_bytes(&[1u8; 40]);
    let msg = [0xffu8; 40];
    let err = km.sign(&msg).unwrap_err();
    assert_eq!(err, "invalid hashed message: non-canonical Goldilocks element in Fp5 bytes");
    assert!(km.batch_sign_bytes(&[[0u8; 40], msg]).is_err());
    assert_eq!(km.batch_sign_bytes(&[[0u8; 40], [1u8; 40]]).unwrap().len(), 2);
}

#[test]
fn key_manager_auth_token_shape() {
    let km = KeyManager::from_bytes(&[3u8; 40]);
    let token = km.create_auth_token(1700000000, -7, 2).unwrap();
    let parts: Vec<&str> = token.split(':').collect();
    assert_eq!(parts.len(), 4);
    assert_eq!(parts[0], "1700000000");
    assert_eq!(parts[1], "-7");
    assert_eq!(parts[2], "2");
    assert_eq!(parts[3].len(), 160);
    let sig_bytes: Vec<u8> = (0..80)
        .map(|i| u8::from_str_radix(&parts[3][2 * i..2 * i + 2], 16).unwrap())
        .collect();
    let sig = Signature::from_bytes(&sig_bytes).unwrap();
    assert!(sig.is_canonical());
    let elements: Vec<GoldilocksField> = "1700000000:-7:2".bytes().map(|b| GoldilocksField(b as u64)).collect();
    let msg = hash_to_quintic_extension(&elements);
    let pk = Fp5::from_bytes_le(&km.public_key_bytes()).unwrap();
    assert!(verify(&pk, &msg, &sig));
}
