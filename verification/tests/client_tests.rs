use base64::Engine;
use lighter_rs::batch::sign_each;
use lighter_rs::client::{nonce_from_reply, tx_hash_from_reply, ApiClient, Signer};
use lighter_rs::curve::scalar::Scalar;
use lighter_rs::field::quintic::Fp5;
use lighter_rs::signature::schnorr::{public_key_from_secret, verify, Signature};

const KEY_HEX: &str = "0500000000000000000000000000000000000000000000000000000000000000000000000000000a";

#[test]
fn api_client_trims_trailing_slashes() {
    let c = ApiClient::new("https://example.org//", 300);
    assert_eq!(c.base_url, "https://example.org");
    assert_eq!(c.chain_id, 300);
    let d = ApiClient::new("https://example.org", 1);
    assert_eq!(d.base_url, "https://example.org");
    let e = ApiClient::new("///", 1);
    assert_eq!(e.base_url, "");
}

#[test]
fn api_client_urls() {
    let c = ApiClient::new("https://node.test/", 300);
    assert_eq!(
        c.next_nonce_url(-3, 7),
        "https://node.test/api/v1/nextNonce?account_index=-3&api_key_index=7"
    );
    assert_eq!(c.send_tx_url(), "https://node.test/api/v1/sendTx");
    assert_eq!(c.send_tx_batch_url(), "https://node.test/api/v1/sendTxBatch");
}

#[test]
fn replies_are_read() {
    assert_eq!(nonce_from_reply(Some(12)).unwrap(), 12);
    assert_eq!(nonce_from_reply(None).unwrap_err(), "no nonce in response");
    assert_eq!(tx_hash_from_reply(Some("ab".to_string()), None, None).unwrap(), "ab");
    assert_eq!(
        tx_hash_from_reply(None, Some("bad nonce".to_string()), Some(21104)).unwrap_err(),
        "bad nonce"
    );
    assert_eq!(tx_hash_from_reply(None, None, Some(21104)).unwrap_err(), "code 21104");
    assert_eq!(tx_hash_from_reply(None, None, None).unwrap_err(), "code 0");
}

#[test]
fn signer_public_key_hex() {
    let s = Signer::new(KEY_HEX).unwrap();
    let mut bytes = [0u8; 40];
    bytes[0] = 5;
    bytes[39] = 10;
    let pk = public_key_from_secret(&Scalar::from_bytes_le(&bytes)).to_bytes_le();
    let expected: String = pk.iter().map(|b| format!("{:02x}", b)).collect();
    assert_eq!(s.public_key_hex(), expected);
}

#[test]
fn signer_sign_base64_verifies() {
    let s = Signer::new(&format!("0x{}", KEY_HEX)).unwrap();
    let hash = Fp5::from_u64_arr([1, 2, 3, 4, 5]).to_bytes_le();
    let b64 = s.sign_base64(&hash).unwrap();
    assert_eq!(b64.len(), 108);
    assert!(b64.ends_with('='));
    let raw = base64::engine::general_purpose::STANDARD.decode(&b64).unwrap();
    assert_eq!(raw.len(), 80);
    let sig = Signature::from_bytes(&raw).unwrap();
    let pk_bytes: Vec<u8> = (0..40)
        .map(|i| u8::from_str_radix(&s.public_key_hex()[2 * i..2 * i + 2], 16).unwrap())
        .collect();
    let pk = Fp5::from_bytes_le(&pk_bytes).unwrap();
    assert!(verify(&pk, &Fp5::from_u64_arr([1, 2, 3, 4, 5]), &sig));
}

#[test]
fn signer_errors() {
    let e = Signer::new("1234").err().unwrap();
    assert_eq!(e, "expected 40 bytes, got 2");
    let s = Signer::new(KEY_HEX).unwrap();
    let err = s.sign_base64(&[0xffu8; 40]).unwrap_err();
    assert_eq!(err, "sign: invalid hashed message: non-canonical Goldilocks element in Fp5 bytes");
}

#[test]
fn sign_each_signs_every_message_in_order() {
    let mut b = [0u8; 40];
    b[0] = 77;
    let sk = Scalar::from_bytes_le(&b);
    let pk = public_key_from_secret(&sk);
    let msgs: Vec<Fp5> = (0..5u64).map(|i| Fp5::from_u64_arr([i, 0, 0, 0, 1])).collect();
    let sigs = sign_each(&msgs, &sk);
    assert_eq!(sigs.len(), 5);
    for (m, s) in msgs.iter().zip(sigs.iter()) {
        assert!(verify(&pk, m, &Signature::from_bytes(s).unwrap()));
    }
    let other = Fp5::from_u64_arr([9, 9, 9, 9, 9]);
    assert!(!verify(&pk, &other, &Signature::from_bytes(&sigs[0]).unwrap()));
}
