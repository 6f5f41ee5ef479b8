use lighter_rs::field::goldilocks::GoldilocksField;
use lighter_rs::field::quintic::Fp5;
use lighter_rs::hash::poseidon2::hash_to_quintic_extension;
use lighter_rs::types::errors::TxError;
use lighter_rs::types::request_hash::{build_create_order_hash, hash_cancel_order, hash_create_order, hash_transfer};
use lighter_rs::types::transfer::TransferTx;
use lighter_rs::types::{L2TxAttributes, TxInfo};

fn transfer() -> TransferTx {
    TransferTx {
        from_account_index: 5,
        api_key_index: 2,
        to_account_index: 9,
        asset_index: 3,
        from_route_type: 0,
        to_route_type: 1,
        amount: (7i64 << 32) + 11,
        usdc_fee: 4,
        memo: [0u8; 32],
        expired_at: 1000,
        nonce: 6,
        sig: Vec::new(),
        signed_hash: String::new(),
        attributes: L2TxAttributes::new(),
    }
}

#[test]
fn transfer_validate_accepts_and_refuses() {
    let tx = transfer();
    assert_eq!(tx.validate(), Ok(()));
    assert_eq!(tx.get_tx_type(), 12);

    let mut bad = transfer();
    bad.to_account_index = 281474976710655;
    assert_eq!(bad.validate(), Err(TxError::ToAccountIndexTooHigh));

    let mut bad = transfer();
    bad.from_route_type = 2;
    assert_eq!(bad.validate(), Err(TxError::RouteTypeInvalid));

    let mut bad = transfer();
    bad.amount = 0;
    assert_eq!(bad.validate(), Err(TxError::TransferAmountTooLow));

    let mut bad = transfer();
    bad.usdc_fee = -1;
    assert_eq!(bad.validate(), Err(TxError::TransferFeeNegative));

    let mut bad = transfer();
    bad.expired_at = -1;
    assert_eq!(bad.validate(), Err(TxError::ExpiredAtInvalid));
}

#[test]
fn transfer_hash_matches_request_hash_and_attributes_change_it() {
    let tx = transfer();
    let h = tx.hash(300).unwrap();
    let direct = hash_transfer(300, 5, 2, 9, 3, 0, 1, (7i64 << 32) + 11, 4, 6, 1000);
    assert_eq!(h, direct.to_vec());

    let mut with_attr = transfer();
    with_attr.attributes.set_skip_tx_nonce().unwrap();
    let h2 = with_attr.hash(300).unwrap();
    assert_eq!(h2.len(), 40);
    assert_ne!(h2, h);
}

#[test]
fn attributes_setters_and_validation() {
    let mut a = L2TxAttributes::new();
    assert!(a.is_empty());
    assert_eq!(a.set_integrator_taker_fee(1_000_001), Err(TxError::AttributeValueOutOfRange));
    assert_eq!(a.set_integrator_taker_fee(10), Ok(()));
    assert_eq!(a.validate(), Err(TxError::IntegratorAccountIndexRequired));
    assert_eq!(a.set_integrator_account_index(-1), Err(TxError::AttributeValueOutOfRange));
    assert_eq!(a.set_integrator_account_index(77), Ok(()));
    assert_eq!(a.validate(), Ok(()));
    assert_eq!(a.set_integrator_maker_fee(5), Ok(()));
    assert_eq!(a.set_skip_tx_nonce(), Ok(()));
    assert_eq!(a.set_skip_tx_nonce(), Err(TxError::TooManyAttributes));
}

#[test]
fn attributes_aggregate_hash() {
    let tx_hash = Fp5::from_u64_arr([1, 2, 3, 4, 5]);
    let empty = L2TxAttributes::new();
    assert_eq!(empty.hash_and_aggregate(&tx_hash).unwrap(), tx_hash.to_bytes_le().to_vec());

    let mut a = L2TxAttributes::new();
    a.set_skip_tx_nonce().unwrap();
    a.set_integrator_account_index(77).unwrap();
    let gf = GoldilocksField;
    let attr_hash = hash_to_quintic_extension(&[gf(1), gf(77), gf(4), gf(1), gf(0), gf(0), gf(0), gf(0)]);
    let mut combined = tx_hash.0.to_vec();
    combined.extend_from_slice(&attr_hash.0);
    let expected = hash_to_quintic_extension(&combined).to_bytes_le().to_vec();
    assert_eq!(a.hash_and_aggregate(&tx_hash).unwrap(), expected);
}

#[test]
fn request_hashes_are_poseidon_of_fields() {
    let gf = |x: u64| GoldilocksField(x);
    let h = hash_cancel_order(300, 5, 2, 1, 99, 6, 1000);
    let expected = hash_to_quintic_extension(&[gf(300), gf(15), gf(6), gf(1000), gf(5), gf(2), gf(1), gf(99)]);
    assert_eq!(h, expected.to_bytes_le());

    let h = hash_create_order(300, 5, 2, 1, 42, 10_000, 100_000, 0, 0, 1, 0, 0, 3600, 6, 1000);
    let expected = hash_to_quintic_extension(&[
        gf(300), gf(14), gf(6), gf(1000), gf(5), gf(2), gf(1), gf(42), gf(10_000), gf(100_000),
        gf(0), gf(0), gf(1), gf(0), gf(0), gf(3600),
    ]);
    assert_eq!(h, expected.to_bytes_le());
}

#[test]
fn benchmark_order_hash_is_a_create_order_hash() {
    let h = build_create_order_hash(300, 1000, 200, 1, 0, 100, 140_000, 9_999_999_999);
    let direct = hash_create_order(300, 200, 1, 0, 1000, 100, 140_000, 0, 0, 1, 0, 0, 9_999_999_999, 1000, 9_999_999_999);
    assert_eq!(h.to_bytes_le(), direct);
}

#[test]
fn attributes_default_is_empty() {
    let a = L2TxAttributes::default();
    assert!(a.is_empty());
    assert_eq!(a.integrator_account_index, 0);
    assert!(!a.skip_tx_nonce);
}
