use lighter_rs::field::goldilocks::GoldilocksField;
use lighter_rs::hash::poseidon2::{
    empty_hash_out, hash_n_to_one, hash_no_pad, hash_out_from_bytes, hash_out_to_bytes,
    hash_to_quintic_extension, hash_two_to_one, permute,
};

fn gf(x: u64) -> GoldilocksField {
    GoldilocksField::from_canonical_u64(x)
}

#[test]
fn empty_hash_is_zero() {
    let h = empty_hash_out();
    for v in &h {
        assert!(v.is_zero());
    }
}

#[test]
fn hash_no_pad_single_element() {
    let input = [gf(1)];
    let out = hash_no_pad(&input);
    assert_eq!(out.len(), 4);
    let out2 = hash_no_pad(&input);
    assert_eq!(out, out2);
}

#[test]
fn hash_to_quintic_ext_basic() {
    let input = [gf(1), gf(2), gf(3)];
    let fp5 = hash_to_quintic_extension(&input);
    let fp5_2 = hash_to_quintic_extension(&input);
    assert_eq!(fp5, fp5_2);
}

#[test]
fn hash_no_pad_different_inputs() {
    let out1 = hash_no_pad(&[gf(1), gf(2)]);
    let out2 = hash_no_pad(&[gf(1), gf(3)]);
    assert_ne!(out1, out2, "different inputs should produce different hash");
}

#[test]
fn hash_no_pad_multi_chunk() {
    let input: Vec<_> = (0..9).map(gf).collect();
    let out1 = hash_no_pad(&input);
    let out2 = hash_no_pad(&input);
    assert_eq!(out1, out2);
}

#[test]
fn hash_n_to_one_single() {
    let h = hash_no_pad(&[gf(1)]);
    assert_eq!(hash_n_to_one(&[h]), h);
}

#[test]
fn hash_n_to_one_two() {
    let h1 = hash_no_pad(&[gf(1)]);
    let h2 = hash_no_pad(&[gf(2)]);
    let combined = hash_n_to_one(&[h1, h2]);
    let expected = hash_two_to_one(h1, h2);
    assert_eq!(combined, expected);
}

#[test]
fn serde_hash_out_roundtrip() {
    let h = hash_no_pad(&[gf(42)]);
    let bytes = hash_out_to_bytes(&h);
    assert_eq!(bytes.len(), 32);
    let restored = hash_out_from_bytes(&bytes).unwrap();
    assert_eq!(h, restored);
}

#[test]
fn permute_leaves_state_consistent() {
    let mut state = [gf(0); 12];
    state[0] = gf(1);
    permute(&mut state);
    let all_zero = state.iter().all(|s| s.is_zero());
    assert!(!all_zero, "permute should mix state");
}

// ---------- further checks ----------

#[test]
fn poseidon_noncanonical_input_hashes_like_canonical() {
    let p = GoldilocksField::MODULUS;
    let a = hash_no_pad(&[GoldilocksField(p + 3), gf(4)]);
    let b = hash_no_pad(&[gf(3), gf(4)]);
    assert_eq!(a, b);
}

#[test]
fn poseidon_quintic_prefix_matches_hash_no_pad() {
    // Both squeeze the same sponge; the first four outputs agree.
    let input = [gf(5), gf(6), gf(7)];
    let h4 = hash_no_pad(&input);
    let h5 = hash_to_quintic_extension(&input);
    for i in 0..4 {
        assert_eq!(h4[i], h5.0[i]);
    }
}

#[test]
fn poseidon_hash_n_to_one_three_is_left_fold() {
    let h1 = hash_no_pad(&[gf(1)]);
    let h2 = hash_no_pad(&[gf(2)]);
    let h3 = hash_no_pad(&[gf(3)]);
    let expected = hash_two_to_one(hash_two_to_one(h1, h2), h3);
    assert_eq!(hash_n_to_one(&[h1, h2, h3]), expected);
    assert_eq!(hash_n_to_one(&[]), empty_hash_out());
}

#[test]
fn poseidon_hash_out_from_bytes_errors() {
    assert_eq!(hash_out_from_bytes(&[0u8; 31]).unwrap_err(), "expected 32 bytes");
    let bytes = [0xFFu8; 32];
    assert_eq!(hash_out_from_bytes(&bytes).unwrap_err(), "non-canonical Goldilocks element");
}

#[test]
fn poseidon_empty_input_is_zero_state_squeeze() {
    // Nothing is absorbed, so the zero state is squeezed without a permutation.
    let h = hash_no_pad(&[]);
    assert_eq!(h, empty_hash_out());
}
