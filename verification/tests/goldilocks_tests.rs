use lighter_rs::field::goldilocks::GoldilocksField;

const P: u64 = GoldilocksField::MODULUS;

fn canonical(x: u64) -> bool {
    x < P
}

fn gf(x: u64) -> GoldilocksField {
    GoldilocksField::from_canonical_u64(x)
}

#[test]
fn goldilocks_add_basic() {
    let a = gf(100);
    let b = gf(50);
    assert_eq!(a.add(&b).canonical(), 150);
}

#[test]
fn add_near_modulus() {
    let a = gf(P - 1);
    let b = gf(1);
    assert_eq!(a.add(&b).canonical(), 0);
}

#[test]
fn add_wrap_multiples() {
    let a = gf(P - 1);
    let b = gf(2);
    assert_eq!(a.add(&b).canonical(), 1);
}

#[test]
fn goldilocks_add_max() {
    let a = gf(P - 1);
    let b = gf(P - 1);
    assert_eq!(a.add(&b).canonical(), P - 2);
}

#[test]
fn add_zero() {
    let a = gf(42);
    assert_eq!(a.add(&GoldilocksField::zero()).canonical(), 42);
}

#[test]
fn sub_basic() {
    let a = gf(100);
    let b = gf(50);
    assert_eq!(a.sub(&b).canonical(), 50);
}

#[test]
fn goldilocks_sub_underflow() {
    let a = gf(0);
    let b = gf(1);
    assert_eq!(a.sub(&b).canonical(), P - 1);
}

#[test]
fn sub_self() {
    let a = gf(42);
    assert!(a.sub(&a).is_zero());
}

#[test]
fn mul_basic() {
    let a = gf(10);
    let b = gf(5);
    assert_eq!(a.mul(&b).canonical(), 50);
}

#[test]
fn goldilocks_mul_one() {
    let a = gf(12345);
    assert_eq!(a.mul(&GoldilocksField::one()).canonical(), 12345);
}

#[test]
fn goldilocks_mul_zero() {
    let a = gf(99999);
    assert!(a.mul(&GoldilocksField::zero()).is_zero());
}

#[test]
fn goldilocks_mul_commutative() {
    let a = gf(P - 100);
    let b = gf(P - 200);
    assert_eq!(a.mul(&b).canonical(), b.mul(&a).canonical());
}

#[test]
fn mul_large() {
    let a = gf(P - 1);
    let b = gf(2);
    assert_eq!(a.mul(&b).canonical(), P - 2);
}

#[test]
fn mul_max() {
    let a = gf(P - 1);
    let b = gf(P - 1);
    assert_eq!(a.mul(&b).canonical(), 1);
}

#[test]
fn mul_reduce128_canonical() {
    for i in 0..10000 {
        let a = gf(i % P);
        let b = gf((i * 7 + 13) % P);
        assert!(canonical(a.mul(&b).canonical()));
    }
}

#[test]
fn square_identity() {
    let a = gf(42);
    assert_eq!(a.square().canonical(), a.mul(&a).canonical());
}

#[test]
fn double_identity() {
    let a = gf(50);
    assert_eq!(a.double().canonical(), a.add(&a).canonical());
}

#[test]
fn neg_zero() {
    assert!(GoldilocksField::zero().neg().is_zero());
}

#[test]
fn neg_involution() {
    let a = gf(42);
    assert_eq!(a.neg().neg().canonical(), 42);
}

#[test]
fn neg_cancel() {
    let a = gf(100);
    assert!(a.add(&a.neg()).is_zero());
}

#[test]
fn inverse_basic() {
    let a = gf(2);
    let inv = a.inverse();
    assert_eq!(a.mul(&inv).canonical(), 1);
}

#[test]
fn goldilocks_inverse_one() {
    assert_eq!(GoldilocksField::one().inverse().canonical(), 1);
}

#[test]
fn inverse_self_cancel() {
    for i in 1..200 {
        let a = gf(i);
        assert_eq!(a.mul(&a.inverse()).canonical(), 1, "inverse failed for {i}");
    }
}

#[test]
fn exp_zero() {
    assert_eq!(gf(42).exp(0).canonical(), 1);
}

#[test]
fn exp_one() {
    assert_eq!(gf(42).exp(1).canonical(), 42);
}

#[test]
fn exp_small() {
    let a = gf(2);
    assert_eq!(a.exp(3).canonical(), 8);
}

#[test]
fn sqrt_square() {
    let a = gf(4);
    let s = a.sqrt().unwrap();
    let s2 = s.square().canonical();
    assert!(s2 == 4, "sqrt(4)^2 = {s2}, expected 4");
}

#[test]
fn sqrt_nonresidue_returns_none() {
    assert!(gf(11).sqrt().is_none());
}

#[test]
fn sqrt_zero() {
    assert!(gf(0).sqrt().unwrap().is_zero());
}

#[test]
fn sqrt_many() {
    for i in 0..64 {
        let a = gf(i * i % P);
        if let Some(s) = a.sqrt() {
            let s2 = s.square().canonical();
            assert_eq!(s2, a.canonical(), "sqrt({})^2 = {} != {}", i * i % P, s2, a.canonical());
        }
    }
}

#[test]
fn bytes_roundtrip() {
    let a = gf(0x1234567890ABCDEF % P);
    let bytes = a.to_bytes_le();
    assert_eq!(bytes.len(), 8);
    let b = GoldilocksField::from_bytes_le(&bytes).unwrap();
    assert_eq!(a, b);
}

#[test]
fn bytes_reject_noncanonical() {
    let bytes = P.to_le_bytes();
    assert!(GoldilocksField::from_bytes_le(&bytes).is_err());
}

#[test]
fn noncanonical_add_correct() {
    let a = GoldilocksField(GoldilocksField::MODULUS + 5);
    let b = gf(10);
    let sum = a.add(&b);
    assert_eq!(sum.canonical(), 15);
}

#[test]
fn from_noncanonical_u64() {
    let x = GoldilocksField::from_noncanonical_u64(P + 42);
    assert_eq!(x.canonical(), 42);
}

#[test]
fn from_i64_negative() {
    let x = GoldilocksField::from_i64(-10);
    assert!(x.0 != 0);
}

// ---------- further checks ----------

#[test]
fn goldilocks_exp_matches_repeated_mul() {
    let a = gf(123456789);
    let mut acc = GoldilocksField::one();
    for _ in 0..37 {
        acc = acc.mul(&a);
    }
    assert_eq!(a.exp(37), acc);
}

#[test]
fn goldilocks_exp_power_of_2_matches_exp() {
    let a = gf(987654321);
    assert_eq!(a.exp_power_of_2(5), a.exp(32));
}

#[test]
fn goldilocks_inverse_of_zero_is_zero() {
    assert!(GoldilocksField::zero().inverse_or_zero().is_zero());
}

#[test]
fn goldilocks_inverse_is_p_minus_2_power() {
    let a = gf(7);
    assert_eq!(a.inverse_or_zero(), a.exp(P - 2));
}

#[test]
fn goldilocks_add_canonical_u64_wraps() {
    let a = GoldilocksField(u64::MAX);
    let r = a.add_canonical_u64(P - 1);
    assert_eq!(r.canonical(), ((u64::MAX as u128 + (P - 1) as u128) % P as u128) as u64);
}

#[test]
fn goldilocks_sub_noncanonical() {
    let a = GoldilocksField(3);
    let b = GoldilocksField(u64::MAX);
    // u64::MAX = p + (2^32 - 2), so 3 - b = 3 - 2^32 + 2 (mod p)
    assert_eq!(a.sub(&b).canonical(), P - 0xFFFF_FFFF + 5 - 1);
}

#[test]
fn goldilocks_bytes_error_messages() {
    assert_eq!(GoldilocksField::from_bytes_le(&[1, 2, 3]).unwrap_err(), "expected 8 bytes");
    assert_eq!(GoldilocksField::from_bytes_le(&P.to_le_bytes()).unwrap_err(), "non-canonical Goldilocks element");
}

#[test]
fn goldilocks_to_bytes_exact() {
    let a = GoldilocksField(P + 0x0102);
    assert_eq!(a.to_bytes_le(), [2, 1, 0, 0, 0, 0, 0, 0]);
}

#[test]
fn hex_roundtrip() {
    let a = gf(0xCAFEBABE % P);
    let hex = a.to_hex();
    assert_eq!(hex.len(), 16);
    let b = GoldilocksField::from_hex(&hex).unwrap();
    assert_eq!(a, b);
}

#[test]
fn hex_with_prefix() {
    let a = gf(42);
    let hex = format!("0x{}", a.to_hex());
    assert_eq!(GoldilocksField::from_hex(&hex).unwrap(), a);
}

#[test]
fn display_canonical() {
    let a = GoldilocksField(P + 5);
    assert_eq!(a.to_string(), "5");
}

#[test]
fn goldilocks_hex_is_little_endian_lowercase() {
    assert_eq!(gf(0xAB).to_hex(), "ab00000000000000");
    assert_eq!(GoldilocksField(P + 1).to_hex(), "0100000000000000");
}

#[test]
fn goldilocks_from_hex_errors() {
    assert_eq!(GoldilocksField::from_hex("abcd").unwrap_err(), "expected 16 hex chars");
    assert_eq!(GoldilocksField::from_hex("zz00000000000000").unwrap_err(), "hex decode error");
    assert_eq!(GoldilocksField::from_hex("ffffffffffffffff").unwrap_err(), "non-canonical Goldilocks element");
    assert_eq!(GoldilocksField::from_hex("0x0100000000000000").unwrap(), gf(1));
}

#[test]
fn goldilocks_sqrt_follows_euler_criterion() {
    for x in [2u64, 3, 5, 7, 11, 13, 1234567, P - 1, P - 2] {
        let a = gf(x);
        let euler = a.exp((P - 1) / 2).canonical() == 1;
        match a.sqrt() {
            Some(r) => {
                assert!(euler);
                assert_eq!(r.square().canonical(), x);
            }
            None => assert!(!euler),
        }
    }
}
