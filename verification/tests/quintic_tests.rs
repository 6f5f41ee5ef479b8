use lighter_rs::field::goldilocks::GoldilocksField;
use lighter_rs::field::quintic::Fp5;
use lighter_rs::field::quintic_avx;
use lighter_rs::field::goldilocks_avx2::GoldilocksFieldx4;
use lighter_rs::field::goldilocks_avx512::GoldilocksFieldx8;

fn f5(arr: [u64; 5]) -> Fp5 {
    Fp5::from_u64_arr(arr)
}

fn gf(x: u64) -> GoldilocksField {
    GoldilocksField::from_canonical_u64(x)
}

const P: u64 = GoldilocksField::MODULUS;

#[test]
fn zero_is_zero() {
    assert!(Fp5::zero().is_zero());
    assert!(!Fp5::one().is_zero());
}

#[test]
fn add_sub() {
    let a = f5([1, 2, 3, 4, 5]);
    let b = f5([10, 20, 30, 40, 50]);
    let c = a.add(&b);
    assert_eq!(c.0[0].canonical(), 11);
    assert_eq!(c.0[4].canonical(), 55);
    let d = c.sub(&b);
    assert_eq!(d, a);
}

#[test]
fn quintic_add_wrap() {
    let p = GoldilocksField::MODULUS;
    let a = f5([p - 1, p - 1, p - 1, p - 1, p - 1]);
    let b = f5([2, 2, 2, 2, 2]);
    let c = a.add(&b);
    assert_eq!(c.0[0].canonical(), 1);
    assert_eq!(c.0[4].canonical(), 1);
}

#[test]
fn neg_double() {
    let a = f5([1, 2, 3, 4, 5]);
    assert!(a.add(&a.neg()).is_zero());
    let d = a.double();
    assert_eq!(d, a.add(&a));
}

#[test]
fn quintic_mul_one() {
    let a = f5([42, 100, 200, 300, 400]);
    assert_eq!(a.mul(&Fp5::one()), a);
}

#[test]
fn quintic_mul_zero() {
    let a = f5([42, 100, 200, 300, 400]);
    assert!(a.mul(&Fp5::zero()).is_zero());
}

#[test]
fn quintic_mul_commutative() {
    let a = f5([3, 0, 0, 0, 0]);
    let b = f5([5, 0, 0, 0, 0]);
    assert_eq!(a.mul(&b), b.mul(&a));
    assert_eq!(a.mul(&b).0[0].canonical(), 15);
}

#[test]
fn mul_x() {
    let x = f5([0, 1, 0, 0, 0]);
    let x2 = x.mul(&x);
    assert_eq!(x2.0[2].canonical(), 1);
    assert_eq!(x2.0[0].canonical(), 0);
    assert_eq!(x2.0[1].canonical(), 0);
}

#[test]
fn mul_x4_x() {
    let x = f5([0, 1, 0, 0, 0]);
    let x2 = x.mul(&x);
    let x4 = x2.mul(&x2);
    let x5 = x4.mul(&x);
    assert_eq!(x5.0[0].canonical(), 3);
}

#[test]
fn square_matches_mul() {
    let a = f5([2, 3, 5, 7, 11]);
    let sq = a.square();
    let prod = a.mul(&a);
    assert_eq!(sq, prod, "square != mul*self");
}

#[test]
fn square_random() {
    let vals = [
        [1, 2, 3, 4, 5],
        [100, 200, 300, 400, 500],
        [GoldilocksField::MODULUS - 1, 0, 0, 0, 0],
        [0, 0, 0, 0, 1],
        [42, 99, 127, 256, 512],
    ];
    for v in vals {
        let a = f5(v);
        assert_eq!(a.square(), a.mul(&a), "square mismatch for {v:?}");
    }
}

#[test]
fn inverse_cancel() {
    let a = f5([2, 3, 5, 7, 11]);
    let inv = a.inverse_or_zero();
    assert_eq!(a.mul(&inv), Fp5::one(), "a * a^-1 != 1");
}

#[test]
fn quintic_inverse_one() {
    assert_eq!(Fp5::one().inverse_or_zero(), Fp5::one());
}

#[test]
fn frobenius_five_times() {
    let a = f5([2, 3, 5, 7, 11]);
    let frob5 = a.repeated_frobenius(5);
    assert_eq!(frob5, a);
}

#[test]
fn scalar_mul() {
    let a = f5([1, 2, 3, 4, 5]);
    let two = GoldilocksField::from_canonical_u64(2);
    let b = a.scalar_mul(&two);
    assert_eq!(b, a.add(&a));
}

#[test]
fn sqrt_square_roundtrip() {
    let a = Fp5::from_base(GoldilocksField::from_canonical_u64(4));
    let s = a.sqrt().unwrap();
    assert_eq!(s.square(), a);
}

#[test]
fn quintic_serde_roundtrip() {
    let a = f5([1, 2, 3, 4, 5]);
    let bytes = a.to_bytes_le();
    assert_eq!(bytes.len(), 40);
    let b = Fp5::from_bytes_le(&bytes).unwrap();
    assert_eq!(a, b);
}

#[test]
fn sgn0_test() {
    assert!(!Fp5::one().sgn0());
    assert!(f5([2, 0, 0, 0, 0]).sgn0());
    assert!(Fp5::zero().sgn0());
}

#[test]
fn legendre_square() {
    let a = f5([2, 3, 5, 7, 11]);
    let a_sq = a.square();
    let ls = a_sq.legendre();
    assert_eq!(ls.canonical(), 1);
}

// ---------- quintic_avx ----------

#[test]
fn add_agrees_with_scalar() {
    let a = f5([1, 2, 3, 4, 5]);
    let b = f5([10, 20, 30, 40, 50]);
    let r = quintic_avx::add(&a, &b);
    assert_eq!(r, a.add(&b));
}

#[test]
fn sub_agrees_with_scalar() {
    let a = f5([100, 200, 300, 400, 500]);
    let b = f5([1, 2, 3, 4, 5]);
    let r = quintic_avx::sub(&a, &b);
    assert_eq!(r, a.sub(&b));
}

#[test]
fn quintic_avx_add_wrap() {
    let p = GoldilocksField::MODULUS;
    let a = f5([p - 1, p - 1, p - 1, p - 1, p - 1]);
    let b = f5([2, 2, 2, 2, 2]);
    let r = quintic_avx::add(&a, &b);
    assert_eq!(r, a.add(&b));
    assert_eq!(r.0[0].canonical(), 1);
}

// ---------- 4-lane and 8-lane vectors ----------

fn gf4(a: [u64; 4]) -> GoldilocksFieldx4 {
    GoldilocksFieldx4([gf(a[0]), gf(a[1]), gf(a[2]), gf(a[3])])
}

#[test]
fn avx2_add_basic() {
    let a = gf4([1, 2, 3, 4]);
    let b = gf4([10, 20, 30, 40]);
    let r = a.add(&b).to_scalars();
    assert_eq!(r[0].canonical(), 11);
    assert_eq!(r[1].canonical(), 22);
    assert_eq!(r[2].canonical(), 33);
    assert_eq!(r[3].canonical(), 44);
}

#[test]
fn avx2_add_wrap() {
    let a = gf4([P - 1, P - 1, 0, 42]);
    let b = gf4([1, 2, 0, 10]);
    let r = a.add(&b).to_scalars();
    assert_eq!(r[0].canonical(), 0);
    assert_eq!(r[1].canonical(), 1);
    assert_eq!(r[2].canonical(), 0);
    assert_eq!(r[3].canonical(), 52);
}

#[test]
fn avx2_add_max() {
    let a = gf4([P - 1; 4]);
    let b = gf4([P - 1; 4]);
    let r = a.add(&b).to_scalars();
    assert_eq!(r[0].canonical(), P - 2);
    assert_eq!(r[1].canonical(), P - 2);
    assert_eq!(r[2].canonical(), P - 2);
    assert_eq!(r[3].canonical(), P - 2);
}

#[test]
fn avx2_sub_basic() {
    let a = gf4([100, 200, 300, 400]);
    let b = gf4([30, 20, 10, 5]);
    let r = a.sub(&b).to_scalars();
    assert_eq!(r[0].canonical(), 70);
    assert_eq!(r[1].canonical(), 180);
    assert_eq!(r[2].canonical(), 290);
    assert_eq!(r[3].canonical(), 395);
}

#[test]
fn avx2_sub_underflow() {
    let a = gf4([0, 0, 0, 0]);
    let b = gf4([1, 2, 3, 4]);
    let r = a.sub(&b).to_scalars();
    assert_eq!(r[0].canonical(), P - 1);
    assert_eq!(r[1].canonical(), P - 2);
    assert_eq!(r[2].canonical(), P - 3);
    assert_eq!(r[3].canonical(), P - 4);
}

#[test]
fn avx2_agrees_with_scalar_add() {
    let a = gf4([P - 100, 42, P / 2, 1]);
    let b = gf4([P - 50, 99, P / 4, P - 1]);
    let r_avx = a.add(&b).to_scalars();
    for (i, (r_val, (ai, bi))) in r_avx.iter().zip(a.0.iter().zip(b.0.iter())).enumerate() {
        let r_scalar = ai.add(bi);
        assert_eq!(r_val.canonical(), r_scalar.canonical(), "add mismatch at index {i}");
    }
}

#[test]
fn avx2_agrees_with_scalar_sub() {
    let a = gf4([P - 100, 42, P / 2, 1]);
    let b = gf4([P - 50, 99, P / 4, P - 1]);
    let r_avx = a.sub(&b).to_scalars();
    for (i, (r_val, (ai, bi))) in r_avx.iter().zip(a.0.iter().zip(b.0.iter())).enumerate() {
        let r_scalar = ai.sub(bi);
        assert_eq!(r_val.canonical(), r_scalar.canonical(), "sub mismatch at index {i}");
    }
}

#[test]
fn avx2_mul_basic() {
    let a = gf4([2, 3, 5, 7]);
    let b = gf4([4, 5, 6, 8]);
    let r = a.mul(&b).to_scalars();
    assert_eq!(r[0].canonical(), 8);
    assert_eq!(r[1].canonical(), 15);
    assert_eq!(r[2].canonical(), 30);
    assert_eq!(r[3].canonical(), 56);
}

#[test]
fn avx2_mul_agrees_with_scalar() {
    for &seed in &[0u64, 1, 42, P - 1, P / 2, 0xFFFFFFFF, (0x1234567890ABCDEFu64).wrapping_rem(P)] {
        let a = gf4([
            seed,
            (seed + 1) % P,
            (seed as u128 * 7 % P as u128) as u64,
            (seed ^ 0xABCD) % P,
        ]);
        let b = gf4([
            (seed as u128 * 3 % P as u128) as u64,
            (seed + 100) % P,
            P - 1,
            seed,
        ]);
        let r_avx = a.mul(&b).to_scalars();
        for (i, (r_val, (ai, bi))) in r_avx.iter().zip(a.0.iter().zip(b.0.iter())).enumerate() {
            let r_scalar = ai.mul(bi);
            assert_eq!(r_val.canonical(), r_scalar.canonical(),
                "mul mismatch at idx {i}: a={} b={} avx={} scalar={}",
                ai.canonical(), bi.canonical(),
                r_val.canonical(), r_scalar.canonical());
        }
    }
}

#[test]
fn avx2_mul_large_values() {
    let a = gf4([P - 2, P - 3, P / 2, 1]);
    let b = gf4([P - 2, P - 4, P / 3, P - 1]);
    let r_avx = a.mul(&b).to_scalars();
    for (i, (r_val, (ai, bi))) in r_avx.iter().zip(a.0.iter().zip(b.0.iter())).enumerate() {
        let r_scalar = ai.mul(bi);
        assert_eq!(r_val.canonical(), r_scalar.canonical(), "large mul mismatch at idx {i}");
    }
}

fn gf8(a: [u64; 8]) -> GoldilocksFieldx8 {
    GoldilocksFieldx8(core::array::from_fn(|i| gf(a[i])))
}

#[test]
fn goldilocks_avx512_add_basic() {
    let r = gf8([1, 2, 3, 4, 5, 6, 7, 8])
        .add(&gf8([10, 20, 30, 40, 50, 60, 70, 80]))
        .to_scalars();
    for (i, v) in r.iter().enumerate() {
        assert_eq!(v.canonical(), 11 * (i as u64 + 1));
    }
}

#[test]
fn goldilocks_avx512_add_max() {
    let r = gf8([P - 1; 8]).add(&gf8([P - 1; 8])).to_scalars();
    for v in r.iter() { assert_eq!(v.canonical(), P - 2); }
}

#[test]
fn goldilocks_avx512_sub_underflow() {
    let r = gf8([0; 8]).sub(&gf8([1, 2, 3, 4, 5, 6, 7, 8])).to_scalars();
    for (i, v) in r.iter().enumerate() {
        assert_eq!(v.canonical(), P - (i as u64 + 1));
    }
}

#[test]
fn agrees_with_scalar_add() {
    let a = gf8([P - 100, 42, P / 2, 1, 100, P - 1, 7, 13]);
    let b = gf8([P - 50, 99, P / 4, P - 1, 50, 1, 42, P - 13]);
    let r = a.add(&b).to_scalars();
    for (i, (rv, (ai, bi))) in r.iter().zip(a.0.iter().zip(b.0.iter())).enumerate() {
        assert_eq!(rv.canonical(), ai.add(bi).canonical(), "idx {i}");
    }
}

#[test]
fn agrees_with_scalar_mul() {
    let a = gf8([2, 3, 5, 7, 11, P - 2, P / 3, 1]);
    let b = gf8([4, 5, 6, 8, 13, P - 2, P / 5, P - 1]);
    let r = a.mul(&b).to_scalars();
    for (i, (rv, (ai, bi))) in r.iter().zip(a.0.iter().zip(b.0.iter())).enumerate() {
        assert_eq!(rv.canonical(), ai.mul(bi).canonical(), "idx {i}");
    }
}

// ---------- further checks ----------

#[test]
fn quintic_from_bytes_errors() {
    assert_eq!(Fp5::from_bytes_le(&[0u8; 39]).unwrap_err(), "Fp5::from_bytes_le: expected 40 bytes");
    let mut bytes = [0u8; 40];
    bytes[16..24].copy_from_slice(&P.to_le_bytes());
    assert_eq!(Fp5::from_bytes_le(&bytes).unwrap_err(), "non-canonical Goldilocks element in Fp5 bytes");
}

#[test]
fn quintic_to_bytes_layout() {
    let a = f5([1, 2, 3, 4, P + 5]);
    let b = a.to_bytes_le();
    assert_eq!(b[0], 1);
    assert_eq!(b[8], 2);
    assert_eq!(b[16], 3);
    assert_eq!(b[24], 4);
    assert_eq!(b[32], 5);
}

#[test]
fn quintic_frobenius_of_base_element_is_fixed() {
    let a = f5([12345, 0, 0, 0, 0]);
    assert_eq!(a.frobenius(), a);
}

#[test]
fn quintic_frobenius_scales_coefficients() {
    // Frob(x) = D * x with D = W^((p-1)/5).
    let x = f5([0, 1, 0, 0, 0]);
    assert_eq!(x.frobenius(), f5([0, 1041288259238279555, 0, 0, 0]));
}

#[test]
fn quintic_exp_power_of_2_is_repeated_square() {
    let a = f5([2, 3, 5, 7, 11]);
    assert_eq!(a.exp_power_of_2(3), a.square().square().square());
}

#[test]
fn quintic_canonical_sqrt_sign() {
    let a = f5([9, 0, 0, 0, 0]);
    let (r, ok) = a.canonical_sqrt();
    assert!(ok);
    assert_eq!(r.square(), a);
    assert!(!r.sgn0());
}

#[test]
fn sgn0_uses_first_nonzero_coefficient() {
    assert!(!f5([0, 1, 0, 0, 0]).sgn0());
    assert!(f5([0, 2, 0, 0, 0]).sgn0());
    assert!(!f5([0, 0, 0, 0, 7]).sgn0());
    assert!(f5([4, 1, 0, 0, 0]).sgn0());
}

#[test]
fn canonical_sqrt_has_odd_first_nonzero_coefficient() {
    let a = f5([0, 0, 1, 0, 0]); // x^2, whose roots are x and -x
    let (r, found) = a.canonical_sqrt();
    assert!(found);
    assert_eq!(r.square(), a);
    assert!(!r.sgn0());
}

#[test]
fn quintic_neg_limbs_are_canonical() {
    let a = f5([1, 2, 3, 4, 5]);
    let n = a.neg();
    for i in 0..5 {
        assert!(n.0[i].0 < GoldilocksField::MODULUS);
    }
    assert!(a.add(&n).is_zero());
}

#[test]
fn legendre_takes_only_three_values() {
    assert_eq!(Fp5::zero().legendre().canonical(), 0);
    let p_minus_one = 0xFFFF_FFFF_0000_0000u64;
    let mut seen_minus_one = false;
    for i in 1u64..40 {
        let a = Fp5::from_u64_arr([i, 2 * i + 1, 0, 5, i * i]);
        let l = a.legendre().canonical();
        assert!(l == 1 || l == p_minus_one);
        if l == p_minus_one {
            seen_minus_one = true;
        }
        assert_eq!(a.square().legendre().canonical(), 1);
    }
    assert!(seen_minus_one);
}
