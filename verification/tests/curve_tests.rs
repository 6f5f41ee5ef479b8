use lighter_rs::curve::point::{batch_to_affine, Point};
use lighter_rs::curve::scalar::Scalar;
use lighter_rs::curve::weierstrass::WeierstrassPoint;

// ---------- points ----------

#[test]
fn neutral_is_neutral() {
    assert!(Point::neutral().is_neutral());
}

#[test]
fn generator_not_neutral() {
    assert!(!Point::generator().is_neutral());
}

#[test]
fn add_neutral() {
    let g = Point::generator();
    let gn = g.add(&Point::neutral());
    assert!(gn.equals(&g));
}

#[test]
fn double_and_add() {
    let g = Point::generator();
    let g2 = g.double();
    let g2_add = g.add(&g);
    assert!(g2.equals(&g2_add));
}

#[test]
fn point_encode_decode_roundtrip() {
    let g = Point::generator();
    let enc = g.encode();
    let (dec, ok) = Point::decode(&enc);
    assert!(ok);
    assert!(g.equals(&dec));
}

#[test]
fn scalar_mul_generator() {
    let g = Point::generator();
    let g2 = g.mul(&Scalar::two());
    assert!(g2.equals(&g.double()));
}

// ---------- scalars ----------

#[test]
fn zero_add_one() {
    let r = Scalar::zero().add(&Scalar::one());
    assert_eq!(r, Scalar::one());
}

#[test]
fn add_sub_roundtrip() {
    let a = Scalar::from_bytes_le(&[42u8; 40]);
    let r = a.add(&a).sub(&a);
    assert_eq!(r, a);
}

#[test]
fn scalar_mul_one() {
    let a = Scalar::from_bytes_le(&Scalar::one().to_bytes_le());
    assert_eq!(a.mul(&Scalar::one()), a);
}

#[test]
fn mul_two() {
    let one = Scalar::one();
    let two = one.mul(&Scalar::two());
    assert_eq!(two, one.add(&one));
}

#[test]
fn scalar_mul_commutative() {
    let a = Scalar::from_bytes_le(&Scalar::two().to_bytes_le());
    let b = Scalar::from_bytes_le(&Scalar([3, 0, 0, 0, 0]).to_bytes_le());
    assert_eq!(a.mul(&b), b.mul(&a));
}

#[test]
fn neg_one_add_one() {
    let r = Scalar::neg_one().add(&Scalar::one());
    assert_eq!(r, Scalar::zero());
}

#[test]
fn scalar_serde_roundtrip() {
    let a = Scalar::one();
    let bytes = a.to_bytes_le();
    assert_eq!(bytes.len(), 40);
    let b = Scalar::from_bytes_le(&bytes);
    assert_eq!(a, b);
}

#[test]
fn is_canonical() {
    assert!(Scalar::zero().is_canonical());
    assert!(Scalar::one().is_canonical());
    assert!(Scalar::neg_one().is_canonical());
}

// ---------- short Weierstrass form ----------

#[test]
fn double_equals_add_self() {
    let g = WeierstrassPoint::generator();
    let g2 = g.double();
    let g2_add = g.add(&g);
    assert_eq!(g2.x, g2_add.x);
    assert_eq!(g2.y, g2_add.y);
}

#[test]
fn weierstrass_encode_decode_roundtrip() {
    let g = WeierstrassPoint::generator();
    let enc = g.encode();
    let (dec, ok) = WeierstrassPoint::decode(&enc);
    assert!(ok);
    assert_eq!(dec.x, g.x);
    assert_eq!(dec.y, g.y);
}

#[test]
fn scalar_default_is_zero() {
    assert_eq!(Scalar::default(), Scalar::zero());
}

// ---------- laws on concrete points ----------

fn same_fp5(a: &lighter_rs::field::quintic::Fp5, b: &lighter_rs::field::quintic::Fp5) -> bool {
    a.to_bytes_le() == b.to_bytes_le()
}

fn same_coords(p: &Point, q: &Point) -> bool {
    same_fp5(&p.x, &q.x) && same_fp5(&p.z, &q.z) && same_fp5(&p.u, &q.u) && same_fp5(&p.t, &q.t)
}

#[test]
fn add_is_commutative_coordinatewise() {
    let g = Point::generator();
    let g2 = g.double();
    let g5 = g.mul(&Scalar([5, 0, 0, 0, 0]));
    assert!(same_coords(&g.add(&g2), &g2.add(&g)));
    assert!(same_coords(&g5.add(&g2), &g2.add(&g5)));
}

#[test]
fn add_affine_matches_add_of_lifted_point() {
    let g = Point::generator();
    let g2 = g.double();
    let g3 = g2.add(&g);
    let affine = batch_to_affine(&[g3, g2]);
    assert_eq!(affine.len(), 2);
    for a in affine.iter() {
        assert!(same_coords(&g2.add_affine(a), &g2.add(&a.to_point())));
        assert!(same_coords(&g.add_affine(a), &g.add(&a.to_point())));
    }
}

#[test]
fn add_neutral_keeps_point_with_z_not_one() {
    let g2 = Point::generator().double();
    let r = g2.add(&Point::neutral());
    assert!(r.equals(&g2));
    assert!(same_coords(&Point::neutral().add(&g2), &r));
}

#[test]
fn decode_failure_gives_neutral() {
    let mut failures = 0;
    for i in 1u64..64 {
        let w = lighter_rs::field::quintic::Fp5::from_u64_arr([i, 3, 0, 0, 7]);
        let (p, ok) = Point::decode(&w);
        if !ok {
            failures += 1;
            assert!(p.is_neutral());
        }
    }
    assert!(failures > 0);
}

#[test]
fn recode_signed_digits_bounded_and_sum_back() {
    let s = Scalar([0x0123_4567_89ab_cdef, 0, 0, 0, 0]);
    let mut ss = [0i32; 64];
    s.recode_signed(&mut ss, 5);
    let mut acc: i128 = 0;
    for (i, d) in ss.iter().enumerate() {
        assert!(*d > -16 && *d <= 16);
        if i < 20 {
            acc += (*d as i128) << (5 * i);
        } else {
            assert_eq!(*d, 0);
        }
    }
    assert_eq!(acc, 0x0123_4567_89ab_cdef_i128);
    let big = Scalar::neg_one();
    big.recode_signed(&mut ss, 5);
    assert!(ss.iter().all(|d| *d > -16 && *d <= 16));
}

#[test]
fn mul_by_zero_is_neutral() {
    let g = Point::generator();
    assert!(g.mul(&Scalar::zero()).is_neutral());
    assert!(g.double().mul(&Scalar::zero()).is_neutral());
    assert!(!g.mul(&Scalar::one()).is_neutral());
}
