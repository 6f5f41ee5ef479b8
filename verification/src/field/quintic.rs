use vstd::prelude::*;
use vstd::arithmetic::div_mod::*;
use vstd::arithmetic::power::*;
use vstd::arithmetic::mul::*;
use vstd::arithmetic::power2::*;
use crate::field::prime::lemma_two_roots;
use crate::field::goldilocks::{euler_square, has_square_root, GoldilocksField, modulus, field_sub, lemma_add_congr, lemma_mul_congr, lemma_pow_mul_mod, lemma_pow_pow_mod, u64_le_bytes, u64_from_le_bytes, lemma_u64_le_bytes_roundtrip};

verus! {

/// The constant W of the irreducible polynomial x^5 - W.
pub open spec fn fp5_w() -> nat {
    3
}

/// Component-wise sum of two quintic elements.
pub open spec fn fp5_add(a: Seq<nat>, b: Seq<nat>) -> Seq<nat> {
    seq![
        (a[0] + b[0]) % modulus(),
        (a[1] + b[1]) % modulus(),
        (a[2] + b[2]) % modulus(),
        (a[3] + b[3]) % modulus(),
        (a[4] + b[4]) % modulus(),
    ]
}

/// Component-wise difference of two quintic elements.
pub open spec fn fp5_sub(a: Seq<nat>, b: Seq<nat>) -> Seq<nat> {
    seq![
        field_sub(a[0], b[0]),
        field_sub(a[1], b[1]),
        field_sub(a[2], b[2]),
        field_sub(a[3], b[3]),
        field_sub(a[4], b[4]),
    ]
}

/// Component-wise negation of a quintic element.
pub open spec fn fp5_neg(a: Seq<nat>) -> Seq<nat> {
    seq![
        ((modulus() - a[0]) as nat) % modulus(),
        ((modulus() - a[1]) as nat) % modulus(),
        ((modulus() - a[2]) as nat) % modulus(),
        ((modulus() - a[3]) as nat) % modulus(),
        ((modulus() - a[4]) as nat) % modulus(),
    ]
}

/// Multiplication of a quintic element by a base-field scalar.
pub open spec fn fp5_scale(a: Seq<nat>, s: nat) -> Seq<nat> {
    seq![
        (a[0] * s) % modulus(),
        (a[1] * s) % modulus(),
        (a[2] * s) % modulus(),
        (a[3] * s) % modulus(),
        (a[4] * s) % modulus(),
    ]
}

/// Product of a0 + a1 x + ... + a4 x^4 and b0 + ... + b4 x^4 reduced by x^5 = W.
#[verifier::opaque]
pub open spec fn fp5_mul(a: Seq<nat>, b: Seq<nat>) -> Seq<nat> {
    seq![
        (a[0] * b[0] + fp5_w() * (a[1] * b[4] + a[2] * b[3] + a[3] * b[2] + a[4] * b[1]))
            % modulus(),
        (a[0] * b[1] + a[1] * b[0] + fp5_w() * (a[2] * b[4] + a[3] * b[3] + a[4] * b[2]))
            % modulus(),
        (a[0] * b[2] + a[1] * b[1] + a[2] * b[0] + fp5_w() * (a[3] * b[4] + a[4] * b[3]))
            % modulus(),
        (a[0] * b[3] + a[1] * b[2] + a[2] * b[1] + a[3] * b[0] + fp5_w() * (a[4] * b[4]))
            % modulus(),
        (a[0] * b[4] + a[1] * b[3] + a[2] * b[2] + a[3] * b[1] + a[4] * b[0]) % modulus(),
    ]
}

/// The constant coefficient of a product.
pub proof fn lemma_fp5_mul_c0(a: Seq<nat>, b: Seq<nat>)
    ensures
        fp5_mul(a, b)[0] == (a[0] * b[0] + fp5_w() * (a[1] * b[4] + a[2] * b[3] + a[3] * b[2] + a[4] * b[1])) % modulus(),
{
    reveal(fp5_mul);
}

/// Sgn0 from coefficient `i` on: whether the first non-zero coefficient at
/// or after `i` is even; true when there is none.
pub open spec fn sgn0_from(a: Seq<nat>, i: int) -> bool
    decreases 5 - i,
{
    if i >= 5 || i < 0 {
        true
    } else if a[i] != 0 {
        a[i] % 2 == 0
    } else {
        sgn0_from(a, i + 1)
    }
}

/// Sgn0(a) = 0: the first non-zero coefficient is even, or a is zero.
pub open spec fn fp5_sgn0(a: Seq<nat>) -> bool {
    sgn0_from(a, 0)
}

/// The zero element of the extension.
pub open spec fn fp5_zero() -> Seq<nat> {
    seq![0nat, 0nat, 0nat, 0nat, 0nat]
}

/// The unit element of the extension.
pub open spec fn fp5_one() -> Seq<nat> {
    seq![1nat, 0nat, 0nat, 0nat, 0nat]
}


/// W^((p-1)/5), the fifth root of unity used by the Frobenius map.
pub open spec fn fp5_dth_root() -> nat {
    1041288259238279555
}

/// The Frobenius map applied `k` times: coefficient i is scaled by D^(k*i).
#[verifier::opaque]
pub open spec fn fp5_frobenius(a: Seq<nat>, k: nat) -> Seq<nat> {
    seq![
        (a[0] * pow(fp5_dth_root() as int, k * 0)) % (modulus() as int),
        (a[1] * pow(fp5_dth_root() as int, k * 1)) % (modulus() as int),
        (a[2] * pow(fp5_dth_root() as int, k * 2)) % (modulus() as int),
        (a[3] * pow(fp5_dth_root() as int, k * 3)) % (modulus() as int),
        (a[4] * pow(fp5_dth_root() as int, k * 4)) % (modulus() as int),
    ].map_values(|v: int| v as nat)
}

/// `a` squared `n` times, i.e. a^(2^n).
pub open spec fn fp5_square_n(a: Seq<nat>, n: nat) -> Seq<nat>
    decreases n,
{
    if n == 0 {
        a
    } else {
        let t = fp5_square_n(a, (n - 1) as nat);
        fp5_mul(t, t)
    }
}

/// Inverse in the base field as computed by `GoldilocksField::inverse_or_zero`.
pub open spec fn base_inverse(g: nat) -> nat {
    (pow(g as int, (modulus() - 2) as nat) % (modulus() as int)) as nat
}

/// Inverse through the Frobenius identity a^-1 = f / N(a), where
/// f = a^(p + p^2 + p^3 + p^4) and N(a) = a f lies in the base field.
#[verifier::opaque]
pub open spec fn fp5_inverse(a: Seq<nat>) -> Seq<nat> {
    if a == fp5_zero() {
        fp5_zero()
    } else {
        let d = fp5_frobenius(a, 1);
        let e = fp5_mul(d, fp5_frobenius(d, 1));
        let f = fp5_mul(e, fp5_frobenius(e, 2));
        fp5_scale(f, base_inverse(fp5_mul(a, f)[0]))
    }
}


/// Intermediate `e` of the quintic square root: Frob(d * Frob^2(d)) with
/// d = a * v^(2^32) / v and v = a^(2^31).
pub open spec fn fp5_sqrt_e(a: Seq<nat>) -> Seq<nat> {
    let v = fp5_square_n(a, 31);
    let d = fp5_mul(fp5_mul(a, fp5_square_n(v, 32)), fp5_inverse(v));
    fp5_frobenius(fp5_mul(d, fp5_frobenius(d, 2)), 1)
}

/// The base-field value `g = (a * e^2)[0]` whose square root the quintic
/// square root is built from.
pub open spec fn fp5_sqrt_g(a: Seq<nat>) -> nat {
    let e = fp5_sqrt_e(a);
    fp5_mul(a, fp5_mul(e, e))[0]
}

/// The quintic square root obtained from a base-field root `s` of
/// `fp5_sqrt_g(a)`: s / e.
pub open spec fn fp5_sqrt_from(a: Seq<nat>, s: nat) -> Seq<nat> {
    fp5_mul(seq![s, 0nat, 0nat, 0nat, 0nat], fp5_inverse(fp5_sqrt_e(a)))
}

/// `s` is a base-field square root of `fp5_sqrt_g(a)`.
pub open spec fn fp5_sqrt_base_root(a: Seq<nat>, s: nat) -> bool {
    s < modulus() && (s * s) % modulus() == fp5_sqrt_g(a)
}

/// The Legendre symbol computed through the norm x = a^(1+p+...+p^4) as
/// x^(2^63) / x^(2^31) = x^((p-1)/2).
pub open spec fn fp5_legendre(a: Seq<nat>) -> nat {
    let f1 = fp5_frobenius(a, 1);
    let f2 = fp5_frobenius(f1, 1);
    let f12 = fp5_mul(f1, f2);
    let xr = fp5_mul(fp5_mul(a, f12), fp5_frobenius(f12, 2))[0];
    let x31 = (pow(xr as int, pow2(31)) % (modulus() as int)) as nat;
    ((pow(x31 as int, pow2(32)) % (modulus() as int)) * base_inverse(x31)) as nat % modulus()
}

/// Zero times anything is zero, on either side.
pub proof fn lemma_fp5_mul_by_zero(x: Seq<nat>)
    ensures
        fp5_mul(fp5_zero(), x) == fp5_zero(),
        fp5_mul(x, fp5_zero()) == fp5_zero(),
{
    reveal(fp5_mul);
    lemma_small_mod(0, modulus());
    let z = fp5_zero();
    assert forall|i: int, j: int| 0 <= i < 5 implies #[trigger] (z[i] * x[j]) == 0 && #[trigger] (x[j] * z[i]) == 0 by {
        assert(z[i] == 0);
        lemma_mul_basics(x[j] as int);
    }
    assert(fp5_mul(fp5_zero(), x) =~= fp5_zero());
    assert(fp5_mul(x, fp5_zero()) =~= fp5_zero());
}

/// The Legendre symbol of zero is zero.
pub proof fn lemma_legendre_zero()
    ensures
        fp5_legendre(fp5_zero()) == 0,
{
    let a = fp5_zero();
    let f1 = fp5_frobenius(a, 1);
    let f2 = fp5_frobenius(f1, 1);
    let f12 = fp5_mul(f1, f2);
    lemma_fp5_mul_by_zero(f12);
    lemma_fp5_mul_by_zero(fp5_frobenius(f12, 2));
    lemma2_to64();
    lemma_pow_positive_zero(pow2(31));
    let g: int = 0;
    assert(pow(g, (modulus() - 2) as nat) == 0 * pow(g, (modulus() - 3) as nat)) by {
        reveal(pow);
    }
    lemma_small_mod(0, modulus());
    let x = fp5_mul(fp5_mul(a, f12), fp5_frobenius(f12, 2))[0];
    assert(x == 0);
    assert(pow(x as int, pow2(31)) % (modulus() as int) == 0);
    assert(base_inverse(0) == 0);
    let y = pow(0, pow2(32)) % (modulus() as int);
    assert((y * 0) == 0);
}

/// The inverse of one is one.
pub proof fn lemma_fp5_inverse_one()
    ensures
        fp5_inverse(fp5_one()) == fp5_one(),
{
    reveal(fp5_inverse);
    reveal(fp5_frobenius);
    let one = fp5_one();
    let p = modulus() as int;
    assert(one != fp5_zero()) by {
        assert(one[0] != fp5_zero()[0]);
    }
    lemma_pow0(fp5_dth_root() as int);
    lemma_mul_basics(pow(fp5_dth_root() as int, 1));
    lemma_mul_basics(pow(fp5_dth_root() as int, 2));
    lemma_mul_basics(pow(fp5_dth_root() as int, 3));
    lemma_mul_basics(pow(fp5_dth_root() as int, 4));
    lemma_mul_basics(pow(fp5_dth_root() as int, 0));
    lemma_mul_basics(pow(fp5_dth_root() as int, 2 * 1));
    lemma_mul_basics(pow(fp5_dth_root() as int, 2 * 2));
    lemma_mul_basics(pow(fp5_dth_root() as int, 2 * 3));
    lemma_mul_basics(pow(fp5_dth_root() as int, 2 * 4));
    lemma_small_mod(1, modulus());
    lemma_small_mod(0, modulus());
    assert(fp5_frobenius(one, 1) =~= one);
    assert(fp5_frobenius(one, 2) =~= one);
    lemma_fp5_mul_one_zero(one);
    lemma1_pow((modulus() - 2) as nat);
    assert(base_inverse(1) == 1);
    assert(fp5_scale(one, 1) =~= one);
}

/// r = y / g with y^2 = g^2 squares to one modulo p.
proof fn lemma_ratio_square_one(r: int, y: int, inv: int, g: int)
    requires
        r == (y * inv) % (modulus() as int),
        (y * y) % (modulus() as int) == (g * g) % (modulus() as int),
        (g * inv) % (modulus() as int) == 1,
    ensures
        (r * r) % (modulus() as int) == 1,
{
    let p = modulus() as int;
    lemma_mul_mod_noop(y * inv, y * inv, p);
    assert((y * inv) * (y * inv) == (y * y) * (inv * inv)) by (nonlinear_arith);
    lemma_mul_mod_noop_left(y * y, inv * inv, p);
    lemma_mul_mod_noop_left(g * g, inv * inv, p);
    assert((g * g) * (inv * inv) == (g * inv) * (g * inv)) by (nonlinear_arith);
    lemma_mul_mod_noop(g * inv, g * inv, p);
    lemma_small_mod(1, p as nat);
}

/// The Legendre symbol is 0, 1 or p - 1: x^((p-1)/2) squares to x^(p-1),
/// which is one for every non-zero x.
pub proof fn lemma_legendre_values(a: Seq<nat>)
    ensures
        fp5_legendre(a) == 0 || fp5_legendre(a) == 1 || fp5_legendre(a) == modulus() - 1,
{
    let p = modulus() as int;
    let f1 = fp5_frobenius(a, 1);
    let f2 = fp5_frobenius(f1, 1);
    let f12 = fp5_mul(f1, f2);
    let x = fp5_mul(fp5_mul(a, f12), fp5_frobenius(f12, 2))[0] as int;
    let g = pow(x, pow2(31)) % p;
    let y = pow(g, pow2(32)) % p;
    let inv = base_inverse(g as nat) as int;
    let r = (y * inv) % p;
    lemma2_to64();
    lemma_mod_bound(pow(x, pow2(31)), p);
    lemma_mod_bound(pow(g, pow2(32)), p);
    lemma_mod_bound(pow(g, (modulus() - 2) as nat), p);
    assert(fp5_legendre(a) == r);
    if g == 0 {
        reveal(pow);
        assert(pow(0, (modulus() - 2) as nat) == 0 * pow(0, (modulus() - 3) as nat));
        lemma_small_mod(0, p as nat);
        assert(inv == 0);
        assert(r == 0);
    } else {
        crate::field::goldilocks::lemma_goldilocks_inverse(g as nat);
        // y^2 = g^(2^33) = x^(2^64) = x^(p-1) x^(2^32) = x^(2^32) = g^2
        lemma_pow_mul_mod(g, pow2(32), pow2(32));
        lemma_pow_pow_mod(x, pow2(31), pow2(33));
        lemma_pow_pow_mod(x, pow2(31), 2);
        assert(pow2(31) * pow2(33) == pow2(64)) by {
            lemma_pow2_adds(31, 33);
        }
        assert(pow2(31) * 2 == pow2(32));
        assert(pow2(32) + pow2(32) == pow2(33));
        lemma_pow_mod_noop(x, pow2(31), p);
        if x % p == 0 {
            lemma_pow_positive_zero(pow2(31));
            assert(false);
        }
        crate::field::prime::lemma_fermat(x as nat);
        assert(pow2(64) == (modulus() - 1) + pow2(32));
        lemma_pow_mul_mod(x, (modulus() - 1) as nat, pow2(32));
        lemma_mod_bound(pow(x, pow2(32)), p);
        lemma_small_mod((pow(x, pow2(32)) % p) as nat, p as nat);
        assert(pow(g, 2) == g * g) by {
            lemma_pow_adds(g, 1, 1);
            lemma_pow1(g);
        }
        lemma_ratio_square_one(r, y, inv, g);
        lemma_mod_bound(y * inv, p);
        crate::field::prime::lemma_square_root_of_one(r as nat);
    }
}

/// 0 to the power e > 0 is 0, modulo p too.
proof fn lemma_pow_positive_zero(e: nat)
    requires
        e > 0,
    ensures
        pow(0, e) % (modulus() as int) == 0,
{
    reveal(pow);
    assert(pow(0, e) == 0 * pow(0, (e - 1) as nat));
    lemma_small_mod(0, modulus());
}

/// Little-endian serialization: the 8-byte encodings of the five coefficients.
pub open spec fn fp5_le_bytes(a: Seq<nat>) -> Seq<u8> {
    u64_le_bytes(a[0] as u64) + u64_le_bytes(a[1] as u64) + u64_le_bytes(a[2] as u64)
        + u64_le_bytes(a[3] as u64) + u64_le_bytes(a[4] as u64)
}

/// The i-th 64-bit word of a little-endian byte string.
pub open spec fn le_word(b: Seq<u8>, i: int) -> u64 {
    u64_from_le_bytes(b.subrange(8 * i, 8 * i + 8))
}

/// The quintic element that 40 canonical little-endian bytes stand for.
pub open spec fn fp5_bytes_view(b: Seq<u8>) -> Seq<nat> {
    seq![le_word(b, 0) as nat, le_word(b, 1) as nat, le_word(b, 2) as nat, le_word(b, 3) as nat, le_word(b, 4) as nat]
}

/// All five little-endian words of 40 bytes are canonical field elements.
pub open spec fn fp5_bytes_canonical(b: Seq<u8>) -> bool {
    forall|i: int| 0 <= i < 5 ==> le_word(b, i) < modulus()
}

/// Element of GF(p^5) = GF(p)[x] / (x^5 - 3), as its five coefficients.
#[derive(Debug, Clone, Copy)]
pub struct Fp5(pub [GoldilocksField; 5]);

impl View for Fp5 {
    type V = Seq<nat>;

    open spec fn view(&self) -> Seq<nat> {
        seq![self.0[0]@, self.0[1]@, self.0[2]@, self.0[3]@, self.0[4]@]
    }
}

impl Fp5 {
    /// The additive identity.
    pub fn zero() -> (r: Self)
        ensures
            r@ == fp5_zero(),
            forall|i: int| 0 <= i < 5 ==> r.0[i].0 == 0,
    {
        proof { lemma_small_mod(0, modulus()); }
        Fp5([GoldilocksField(0), GoldilocksField(0), GoldilocksField(0), GoldilocksField(0), GoldilocksField(0)])
    }

    /// The multiplicative identity.
    pub fn one() -> (r: Self)
        ensures
            r@ == fp5_one(),
    {
        proof {
            lemma_small_mod(0, modulus());
            lemma_small_mod(1, modulus());
        }
        Fp5([GoldilocksField(1), GoldilocksField(0), GoldilocksField(0), GoldilocksField(0), GoldilocksField(0)])
    }

    pub fn from_array(arr: [GoldilocksField; 5]) -> (r: Self)
        ensures
            r.0 == arr,
    {
        Fp5(arr)
    }

    pub fn from_u64_arr(arr: [u64; 5]) -> (r: Self)
        ensures
            forall|i: int| 0 <= i < 5 ==> r.0[i].0 == arr[i],
            r@ == seq![
                arr[0] as nat % modulus(),
                arr[1] as nat % modulus(),
                arr[2] as nat % modulus(),
                arr[3] as nat % modulus(),
                arr[4] as nat % modulus(),
            ],
    {
        let r = Fp5([GoldilocksField(arr[0]), GoldilocksField(arr[1]), GoldilocksField(arr[2]), GoldilocksField(arr[3]), GoldilocksField(arr[4])]);
        assert(r@ =~= seq![
            arr[0] as nat % modulus(),
            arr[1] as nat % modulus(),
            arr[2] as nat % modulus(),
            arr[3] as nat % modulus(),
            arr[4] as nat % modulus(),
        ]);
        r
    }

    /// Embeds a base field element.
    pub fn from_base(g: GoldilocksField) -> (r: Self)
        ensures
            r@ == seq![g@, 0nat, 0nat, 0nat, 0nat],
            r.0[0] == g,
    {
        proof { lemma_small_mod(0, modulus()); }
        Fp5([g, GoldilocksField(0), GoldilocksField(0), GoldilocksField(0), GoldilocksField(0)])
    }

    pub fn is_zero(&self) -> (r: bool)
        ensures
            r == (self@ == fp5_zero()),
    {
        let r = self.0[0].is_zero() && self.0[1].is_zero() && self.0[2].is_zero() && self.0[3].is_zero() && self.0[4].is_zero();
        proof {
            if self@ == fp5_zero() {
                assert(self@[1] == 0 && self@[2] == 0 && self@[3] == 0 && self@[4] == 0);
            }
            if r {
                assert(self@ =~= fp5_zero());
            }
        }
        r
    }

    pub fn add(&self, other: &Self) -> (r: Self)
        ensures
            r@ == fp5_add(self@, other@),
    {
        let r = Fp5([
            self.0[0].add(&other.0[0]),
            self.0[1].add(&other.0[1]),
            self.0[2].add(&other.0[2]),
            self.0[3].add(&other.0[3]),
            self.0[4].add(&other.0[4]),
        ]);
        assert(r@ =~= fp5_add(self@, other@));
        r
    }

    #[verifier::spinoff_prover]
    pub fn sub(&self, other: &Self) -> (r: Self)
        ensures
            r@ == fp5_sub(self@, other@),
    {
        let r = Fp5([
            self.0[0].sub(&other.0[0]),
            self.0[1].sub(&other.0[1]),
            self.0[2].sub(&other.0[2]),
            self.0[3].sub(&other.0[3]),
            self.0[4].sub(&other.0[4]),
        ]);
        assert(r@[0] == fp5_sub(self@, other@)[0]);
        assert(r@[1] == fp5_sub(self@, other@)[1]);
        assert(r@[2] == fp5_sub(self@, other@)[2]);
        assert(r@[3] == fp5_sub(self@, other@)[3]);
        assert(r@[4] == fp5_sub(self@, other@)[4]);
        assert(r@ =~= fp5_sub(self@, other@));
        r
    }

    pub fn neg(&self) -> (r: Self)
        ensures
            r@ == fp5_neg(self@),
            forall|i: int| 0 <= i < 5 ==> #[trigger] r.0[i].0 < modulus(),
    {
        let r = Fp5([
            self.0[0].neg(),
            self.0[1].neg(),
            self.0[2].neg(),
            self.0[3].neg(),
            self.0[4].neg(),
        ]);
        assert(r@ =~= fp5_neg(self@));
        r
    }

    pub fn double(&self) -> (r: Self)
        ensures
            r@ == fp5_add(self@, self@),
    {
        self.add(self)
    }

    pub fn scalar_mul(&self, s: &GoldilocksField) -> (r: Self)
        ensures
            r@ == fp5_scale(self@, s@),
    {
        let r = Fp5([
            self.0[0].mul(s),
            self.0[1].mul(s),
            self.0[2].mul(s),
            self.0[3].mul(s),
            self.0[4].mul(s),
        ]);
        assert(r@ =~= fp5_scale(self@, s@));
        r
    }

    /// Schoolbook product (25 base multiplications) reduced by x^5 = W.
    pub fn mul(&self, other: &Self) -> (r: Self)
        ensures
            r@ == fp5_mul(self@, other@),
    {
        let a = &self.0;
        let b = &other.0;
        let c0 = add_w(&a[0].mul(&b[0]), &dot4(&a[1], &b[4], &a[2], &b[3], &a[3], &b[2], &a[4], &b[1]));
        let c1 = add_w(&dot2(&a[0], &b[1], &a[1], &b[0]), &dot3(&a[2], &b[4], &a[3], &b[3], &a[4], &b[2]));
        let c2 = add_w(&dot3(&a[0], &b[2], &a[1], &b[1], &a[2], &b[0]), &dot2(&a[3], &b[4], &a[4], &b[3]));
        let c3 = add_w(&dot4(&a[0], &b[3], &a[1], &b[2], &a[2], &b[1], &a[3], &b[0]), &a[4].mul(&b[4]));
        let c4 = dot5(&a[0], &b[4], &a[1], &b[3], &a[2], &b[2], &a[3], &b[1], &a[4], &b[0]);
        let r = Fp5([c0, c1, c2, c3, c4]);
        proof {
            lemma_mod_twice((a[0]@ * b[0]@) as int, modulus() as int);
            lemma_mod_twice((a[4]@ * b[4]@) as int, modulus() as int);
            lemma_mod_twice((a[1]@ * b[4]@ + a[2]@ * b[3]@ + a[3]@ * b[2]@ + a[4]@ * b[1]@) as int, modulus() as int);
            lemma_mod_twice((a[0]@ * b[1]@ + a[1]@ * b[0]@) as int, modulus() as int);
            lemma_mod_twice((a[2]@ * b[4]@ + a[3]@ * b[3]@ + a[4]@ * b[2]@) as int, modulus() as int);
            lemma_mod_twice((a[0]@ * b[2]@ + a[1]@ * b[1]@ + a[2]@ * b[0]@) as int, modulus() as int);
            lemma_mod_twice((a[3]@ * b[4]@ + a[4]@ * b[3]@) as int, modulus() as int);
            lemma_mod_twice((a[0]@ * b[3]@ + a[1]@ * b[2]@ + a[2]@ * b[1]@ + a[3]@ * b[0]@) as int, modulus() as int);
            reveal(fp5_mul);
            assert(r@ =~= fp5_mul(self@, other@));
        }
        r
    }

    /// Squaring with the symmetric-product shortcut (fewer multiplications).
    pub fn square(&self) -> (r: Self)
        ensures
            r@ == fp5_mul(self@, self@),
    {
        let a = &self.0;
        let r = Fp5([square_c0(a), square_c1(a), square_c2(a), square_c3(a), square_c4(a)]);
        proof {
            reveal(fp5_mul);
            assert(r@ =~= fp5_mul(self@, self@));
        }
        r
    }

    /// Raises this element to the power 2^power by repeated squaring.
    pub fn exp_power_of_2(&self, power: usize) -> (r: Self)
        ensures
            r@ == fp5_square_n(self@, power as nat),
    {
        let mut res = *self;
        for i in 0..power
            invariant
                res@ == fp5_square_n(self@, i as nat),
        {
            res = res.square();
        }
        res
    }

    /// The powers z0^0, ..., z0^4.
    fn powers(z0: GoldilocksField) -> (r: [GoldilocksField; 5])
        ensures
            forall|i: int| 0 <= i < 5 ==> #[trigger] r[i]@ == pow(z0@ as int, i as nat) % (modulus() as int),
    {
        let mut p = [GoldilocksField(0), GoldilocksField(0), GoldilocksField(0), GoldilocksField(0), GoldilocksField(0)];
        p[0] = GoldilocksField(1);
        proof {
            lemma_pow0(z0@ as int);
            lemma_small_mod(1, modulus());
        }
        for i in 1..5
            invariant
                forall|j: int| 0 <= j < i ==> #[trigger] p[j]@ == pow(z0@ as int, j as nat) % (modulus() as int),
        {
            let v = p[i - 1].mul(&z0);
            proof {
                lemma_pow1(z0@ as int);
                lemma_mod_twice(z0.0 as int, modulus() as int);
                lemma_pow_mul_mod(z0@ as int, (i - 1) as nat, 1);
            }
            p[i] = v;
        }
        p
    }

    /// The Frobenius automorphism applied `count` times.
    pub fn repeated_frobenius(&self, count: usize) -> (r: Self)
        ensures
            r@ == fp5_frobenius(self@, (count % 5) as nat),
    {
        let count = count % 5;
        if count == 0 {
            proof {
                lemma_pow0(fp5_dth_root() as int);
                assert forall|i: int| 0 <= i < 5 implies (self.0[i]@ * pow(fp5_dth_root() as int, 0)) % (modulus() as int) == self.0[i]@ by {
                    lemma_mod_twice(self.0[i].0 as int, modulus() as int);
                }
                reveal(fp5_frobenius);
                assert(self@ =~= fp5_frobenius(self@, 0));
            }
            return *self;
        }
        let dth_root = GoldilocksField(1041288259238279555);
        proof {
            lemma_small_mod(fp5_dth_root(), modulus());
            lemma_pow1(fp5_dth_root() as int);
        }
        let mut z0 = dth_root;
        for j in 1..count
            invariant
                dth_root@ == fp5_dth_root(),
                z0@ == pow(fp5_dth_root() as int, j as nat) % (modulus() as int),
        {
            proof {
                lemma_pow_mul_mod(fp5_dth_root() as int, j as nat, 1);
                lemma_small_mod(fp5_dth_root(), modulus());
                lemma_pow1(fp5_dth_root() as int);
            }
            z0 = z0.mul(&dth_root);
        }
        let z_powers = Self::powers(z0);
        let r = Fp5([
            self.0[0].mul(&z_powers[0]),
            self.0[1].mul(&z_powers[1]),
            self.0[2].mul(&z_powers[2]),
            self.0[3].mul(&z_powers[3]),
            self.0[4].mul(&z_powers[4]),
        ]);
        proof {
            let dr = fp5_dth_root() as int;
            let k = count as nat;
            assert forall|i: int| 0 <= i < 5 implies r.0[i]@ == (self.0[i]@ * pow(dr, k * (i as nat))) % (modulus() as int) by {
                lemma_pow_pow_mod(dr, k, i as nat);
                lemma_mul_congr(self.0[i]@ as int, pow(dr, k * (i as nat)), self.0[i]@, z_powers[i]@);
                lemma_mod_twice(self.0[i].0 as int, modulus() as int);
            }
            reveal(fp5_frobenius);
            assert(r@ =~= fp5_frobenius(self@, k));
        }
        r
    }

    /// The Frobenius automorphism applied once.
    pub fn frobenius(&self) -> (r: Self)
        ensures
            r@ == fp5_frobenius(self@, 1),
    {
        self.repeated_frobenius(1)
    }

    /// Inverse via the Frobenius identity; zero maps to zero.
    pub fn inverse_or_zero(&self) -> (r: Self)
        ensures
            r@ == fp5_inverse(self@),
    {
        if self.is_zero() {
            proof { reveal(fp5_inverse); }
            return Self::zero();
        }
        let d = self.frobenius();
        let e = d.mul(&d.frobenius());
        let f = e.mul(&e.repeated_frobenius(2));
        let a = &self.0;
        let ff = &f.0;
        let g = add_w(&a[0].mul(&ff[0]), &dot4(&a[1], &ff[4], &a[2], &ff[3], &a[3], &ff[2], &a[4], &ff[1]));
        proof {
            lemma_mod_twice((a[0]@ * ff[0]@) as int, modulus() as int);
            lemma_mod_twice((a[1]@ * ff[4]@ + a[2]@ * ff[3]@ + a[3]@ * ff[2]@ + a[4]@ * ff[1]@) as int, modulus() as int);
            lemma_fp5_mul_c0(self@, f@);
            reveal(fp5_inverse);
        }
        f.scalar_mul(&g.inverse_or_zero())
    }

    /// Square root: v = a^(2^31), d = a v^(2^32) / v, e = Frob(d Frob^2(d)),
    /// g = (a e^2)[0]; the result is sqrt(g) / e, or `None` when the base
    /// field square root is not found.
    pub fn sqrt(&self) -> (r: Option<Self>)
        ensures
            r is Some <==> euler_square(fp5_sqrt_g(self@)),
            r is Some <==> has_square_root(fp5_sqrt_g(self@)),
            r matches Some(x) ==> exists|s: nat| fp5_sqrt_base_root(self@, s) && x@ == fp5_sqrt_from(self@, s),
    {
        let v = self.exp_power_of_2(31);
        let v32 = v.exp_power_of_2(32);
        let vinv = v.inverse_or_zero();
        let d = self.mul(&v32).mul(&vinv);
        let dr = d.repeated_frobenius(2);
        let e = d.mul(&dr).frobenius();
        let f = e.square();
        let ff = &f.0;
        let a = &self.0;
        let gg = add_w(&a[0].mul(&ff[0]), &dot4(&a[1], &ff[4], &a[2], &ff[3], &a[3], &ff[2], &a[4], &ff[1]));
        proof {
            lemma_mod_twice((a[0]@ * ff[0]@) as int, modulus() as int);
            lemma_mod_twice((a[1]@ * ff[4]@ + a[2]@ * ff[3]@ + a[3]@ * ff[2]@ + a[4]@ * ff[1]@) as int, modulus() as int);
            assert(e@ == fp5_sqrt_e(self@));
            lemma_fp5_mul_c0(self@, f@);
            assert(gg@ == fp5_sqrt_g(self@));
        }
        let s = match gg.sqrt() {
            Some(s) => s,
            None => return None,
        };
        let einv = e.inverse_or_zero();
        let r = Self::from_base(s).mul(&einv);
        proof {
            lemma_mod_bound(s.0 as int, modulus() as int);
            assert(fp5_sqrt_base_root(self@, s@));
        }
        Some(r)
    }

    /// Sgn0(self) = 0: true when the first non-zero coefficient is even (its
    /// least significant bit is zero), and for zero.
    pub fn sgn0(&self) -> (r: bool)
        ensures
            r == fp5_sgn0(self@),
    {
        let mut sign = true;
        let mut zero = true;
        for i in 0..5
            invariant
                zero ==> sign,
                zero ==> forall|j: int| 0 <= j < i ==> #[trigger] self@[j] == 0,
                zero ==> sgn0_from(self@, 0) == sgn0_from(self@, i as int),
                !zero ==> sign == sgn0_from(self@, 0),
        {
            let c = &self.0[i];
            let sign_i = (c.canonical() & 1) == 0;
            proof {
                let cc = c@ as u64;
                assert((cc & 1 == 0) == (cc % 2 == 0)) by (bit_vector);
                assert(self@[i as int] == c@);
            }
            let zero_i = c.is_zero();
            if zero {
                sign = sign_i;
            }
            zero = zero && zero_i;
        }
        sign
    }

    /// Canonical square root: the root with Sgn0 = 1, that is whose first
    /// non-zero coefficient is odd, or `(0, false)` when no root is found.
    pub fn canonical_sqrt(&self) -> (r: (Self, bool))
        ensures
            r.1 <==> euler_square(fp5_sqrt_g(self@)),
            r.1 <==> has_square_root(fp5_sqrt_g(self@)),
            r.0@ == canonical_root(self@),
            !r.1 ==> r.0@ == fp5_zero(),
            r.1 ==> exists|s: nat| fp5_sqrt_base_root(self@, s) && r.0@ == (if fp5_sgn0(fp5_sqrt_from(self@, s)) {
                fp5_neg(fp5_sqrt_from(self@, s))
            } else {
                fp5_sqrt_from(self@, s)
            }),
    {
        let res = match self.sqrt() {
            Some(sqrt_x) => {
                if sqrt_x.sgn0() {
                    (sqrt_x.neg(), true)
                } else {
                    (sqrt_x, true)
                }
            },
            None => (Self::zero(), false),
        };
        proof {
            assert(canonical_sqrt_outcome(self@, res.0@, res.1));
            lemma_canonical_sqrt_unique(self@, res.0@, res.1);
        }
        res
    }

    /// Legendre symbol as a base field element: x^((p-1)/2) of the norm x.
    pub fn legendre(&self) -> (r: GoldilocksField)
        ensures
            r@ == fp5_legendre(self@),
            r@ == 0 || r@ == 1 || r@ == modulus() - 1,
            self@ == fp5_zero() ==> r@ == 0,
    {
        proof {
            lemma_legendre_values(self@);
            lemma_legendre_zero();
        }
        let frob1 = self.frobenius();
        let frob2 = frob1.frobenius();
        let frob1tfrob2 = frob1.mul(&frob2);
        let frob2frob1tfrob2 = frob1tfrob2.repeated_frobenius(2);
        let xr_ext = self.mul(&frob1tfrob2).mul(&frob2frob1tfrob2);
        let xr = xr_ext.0[0];
        let xr31 = xr.exp_power_of_2(31);
        let xr31_inv = xr31.inverse_or_zero();
        let xr63 = xr31.exp_power_of_2(32);
        xr63.mul(&xr31_inv)
    }

    /// Serializes the five coefficients as 8 canonical little-endian bytes each.
    pub fn to_bytes_le(&self) -> (r: [u8; 40])
        ensures
            r@ == fp5_le_bytes(self@),
    {
        let mut out = [0u8; 40];
        for i in 0..5
            invariant
                forall|k: int| 0 <= k < 8 * i ==> #[trigger] out@[k] == fp5_le_bytes(self@)[k],
        {
            let b = self.0[i].to_bytes_le();
            for j in 0..8
                invariant
                    0 <= i < 5,
                    b@ == u64_le_bytes(self.0[i as int]@ as u64),
                    forall|k: int| 0 <= k < 8 * i + j ==> #[trigger] out@[k] == fp5_le_bytes(self@)[k],
            {
                out[i * 8 + j] = b[j];
                proof {
                    let v = self@;
                    assert(fp5_le_bytes(v) =~= u64_le_bytes(v[0] as u64) + u64_le_bytes(v[1] as u64) + u64_le_bytes(v[2] as u64)
                        + u64_le_bytes(v[3] as u64) + u64_le_bytes(v[4] as u64));
                    assert(fp5_le_bytes(v)[8 * i + j] == u64_le_bytes(v[i as int] as u64)[j as int]);
                }
            }
        }
        assert(out@ =~= fp5_le_bytes(self@));
        out
    }

    /// Deserializes 40 bytes as five canonical little-endian coefficients.
    pub fn from_bytes_le(bytes: &[u8]) -> (r: Result<Self, &'static str>)
        ensures
            bytes@.len() != 40 ==> (r matches Err(e) && e@ == "Fp5::from_bytes_le: expected 40 bytes"@),
            bytes@.len() == 40 && !(forall|i: int| 0 <= i < 5 ==> le_word(bytes@, i) < modulus())
                ==> (r matches Err(e) && e@ == "non-canonical Goldilocks element in Fp5 bytes"@),
            r is Ok <==> (bytes@.len() == 40 && forall|i: int| 0 <= i < 5 ==> le_word(bytes@, i) < modulus()),
            r matches Ok(x) ==> forall|i: int| 0 <= i < 5 ==> #[trigger] x.0[i].0 == le_word(bytes@, i),
    {
        if bytes.len() != 40 {
            return Err("Fp5::from_bytes_le: expected 40 bytes");
        }
        let mut arr = [GoldilocksField(0), GoldilocksField(0), GoldilocksField(0), GoldilocksField(0), GoldilocksField(0)];
        for i in 0..5
            invariant
                bytes@.len() == 40,
                forall|k: int| 0 <= k < i ==> le_word(bytes@, k) < modulus(),
                forall|k: int| 0 <= k < i ==> #[trigger] arr[k].0 == le_word(bytes@, k),
        {
            let chunk = &bytes[i * 8..(i + 1) * 8];
            match GoldilocksField::from_bytes_le(chunk) {
                Ok(g) => {
                    assert(chunk@ =~= bytes@.subrange(8 * i, 8 * i + 8));
                    arr[i] = g;
                },
                Err(_) => {
                    assert(chunk@ =~= bytes@.subrange(8 * i, 8 * i + 8));
                    assert(le_word(bytes@, i as int) >= modulus());
                    return Err("non-canonical Goldilocks element in Fp5 bytes");
                },
            }
        }
        Ok(Fp5(arr))
    }
}

impl PartialEq for Fp5 {
    fn eq(&self, other: &Self) -> (r: bool) {
        self.0[0].canonical() == other.0[0].canonical() && self.0[1].canonical() == other.0[1].canonical()
            && self.0[2].canonical() == other.0[2].canonical() && self.0[3].canonical() == other.0[3].canonical()
            && self.0[4].canonical() == other.0[4].canonical()
    }
}

impl Eq for Fp5 {}

impl vstd::std_specs::cmp::PartialEqSpecImpl for Fp5 {
    open spec fn obeys_eq_spec() -> bool {
        true
    }

    open spec fn eq_spec(&self, other: &Self) -> bool {
        self@ == other@
    }
}

/// Constant-coefficient of the square: `a0^2 + 2W (a1 a4 + a2 a3)`.
fn square_c0(a: &[GoldilocksField; 5]) -> (r: GoldilocksField)
    ensures
        r@ == (a[0]@ * a[0]@ + fp5_w() * (a[1]@ * a[4]@ + a[2]@ * a[3]@ + a[3]@ * a[2]@ + a[4]@ * a[1]@)) % modulus(),
{
    let w2 = GoldilocksField(6);
    let a0s = a[0].square();
    let a1a4 = a[1].mul(&a[4]);
    let a2a3 = a[2].mul(&a[3]);
    let added = a1a4.add(&a2a3);
    let muld = w2.mul(&added);
    let c0 = a0s.add(&muld);
    proof {
        let (x0, x1, x2, x3, x4) = (a[0]@ as int, a[1]@ as int, a[2]@ as int, a[3]@ as int, a[4]@ as int);
        lemma_small_mod(6, modulus());
        lemma_add_congr(x1 * x4, x2 * x3, a1a4@, a2a3@);
        lemma_mul_congr(6, x1 * x4 + x2 * x3, w2@, added@);
        lemma_add_congr(x0 * x0, 6 * (x1 * x4 + x2 * x3), a0s@, muld@);
        assert(x0 * x0 + 6 * (x1 * x4 + x2 * x3) == x0 * x0 + 3 * (x1 * x4 + x2 * x3 + x3 * x2 + x4 * x1)) by (nonlinear_arith);
    }
    c0
}

/// Coefficient of x in the square: `2 a0 a1 + 2W a2 a4 + W a3^2`.
fn square_c1(a: &[GoldilocksField; 5]) -> (r: GoldilocksField)
    ensures
        r@ == (a[0]@ * a[1]@ + a[1]@ * a[0]@ + fp5_w() * (a[2]@ * a[4]@ + a[3]@ * a[3]@ + a[4]@ * a[2]@)) % modulus(),
{
    let w = GoldilocksField(3);
    let w2 = GoldilocksField(6);
    let a0d = a[0].double();
    let a0da1 = a0d.mul(&a[1]);
    let a2a4 = a[2].mul(&a[4]);
    let a2a4dw = w2.mul(&a2a4);
    let a3s = a[3].square();
    let a3a3w = w.mul(&a3s);
    let s1 = a0da1.add(&a2a4dw);
    let c1 = s1.add(&a3a3w);
    proof {
        let (x0, x1, x2, x3, x4) = (a[0]@ as int, a[1]@ as int, a[2]@ as int, a[3]@ as int, a[4]@ as int);
        lemma_small_mod(6, modulus());
        lemma_small_mod(3, modulus());
        lemma_mod_twice(x1, modulus() as int);
        lemma_mul_congr(x0 + x0, x1, a0d@, a[1]@);
        lemma_mul_congr(6, x2 * x4, w2@, a2a4@);
        lemma_mul_congr(3, x3 * x3, w@, a3s@);
        lemma_add_congr((x0 + x0) * x1, 6 * (x2 * x4), a0da1@, a2a4dw@);
        lemma_add_congr((x0 + x0) * x1 + 6 * (x2 * x4), 3 * (x3 * x3), s1@, a3a3w@);
        assert((x0 + x0) * x1 + 6 * (x2 * x4) + 3 * (x3 * x3) == x0 * x1 + x1 * x0 + 3 * (x2 * x4 + x3 * x3 + x4 * x2)) by (nonlinear_arith);
    }
    c1
}

/// Coefficient of x^2 in the square: `2 a0 a2 + a1^2 + 2W a3 a4`.
fn square_c2(a: &[GoldilocksField; 5]) -> (r: GoldilocksField)
    ensures
        r@ == (a[0]@ * a[2]@ + a[1]@ * a[1]@ + a[2]@ * a[0]@ + fp5_w() * (a[3]@ * a[4]@ + a[4]@ * a[3]@)) % modulus(),
{
    let w2 = GoldilocksField(6);
    let a0d = a[0].double();
    let a0da2 = a0d.mul(&a[2]);
    let a1sq = a[1].square();
    let a4a3 = a[4].mul(&a[3]);
    let a4a3dw = w2.mul(&a4a3);
    let s1 = a0da2.add(&a1sq);
    let c2 = s1.add(&a4a3dw);
    proof {
        let (x0, x1, x2, x3, x4) = (a[0]@ as int, a[1]@ as int, a[2]@ as int, a[3]@ as int, a[4]@ as int);
        lemma_small_mod(6, modulus());
        lemma_mod_twice(x2, modulus() as int);
        lemma_mul_congr(x0 + x0, x2, a0d@, a[2]@);
        lemma_mul_congr(6, x4 * x3, w2@, a4a3@);
        lemma_add_congr((x0 + x0) * x2, x1 * x1, a0da2@, a1sq@);
        lemma_add_congr((x0 + x0) * x2 + x1 * x1, 6 * (x4 * x3), s1@, a4a3dw@);
        assert((x0 + x0) * x2 + x1 * x1 + 6 * (x4 * x3) == x0 * x2 + x1 * x1 + x2 * x0 + 3 * (x3 * x4 + x4 * x3)) by (nonlinear_arith);
    }
    c2
}

/// Coefficient of x^3 in the square: `2 a0 a3 + 2 a1 a2 + W a4^2`.
fn square_c3(a: &[GoldilocksField; 5]) -> (r: GoldilocksField)
    ensures
        r@ == (a[0]@ * a[3]@ + a[1]@ * a[2]@ + a[2]@ * a[1]@ + a[3]@ * a[0]@ + fp5_w() * (a[4]@ * a[4]@)) % modulus(),
{
    let w = GoldilocksField(3);
    let a0d = a[0].double();
    let a1d = a[1].double();
    let a0da3 = a0d.mul(&a[3]);
    let a1da2 = a1d.mul(&a[2]);
    let a4s = a[4].square();
    let a4sqw = w.mul(&a4s);
    let s1 = a0da3.add(&a1da2);
    let c3 = s1.add(&a4sqw);
    proof {
        let (x0, x1, x2, x3, x4) = (a[0]@ as int, a[1]@ as int, a[2]@ as int, a[3]@ as int, a[4]@ as int);
        lemma_small_mod(3, modulus());
        lemma_mod_twice(x2, modulus() as int);
        lemma_mod_twice(x3, modulus() as int);
        lemma_mul_congr(x0 + x0, x3, a0d@, a[3]@);
        lemma_mul_congr(x1 + x1, x2, a1d@, a[2]@);
        lemma_mul_congr(3, x4 * x4, w@, a4s@);
        lemma_add_congr((x0 + x0) * x3, (x1 + x1) * x2, a0da3@, a1da2@);
        lemma_add_congr((x0 + x0) * x3 + (x1 + x1) * x2, 3 * (x4 * x4), s1@, a4sqw@);
        assert((x0 + x0) * x3 + (x1 + x1) * x2 + 3 * (x4 * x4) == x0 * x3 + x1 * x2 + x2 * x1 + x3 * x0 + 3 * (x4 * x4)) by (nonlinear_arith);
    }
    c3
}

/// Coefficient of x^4 in the square: `2 a0 a4 + 2 a1 a3 + a2^2`.
fn square_c4(a: &[GoldilocksField; 5]) -> (r: GoldilocksField)
    ensures
        r@ == (a[0]@ * a[4]@ + a[1]@ * a[3]@ + a[2]@ * a[2]@ + a[3]@ * a[1]@ + a[4]@ * a[0]@) % modulus(),
{
    let a0d = a[0].double();
    let a1d = a[1].double();
    let a0da4 = a0d.mul(&a[4]);
    let a1da3 = a1d.mul(&a[3]);
    let a2sq = a[2].square();
    let s1 = a0da4.add(&a1da3);
    let c4 = s1.add(&a2sq);
    proof {
        let (x0, x1, x2, x3, x4) = (a[0]@ as int, a[1]@ as int, a[2]@ as int, a[3]@ as int, a[4]@ as int);
        lemma_mod_twice(x4, modulus() as int);
        lemma_mod_twice(x3, modulus() as int);
        lemma_mul_congr(x0 + x0, x4, a0d@, a[4]@);
        lemma_mul_congr(x1 + x1, x3, a1d@, a[3]@);
        lemma_add_congr((x0 + x0) * x4, (x1 + x1) * x3, a0da4@, a1da3@);
        lemma_add_congr((x0 + x0) * x4 + (x1 + x1) * x3, x2 * x2, s1@, a2sq@);
        assert((x0 + x0) * x4 + (x1 + x1) * x3 + x2 * x2 == x0 * x4 + x1 * x3 + x2 * x2 + x3 * x1 + x4 * x0) by (nonlinear_arith);
    }
    c4
}

/// `(x1*y1 + x2*y2) mod p`.
fn dot2(x1: &GoldilocksField, y1: &GoldilocksField, x2: &GoldilocksField, y2: &GoldilocksField) -> (r: GoldilocksField)
    ensures
        r@ == (x1@ * y1@ + x2@ * y2@) % modulus(),
{
    let p1 = x1.mul(y1);
    let p2 = x2.mul(y2);
    let s1 = p1.add(&p2);
    proof { lemma_add_congr((x1@ * y1@) as int, (x2@ * y2@) as int, p1@, p2@); }
    s1
}

/// `(x1*y1 + x2*y2 + x3*y3) mod p`, summed left to right.
fn dot3(x1: &GoldilocksField, y1: &GoldilocksField, x2: &GoldilocksField, y2: &GoldilocksField,
    x3: &GoldilocksField, y3: &GoldilocksField) -> (r: GoldilocksField)
    ensures
        r@ == (x1@ * y1@ + x2@ * y2@ + x3@ * y3@) % modulus(),
{
    let s1 = dot2(x1, y1, x2, y2);
    let p3 = x3.mul(y3);
    let s2 = s1.add(&p3);
    proof { lemma_add_congr((x1@ * y1@ + x2@ * y2@) as int, (x3@ * y3@) as int, s1@, p3@); }
    s2
}

/// `(x1*y1 + ... + x5*y5) mod p`, summed left to right.
fn dot5(x1: &GoldilocksField, y1: &GoldilocksField, x2: &GoldilocksField, y2: &GoldilocksField,
    x3: &GoldilocksField, y3: &GoldilocksField, x4: &GoldilocksField, y4: &GoldilocksField,
    x5: &GoldilocksField, y5: &GoldilocksField) -> (r: GoldilocksField)
    ensures
        r@ == (x1@ * y1@ + x2@ * y2@ + x3@ * y3@ + x4@ * y4@ + x5@ * y5@) % modulus(),
{
    let s1 = dot4(x1, y1, x2, y2, x3, y3, x4, y4);
    let p5 = x5.mul(y5);
    let s2 = s1.add(&p5);
    proof {
        lemma_add_congr((x1@ * y1@ + x2@ * y2@ + x3@ * y3@ + x4@ * y4@) as int, (x5@ * y5@) as int, s1@, p5@);
    }
    s2
}

/// `base + W * t`, with both operands given as residues of `bb` and `tt`.
fn add_w(base: &GoldilocksField, t: &GoldilocksField) -> (r: GoldilocksField)
    ensures
        forall|bb: int, tt: int| base@ == bb % (modulus() as int) && t@ == tt % (modulus() as int)
            ==> #[trigger] (bb + fp5_w() * tt) % (modulus() as int) == r@,
{
    let w = GoldilocksField(3);
    let muld = w.mul(t);
    let r = base.add(&muld);
    proof {
        lemma_small_mod(3, modulus());
        assert forall|bb: int, tt: int| base@ == bb % (modulus() as int) && t@ == tt % (modulus() as int)
            implies #[trigger] (bb + fp5_w() * tt) % (modulus() as int) == r@ by {
            lemma_mul_congr(3, tt, w@, t@);
            lemma_add_congr(bb, 3 * tt, base@, muld@);
        }
    }
    r
}

/// `(x1*y1 + x2*y2 + x3*y3 + x4*y4) mod p`, summed left to right.
fn dot4(x1: &GoldilocksField, y1: &GoldilocksField, x2: &GoldilocksField, y2: &GoldilocksField,
    x3: &GoldilocksField, y3: &GoldilocksField, x4: &GoldilocksField, y4: &GoldilocksField) -> (r: GoldilocksField)
    ensures
        r@ == (x1@ * y1@ + x2@ * y2@ + x3@ * y3@ + x4@ * y4@) % modulus(),
{
    let p1 = x1.mul(y1);
    let p2 = x2.mul(y2);
    let p3 = x3.mul(y3);
    let p4 = x4.mul(y4);
    let s1 = p1.add(&p2);
    proof { lemma_add_congr((x1@ * y1@) as int, (x2@ * y2@) as int, p1@, p2@); }
    let s2 = s1.add(&p3);
    proof { lemma_add_congr((x1@ * y1@ + x2@ * y2@) as int, (x3@ * y3@) as int, s1@, p3@); }
    let s3 = s2.add(&p4);
    proof { lemma_add_congr((x1@ * y1@ + x2@ * y2@ + x3@ * y3@) as int, (x4@ * y4@) as int, s2@, p4@); }
    s3
}

/// All five coefficients are below p.
pub open spec fn fp5_canonical(a: Seq<nat>) -> bool {
    a.len() == 5 && forall|i: int| 0 <= i < 5 ==> #[trigger] a[i] < modulus()
}

/// The view of an element is canonical.
pub proof fn lemma_fp5_view_canonical(a: Fp5)
    ensures
        fp5_canonical(a@),
{
}

/// Multiplication in the extension is commutative.
pub proof fn lemma_fp5_mul_commutative(a: Seq<nat>, b: Seq<nat>)
    ensures
        fp5_mul(a, b) == fp5_mul(b, a),
{
    reveal(fp5_mul);
    assert(a[0] * b[0] == b[0] * a[0] && a[1] * b[4] == b[4] * a[1] && a[2] * b[3] == b[3] * a[2] && a[3] * b[2]
        == b[2] * a[3] && a[4] * b[1] == b[1] * a[4]) by (nonlinear_arith);
    assert(a[0] * b[1] == b[1] * a[0] && a[1] * b[0] == b[0] * a[1] && a[2] * b[4] == b[4] * a[2] && a[3] * b[3]
        == b[3] * a[3] && a[4] * b[2] == b[2] * a[4]) by (nonlinear_arith);
    assert(a[0] * b[2] == b[2] * a[0] && a[1] * b[1] == b[1] * a[1] && a[2] * b[0] == b[0] * a[2] && a[3] * b[4]
        == b[4] * a[3] && a[4] * b[3] == b[3] * a[4]) by (nonlinear_arith);
    assert(a[0] * b[3] == b[3] * a[0] && a[1] * b[2] == b[2] * a[1] && a[2] * b[1] == b[1] * a[2] && a[3] * b[0]
        == b[0] * a[3] && a[4] * b[4] == b[4] * a[4]) by (nonlinear_arith);
    assert(a[0] * b[4] == b[4] * a[0] && a[1] * b[3] == b[3] * a[1] && a[2] * b[2] == b[2] * a[2] && a[3] * b[1]
        == b[1] * a[3] && a[4] * b[0] == b[0] * a[4]) by (nonlinear_arith);
    assert(fp5_mul(a, b) =~= fp5_mul(b, a));
}

/// The product of two quintic elements before the reduction modulo p.
#[verifier::opaque]
pub open spec fn fp5_mul_raw(a: Seq<nat>, b: Seq<nat>) -> Seq<nat> {
    seq![
        a[0] * b[0] + fp5_w() * (a[1] * b[4] + a[2] * b[3] + a[3] * b[2] + a[4] * b[1]),
        a[0] * b[1] + a[1] * b[0] + fp5_w() * (a[2] * b[4] + a[3] * b[3] + a[4] * b[2]),
        a[0] * b[2] + a[1] * b[1] + a[2] * b[0] + fp5_w() * (a[3] * b[4] + a[4] * b[3]),
        a[0] * b[3] + a[1] * b[2] + a[2] * b[1] + a[3] * b[0] + fp5_w() * (a[4] * b[4]),
        a[0] * b[4] + a[1] * b[3] + a[2] * b[2] + a[3] * b[1] + a[4] * b[0],
    ]
}

/// A product is its unreduced product reduced modulo p.
proof fn lemma_fp5_mul_raw(a: Seq<nat>, b: Seq<nat>)
    ensures
        fp5_mul(a, b).len() == 5,
        forall|k: int| 0 <= k < 5 ==> #[trigger] fp5_mul(a, b)[k] == fp5_mul_raw(a, b)[k] % modulus(),
{
    reveal(fp5_mul);
    reveal(fp5_mul_raw);
}

/// Replacing the coefficients of the left factor by congruent ones does not
/// change the unreduced product modulo p.
proof fn lemma_fp5_mul_raw_congr(a: Seq<nat>, a2: Seq<nat>, c: Seq<nat>)
    requires
        forall|i: int| 0 <= i < 5 ==> #[trigger] (a[i] % modulus()) == a2[i] % modulus(),
    ensures
        forall|k: int| 0 <= k < 5 ==> #[trigger] (fp5_mul_raw(a, c)[k] % modulus()) == fp5_mul_raw(a2, c)[k] % modulus(),
{
    reveal(fp5_mul_raw);
    let p = modulus() as int;
    let d = Seq::new(5, |i: int| a[i] as int / p - a2[i] as int / p);
    assert forall|i: int, j: int| 0 <= i < 5 && 0 <= j < 5 implies #[trigger] (a[i] * c[j]) == a2[i] * c[j] + p * (d[i] * c[j]) by {
        lemma_fundamental_div_mod(a[i] as int, p);
        lemma_fundamental_div_mod(a2[i] as int, p);
        let x = a[i] as int;
        let y = a2[i] as int;
        let z = c[j] as int;
        let qx = x / p;
        let qy = y / p;
        assert(x * z == y * z + p * ((qx - qy) * z)) by (nonlinear_arith)
            requires
                x == p * qx + x % p,
                y == p * qy + y % p,
                x % p == y % p,
        ;
    }
    let r = fp5_mul_raw(a, c);
    let r2 = fp5_mul_raw(a2, c);
    let m0 = d[0] * c[0] + 3 * (d[1] * c[4] + d[2] * c[3] + d[3] * c[2] + d[4] * c[1]);
    let m1 = d[0] * c[1] + d[1] * c[0] + 3 * (d[2] * c[4] + d[3] * c[3] + d[4] * c[2]);
    let m2 = d[0] * c[2] + d[1] * c[1] + d[2] * c[0] + 3 * (d[3] * c[4] + d[4] * c[3]);
    let m3 = d[0] * c[3] + d[1] * c[2] + d[2] * c[1] + d[3] * c[0] + 3 * (d[4] * c[4]);
    let m4 = d[0] * c[4] + d[1] * c[3] + d[2] * c[2] + d[3] * c[1] + d[4] * c[0];
    assert(r[0] == p * m0 + r2[0]);
    assert(r[1] == p * m1 + r2[1]);
    assert(r[2] == p * m2 + r2[2]);
    assert(r[3] == p * m3 + r2[3]);
    assert(r[4] == p * m4 + r2[4]);
    lemma_mod_multiples_vanish(m0, r2[0] as int, p);
    lemma_mod_multiples_vanish(m1, r2[1] as int, p);
    lemma_mod_multiples_vanish(m2, r2[2] as int, p);
    lemma_mod_multiples_vanish(m3, r2[3] as int, p);
    lemma_mod_multiples_vanish(m4, r2[4] as int, p);
}

/// Multiplication distributes over addition: (a + b) c = a c + b c.
pub proof fn lemma_fp5_mul_distributive(a: Seq<nat>, b: Seq<nat>, c: Seq<nat>)
    ensures
        fp5_mul(fp5_add(a, b), c) == fp5_add(fp5_mul(a, c), fp5_mul(b, c)),
{
    let p = modulus() as int;
    let s = seq![a[0] + b[0], a[1] + b[1], a[2] + b[2], a[3] + b[3], a[4] + b[4]];
    let sr = fp5_add(a, b);
    assert forall|i: int| 0 <= i < 5 implies #[trigger] (sr[i] % modulus()) == s[i] % modulus() by {
        lemma_mod_twice(s[i] as int, p);
    }
    lemma_fp5_mul_raw_congr(sr, s, c);
    assert forall|i: int, j: int| 0 <= i < 5 && 0 <= j < 5 implies #[trigger] (s[i] * c[j]) == a[i] * c[j] + b[i] * c[j] by {
        lemma_mul_is_distributive_add_other_way(c[j] as int, a[i] as int, b[i] as int);
    }
    reveal(fp5_mul_raw);
    let r = fp5_mul_raw(s, c);
    let ra = fp5_mul_raw(a, c);
    let rb = fp5_mul_raw(b, c);
    assert forall|k: int| 0 <= k < 5 implies #[trigger] r[k] == ra[k] + rb[k] by {}
    lemma_fp5_mul_raw(sr, c);
    lemma_fp5_mul_raw(a, c);
    lemma_fp5_mul_raw(b, c);
    let lhs = fp5_mul(sr, c);
    let rhs = fp5_add(fp5_mul(a, c), fp5_mul(b, c));
    assert forall|k: int| 0 <= k < 5 implies #[trigger] lhs[k] == rhs[k] by {
        lemma_add_mod_noop(ra[k] as int, rb[k] as int, p);
    }
    assert(lhs =~= rhs);
}

/// One is the unit of multiplication and zero absorbs it, on canonical
/// elements.
pub proof fn lemma_fp5_mul_one_zero(a: Seq<nat>)
    requires
        fp5_canonical(a),
    ensures
        fp5_mul(a, fp5_one()) == a,
        fp5_mul(a, fp5_zero()) == fp5_zero(),
{
    reveal(fp5_mul);
    assert forall|i: int| 0 <= i < 5 implies #[trigger] a[i] % modulus() == a[i] by {
        lemma_small_mod(a[i], modulus());
    }
    let o = fp5_one();
    let z = fp5_zero();
    assert(o[0] == 1 && o[1] == 0 && o[2] == 0 && o[3] == 0 && o[4] == 0);
    assert(z[0] == 0 && z[1] == 0 && z[2] == 0 && z[3] == 0 && z[4] == 0);
    assert forall|i: int, j: int| 0 <= i < 5 && 0 <= j < 5 implies #[trigger] (a[i] * o[j]) == if j == 0 {
        a[i] as int
    } else {
        0
    } && #[trigger] (a[i] * z[j]) == 0 by {
        assert(a[i] * 1 == a[i] && a[i] * 0 == 0) by (nonlinear_arith);
    }
    lemma_small_mod(0, modulus());
    assert(fp5_mul(a, o) =~= a);
    assert(fp5_mul(a, z) =~= z);
}

/// Subtracting what was added gives back a canonical element.
pub proof fn lemma_fp5_add_sub(a: Seq<nat>, b: Seq<nat>)
    requires
        fp5_canonical(a),
        fp5_canonical(b),
    ensures
        fp5_sub(fp5_add(a, b), b) == a,
{
    let p = modulus();
    assert forall|i: int| 0 <= i < 5 implies #[trigger] field_sub((a[i] + b[i]) % p, b[i]) == a[i] by {
        if a[i] + b[i] < p {
            lemma_small_mod(a[i] + b[i], p);
            lemma_mod_multiples_vanish(1, a[i] as int, p as int);
            lemma_small_mod(a[i], p);
        } else {
            lemma_fundamental_div_mod_converse((a[i] + b[i]) as int, p as int, 1, (a[i] + b[i] - p) as int);
            lemma_small_mod(a[i], p);
        }
    }
    assert(fp5_sub(fp5_add(a, b), b) =~= a);
}

/// `to_bytes_le` then `from_bytes_le` gives back a canonical element: its
/// 40 bytes are canonical and read back as it.
pub proof fn lemma_fp5_bytes_roundtrip(a: Seq<nat>)
    requires
        fp5_canonical(a),
    ensures
        fp5_le_bytes(a).len() == 40,
        fp5_bytes_canonical(fp5_le_bytes(a)),
        fp5_bytes_view(fp5_le_bytes(a)) == a,
{
    let b = fp5_le_bytes(a);
    assert forall|i: int| 0 <= i < 5 implies #[trigger] le_word(b, i) == a[i] by {
        lemma_u64_le_bytes_roundtrip(a[i] as u64);
        assert(b.subrange(8 * i, 8 * i + 8) =~= u64_le_bytes(a[i] as u64));
    }
    assert(fp5_bytes_view(b) =~= a);
}

/// Products are canonical.
pub proof fn lemma_fp5_mul_canonical(a: Seq<nat>, b: Seq<nat>)
    ensures
        fp5_canonical(fp5_mul(a, b)),
{
    reveal(fp5_mul);
}

/// A base-field element times a quintic one scales its coefficients.
pub proof fn lemma_fp5_mul_base(x: nat, b: Seq<nat>)
    ensures
        fp5_mul(seq![x, 0nat, 0nat, 0nat, 0nat], b) == fp5_scale(b, x),
{
    reveal(fp5_mul);
    let a = seq![x, 0nat, 0nat, 0nat, 0nat];
    assert forall|i: int, j: int| 1 <= i < 5 && 0 <= j < 5 implies #[trigger] (a[i] * b[j]) == 0 by {
        assert(a[i] == 0);
        assert(0 * b[j] == 0) by (nonlinear_arith);
    }
    assert forall|j: int| 0 <= j < 5 implies #[trigger] (a[0] * b[j]) == b[j] * x by {
        assert(x * b[j] == b[j] * x) by (nonlinear_arith);
    }
    assert(fp5_mul(a, b) =~= fp5_scale(b, x));
}

/// (v (p - s)) mod p is the negation of (v s) mod p.
proof fn lemma_neg_scale_component(v: nat, s: nat)
    requires
        0 < s < modulus(),
    ensures
        (v * ((modulus() - s) as nat)) % modulus() == ((modulus() - (v * s) % modulus()) as nat) % modulus(),
{
    let p = modulus() as int;
    let t = (v * s) % modulus();
    assert(v * ((modulus() - s) as nat) == p * v - v * s) by (nonlinear_arith)
        requires
            p == modulus(),
            s < modulus(),
    ;
    lemma_mod_multiples_vanish(v as int, -((v * s) as int), p);
    lemma_sub_mod_noop(0, (v * s) as int, p);
    lemma_small_mod(0, modulus());
    lemma_mod_bound((v * s) as int, p);
    lemma_mod_multiples_vanish(1, -(t as int), p);
}

/// Scaling by p - s negates the scaling by s.
pub proof fn lemma_fp5_scale_neg(b: Seq<nat>, s: nat)
    requires
        0 < s < modulus(),
    ensures
        fp5_scale(b, (modulus() - s) as nat) == fp5_neg(fp5_scale(b, s)),
{
    assert forall|i: int| 0 <= i < 5 implies #[trigger] fp5_scale(b, (modulus() - s) as nat)[i] == fp5_neg(
        fp5_scale(b, s),
    )[i] by {
        lemma_neg_scale_component(b[i], s);
    }
    assert(fp5_scale(b, (modulus() - s) as nat) =~= fp5_neg(fp5_scale(b, s)));
}

/// Negation undoes itself on canonical elements.
pub proof fn lemma_fp5_neg_neg(y: Seq<nat>)
    requires
        fp5_canonical(y),
    ensures
        fp5_neg(fp5_neg(y)) == y,
        fp5_canonical(fp5_neg(y)),
{
    let p = modulus();
    assert forall|i: int| 0 <= i < 5 implies #[trigger] fp5_neg(fp5_neg(y))[i] == y[i] && fp5_neg(y)[i] < p by {
        lemma_mod_bound((p - y[i]) as int, p as int);
        if y[i] == 0 {
            lemma_mod_self_0(p as int);
            lemma_small_mod(0, p);
        } else {
            lemma_small_mod((p - y[i]) as nat, p);
            lemma_small_mod(y[i], p);
        }
    }
    assert(fp5_neg(fp5_neg(y)) =~= y);
}

/// Negating a non-zero canonical element flips its Sgn0.
pub proof fn lemma_fp5_sgn0_neg(y: Seq<nat>)
    requires
        fp5_canonical(y),
        y != fp5_zero(),
    ensures
        fp5_sgn0(fp5_neg(y)) == !fp5_sgn0(y),
{
    let p = modulus();
    let z = fp5_neg(y);
    assert forall|i: int| 0 <= i < 5 implies (#[trigger] z[i] == 0) == (y[i] == 0) && (z[i] != 0 ==> (z[i] % 2
        == 0) == !(y[i] % 2 == 0)) by {
        if y[i] == 0 {
            lemma_mod_self_0(p as int);
        } else {
            lemma_small_mod((p - y[i]) as nat, p);
        }
    }
    assert(!(y =~= fp5_zero()));
    reveal_with_fuel(sgn0_from, 6);
}

/// What `Fp5::canonical_sqrt` returns for `a`: a root exactly when the
/// base-field value g passes Euler's criterion, else zero; the root is s / e
/// for a base-field root s of g, negated when its first non-zero coefficient
/// is even.
pub open spec fn canonical_sqrt_outcome(a: Seq<nat>, r: Seq<nat>, c: bool) -> bool {
    &&& c <==> euler_square(fp5_sqrt_g(a))
    &&& !c ==> r == fp5_zero()
    &&& c ==> exists|s: nat|
        fp5_sqrt_base_root(a, s) && r == (if fp5_sgn0(fp5_sqrt_from(a, s)) {
            fp5_neg(fp5_sqrt_from(a, s))
        } else {
            fp5_sqrt_from(a, s)
        })
}

/// The root `canonical_sqrt` keeps: negated when its Sgn0 is 0.
pub open spec fn fp5_canonicalize(y: Seq<nat>) -> Seq<nat> {
    if fp5_sgn0(y) {
        fp5_neg(y)
    } else {
        y
    }
}

/// The square root `canonical_sqrt` finds for `a`, or zero when there is
/// none: the canonical form of s / e for a base-field root s of g.
pub open spec fn canonical_root(a: Seq<nat>) -> Seq<nat> {
    if euler_square(fp5_sqrt_g(a)) {
        fp5_canonicalize(fp5_sqrt_from(a, choose|s: nat| fp5_sqrt_base_root(a, s)))
    } else {
        fp5_zero()
    }
}

/// The outcome of `canonical_sqrt` is determined: both base-field roots s
/// and p - s give the same canonical root.
pub proof fn lemma_canonical_sqrt_unique(a: Seq<nat>, r: Seq<nat>, c: bool)
    requires
        canonical_sqrt_outcome(a, r, c),
    ensures
        c == euler_square(fp5_sqrt_g(a)),
        r == canonical_root(a),
{
    if c {
        let s1 = choose|s: nat| fp5_sqrt_base_root(a, s) && r == fp5_canonicalize(fp5_sqrt_from(a, s));
        let s2 = choose|s: nat| fp5_sqrt_base_root(a, s);
        lemma_two_roots(s1, s2);
        if s1 != s2 {
            let inv = fp5_inverse(fp5_sqrt_e(a));
            lemma_fp5_mul_base(s1, inv);
            lemma_fp5_mul_base(s2, inv);
            lemma_fp5_scale_neg(inv, s1);
            let y = fp5_sqrt_from(a, s1);
            assert(fp5_sqrt_from(a, s2) == fp5_neg(y));
            lemma_fp5_mul_canonical(seq![s1, 0nat, 0nat, 0nat, 0nat], inv);
            lemma_fp5_neg_neg(y);
            if y == fp5_zero() {
                lemma_small_mod(0, modulus());
                lemma_mod_self_0(modulus() as int);
                assert(fp5_neg(y) =~= fp5_zero());
            } else {
                lemma_fp5_sgn0_neg(y);
            }
        }
    }
}

} // verus!
