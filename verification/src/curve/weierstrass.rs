use vstd::prelude::*;
use vstd::arithmetic::div_mod::*;
use crate::field::goldilocks::{modulus, euler_square};
use crate::field::quintic::{Fp5, fp5_zero, fp5_one, fp5_add, fp5_sub, fp5_mul, fp5_inverse, fp5_legendre};
use crate::curve::scalar::{Scalar, nibble};
use crate::field::quintic::{canonical_sqrt_outcome, canonical_root, lemma_canonical_sqrt_unique, fp5_sqrt_g};
use crate::curve::point::{
    spec_a, fp5_small, fp5_double, decode_e, decode_delta, curve_a, curve_b_mul4,
};

verus! {

/// The view of a short Weierstrass point: (x, y, is_inf).
pub type WeierstrassView = (Seq<nat>, Seq<nat>, bool);

/// The Weierstrass curve coefficient a.
pub open spec fn spec_a_w() -> Seq<nat> {
    seq![6148914689804861439nat, 263nat, 0nat, 0nat, 0nat]
}

/// The point at infinity.
pub open spec fn ws_neutral() -> WeierstrassView {
    (fp5_zero(), fp5_zero(), true)
}

/// The Weierstrass generator.
pub open spec fn ws_generator() -> WeierstrassView {
    (
        seq![11712523173042564207nat, 14090224426659529053nat, 13197813503519687414nat,
            16280770174934269299nat, 15998333998318935536nat],
        seq![14639054205878357578nat, 17426078571020221072nat, 2548978194165003307nat,
            8663895577921260088nat, 9793640284382595140nat],
        false,
    )
}

/// 3 a.
pub open spec fn fp5_triple(a: Seq<nat>) -> Seq<nat> {
    fp5_mul(a, fp5_small(3, 0))
}

/// The encoding w = y / (A/3 - x).
pub open spec fn ws_encode(p: WeierstrassView) -> Seq<nat> {
    let a_div_3 = fp5_mul(spec_a(), fp5_inverse(fp5_small(3, 0)));
    fp5_mul(p.1, fp5_inverse(fp5_sub(a_div_3, p.0)))
}

/// Affine addition with the tangent slope when the x coordinates agree.
#[verifier::opaque]
pub open spec fn ws_add(p: WeierstrassView, q: WeierstrassView) -> WeierstrassView {
    if p.2 {
        q
    } else if q.2 {
        p
    } else {
        let x_same = p.0 == q.0;
        let lambda0 = if x_same {
            fp5_add(fp5_triple(fp5_mul(p.0, p.0)), spec_a_w())
        } else {
            fp5_sub(q.1, p.1)
        };
        let lambda1 = if x_same {
            fp5_double(p.1)
        } else {
            fp5_sub(q.0, p.0)
        };
        let lambda = fp5_mul(lambda0, fp5_inverse(lambda1));
        let x3 = fp5_sub(fp5_sub(fp5_mul(lambda, lambda), p.0), q.0);
        let y3 = fp5_sub(fp5_mul(lambda, fp5_sub(p.0, x3)), p.1);
        (x3, y3, x_same && p.1 != q.1)
    }
}

/// Affine doubling with the tangent slope.
#[verifier::opaque]
pub open spec fn ws_double(p: WeierstrassView) -> WeierstrassView {
    if p.2 {
        p
    } else {
        let lambda0 = fp5_add(fp5_triple(fp5_mul(p.0, p.0)), spec_a_w());
        let lambda1 = fp5_double(p.1);
        let lambda = fp5_mul(lambda0, fp5_inverse(lambda1));
        let x2 = fp5_sub(fp5_mul(lambda, lambda), fp5_double(p.0));
        let y2 = fp5_sub(fp5_mul(lambda, fp5_sub(p.0, x2)), p.1);
        (x2, y2, false)
    }
}

/// The root of the decoding quadratic that the Weierstrass decoding picks:
/// (e + r) / 2 when its Legendre symbol is 1, else (e - r) / 2.
pub open spec fn ws_decode_root(e: Seq<nat>, r: Seq<nat>) -> Seq<nat> {
    let half = fp5_inverse(fp5_small(2, 0));
    let x1 = fp5_mul(fp5_add(e, r), half);
    let x2 = fp5_mul(fp5_sub(e, r), half);
    if fp5_legendre(x1) == 1 {
        x1
    } else {
        x2
    }
}

/// A / 3, the shift between the two curve models.
pub open spec fn ws_a_div_3() -> Seq<nat> {
    fp5_mul(spec_a(), fp5_inverse(fp5_add(fp5_small(2, 0), fp5_one())))
}

/// The Weierstrass decoding of w given the outcome (r, c) of the square
/// root of the discriminant.
pub open spec fn ws_decode_with(w: Seq<nat>, r: Seq<nat>, c: bool) -> (WeierstrassView, bool) {
    let x = ws_decode_root(decode_e(w), r);
    let y = fp5_sub(fp5_zero(), fp5_mul(w, x));
    if c {
        ((fp5_add(x, ws_a_div_3()), y, false), true)
    } else if w == fp5_zero() {
        ((fp5_zero(), y, true), true)
    } else {
        (ws_neutral(), false)
    }
}

/// Entry i of the window of multiples of p: 0, p, 2p, 3p, ...
pub open spec fn ws_window_entry(p: WeierstrassView, i: nat) -> WeierstrassView
    decreases i,
{
    if i == 0 {
        ws_neutral()
    } else if i == 1 {
        p
    } else if i == 2 {
        ws_double(p)
    } else {
        ws_add(p, ws_window_entry(p, (i - 1) as nat))
    }
}

/// Four doublings.
pub open spec fn ws_double4(p: WeierstrassView) -> WeierstrassView {
    ws_double_n(p, 4)
}

/// The accumulator of the double-scalar multiplication after the top
/// `c + 1` four-bit digits.
pub open spec fn mul_add2_acc(
    a: WeierstrassView,
    b: WeierstrassView,
    la: Seq<u64>,
    lb: Seq<u64>,
    c: nat,
) -> WeierstrassView
    decreases c,
{
    if c == 0 {
        ws_add(ws_window_entry(a, nibble(la, 79)), ws_window_entry(b, nibble(lb, 79)))
    } else {
        let i = (79 - c) as int;
        ws_add(
            ws_double4(mul_add2_acc(a, b, la, lb, (c - 1) as nat)),
            ws_add(ws_window_entry(a, nibble(la, i)), ws_window_entry(b, nibble(lb, i))),
        )
    }
}

/// A point of ECgFp5 in short Weierstrass form, used to verify signatures.
#[derive(Debug, Clone, Copy)]
pub struct WeierstrassPoint {
    pub x: Fp5,
    pub y: Fp5,
    pub is_inf: bool,
}

impl View for WeierstrassPoint {
    type V = WeierstrassView;

    open spec fn view(&self) -> WeierstrassView {
        (self.x@, self.y@, self.is_inf)
    }
}

/// A quintic element from five canonical coefficients.
fn fp5_canonical(c: [u64; 5]) -> (r: Fp5)
    requires
        forall|i: int| 0 <= i < 5 ==> c[i] < modulus(),
    ensures
        r@ == seq![c[0] as nat, c[1] as nat, c[2] as nat, c[3] as nat, c[4] as nat],
{
    let r = Fp5::from_u64_arr(c);
    proof {
        lemma_small_mod(c[0] as nat, modulus());
        lemma_small_mod(c[1] as nat, modulus());
        lemma_small_mod(c[2] as nat, modulus());
        lemma_small_mod(c[3] as nat, modulus());
        lemma_small_mod(c[4] as nat, modulus());
    }
    r
}

/// The coefficient a of the Weierstrass form.
fn a_w() -> (r: Fp5)
    ensures
        r@ == spec_a_w(),
{
    let r = fp5_canonical([6148914689804861439, 263, 0, 0, 0]);
    assert(r@ =~= spec_a_w());
    r
}

impl Fp5 {
    /// 3 self.
    fn triple(&self) -> (r: Self)
        ensures
            r@ == fp5_triple(self@),
    {
        let three = fp5_canonical([3, 0, 0, 0, 0]);
        assert(three@ =~= fp5_small(3, 0));
        self.mul(&three)
    }
}

/// The root of the decoding quadratic picked by the Legendre symbol.
fn decode_root(e: &Fp5, r: &Fp5) -> (x: Fp5)
    ensures
        x@ == ws_decode_root(e@, r@),
{
    let two = fp5_canonical([2, 0, 0, 0, 0]);
    assert(two@ =~= fp5_small(2, 0));
    let x1 = e.add(r).mul(&two.inverse_or_zero());
    let x2 = e.sub(r).mul(&two.inverse_or_zero());
    let mut x = x2;
    let x1_legendre = x1.legendre();
    if x1_legendre.canonical() == 1 {
        x = x1;
    }
    x
}

/// A / 3.
fn a_div_3() -> (r: Fp5)
    ensures
        r@ == ws_a_div_3(),
{
    let two = fp5_canonical([2, 0, 0, 0, 0]);
    assert(two@ =~= fp5_small(2, 0));
    curve_a().mul(&two.add(&Fp5::one()).inverse_or_zero())
}

impl WeierstrassPoint {
    /// The Weierstrass generator.
    pub fn generator() -> (r: Self)
        ensures
            r@ == ws_generator(),
    {
        let x = fp5_canonical(
            [11712523173042564207, 14090224426659529053, 13197813503519687414, 16280770174934269299, 15998333998318935536],
        );
        let y = fp5_canonical(
            [14639054205878357578, 17426078571020221072, 2548978194165003307, 8663895577921260088, 9793640284382595140],
        );
        let r = Self { x, y, is_inf: false };
        assert(r@ =~= ws_generator());
        r
    }

    /// The point at infinity.
    pub fn neutral() -> (r: Self)
        ensures
            r@ == ws_neutral(),
    {
        Self { x: Fp5::zero(), y: Fp5::zero(), is_inf: true }
    }

    /// The encoding w = y / (A/3 - x).
    pub fn encode(&self) -> (r: Fp5)
        ensures
            r@ == ws_encode(self@),
    {
        let three = fp5_canonical([3, 0, 0, 0, 0]);
        assert(three@ =~= fp5_small(3, 0));
        let a_div_3 = curve_a().mul(&three.inverse_or_zero());
        self.y.mul(&a_div_3.sub(&self.x).inverse_or_zero())
    }

    /// Decodes w; the flag is false when w encodes no point.
    pub fn decode(w: &Fp5) -> (r: (Self, bool))
        ensures
            (r.0@, r.1) == ws_decode_with(
                w@,
                canonical_root(decode_delta(w@)),
                euler_square(fp5_sqrt_g(decode_delta(w@))),
            ),
            exists|root: Seq<nat>, c: bool|
                canonical_sqrt_outcome(decode_delta(w@), root, c) && (r.0@, r.1) == ws_decode_with(
                    w@,
                    root,
                    c,
                ),
    {
        let e = w.square().sub(&curve_a());
        let delta = e.square().sub(&curve_b_mul4());
        let (r, success) = delta.canonical_sqrt();
        let mut x = decode_root(&e, &r);
        let y = Fp5::zero().sub(&w.mul(&x));
        if success {
            x = x.add(&a_div_3());
        } else {
            x = Fp5::zero();
        }
        let is_inf = !success;
        let res = if success || w.is_zero() {
            (Self { x, y, is_inf }, true)
        } else {
            (Self::neutral(), false)
        };
        proof {
            assert(canonical_sqrt_outcome(decode_delta(w@), r@, success));
            assert(e@ == decode_e(w@));
            assert(delta@ == decode_delta(w@));
            assert((res.0@, res.1) == ws_decode_with(w@, r@, success));
        }
        res
    }

    /// Affine addition.
    pub fn add(&self, q: &Self) -> (r: Self)
        ensures
            r@ == ws_add(self@, q@),
    {
        proof {
            reveal(ws_add);
        }
        if self.is_inf {
            return *q;
        }
        if q.is_inf {
            return *self;
        }
        let x_same = self.x == q.x;
        let y_diff = self.y != q.y;
        let (lambda0, lambda1) = if x_same {
            (self.x.square().triple().add(&a_w()), self.y.double())
        } else {
            (q.y.sub(&self.y), q.x.sub(&self.x))
        };
        let lambda = lambda0.mul(&lambda1.inverse_or_zero());
        let x3 = lambda.square().sub(&self.x).sub(&q.x);
        let y3 = lambda.mul(&self.x.sub(&x3)).sub(&self.y);
        Self { x: x3, y: y3, is_inf: x_same && y_diff }
    }

    /// Affine doubling.
    pub fn double(&self) -> (r: Self)
        ensures
            r@ == ws_double(self@),
    {
        proof {
            reveal(ws_double);
        }
        if self.is_inf {
            return *self;
        }
        let lambda0 = self.x.square().triple().add(&a_w());
        let lambda1 = self.y.double();
        let lambda = lambda0.mul(&lambda1.inverse_or_zero());
        let x2 = lambda.square().sub(&self.x.double());
        let y2 = lambda.mul(&self.x.sub(&x2)).sub(&self.y);
        Self { x: x2, y: y2, is_inf: false }
    }

    /// The 2^window_bits multiples 0, self, 2 self, ... of this point.
    pub fn precompute_window(&self, window_bits: u32) -> (r: Vec<Self>)
        requires
            2 <= window_bits < usize::BITS,
        ensures
            r@.len() == pow2_usize(window_bits),
            forall|i: int| 0 <= i < r@.len() ==> #[trigger] r@[i]@ == ws_window_entry(self@, i as nat),
    {
        let n = 1usize << window_bits;
        proof {
            lemma_shl_pow2(window_bits);
        }
        let mut multiples: Vec<Self> = Vec::new();
        multiples.push(Self::neutral());
        multiples.push(*self);
        if n > 2 {
            multiples.push(self.double());
            let mut i: usize = 3;
            while i < n
                invariant
                    3 <= i <= n,
                    multiples@.len() == i,
                    forall|k: int| 0 <= k < i ==> #[trigger] multiples@[k]@ == ws_window_entry(self@, k as nat),
                decreases n - i,
            {
                let next = self.add(&multiples[i - 1]);
                multiples.push(next);
                i += 1;
            }
        }
        multiples
    }
}

/// 2^b as an integer, for shifts of a usize.
pub open spec fn pow2_usize(b: u32) -> nat {
    vstd::arithmetic::power2::pow2(b as nat)
}

/// 1 << b is 2^b, at least 4 for b >= 2.
proof fn lemma_shl_pow2(b: u32)
    requires
        2 <= b < usize::BITS,
    ensures
        (1usize << b) == pow2_usize(b),
        (1usize << b) >= 4,
{
    vstd::arithmetic::power2::lemma2_to64();
    if b > 2 {
        vstd::arithmetic::power2::lemma_pow2_strictly_increases(2, b as nat);
    }
    vstd::bits::lemma_usize_pow2_no_overflow(b as nat);
    vstd::bits::lemma_usize_shl_is_mul(1, b as usize);
}

/// p doubled k times.
pub open spec fn ws_double_n(p: WeierstrassView, k: nat) -> WeierstrassView
    decreases k,
{
    if k == 0 {
        p
    } else {
        ws_double(ws_double_n(p, (k - 1) as nat))
    }
}

/// Double-scalar multiplication s_a A + s_b B with 4-bit windows.
pub fn mul_add2(a: &WeierstrassPoint, b: &WeierstrassPoint, scalar_a: &Scalar, scalar_b: &Scalar) -> (r:
    WeierstrassPoint)
    ensures
        r@ == mul_add2_acc(a@, b@, scalar_a.0@, scalar_b.0@, 79),
{
    let a_win = a.precompute_window(4);
    let b_win = b.precompute_window(4);
    let a_limbs = scalar_a.split_to_4bit_limbs();
    let b_limbs = scalar_b.split_to_4bit_limbs();
    let num_limbs = a_limbs.len();
    proof {
        vstd::arithmetic::power2::lemma2_to64();
        assert(num_limbs == 80);
    }
    let mut res = a_win[a_limbs[num_limbs - 1] as usize].add(&b_win[b_limbs[num_limbs - 1] as usize]);
    let mut i = num_limbs - 1;
    while i > 0
        invariant
            num_limbs == 80,
            i < 80,
            a_win@.len() == 16,
            b_win@.len() == 16,
            forall|k: int| 0 <= k < 16 ==> #[trigger] a_win@[k]@ == ws_window_entry(a@, k as nat),
            forall|k: int| 0 <= k < 16 ==> #[trigger] b_win@[k]@ == ws_window_entry(b@, k as nat),
            forall|k: int| 0 <= k < 80 ==> #[trigger] a_limbs[k] as nat == nibble(scalar_a.0@, k),
            forall|k: int| 0 <= k < 80 ==> #[trigger] b_limbs[k] as nat == nibble(scalar_b.0@, k),
            res@ == mul_add2_acc(a@, b@, scalar_a.0@, scalar_b.0@, (79 - i) as nat),
        decreases i,
    {
        i -= 1;
        let ghost start = res@;
        for k in 0..4
            invariant
                res@ == ws_double_n(start, k as nat),
        {
            res = res.double();
        }
        res = res.add(&a_win[a_limbs[i] as usize].add(&b_win[b_limbs[i] as usize]));
    }
    res
}

} // verus!
