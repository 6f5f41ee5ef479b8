use vstd::prelude::*;
use vstd::arithmetic::div_mod::*;
use vstd::arithmetic::power2::*;
use vstd::arithmetic::mul::*;
use vstd::bits::*;
use crate::field::goldilocks::{modulus, euler_square, field_sub};
use crate::field::quintic::{Fp5, fp5_zero, fp5_one, fp5_add, fp5_sub, fp5_mul, fp5_canonical, lemma_fp5_mul_distributive, lemma_fp5_mul_commutative, lemma_fp5_mul_one_zero, lemma_fp5_mul_canonical, lemma_fp5_mul_by_zero, lemma_fp5_inverse_one, lemma_fp5_view_canonical, lemma_fp5_add_sub, fp5_neg, fp5_inverse, fp5_legendre, fp5_sqrt_g, fp5_sqrt_base_root, fp5_sqrt_from, fp5_sgn0, canonical_root, lemma_canonical_sqrt_unique, canonical_sqrt_outcome};
use crate::curve::affine::{AffinePoint, AffineView, affine_views, affine_neutral, window_lookup};
use crate::curve::scalar::{Scalar, limbs_seq_value, recode_digit, recode_window, recode_carry, lemma_recode_sum};

verus! {

/// The view of a projective point: its (x, z, u, t) coordinates.
pub type PointView = (Seq<nat>, Seq<nat>, Seq<nat>, Seq<nat>);

/// The quintic element c0 + c1 X.
pub open spec fn fp5_small(c0: nat, c1: nat) -> Seq<nat> {
    seq![c0, c1, 0nat, 0nat, 0nat]
}

/// 2 a.
pub open spec fn fp5_double(a: Seq<nat>) -> Seq<nat> {
    fp5_add(a, a)
}

/// The curve constant A = 2.
pub open spec fn spec_a() -> Seq<nat> {
    fp5_small(2, 0)
}

/// The curve constant B = 263 X.
pub open spec fn spec_b() -> Seq<nat> {
    fp5_small(0, 263)
}

/// 2 B.
pub open spec fn spec_b_mul2() -> Seq<nat> {
    fp5_small(0, 526)
}

/// 4 B.
pub open spec fn spec_b_mul4() -> Seq<nat> {
    fp5_small(0, 1052)
}

/// 16 B.
pub open spec fn spec_b_mul16() -> Seq<nat> {
    fp5_small(0, 4208)
}

/// The neutral point (0, 1, 0, 1).
pub open spec fn point_neutral() -> PointView {
    (fp5_zero(), fp5_one(), fp5_zero(), fp5_one())
}

/// The x coordinate of the generator.
pub open spec fn generator_x() -> Seq<nat> {
    seq![12883135586176881569nat, 4356519642755055268nat, 5248930565894896907nat, 2165973894480315022nat,
        2448410071095648785nat]
}

/// The generator (x_G, 1, 1, 4).
pub open spec fn point_generator() -> PointView {
    (generator_x(), fp5_one(), fp5_one(), fp5_small(4, 0))
}

/// Complete addition in (x, z, u, t) coordinates.
#[verifier::opaque]
pub open spec fn point_add(p: PointView, q: PointView) -> PointView {
    let tt1 = fp5_mul(p.0, q.0);
    let tt2 = fp5_mul(p.1, q.1);
    let tt3 = fp5_mul(p.2, q.2);
    let tt4 = fp5_mul(p.3, q.3);
    let tt5 = fp5_sub(fp5_mul(fp5_add(p.0, p.1), fp5_add(q.0, q.1)), fp5_add(tt1, tt2));
    let tt6 = fp5_sub(fp5_mul(fp5_add(p.2, p.3), fp5_add(q.2, q.3)), fp5_add(tt3, tt4));
    let tt7 = fp5_add(tt1, fp5_mul(tt2, spec_b()));
    let tt8 = fp5_mul(tt4, tt7);
    let tt9 = fp5_mul(tt3, fp5_add(fp5_mul(tt5, spec_b_mul2()), fp5_double(tt7)));
    let tt10 = fp5_mul(fp5_add(tt4, fp5_double(tt3)), fp5_add(tt5, tt7));
    (
        fp5_mul(fp5_sub(tt10, tt8), spec_b()),
        fp5_sub(tt8, tt9),
        fp5_mul(tt6, fp5_sub(fp5_mul(tt2, spec_b()), tt1)),
        fp5_add(tt8, tt9),
    )
}

/// Mixed addition of a projective point and an affine point.
#[verifier::opaque]
pub open spec fn point_add_affine(p: PointView, a: AffineView) -> PointView {
    let tt1 = fp5_mul(p.0, a.0);
    let tt2 = p.1;
    let tt3 = fp5_mul(p.2, a.1);
    let tt4 = p.3;
    let tt5 = fp5_add(p.0, fp5_mul(a.0, p.1));
    let tt6 = fp5_add(p.2, fp5_mul(a.1, p.3));
    let tt7 = fp5_add(tt1, fp5_mul(tt2, spec_b()));
    let tt8 = fp5_mul(tt4, tt7);
    let tt9 = fp5_mul(tt3, fp5_add(fp5_mul(tt5, spec_b_mul2()), fp5_double(tt7)));
    let tt10 = fp5_mul(fp5_add(tt4, fp5_double(tt3)), fp5_add(tt5, tt7));
    (
        fp5_mul(fp5_sub(tt10, tt8), spec_b()),
        fp5_sub(tt8, tt9),
        fp5_mul(tt6, fp5_sub(fp5_mul(tt2, spec_b()), tt1)),
        fp5_add(tt8, tt9),
    )
}

/// x + y + (z + w) - (x + w) = y + z, on canonical elements.
proof fn lemma_fp5_cancel(x: Seq<nat>, y: Seq<nat>, z: Seq<nat>, w: Seq<nat>)
    requires
        fp5_canonical(x),
        fp5_canonical(y),
        fp5_canonical(z),
        fp5_canonical(w),
    ensures
        fp5_sub(fp5_add(fp5_add(x, y), fp5_add(z, w)), fp5_add(x, w)) == fp5_add(y, z),
{
    let p = modulus();
    let l = fp5_sub(fp5_add(fp5_add(x, y), fp5_add(z, w)), fp5_add(x, w));
    let r = fp5_add(y, z);
    assert forall|i: int| 0 <= i < 5 implies #[trigger] l[i] == r[i] by {
        lemma_cancel_scalar(x[i], y[i], z[i], w[i]);
    }
    assert(l =~= r);
}

/// x + y + (z + w) - (x + w) = y + z modulo p, on reduced values.
proof fn lemma_cancel_scalar(x: nat, y: nat, z: nat, w: nat)
    requires
        x < modulus(),
        y < modulus(),
        z < modulus(),
        w < modulus(),
    ensures
        field_sub(((x + y) % modulus() + (z + w) % modulus()) % modulus(), (x + w) % modulus()) == (y + z) % modulus(),
{
    let p = modulus();
    lemma_mod_below_twice(x + y);
    lemma_mod_below_twice(z + w);
    let s = (x + y) % p + (z + w) % p;
    lemma_mod_below_twice(s);
    lemma_mod_below_twice(x + w);
    lemma_mod_below_twice(y + z);
    let d = s % p + p - (x + w) % p;
    lemma_mod_below_twice(d as nat);
}

/// Below 2p, reducing modulo p subtracts p at most once.
proof fn lemma_mod_below_twice(a: nat)
    ensures
        a < 2 * modulus() ==> a % modulus() == if a < modulus() {
            a
        } else {
            (a - modulus()) as nat
        },
{
    let p = modulus() as int;
    if a < p {
        lemma_small_mod(a, p as nat);
    } else if a < 2 * p {
        lemma_fundamental_div_mod_converse(a as int, p, 1, a - p);
    }
}

/// (p0 + p1)(a + 1) - (p0 a + p1 1) = p0 + a p1: the cross term of an
/// addition with a point whose z (or t) is one.
#[verifier::spinoff_prover]
proof fn lemma_cross_with_one(p0: Seq<nat>, p1: Seq<nat>, a: Seq<nat>)
    requires
        fp5_canonical(p0),
        fp5_canonical(p1),
        fp5_canonical(a),
    ensures
        fp5_sub(fp5_mul(fp5_add(p0, p1), fp5_add(a, fp5_one())), fp5_add(fp5_mul(p0, a), fp5_mul(p1, fp5_one())))
            == fp5_add(p0, fp5_mul(a, p1)),
{
    let one = fp5_one();
    let b = fp5_add(a, one);
    lemma_fp5_mul_distributive(p0, p1, b);
    lemma_fp5_mul_commutative(p0, b);
    lemma_fp5_mul_commutative(p1, b);
    lemma_fp5_mul_distributive(a, one, p0);
    lemma_fp5_mul_distributive(a, one, p1);
    lemma_fp5_mul_commutative(one, p0);
    lemma_fp5_mul_commutative(one, p1);
    lemma_fp5_mul_commutative(a, p0);
    lemma_fp5_mul_one_zero(p0);
    lemma_fp5_mul_one_zero(p1);
    lemma_fp5_mul_canonical(p0, a);
    lemma_fp5_mul_canonical(a, p1);
    lemma_fp5_cancel(fp5_mul(p0, a), p0, fp5_mul(a, p1), p1);
}

/// Mixed addition is the complete addition of the lifted point (x, 1, u, 1):
/// the two formulas give the same coordinates.
#[verifier::spinoff_prover]
pub proof fn lemma_add_affine_is_add(p: PointView, a: AffineView)
    requires
        fp5_canonical(p.0),
        fp5_canonical(p.1),
        fp5_canonical(p.2),
        fp5_canonical(p.3),
        fp5_canonical(a.0),
        fp5_canonical(a.1),
    ensures
        point_add_affine(p, a) == point_add(p, (a.0, fp5_one(), a.1, fp5_one())),
{
    reveal(point_add);
    reveal(point_add_affine);
    lemma_fp5_mul_one_zero(p.1);
    lemma_fp5_mul_one_zero(p.3);
    lemma_cross_with_one(p.0, p.1, a.0);
    lemma_cross_with_one(p.2, p.3, a.1);
}

/// Zero is the unit of addition and of subtraction on canonical elements,
/// and a sum is canonical.
proof fn lemma_fp5_add_zero(x: Seq<nat>, y: Seq<nat>)
    requires
        fp5_canonical(x),
    ensures
        fp5_add(x, fp5_zero()) == x,
        fp5_add(fp5_zero(), x) == x,
        fp5_sub(x, fp5_zero()) == x,
        fp5_canonical(fp5_add(x, y)),
{
    let p = modulus();
    assert forall|i: int| 0 <= i < 5 implies #[trigger] (x[i] % p) == x[i] && (x[i] + p - 0) % (p as int) == x[i] by {
        lemma_small_mod(x[i], p);
        lemma_mod_multiples_vanish(1, x[i] as int, p as int);
    }
    assert(fp5_add(x, fp5_zero()) =~= x);
    assert(fp5_add(fp5_zero(), x) =~= x);
    assert(fp5_sub(x, fp5_zero()) =~= x);
    let s = fp5_add(x, y);
    assert forall|i: int| 0 <= i < 5 implies #[trigger] s[i] < p by {}
}

/// A difference is canonical, and a canonical element minus itself is zero.
proof fn lemma_fp5_sub_facts(a: Seq<nat>, b: Seq<nat>)
    ensures
        fp5_canonical(fp5_sub(a, b)),
        fp5_canonical(a) ==> fp5_sub(a, a) == fp5_zero(),
{
    let p = modulus();
    let d = fp5_sub(a, b);
    assert forall|i: int| 0 <= i < 5 implies #[trigger] d[i] < p by {}
    if fp5_canonical(a) {
        assert forall|i: int| 0 <= i < 5 implies #[trigger] field_sub(a[i], a[i]) == 0 by {
            lemma_mod_self_0(p as int);
        }
        assert(fp5_sub(a, a) =~= fp5_zero());
    }
}

/// (w + 0)^2 - (w^2 + 0^2) = 0 in both orders of the last sum: the cross
/// term 2 w z of the repeated doubling vanishes with z.
proof fn lemma_cross_term_zero(w: Seq<nat>)
    requires
        fp5_canonical(w),
    ensures
        fp5_sub(fp5_mul(fp5_add(w, fp5_zero()), fp5_add(w, fp5_zero())), fp5_add(fp5_mul(w, w), fp5_mul(fp5_zero(), fp5_zero())))
            == fp5_zero(),
        fp5_sub(fp5_mul(fp5_add(w, fp5_zero()), fp5_add(w, fp5_zero())), fp5_add(fp5_mul(fp5_zero(), fp5_zero()), fp5_mul(w, w)))
            == fp5_zero(),
{
    let t = fp5_mul(w, w);
    lemma_fp5_add_zero(w, w);
    lemma_fp5_mul_by_zero(fp5_zero());
    lemma_fp5_mul_canonical(w, w);
    lemma_fp5_add_zero(t, t);
    lemma_fp5_sub_facts(t, t);
}

/// While z is zero in the (x, w, z) state of repeated doubling, it stays
/// zero, and w stays canonical.
#[verifier::spinoff_prover]
proof fn lemma_m_double_iter_z_zero(p: PointView, k: nat)
    requires
        p.2 == fp5_zero(),
    ensures
        m_double_iter(p, k).2 == fp5_zero(),
        fp5_canonical(m_double_iter(p, k).1),
    decreases k,
{
    let zero = fp5_zero();
    if k == 0 {
        reveal(m_double_start);
        let (x0, z0, u0, t0) = p;
        let t1 = fp5_mul(z0, t0);
        let t2 = fp5_mul(t1, t0);
        let x1 = fp5_mul(t2, t2);
        let t3 = fp5_mul(u0, u0);
        let w1 = fp5_sub(t2, fp5_mul(fp5_double(fp5_add(x0, z0)), t3));
        lemma_fp5_mul_by_zero(t1);
        lemma_fp5_mul_by_zero(zero);
        lemma_fp5_sub_facts(t2, fp5_mul(fp5_double(fp5_add(x0, z0)), t3));
        lemma_cross_term_zero(w1);
        lemma_fp5_sub_facts(fp5_double(x1), fp5_add(fp5_mul(zero, fp5_small(4, 0)), fp5_mul(w1, w1)));
    } else {
        lemma_m_double_iter_z_zero(p, (k - 1) as nat);
        reveal(m_double_step);
        let (x, w, z) = m_double_iter(p, (k - 1) as nat);
        let t1 = fp5_mul(z, z);
        let t2 = fp5_mul(t1, t1);
        let t3 = fp5_mul(w, w);
        let t4 = fp5_mul(t3, t3);
        lemma_fp5_mul_by_zero(zero);
        lemma_cross_term_zero(w);
        lemma_fp5_mul_by_zero(fp5_sub(fp5_double(fp5_add(x, t1)), t3));
        lemma_fp5_sub_facts(zero, fp5_add(t4, fp5_mul(t2, fp5_sub(spec_b_mul4(), fp5_small(4, 0)))));
    }
}

/// Repeated doubling (five times) keeps u zero.
#[verifier::spinoff_prover]
proof fn lemma_m_double_keeps_u_zero(p: PointView)
    requires
        p.2 == fp5_zero(),
    ensures
        point_m_double(p, 5).2 == fp5_zero(),
{
    reveal(m_double_finish);
    lemma_m_double_iter_z_zero(p, 3);
    let (x, w, z) = m_double_iter(p, 3);
    lemma_fp5_mul_by_zero(fp5_zero());
    lemma_cross_term_zero(w);
    let t1 = fp5_mul(w, w);
    let t2 = fp5_mul(z, z);
    lemma_fp5_mul_by_zero(fp5_sub(t1, fp5_double(fp5_add(x, t2))));
}

/// The signed recoding of zero has only zero digits.
proof fn lemma_recode_zero(i: nat)
    ensures
        recode_digit(0, 5, i) == 0,
        recode_carry(0, 5, i) == 0,
    decreases i,
{
    lemma2_to64();
    if i > 0 {
        lemma_recode_zero((i - 1) as nat);
    }
    assert(recode_window(0, 5, i) == 0) by {
        lemma_pow2_pos(5 * i);
        lemma_div_basics_2(pow2(5 * i) as int);
        lemma_small_mod(0, pow2(5));
    }
    assert(recode_window(0, 5, i + 1) == 0) by {
        lemma_pow2_pos(5 * (i + 1));
        lemma_div_basics_2(pow2(5 * (i + 1)) as int);
        lemma_small_mod(0, pow2(5));
    }
}

/// The window-method product by zero keeps u zero at every step.
#[verifier::spinoff_prover]
proof fn lemma_mul_acc_zero(win: Seq<AffineView>, c: nat)
    ensures
        mul_acc(win, 0, c).2 == fp5_zero(),
    decreases c,
{
    lemma_recode_zero((63 - c) as nat);
    lemma_recode_zero(63);
    if c > 0 {
        lemma_mul_acc_zero(win, (c - 1) as nat);
        let q = point_m_double(mul_acc(win, 0, (c - 1) as nat), 5);
        lemma_m_double_keeps_u_zero(mul_acc(win, 0, (c - 1) as nat));
        lemma_add_affine_keeps_u_zero(q, window_lookup(win, 0));
    }
}

/// Adding an affine point with u = 0 to a point with u = 0 keeps u zero.
proof fn lemma_add_affine_keeps_u_zero(q: PointView, a: AffineView)
    requires
        q.2 == fp5_zero(),
        a.1 == fp5_zero(),
    ensures
        point_add_affine(q, a).2 == fp5_zero(),
{
    reveal(point_add_affine);
    lemma_fp5_mul_by_zero(q.3);
    lemma_fp5_add_zero(fp5_zero(), fp5_zero());
    let tt1 = fp5_mul(q.0, a.0);
    lemma_fp5_mul_by_zero(fp5_sub(fp5_mul(q.1, spec_b()), tt1));
}

/// Multiplying any point by zero gives a neutral point (u = 0), which is
/// what `is_neutral` tests.
pub proof fn lemma_mul_by_zero_is_neutral(p: PointView)
    ensures
        point_mul_spec(p, 0).2 == fp5_zero(),
{
    lemma_mul_acc_zero(window_affine(p), 63);
}

/// (a + b)(0 + 1) - (0 + b) = a, on canonical elements.
proof fn lemma_cross_with_neutral(a: Seq<nat>, b: Seq<nat>)
    requires
        fp5_canonical(a),
        fp5_canonical(b),
    ensures
        fp5_sub(fp5_mul(fp5_add(a, b), fp5_add(fp5_zero(), fp5_one())), fp5_add(fp5_zero(), b)) == a,
{
    lemma_fp5_add_zero(fp5_one(), fp5_one());
    lemma_fp5_add_zero(b, b);
    lemma_fp5_add_zero(a, b);
    lemma_fp5_mul_one_zero(fp5_add(a, b));
    lemma_fp5_add_sub(a, b);
}

/// Adding the neutral point (0, 1, 0, 1) gives back the same group element:
/// the u and t coordinates of the sum are those of p, both multiplied by the
/// same factor z B, so u / t is unchanged.
#[verifier::spinoff_prover]
#[verifier::rlimit(100)]
pub proof fn lemma_point_add_neutral(p: PointView)
    requires
        fp5_canonical(p.0),
        fp5_canonical(p.1),
        fp5_canonical(p.2),
        fp5_canonical(p.3),
    ensures
        point_add(p, point_neutral()).2 == fp5_mul(p.2, fp5_mul(p.1, spec_b())),
        point_add(p, point_neutral()).3 == fp5_mul(p.3, fp5_mul(p.1, spec_b())),
{
    let zero = fp5_zero();
    let one = fp5_one();
    let b = spec_b();
    let q = point_neutral();
    let m = fp5_mul(p.1, b);
    lemma_fp5_mul_one_zero(p.0);
    lemma_fp5_mul_one_zero(p.1);
    lemma_fp5_mul_one_zero(p.2);
    lemma_fp5_mul_one_zero(p.3);
    lemma_cross_with_neutral(p.2, p.3);
    lemma_fp5_mul_canonical(p.1, b);
    lemma_fp5_add_zero(m, m);
    let tt5 = fp5_sub(fp5_mul(fp5_add(p.0, p.1), fp5_add(q.0, q.1)), fp5_add(zero, p.1));
    let e = fp5_add(fp5_mul(tt5, spec_b_mul2()), fp5_double(m));
    lemma_fp5_mul_canonical(tt5, spec_b_mul2());
    lemma_fp5_add_zero(fp5_mul(tt5, spec_b_mul2()), fp5_double(m));
    lemma_fp5_mul_by_zero(e);
    let tt8 = fp5_mul(p.3, m);
    lemma_fp5_mul_canonical(p.3, m);
    lemma_fp5_add_zero(tt8, tt8);
    reveal(point_add);
}

/// Decoding then encoding gives back the input: whenever `w` is accepted,
/// the decoded point encodes to `w`.
pub proof fn lemma_decode_then_encode(w: Seq<nat>, root: Seq<nat>, c: bool)
    requires
        fp5_canonical(w),
    ensures
        point_decode_with(w, root, c).1 ==> point_encode(point_decode_with(w, root, c).0) == w,
{
    lemma_fp5_inverse_one();
    lemma_fp5_mul_one_zero(w);
    reveal(fp5_inverse);
    lemma_fp5_mul_one_zero(fp5_one());
}

/// Addition is commutative: the complete formula is symmetric in its two
/// points, coordinate for coordinate.
pub proof fn lemma_point_add_commutative(p: PointView, q: PointView)
    ensures
        point_add(p, q) == point_add(q, p),
{
    reveal(point_add);
    lemma_fp5_mul_commutative(p.0, q.0);
    lemma_fp5_mul_commutative(p.1, q.1);
    lemma_fp5_mul_commutative(p.2, q.2);
    lemma_fp5_mul_commutative(p.3, q.3);
    lemma_fp5_mul_commutative(fp5_add(p.0, p.1), fp5_add(q.0, q.1));
    lemma_fp5_mul_commutative(fp5_add(p.2, p.3), fp5_add(q.2, q.3));
    assert(fp5_add(fp5_mul(p.0, q.0), fp5_mul(p.1, q.1)) =~= fp5_add(fp5_mul(q.0, p.0), fp5_mul(q.1, p.1)));
    assert(fp5_add(fp5_mul(p.2, q.2), fp5_mul(p.3, q.3)) =~= fp5_add(fp5_mul(q.2, p.2), fp5_mul(q.3, p.3)));
}

/// Point doubling.
#[verifier::opaque]
pub open spec fn point_double(p: PointView) -> PointView {
    let (x, z, u, t) = p;
    let t1 = fp5_mul(z, t);
    let t2 = fp5_mul(t1, t);
    let x1 = fp5_mul(t2, t2);
    let z1 = fp5_mul(t1, u);
    let t3 = fp5_mul(u, u);
    let w1 = fp5_sub(t2, fp5_mul(t3, fp5_double(fp5_add(x, z))));
    let t4 = fp5_mul(z1, z1);
    let nz = fp5_mul(w1, w1);
    let wz = fp5_add(w1, z1);
    (
        fp5_mul(t4, spec_b_mul4()),
        nz,
        fp5_sub(fp5_mul(wz, wz), fp5_add(t4, nz)),
        fp5_sub(fp5_double(x1), fp5_add(fp5_mul(t4, fp5_small(4, 0)), nz)),
    )
}

/// The (x, w, z) state of repeated doubling after the first doubling.
#[verifier::opaque]
pub open spec fn m_double_start(p: PointView) -> (Seq<nat>, Seq<nat>, Seq<nat>) {
    let (x0, z0, u0, t0) = p;
    let t1 = fp5_mul(z0, t0);
    let t2 = fp5_mul(t1, t0);
    let x1 = fp5_mul(t2, t2);
    let z1 = fp5_mul(t1, u0);
    let t3 = fp5_mul(u0, u0);
    let w1 = fp5_sub(t2, fp5_mul(fp5_double(fp5_add(x0, z0)), t3));
    let t4 = fp5_mul(w1, w1);
    let t5 = fp5_mul(z1, z1);
    let wz = fp5_add(w1, z1);
    (
        fp5_mul(fp5_mul(t5, t5), spec_b_mul16()),
        fp5_sub(fp5_double(x1), fp5_add(fp5_mul(t5, fp5_small(4, 0)), t4)),
        fp5_sub(fp5_mul(wz, wz), fp5_add(t4, t5)),
    )
}

/// One more doubling on the (x, w, z) state.
#[verifier::opaque]
pub open spec fn m_double_step(s: (Seq<nat>, Seq<nat>, Seq<nat>)) -> (Seq<nat>, Seq<nat>, Seq<nat>) {
    let (x, w, z) = s;
    let t1 = fp5_mul(z, z);
    let t2 = fp5_mul(t1, t1);
    let t3 = fp5_mul(w, w);
    let t4 = fp5_mul(t3, t3);
    let wz = fp5_add(w, z);
    let t5 = fp5_sub(fp5_mul(wz, wz), fp5_add(t1, t3));
    (
        fp5_mul(fp5_mul(t2, t4), spec_b_mul16()),
        fp5_sub(fp5_zero(), fp5_add(t4, fp5_mul(t2, fp5_sub(spec_b_mul4(), fp5_small(4, 0))))),
        fp5_mul(t5, fp5_sub(fp5_double(fp5_add(x, t1)), t3)),
    )
}

/// The (x, w, z) state after `k` further doublings.
pub open spec fn m_double_iter(p: PointView, k: nat) -> (Seq<nat>, Seq<nat>, Seq<nat>)
    decreases k,
{
    if k == 0 {
        m_double_start(p)
    } else {
        m_double_step(m_double_iter(p, (k - 1) as nat))
    }
}

/// Back from the (x, w, z) state to (x, z, u, t) coordinates.
#[verifier::opaque]
pub open spec fn m_double_finish(s: (Seq<nat>, Seq<nat>, Seq<nat>)) -> PointView {
    let (x, w, z) = s;
    let t1 = fp5_mul(w, w);
    let t2 = fp5_mul(z, z);
    let wz = fp5_add(w, z);
    let t3 = fp5_sub(fp5_mul(wz, wz), fp5_add(t1, t2));
    let w1 = fp5_sub(t1, fp5_double(fp5_add(x, t2)));
    let nz = fp5_mul(w1, w1);
    (
        fp5_mul(fp5_mul(t3, t3), spec_b()),
        nz,
        fp5_mul(t3, w1),
        fp5_sub(fp5_mul(fp5_double(t1), fp5_sub(t1, fp5_double(t2))), nz),
    )
}

/// n doublings by the repeated-doubling formulas.
pub open spec fn point_m_double(p: PointView, n: nat) -> PointView {
    if n == 0 {
        p
    } else if n == 1 {
        point_double(p)
    } else {
        m_double_finish(m_double_iter(p, (n - 2) as nat))
    }
}

/// The encoding w = t / u (zero for the neutral point).
pub open spec fn point_encode(p: PointView) -> Seq<nat> {
    fp5_mul(p.3, fp5_inverse(p.2))
}

/// The views of a sequence of points.
pub open spec fn point_views(s: Seq<Point>) -> Seq<PointView> {
    s.map_values(|p: Point| p@)
}

/// Running product z_0 t_0 ... z_i t_i of a batch.
pub open spec fn batch_prefix(src: Seq<PointView>, i: nat) -> Seq<nat>
    decreases i,
{
    if i == 0 {
        fp5_mul(src[0].1, src[0].3)
    } else {
        fp5_mul(fp5_mul(batch_prefix(src, (i - 1) as nat), src[i as int].1), src[i as int].3)
    }
}

/// The inverse of the running product, carried back down to index i.
pub open spec fn batch_back(src: Seq<PointView>, i: nat) -> Seq<nat>
    decreases src.len() - i,
{
    if i + 1 >= src.len() {
        fp5_inverse(batch_prefix(src, i))
    } else {
        fp5_mul(fp5_mul(batch_back(src, i + 1), src[i + 1 as int].3), src[i + 1 as int].1)
    }
}

/// Entry i of the batch conversion to affine coordinates.
pub open spec fn batch_entry(src: Seq<PointView>, i: nat) -> AffineView {
    if src.len() == 1 {
        let m1 = fp5_inverse(fp5_mul(src[0].1, src[0].3));
        (fp5_mul(fp5_mul(src[0].0, src[0].3), m1), fp5_mul(fp5_mul(src[0].2, src[0].1), m1))
    } else if i == 0 {
        (
            fp5_mul(src[0].0, fp5_mul(batch_back(src, 0), src[0].3)),
            fp5_mul(fp5_mul(src[0].2, src[0].1), batch_back(src, 0)),
        )
    } else {
        let pm = batch_prefix(src, (i - 1) as nat);
        (
            fp5_mul(fp5_mul(src[i as int].0, pm), fp5_mul(batch_back(src, i), src[i as int].3)),
            fp5_mul(fp5_mul(src[i as int].2, fp5_mul(pm, src[i as int].1)), batch_back(src, i)),
        )
    }
}

/// The batch conversion of a sequence of points to affine coordinates.
pub open spec fn batch_affine(src: Seq<PointView>) -> Seq<AffineView> {
    Seq::new(src.len(), |i: int| batch_entry(src, i as nat))
}

/// Entry i of the projective window of p: p, 2p, 3p, ... built by
/// doubling at odd indices and adding p at even ones.
pub open spec fn window_entry(p: PointView, i: nat) -> PointView
    decreases i,
{
    if i == 0 {
        p
    } else if i % 2 == 0 {
        point_add(window_entry(p, (i - 1) as nat), p)
    } else {
        point_double(window_entry(p, i / 2))
    }
}

/// The affine window of 16 multiples of p.
pub open spec fn window_affine(p: PointView) -> Seq<AffineView> {
    batch_affine(Seq::new(16, |i: int| window_entry(p, i as nat)))
}

/// The window-method accumulator after handling the top `c + 1` signed
/// digits of 5 bits.
pub open spec fn mul_acc(win: Seq<AffineView>, v: nat, c: nat) -> PointView
    decreases c,
{
    if c == 0 {
        let a = window_lookup(win, recode_digit(v, 5, 63));
        (a.0, fp5_one(), a.1, fp5_one())
    } else {
        point_add_affine(
            point_m_double(mul_acc(win, v, (c - 1) as nat), 5),
            window_lookup(win, recode_digit(v, 5, (63 - c) as nat)),
        )
    }
}

/// The window-method product of p by the scalar whose limbs have value v.
pub open spec fn point_mul_spec(p: PointView, v: nat) -> PointView {
    mul_acc(window_affine(p), v, 63)
}

/// Number of base points of the comb.
pub const COMB_W: usize = 8;

/// Number of comb columns: ceil(319 / COMB_W).
pub const COMB_D: usize = (319 + COMB_W - 1) / COMB_W;

/// Number of entries of the comb table.
const COMB_TABLE_SIZE: usize = 256;

/// Comb base i: 2^(40 i) G, by repeated doubling.
pub open spec fn comb_base(i: nat) -> PointView
    decreases i,
{
    if i == 0 {
        point_generator()
    } else {
        point_m_double(comb_base((i - 1) as nat), 40)
    }
}

/// The projective comb entry for index a * 2^s: the bases of the set bits,
/// added from the highest to the lowest.
pub open spec fn comb_entry(a: nat, s: nat) -> PointView
    decreases a,
{
    if a == 0 {
        point_neutral()
    } else if a % 2 == 1 {
        point_add(comb_entry((a - 1) as nat, s), comb_base(s))
    } else {
        comb_entry(a / 2, s + 1)
    }
}

/// The affine comb table for G: entry a holds the sum of the bases 2^(40 i) G
/// over the set bits i of a.
pub open spec fn comb_table() -> Seq<AffineView> {
    batch_affine(Seq::new(256, |a: int| comb_entry(a as nat, 0)))
}

/// Bit `pos` of the limbs.
pub open spec fn limb_bit(l: Seq<u64>, pos: nat) -> nat {
    (l[(pos / 64) as int] as nat / pow2(pos % 64)) % 2
}

/// The table index of comb column j built from the first n bases: bit i is
/// bit j + 40 i of the limbs.
pub open spec fn comb_index(l: Seq<u64>, j: nat, n: nat) -> nat
    decreases n,
{
    if n == 0 {
        0
    } else {
        comb_index(l, j, (n - 1) as nat) + limb_bit(l, j + 40 * (n - 1) as nat) * pow2((n - 1) as nat)
    }
}

/// The comb accumulator after the top `c` columns.
pub open spec fn comb_acc(l: Seq<u64>, c: nat) -> PointView
    decreases c,
{
    if c == 0 {
        point_neutral()
    } else {
        let q = point_double(comb_acc(l, (c - 1) as nat));
        let v = comb_index(l, (40 - c) as nat, 8);
        if v > 0 {
            point_add_affine(q, comb_table()[v as int])
        } else {
            q
        }
    }
}


/// e = w^2 - A, the linear coefficient of the decoding quadratic.
pub open spec fn decode_e(w: Seq<nat>) -> Seq<nat> {
    fp5_sub(fp5_mul(w, w), spec_a())
}

/// The discriminant e^2 - 4B of the decoding quadratic.
pub open spec fn decode_delta(w: Seq<nat>) -> Seq<nat> {
    fp5_sub(fp5_mul(decode_e(w), decode_e(w)), spec_b_mul4())
}

/// The decoding of w given the outcome (r, c) of the square root of the
/// discriminant.
pub open spec fn point_decode_with(w: Seq<nat>, r: Seq<nat>, c: bool) -> (PointView, bool) {
    let e = decode_e(w);
    let half = fp5_inverse(fp5_small(2, 0));
    let x1 = fp5_mul(fp5_add(e, r), half);
    let x2 = fp5_mul(fp5_sub(e, r), half);
    let x = if fp5_legendre(x1) == 1 {
        x2
    } else {
        x1
    };
    if c {
        ((x, fp5_one(), fp5_one(), w), true)
    } else {
        (point_neutral(), w == fp5_zero())
    }
}

/// An ECgFp5 point in projective (x, z, u, t) coordinates.
#[derive(Debug, Clone, Copy)]
pub struct Point {
    pub x: Fp5,
    pub z: Fp5,
    pub u: Fp5,
    pub t: Fp5,
}

impl View for Point {
    type V = PointView;

    open spec fn view(&self) -> PointView {
        (self.x@, self.z@, self.u@, self.t@)
    }
}

/// The quintic constant c0 + c1 X for canonical c0, c1.
fn fp5_const(c0: u64, c1: u64) -> (r: Fp5)
    requires
        c0 < modulus(),
        c1 < modulus(),
    ensures
        r@ == fp5_small(c0 as nat, c1 as nat),
{
    let r = Fp5::from_u64_arr([c0, c1, 0, 0, 0]);
    proof {
        lemma_small_mod(c0 as nat, modulus());
        lemma_small_mod(c1 as nat, modulus());
        lemma_small_mod(0, modulus());
    }
    r
}

/// The curve constant A.
pub fn curve_a() -> (r: Fp5)
    ensures
        r@ == spec_a(),
{
    fp5_const(2, 0)
}

/// The curve constant B.
pub fn curve_b() -> (r: Fp5)
    ensures
        r@ == spec_b(),
{
    fp5_const(0, 263)
}

/// 2 B.
pub fn curve_b_mul2() -> (r: Fp5)
    ensures
        r@ == spec_b_mul2(),
{
    fp5_const(0, 526)
}

/// 4 B.
pub fn curve_b_mul4() -> (r: Fp5)
    ensures
        r@ == spec_b_mul4(),
{
    fp5_const(0, 1052)
}

/// 16 B.
fn curve_b_mul16() -> (r: Fp5)
    ensures
        r@ == spec_b_mul16(),
{
    fp5_const(0, 4208)
}

impl Point {
    /// The neutral point.
    pub fn neutral() -> (r: Self)
        ensures
            r@ == point_neutral(),
    {
        Point { x: Fp5::zero(), z: Fp5::one(), u: Fp5::zero(), t: Fp5::one() }
    }

    /// The conventional generator G.
    pub fn generator() -> (r: Self)
        ensures
            r@ == point_generator(),
    {
        let x = Fp5::from_u64_arr(
            [12883135586176881569, 4356519642755055268, 5248930565894896907, 2165973894480315022, 2448410071095648785],
        );
        proof {
            lemma_small_mod(12883135586176881569, modulus());
            lemma_small_mod(4356519642755055268, modulus());
            lemma_small_mod(5248930565894896907, modulus());
            lemma_small_mod(2165973894480315022, modulus());
            lemma_small_mod(2448410071095648785, modulus());
            assert(x@ =~= generator_x());
        }
        Point { x, z: Fp5::one(), u: Fp5::one(), t: fp5_const(4, 0) }
    }

    /// True for the neutral element, whose u coordinate is zero.
    pub fn is_neutral(&self) -> (r: bool)
        ensures
            r == (self.u@ == fp5_zero()),
    {
        self.u.is_zero()
    }

    /// Group equality: u1 t2 == u2 t1.
    pub fn equals(&self, other: &Self) -> (r: bool)
        ensures
            r == (fp5_mul(self.u@, other.t@) == fp5_mul(other.u@, self.t@)),
    {
        self.u.mul(&other.t) == other.u.mul(&self.t)
    }

    /// The encoding w = t / u.
    pub fn encode(&self) -> (r: Fp5)
        ensures
            r@ == point_encode(self@),
    {
        self.t.mul(&self.u.inverse_or_zero())
    }

    /// Complete addition.
    pub fn add(&self, rhs: &Self) -> (r: Self)
        ensures
            r@ == point_add(self@, rhs@),
    {
        proof { reveal(point_add); }
        let x1 = &self.x;
        let z1 = &self.z;
        let u1 = &self.u;
        let t1 = &self.t;
        let x2 = &rhs.x;
        let z2 = &rhs.z;
        let u2 = &rhs.u;
        let t2 = &rhs.t;
        let b = curve_b();
        let tt1 = x1.mul(x2);
        let tt2 = z1.mul(z2);
        let tt3 = u1.mul(u2);
        let tt4 = t1.mul(t2);
        let tt5 = x1.add(z1).mul(&x2.add(z2)).sub(&tt1.add(&tt2));
        let tt6 = u1.add(t1).mul(&u2.add(t2)).sub(&tt3.add(&tt4));
        let tt7 = tt1.add(&tt2.mul(&b));
        let tt8 = tt4.mul(&tt7);
        let tt9 = tt3.mul(&tt5.mul(&curve_b_mul2()).add(&tt7.double()));
        let tt10 = tt4.add(&tt3.double()).mul(&tt5.add(&tt7));
        Self { x: tt10.sub(&tt8).mul(&b), z: tt8.sub(&tt9), u: tt6.mul(&tt2.mul(&b).sub(&tt1)), t: tt8.add(&tt9) }
    }

    /// 2 self.
    pub fn double(&self) -> (r: Self)
        ensures
            r@ == point_double(self@),
    {
        let mut p = *self;
        p.set_double();
        p
    }

    /// Doubles in place.
    pub fn set_double(&mut self)
        ensures
            final(self)@ == point_double(old(self)@),
    {
        proof { reveal(point_double); }
        let x = self.x;
        let z = self.z;
        let u = self.u;
        let t = self.t;
        let t1 = z.mul(&t);
        let t2 = t1.mul(&t);
        let x1 = t2.square();
        let z1 = t1.mul(&u);
        let t3 = u.square();
        let w1 = t2.sub(&t3.mul(&x.add(&z).double()));
        let t4 = z1.square();
        let nz = w1.square();
        self.x = t4.mul(&curve_b_mul4());
        self.z = nz;
        self.u = w1.add(&z1).square().sub(&t4.add(&nz));
        self.t = x1.double().sub(&t4.mul(&fp5_const(4, 0)).add(&nz));
    }

    /// 2^n self.
    pub fn m_double(&self, n: u32) -> (r: Self)
        ensures
            r@ == point_m_double(self@, n as nat),
    {
        let mut p = *self;
        p.set_m_double(n);
        p
    }

    /// Doubles n times in place, with the cheaper repeated-doubling formulas
    /// when n is at least 2.
    pub fn set_m_double(&mut self, n: u32)
        ensures
            final(self)@ == point_m_double(old(self)@, n as nat),
    {
        if n == 0 {
            return ;
        }
        if n == 1 {
            self.set_double();
            return ;
        }
        let x0 = self.x;
        let z0 = self.z;
        let u0 = self.u;
        let t0 = self.t;
        let four = fp5_const(4, 0);
        let b_mul16 = curve_b_mul16();
        let t1 = z0.mul(&t0);
        let t2 = t1.mul(&t0);
        let x1_acc = t2.square();
        let z1_acc = t1.mul(&u0);
        let t3 = u0.square();
        let w1 = t2.sub(&x0.add(&z0).double().mul(&t3));
        let t4 = w1.square();
        let t5 = z1_acc.square();
        let mut x = t5.square().mul(&b_mul16);
        let mut w = x1_acc.double().sub(&t5.mul(&four).add(&t4));
        let mut z = w1.add(&z1_acc).square().sub(&t4.add(&t5));
        let ghost p0 = old(self)@;
        assert((x@, w@, z@) == m_double_iter(p0, 0)) by {
            reveal(m_double_start);
        }
        let b_mul4_minus_four = curve_b_mul4().sub(&four);
        for k in 2..n
            invariant
                (x@, w@, z@) == m_double_iter(p0, (k - 2) as nat),
                b_mul4_minus_four@ == fp5_sub(spec_b_mul4(), fp5_small(4, 0)),
                b_mul16@ == spec_b_mul16(),
        {
            let t1_n = z.square();
            let t2_n = t1_n.square();
            let t3_n = w.square();
            let t4_n = t3_n.square();
            let t5_n = w.add(&z).square().sub(&t1_n.add(&t3_n));
            z = t5_n.mul(&x.add(&t1_n).double().sub(&t3_n));
            x = t2_n.mul(&t4_n).mul(&b_mul16);
            w = Fp5::zero().sub(&t4_n.add(&t2_n.mul(&b_mul4_minus_four)));
            proof {
                reveal(m_double_step);
            }
        }
        let t1_f = w.square();
        let t2_f = z.square();
        let t3_f = w.add(&z).square().sub(&t1_f.add(&t2_f));
        let w1_f = t1_f.sub(&x.add(&t2_f).double());
        let nz = w1_f.square();
        self.x = t3_f.square().mul(&curve_b());
        self.z = nz;
        self.u = t3_f.mul(&w1_f);
        self.t = t1_f.double().mul(&t1_f.sub(&t2_f.double())).sub(&nz);
        proof {
            reveal(m_double_finish);
        }
    }

    /// Mixed addition with an affine point.
    pub fn add_affine(&self, rhs: &AffinePoint) -> (r: Self)
        ensures
            r@ == point_add_affine(self@, rhs@),
            r@ == point_add(self@, (rhs.x@, fp5_one(), rhs.u@, fp5_one())),
    {
        proof {
            reveal(point_add_affine);
            lemma_fp5_view_canonical(self.x);
            lemma_fp5_view_canonical(self.z);
            lemma_fp5_view_canonical(self.u);
            lemma_fp5_view_canonical(self.t);
            lemma_fp5_view_canonical(rhs.x);
            lemma_fp5_view_canonical(rhs.u);
            lemma_add_affine_is_add(self@, rhs@);
        }
        let x1 = &self.x;
        let z1 = &self.z;
        let u1 = &self.u;
        let t1 = &self.t;
        let x2 = &rhs.x;
        let u2 = &rhs.u;
        let b = curve_b();
        let tt1 = x1.mul(x2);
        let tt2 = *z1;
        let tt3 = u1.mul(u2);
        let tt4 = *t1;
        let tt5 = x1.add(&x2.mul(z1));
        let tt6 = u1.add(&u2.mul(t1));
        let tt7 = tt1.add(&tt2.mul(&b));
        let tt8 = tt4.mul(&tt7);
        let tt9 = tt3.mul(&tt5.mul(&curve_b_mul2()).add(&tt7.double()));
        let tt10 = tt4.add(&tt3.double()).mul(&tt5.add(&tt7));
        Self { x: tt10.sub(&tt8).mul(&b), u: tt6.mul(&tt2.mul(&b).sub(&tt1)), z: tt8.sub(&tt9), t: tt8.add(&tt9) }
    }

    /// Decodes w into a point; the flag is false when w encodes no point.
    pub fn decode(w: &Fp5) -> (r: (Self, bool))
        ensures
            (r.0@, r.1) == point_decode_with(
                w@,
                canonical_root(decode_delta(w@)),
                euler_square(fp5_sqrt_g(decode_delta(w@))),
            ),
            exists|root: Seq<nat>, c: bool|
                canonical_sqrt_outcome(decode_delta(w@), root, c) && (r.0@, r.1) == point_decode_with(
                    w@,
                    root,
                    c,
                ),
            !r.1 ==> r.0@ == point_neutral(),
            r.1 ==> point_encode(r.0@) == w@,
    {
        proof {
            lemma_fp5_view_canonical(*w);
            lemma_decode_then_encode(w@, canonical_root(decode_delta(w@)), euler_square(fp5_sqrt_g(decode_delta(w@))));
        }
        let e = w.square().sub(&curve_a());
        let delta = e.square().sub(&curve_b_mul4());
        let (r, c) = delta.canonical_sqrt();
        let x1 = e.add(&r).mul(&fp5_const(2, 0).inverse_or_zero());
        let x2 = e.sub(&r).mul(&fp5_const(2, 0).inverse_or_zero());
        let mut x = x1;
        let x1_legendre = x1.legendre();
        if x1_legendre.canonical() == 1 {
            x = x2;
        }
        if !c {
            x = Fp5::zero();
        }
        let z = Fp5::one();
        let mut u = Fp5::one();
        if !c {
            u = Fp5::zero();
        }
        let mut t = *w;
        if !c {
            t = Fp5::one();
        }
        let res = if c || w.is_zero() {
            (Self { x, z, u, t }, true)
        } else {
            (Self::neutral(), false)
        };
        proof {
            assert(canonical_sqrt_outcome(decode_delta(w@), r@, c));
            assert((res.0@, res.1) == point_decode_with(w@, r@, c));
        }
        res
    }

    /// Fixed-base multiplication k G with the comb table.
    #[verifier::spinoff_prover]
    #[verifier::rlimit(40)]
    pub fn mul_generator(scalar: &Scalar) -> (r: Self)
        ensures
            r@ == comb_acc(scalar.0@, 40),
    {
        let table = generator_comb();
        let limbs = scalar.0;
        let mut p = Self::neutral();
        let mut j: usize = COMB_D;
        while j > 0
            invariant
                j <= 40,
                affine_views(table@) == comb_table(),
                table@.len() == 256,
                limbs@ == scalar.0@,
                p@ == comb_acc(scalar.0@, (40 - j) as nat),
            decreases j,
        {
            j -= 1;
            p = p.double();
            let mut v: usize = 0;
            proof {
                lemma2_to64();
            }
            for i in 0..COMB_W
                invariant
                    j < 40,
                    limbs@ == scalar.0@,
                    v == comb_index(scalar.0@, j as nat, i as nat),
                    v < pow2(i as nat),
            {
                proof {
                    assert(i * COMB_D <= 280 && i * COMB_D == 40 * i) by (nonlinear_arith)
                        requires
                            i < 8,
                            COMB_D == 40,
                    ;
                }
                let bit_pos = j + i * COMB_D;
                proof {
                    lemma_u64_shr_is_div(limbs[(bit_pos / 64) as int], (bit_pos % 64) as u64);
                    assert(limb_bit(scalar.0@, (j + 40 * i) as nat) == (limbs[(bit_pos / 64) as int] as nat / pow2((bit_pos % 64) as nat)) % 2);
                    let sh = limbs[(bit_pos / 64) as int] >> ((bit_pos % 64) as u64);
                    assert(sh & 1 == sh % 2) by (bit_vector);
                    lemma_pow2_adds(i as nat, 1);
                    lemma2_to64();
                    lemma_pow2_strictly_increases(i as nat, 8);
                    lemma_usize_shl_is_mul(1, i);
                    assert(v < (1usize << i) ==> v | (1usize << i) == v + (1usize << i)) by (bit_vector);
                }
                let ghost v0 = v;
                let ghost bit = limb_bit(scalar.0@, (j + 40 * i) as nat);
                if bit_pos < 320 && (limbs[bit_pos / 64] >> (bit_pos % 64) as u64) & 1 == 1 {
                    v |= 1 << i;
                }
                proof {
                    assert(bit == 0 || bit == 1);
                    assert(bit * pow2(i as nat) == if bit == 1 { pow2(i as nat) as int } else { 0 }) by (nonlinear_arith)
                        requires
                            bit == 0 || bit == 1,
                    ;
                    assert(comb_index(scalar.0@, j as nat, (i + 1) as nat) == comb_index(scalar.0@, j as nat, i as nat) + bit
                        * pow2(i as nat));
                }
            }
            proof {
                lemma2_to64();
            }
            if v > 0 {
                p = p.add_affine(&table[v]);
            }
        }
        p
    }

    /// The 16-entry affine window of multiples of self used by `mul`.
    pub fn make_window_affine(&self) -> (r: Vec<AffinePoint>)
        ensures
            affine_views(r@) == window_affine(self@),
    {
        let mut tmp: Vec<Point> = Vec::new();
        tmp.push(*self);
        for i in 1..16usize
            invariant
                tmp@.len() == i,
                forall|k: int| 0 <= k < i ==> #[trigger] tmp@[k]@ == window_entry(self@, k as nat),
        {
            proof {
                assert((i & 1) == i % 2) by (bit_vector);
                assert((i >> 1usize) == i / 2) by (bit_vector);
            }
            let next = if (i & 1) == 0 {
                tmp[i - 1].add(self)
            } else {
                tmp[i >> 1usize].double()
            };
            tmp.push(next);
        }
        assert(point_views(tmp@) =~= Seq::new(16, |i: int| window_entry(self@, i as nat)));
        batch_to_affine(&tmp)
    }

    /// Window-method scalar multiplication with 5-bit signed digits.
    pub fn mul(&self, scalar: &Scalar) -> (r: Self)
        ensures
            r@ == point_mul_spec(self@, limbs_seq_value(scalar.0@)),
    {
        let win = self.make_window_affine();
        let mut digits = [0i32; 64];
        scalar.recode_signed(&mut digits, 5);
        let ghost v = limbs_seq_value(scalar.0@);
        proof {
            lemma_recode_sum(v, 5, 64);
        }
        proof {
            vstd::arithmetic::power2::lemma2_to64();
            assert(affine_views(win@).len() == win@.len());
            assert(win@.len() == 16);
            assert(-16 < recode_digit(v, 5, 63) <= 16);
        }
        let mut p = AffinePoint::lookup_var_time(win.as_slice(), digits[63]).to_point();
        let mut c: usize = 1;
        while c < 64
            invariant
                1 <= c <= 64,
                affine_views(win@) == window_affine(self@),
                win@.len() == 16,
                digits@.len() == 64,
                forall|k: int| 0 <= k < 64 ==> #[trigger] digits@[k] == recode_digit(v, 5, k as nat),
                p@ == mul_acc(window_affine(self@), v, (c - 1) as nat),
            decreases 64 - c,
        {
            let d = digits[63 - c];
            p = mul_step(&p, win.as_slice(), d);
            c += 1;
        }
        p
    }
}

/// Index a as a * 2^j pushes the same entry to a higher base.
proof fn lemma_comb_entry_shift(a: nat, j: nat, s: nat)
    requires
        a > 0,
    ensures
        comb_entry(a * pow2(j), s) == comb_entry(a, s + j),
    decreases j,
{
    if j == 0 {
        lemma2_to64();
        assert(a * pow2(0) == a);
    } else {
        let k = a * pow2((j - 1) as nat);
        lemma_pow2_adds((j - 1) as nat, 1);
        lemma2_to64();
        lemma_pow2_pos((j - 1) as nat);
        assert(a * pow2(j) == 2 * k) by (nonlinear_arith)
            requires
                pow2(j) == pow2((j - 1) as nat) * 2,
                k == a * pow2((j - 1) as nat),
        ;
        assert(k > 0) by (nonlinear_arith)
            requires
                a > 0,
                pow2((j - 1) as nat) > 0,
                k == a * pow2((j - 1) as nat),
        ;
        assert((2 * k) % 2 == 0 && (2 * k) / 2 == k);
        lemma_comb_entry_shift(a, (j - 1) as nat, s + 1);
        assert(s + 1 + (j - 1) as nat == s + j);
    }
}

/// The projective comb table and the bases it is built from.
fn generator_comb() -> (r: Vec<AffinePoint>)
    ensures
        affine_views(r@) == comb_table(),
        r@.len() == 256,
{
    let mut bases: Vec<Point> = Vec::new();
    bases.push(Point::generator());
    for i in 1..COMB_W
        invariant
            bases@.len() == i,
            forall|k: int| 0 <= k < i ==> #[trigger] bases@[k]@ == comb_base(k as nat),
    {
        let b = bases[i - 1].m_double(COMB_D as u32);
        bases.push(b);
    }
    let mut table_proj: Vec<Point> = Vec::new();
    table_proj.push(Point::neutral());
    for a in 1..COMB_TABLE_SIZE
        invariant
            bases@.len() == 8,
            forall|k: int| 0 <= k < 8 ==> #[trigger] bases@[k]@ == comb_base(k as nat),
            table_proj@.len() == a,
            forall|k: int| 0 <= k < a ==> #[trigger] table_proj@[k]@ == comb_entry(k as nat, 0),
    {
        let mut lsb: usize = 0;
        let mut t: usize = a;
        proof {
            lemma2_to64();
        }
        while t % 2 == 0
            invariant
                t > 0,
                lsb < 8,
                1 <= a < 256,
                t * pow2(lsb as nat) == a,
            decreases t,
        {
            proof {
                lemma_pow2_adds(lsb as nat, 1);
                lemma2_to64();
                assert(t * pow2(lsb as nat) == (t / 2) * pow2((lsb + 1) as nat)) by (nonlinear_arith)
                    requires
                        t % 2 == 0,
                        pow2((lsb + 1) as nat) == pow2(lsb as nat) * 2,
                ;
                if lsb + 1 >= 8 {
                    assert(lsb + 1 == 8);
                    assert((t / 2) * pow2((lsb + 1) as nat) >= 256) by (nonlinear_arith)
                        requires
                            t / 2 >= 1,
                            pow2((lsb + 1) as nat) == 256,
                    ;
                }
            }
            t = t / 2;
            lsb += 1;
        }
        proof {
            lemma_usize_shl_is_mul(1, lsb);
            lemma_pow2_pos(lsb as nat);
            assert(a - pow2(lsb as nat) == (t - 1) * pow2(lsb as nat)) by (nonlinear_arith)
                requires
                    t * pow2(lsb as nat) == a,
            ;
            lemma_comb_entry_shift(t as nat, lsb as nat, 0);
            if t > 1 {
                lemma_comb_entry_shift((t - 1) as nat, lsb as nat, 0);
            } else {
                assert((t - 1) * pow2(lsb as nat) == 0);
            }
            assert(comb_entry(a as nat, 0) == comb_entry(t as nat, lsb as nat));
            assert(t % 2 == 1);
            assert(comb_entry(t as nat, lsb as nat) == point_add(comb_entry((t - 1) as nat, lsb as nat), comb_base(lsb as nat)));
            assert(comb_entry((t - 1) as nat, lsb as nat) == comb_entry((a - pow2(lsb as nat)) as nat, 0));
            assert(comb_entry(a as nat, 0) == point_add(comb_entry((a - pow2(lsb as nat)) as nat, 0), comb_base(lsb as nat)));
        }
        let prev = a - (1usize << lsb);
        let entry = table_proj[prev].add(&bases[lsb]);
        table_proj.push(entry);
    }
    assert(point_views(table_proj@) =~= Seq::new(256, |a: int| comb_entry(a as nat, 0)));
    let r = batch_to_affine(&table_proj);
    assert(affine_views(r@).len() == r@.len());
    r
}

/// One window step: five doublings, then the addition of the looked-up
/// entry.
fn mul_step(p: &Point, win: &[AffinePoint], d: i32) -> (r: Point)
    requires
        win@.len() <= 0xFFFF_FFFF,
    ensures
        r@ == point_add_affine(point_m_double(p@, 5), window_lookup(affine_views(win@), d as int)),
{
    let mut q = *p;
    q.set_m_double(5);
    let lookup = AffinePoint::lookup(win, d);
    q.add_affine(&lookup)
}

/// One step of the backward pass of the batch conversion: finishes entry
/// `i` and carries the inverse down.
fn batch_back_step(p: &Point, e: AffinePoint, m: Fp5) -> (r: (AffinePoint, Fp5))
    ensures
        r.0@ == (fp5_mul(fp5_mul(p.x@, e.x@), fp5_mul(m@, p.t@)), fp5_mul(fp5_mul(p.u@, e.u@), m@)),
        r.1@ == fp5_mul(fp5_mul(m@, p.t@), p.z@),
{
    let mut e = e;
    let mut m = m;
    e.u = p.u.mul(&e.u).mul(&m);
    m = m.mul(&p.t);
    e.x = p.x.mul(&e.x).mul(&m);
    m = m.mul(&p.z);
    (e, m)
}

/// Converts points to affine coordinates with a single inversion
/// (Montgomery's batch trick).
pub fn batch_to_affine(src: &[Point]) -> (r: Vec<AffinePoint>)
    ensures
        affine_views(r@) == batch_affine(point_views(src@)),
{
    let n = src.len();
    let ghost sv = point_views(src@);
    if n == 0 {
        let r: Vec<AffinePoint> = Vec::new();
        assert(affine_views(r@) =~= batch_affine(sv));
        return r;
    }
    if n == 1 {
        let p = src[0];
        let m1 = p.z.mul(&p.t).inverse_or_zero();
        let mut r: Vec<AffinePoint> = Vec::new();
        r.push(AffinePoint::new(p.x.mul(&p.t).mul(&m1), p.u.mul(&p.z).mul(&m1)));
        assert(affine_views(r@) =~= batch_affine(sv));
        return r;
    }
    let mut res: Vec<AffinePoint> = Vec::new();
    res.push(AffinePoint::neutral());
    let mut m = src[0].z.mul(&src[0].t);
    for i in 1..n
        invariant
            n == src@.len(),
            n >= 2,
            sv == point_views(src@),
            res@.len() == i,
            m@ == batch_prefix(sv, (i - 1) as nat),
            forall|k: int| 1 <= k < i ==> #[trigger] res@[k]@ == (
                batch_prefix(sv, (k - 1) as nat),
                fp5_mul(batch_prefix(sv, (k - 1) as nat), sv[k].1),
            ),
    {
        let x = m;
        m = m.mul(&src[i].z);
        let u = m;
        m = m.mul(&src[i].t);
        res.push(AffinePoint::new(x, u));
    }
    m = m.inverse_or_zero();
    let mut i = n - 1;
    while i >= 1
        invariant
            n == src@.len(),
            n >= 2,
            sv == point_views(src@),
            res@.len() == n,
            1 <= i + 1 <= n,
            m@ == batch_back(sv, i as nat),
            forall|k: int| 1 <= k <= i ==> #[trigger] res@[k]@ == (
                batch_prefix(sv, (k - 1) as nat),
                fp5_mul(batch_prefix(sv, (k - 1) as nat), sv[k].1),
            ),
            forall|k: int| i < k < n ==> #[trigger] res@[k]@ == batch_entry(sv, k as nat),
        decreases i,
    {
        let ghost old_res = res@;
        let (e, m2) = batch_back_step(&src[i], res[i], m);
        proof {
            assert(sv[i as int] == src@[i as int]@);
            assert(old_res[i as int]@ == (
                batch_prefix(sv, (i - 1) as nat),
                fp5_mul(batch_prefix(sv, (i - 1) as nat), sv[i as int].1),
            ));
            assert(e@ == batch_entry(sv, i as nat));
        }
        m = m2;
        res.set(i, e);
        i -= 1;
    }
    let mut e0 = res[0];
    e0.u = src[0].u.mul(&src[0].z).mul(&m);
    m = m.mul(&src[0].t);
    e0.x = src[0].x.mul(&m);
    res.set(0, e0);
    assert(affine_views(res@) =~= batch_affine(sv));
    res
}

} // verus!
