use vstd::prelude::*;
use vstd::arithmetic::div_mod::*;
use vstd::arithmetic::mul::*;
use vstd::arithmetic::power2::*;
use vstd::bits::*;
use crate::field::goldilocks::{modulus, u64_le_bytes, lemma_u64_le_bytes_roundtrip, lemma_u64_from_le_bytes_roundtrip};
use crate::field::quintic::{Fp5, le_word};

verus! {

/// 2^64, the weight of one limb.
#[verifier::inline]
pub open spec fn limb_base() -> int {
    0x1_0000_0000_0000_0000
}

/// 2^320, the Montgomery radix R.
#[verifier::inline]
pub open spec fn mont_radix() -> int {
    2135987035920910082395021706169552114602704522356652769947041607822219725780640550022962086936576int
}

/// The prime order n of the ECgFp5 group.
#[verifier::inline]
pub open spec fn group_order() -> int {
    1067993516717146951041484916571792702745057740581727230159139685185762082554198619328292418486241int
}

/// R^-1 mod n.
#[verifier::inline]
pub open spec fn mont_radix_inv() -> int {
    519679583025372136018720917052386563050428570135014399121072568572014882575672595950654573385832int
}

/// The integer whose little-endian 64-bit limbs are the first five of `l`.
pub open spec fn limbs_value(l: Seq<u64>) -> int {
    limbs5(l[0] as int, l[1] as int, l[2] as int, l[3] as int, l[4] as int)
}

/// a + b 2^64 + c 2^128 + d 2^192 + e 2^256.
pub open spec fn limbs5(a: int, b: int, c: int, d: int, e: int) -> int {
    a + 0x1_0000_0000_0000_0000int * b + 0x1_0000_0000_0000_0000_0000_0000_0000_0000int * c
        + 0x1_0000_0000_0000_0000_0000_0000_0000_0000_0000_0000_0000_0000int * d
        + 0x1_0000_0000_0000_0000_0000_0000_0000_0000_0000_0000_0000_0000_0000_0000_0000_0000int * e
}

/// The integer whose little-endian 64-bit limbs are all of `l`.
pub open spec fn limbs_seq_value(l: Seq<u64>) -> nat
    decreases l.len(),
{
    if l.len() == 0 {
        0
    } else {
        (l[0] as nat) + 0x1_0000_0000_0000_0000nat * limbs_seq_value(l.drop_first())
    }
}

/// The five little-endian 64-bit words of a 40-byte string.
pub open spec fn bytes_limbs(b: Seq<u8>) -> Seq<u64> {
    seq![le_word(b, 0), le_word(b, 1), le_word(b, 2), le_word(b, 3), le_word(b, 4)]
}

/// The 40 little-endian bytes of five 64-bit limbs.
pub open spec fn limbs_le_bytes(l: Seq<u64>) -> Seq<u8> {
    u64_le_bytes(l[0]) + u64_le_bytes(l[1]) + u64_le_bytes(l[2]) + u64_le_bytes(l[3]) + u64_le_bytes(l[4])
}

/// The scalar that a quintic element stands for: its canonical coefficients
/// read as the limbs of an integer, reduced mod n.
pub open spec fn fp5_scalar_value(a: Seq<nat>) -> int {
    (a[0] + 0x1_0000_0000_0000_0000int * a[1] + 0x1_0000_0000_0000_0000_0000_0000_0000_0000int * a[2]
        + 0x1_0000_0000_0000_0000_0000_0000_0000_0000_0000_0000_0000_0000int * a[3]
        + 0x1_0000_0000_0000_0000_0000_0000_0000_0000_0000_0000_0000_0000_0000_0000_0000_0000int * a[4])
        % group_order()
}

/// The `i`-th window of `w` bits of `v`.
pub open spec fn recode_window(v: nat, w: nat, i: nat) -> nat {
    (v / pow2(w * i)) % pow2(w)
}

/// The carry into window `i` of the signed recoding of `v`: 1 when the
/// previous window plus its own carry exceeded 2^(w-1).
pub open spec fn recode_carry(v: nat, w: nat, i: nat) -> nat
    decreases i,
{
    if i == 0 {
        0
    } else if recode_window(v, w, (i - 1) as nat) + recode_carry(v, w, (i - 1) as nat) > pow2((w - 1) as nat) {
        1
    } else {
        0
    }
}

/// Digit `i` of the signed recoding of `v` in windows of `w` bits: the window
/// plus its carry in, minus 2^w when a carry goes out.
pub open spec fn recode_digit(v: nat, w: nat, i: nat) -> int {
    recode_window(v, w, i) + recode_carry(v, w, i) - recode_carry(v, w, i + 1) * pow2(w)
}

/// Digit `k` (4 bits each, least significant first) of the limbs `l`.
pub open spec fn nibble(l: Seq<u64>, k: int) -> nat {
    (l[k / 16] as nat / pow2((4 * (k % 16)) as nat)) % 16
}

/// A scalar of the ECgFp5 group as five little-endian 64-bit limbs, not
/// necessarily reduced below n.
#[derive(Debug, Clone, Copy)]
pub struct Scalar(pub [u64; 5]);

impl View for Scalar {
    type V = int;

    open spec fn view(&self) -> int {
        limbs_value(self.0@)
    }
}

/// Every five-limb value lies in [0, 2^320).
pub proof fn lemma_limbs_value_bounds(l: Seq<u64>)
    ensures
        0 <= limbs_value(l),
        limbs_value(l) < mont_radix(),
{
    let (a, b, c, d, e) = (l[0] as int, l[1] as int, l[2] as int, l[3] as int, l[4] as int);
    assert(0 <= a < 0x1_0000_0000_0000_0000int && 0 <= b < 0x1_0000_0000_0000_0000int);
    assert(0 <= c < 0x1_0000_0000_0000_0000int && 0 <= d < 0x1_0000_0000_0000_0000int);
    assert(0 <= e < 0x1_0000_0000_0000_0000int);
    assert(0 <= limbs5(a, b, c, d, e));
}

/// `lo` and `hi` split a value of at most 128 bits.
proof fn lemma_split_u128(z: u128)
    ensures
        z == ((z >> 64u32) as u64) as u128 * 0x1_0000_0000_0000_0000u128 + (z as u64) as u128,
{
    assert(z == ((z >> 64u32) as u64) as u128 * 0x1_0000_0000_0000_0000u128 + (z as u64) as u128)
        by (bit_vector);
}

/// Add with carry: a + b + c as a low word and a carry bit.
fn adc(a: u64, b: u64, c: u64) -> (r: (u64, u64))
    requires
        c <= 1,
    ensures
        r.0 + r.1 * limb_base() == a + b + c,
        r.1 <= 1,
{
    let sum = (a as u128) + (b as u128) + (c as u128);
    proof { lemma_split_u128(sum); }
    (sum as u64, (sum >> 64u32) as u64)
}

/// Subtract with borrow: a - b - c as a low word and a borrow bit.
fn sbb(a: u64, b: u64, c: u64) -> (r: (u64, u64))
    requires
        c <= 1,
    ensures
        r.0 - r.1 * limb_base() == a - b - c,
        r.1 <= 1,
{
    let bc: u128 = (b as u128) + (c as u128);
    let diff = (a as u128).wrapping_sub(bc);
    let lo = diff as u64;
    let borrow = ((diff >> 64u32) & 1) as u64;
    proof {
        if (a as u128) >= bc {
            assert(diff < 0x1_0000_0000_0000_0000u128);
            assert(diff < 0x1_0000_0000_0000_0000u128 ==> (diff as u64) as u128 == diff && ((diff >> 64u32)
                & 1) as u64 == 0) by (bit_vector);
        } else {
            assert(diff >= 0xFFFF_FFFF_FFFF_FFFF_0000_0000_0000_0000u128);
            assert(diff >= 0xFFFF_FFFF_FFFF_FFFF_0000_0000_0000_0000u128 ==> (diff as u64) as u128 == diff
                - 0xFFFF_FFFF_FFFF_FFFF_0000_0000_0000_0000u128 && ((diff >> 64u32) & 1) as u64 == 1)
                by (bit_vector);
        }
    }
    (lo, borrow)
}

/// Multiply-accumulate: a * b + c + d as a low word and a high word.
fn mac(a: u64, b: u64, c: u64, d: u64) -> (r: (u64, u64))
    ensures
        r.0 + r.1 * limb_base() == a * b + c + d,
{
    proof {
        assert((a as int) * (b as int) <= 0xFFFF_FFFF_FFFF_FFFE_0000_0000_0000_0001int) by (nonlinear_arith)
            requires
                a <= 0xFFFF_FFFF_FFFF_FFFFu64,
                b <= 0xFFFF_FFFF_FFFF_FFFFu64,
        ;
    }
    let z = (a as u128) * (b as u128) + (c as u128) + (d as u128);
    proof { lemma_split_u128(z); }
    (z as u64, (z >> 64u32) as u64)
}

/// Distributes a product over the limbs of a five-limb value.
proof fn lemma_limbs_mul(l: Seq<u64>, m: int)
    ensures
        limbs_value(l) * m == limbs5(l[0] * m, (l[1] as int) * m, (l[2] as int) * m, (l[3] as int) * m,
            (l[4] as int) * m),
{
    let (l0, l1, l2, l3, l4) = (l[0] as int, l[1] as int, l[2] as int, l[3] as int, l[4] as int);
    assert(limbs5(l0, l1, l2, l3, l4) * m == limbs5(l0 * m, l1 * m, l2 * m, l3 * m, l4 * m)) by (nonlinear_arith);
}

/// A limb-wise lexicographic comparison decides the order of the values.
proof fn lemma_limbs_lt(a: Seq<u64>, b: Seq<u64>, i: usize)
    requires
        a.len() == 5,
        b.len() == 5,
        0 <= i < 5,
        forall|j: int| i < j < 5 ==> a[j] == b[j],
        a[i as int] < b[i as int],
    ensures
        limbs_value(a) < limbs_value(b),
{
    if i == 4 {
    } else if i == 3 {
        assert(a[4] == b[4]);
    } else if i == 2 {
        assert(a[4] == b[4] && a[3] == b[3]);
    } else if i == 1 {
        assert(a[4] == b[4] && a[3] == b[3] && a[2] == b[2]);
    } else {
        assert(a[4] == b[4] && a[3] == b[3] && a[2] == b[2] && a[1] == b[1]);
    }
}

/// The final step of a Montgomery product: a value congruent to s * x / R and
/// reduced below n is (s * x * R^-1) mod n.
proof fn lemma_monty_result(r5: int, s: int, x: int, f: int, res: int)
    requires
        r5 * mont_radix() == s * x + f * group_order(),
        0 <= res < group_order(),
        res == r5 || res == r5 - group_order(),
    ensures
        res == (s * x * mont_radix_inv()) % group_order(),
{
    let n = group_order();
    let rr = mont_radix();
    let ri = mont_radix_inv();
    let k: int = 1039359167260717590696599325547606117965219543546020577794144734752045881184434381811341443431391int;
    assert(mont_radix() * mont_radix_inv() == 1 + 1039359167260717590696599325547606117965219543546020577794144734752045881184434381811341443431391int * group_order()) by (nonlinear_arith);
    assert(rr * ri == 1 + k * n);
    lemma_mul_mod_noop_left(s * x, ri, n);
    lemma_mod_multiples_vanish(-f, r5 * rr, n);
    assert(s * x == r5 * rr + (-f) * n);
    lemma_mul_mod_noop_left(r5 * rr, ri, n);
    assert((r5 * rr) * ri == r5 + (r5 * k) * n) by (nonlinear_arith)
        requires
            rr * ri == 1 + k * n,
    ;
    lemma_mod_multiples_vanish(r5 * k, r5, n);
    if res == r5 - n {
        lemma_mod_multiples_vanish(1, res, n);
    }
    lemma_small_mod(res as nat, n as nat);
}

/// Two Montgomery products, by R^2 and then by x, give s * x mod n.
proof fn lemma_mont_mul_chain(s: int, x: int, r2: int, sm: int)
    requires
        r2 == 624019960623364527448457231688836422125560607095429164912527378834797040967609741804725967111993int,
        sm == (s * r2 * mont_radix_inv()) % group_order(),
    ensures
        (sm * x * mont_radix_inv()) % group_order() == (s * x) % group_order(),
{
    let n = group_order();
    let ri = mont_radix_inv();
    let c: int = r2 * ri * ri;
    let k: int = 157797883909876026923475749439915926736332881728234858048252069674462426899801053648479969566976842608005345184744734330969630649291418848024126501696832070159828034924995426726135094823234591int;
    assert(624019960623364527448457231688836422125560607095429164912527378834797040967609741804725967111993int * mont_radix_inv() * mont_radix_inv() == 1 + 157797883909876026923475749439915926736332881728234858048252069674462426899801053648479969566976842608005345184744734330969630649291418848024126501696832070159828034924995426726135094823234591int * group_order()) by (nonlinear_arith);
    assert(c == 1 + k * n);
    assert(sm * x * ri == sm * (x * ri)) by (nonlinear_arith);
    lemma_mul_mod_noop_left(s * r2 * ri, x * ri, n);
    assert((s * r2 * ri) * (x * ri) == s * x + (s * x * k) * n) by (nonlinear_arith)
        requires
            r2 * ri * ri == 1 + k * n,
    ;
    lemma_mod_multiples_vanish(s * x * k, s * x, n);
}

/// The Montgomery factor f = lo * N0I mod 2^64 clears the low word: lo + f * n[0]
/// is a multiple of 2^64.
proof fn lemma_n0i(lo: int, f: int)
    requires
        0 <= lo < limb_base(),
        f == (lo * 0xD78BEF72057B7BDF) % limb_base(),
    ensures
        (f * 0xE80FD996948BFFE1 + lo) % limb_base() == 0,
{
    let b = limb_base();
    let n0: int = 0xE80FD996948BFFE1;
    let ni: int = 0xD78BEF72057B7BDF;
    let k: int = 14079423856413439182int;
    assert(ni * n0 == k * b - 1);
    lemma_mul_mod_noop_left(lo * ni, n0, b);
    assert((lo * ni) * n0 + lo == (lo * k) * b) by (nonlinear_arith)
        requires
            ni * n0 == k * b - 1,
    ;
    lemma_add_mod_noop(f * n0, lo, b);
    lemma_add_mod_noop((lo * ni) * n0, lo, b);
    lemma_small_mod(lo as nat, b as nat);
    lemma_mod_multiples_basic(lo * k, b);
}

impl Scalar {
    /// Group order n, little-endian limbs.
    pub const N: [u64; 5] = [
        0xE80FD996948BFFE1,
        0xE8885C39D724A09C,
        0x7FFFFFE6CFB80639,
        0x7FFFFFF100000016,
        0x7FFFFFFD80000007,
    ];

    /// -1/N[0] mod 2^64.
    pub const N0I: u64 = 0xD78BEF72057B7BDF;

    /// R^2 mod n, where R = 2^320.
    pub const R2: [u64; 5] = [
        0xA01001DCE33DC739,
        0x6C3228D33F62ACCF,
        0xD1D796CC91CF8525,
        0xAADFFF5D1574C1D8,
        0x4ACA13B28CA251F5,
    ];

    /// 2^632 mod n.
    pub const T632: [u64; 5] = [
        0x2B0266F317CA91B3,
        0xEC1D26528E984773,
        0x8651D7865E12DB94,
        0xDA2ADFF5941574D0,
        0x53CACA12110CA256,
    ];

    /// The scalar 0.
    pub fn zero() -> (r: Self)
        ensures
            r.0@ == seq![0u64, 0u64, 0u64, 0u64, 0u64],
            r@ == 0,
    {
        let r = Scalar([0, 0, 0, 0, 0]);
        assert(r.0@ =~= seq![0u64, 0u64, 0u64, 0u64, 0u64]);
        r
    }

    /// The scalar 1.
    pub fn one() -> (r: Self)
        ensures
            r.0@ == seq![1u64, 0u64, 0u64, 0u64, 0u64],
            r@ == 1,
    {
        let r = Scalar([1, 0, 0, 0, 0]);
        assert(r.0@ =~= seq![1u64, 0u64, 0u64, 0u64, 0u64]);
        r
    }

    /// The scalar 2.
    pub fn two() -> (r: Self)
        ensures
            r.0@ == seq![2u64, 0u64, 0u64, 0u64, 0u64],
            r@ == 2,
    {
        let r = Scalar([2, 0, 0, 0, 0]);
        assert(r.0@ =~= seq![2u64, 0u64, 0u64, 0u64, 0u64]);
        r
    }

    /// The scalar n - 1, that is -1 mod n.
    pub fn neg_one() -> (r: Self)
        ensures
            r@ == group_order() - 1,
    {
        Scalar([0xE80FD996948BFFE0, 0xE8885C39D724A09C, 0x7FFFFFE6CFB80639, 0x7FFFFFF100000016, 0x7FFFFFFD80000007])
    }

    /// Reads 40 little-endian bytes as an integer and reduces it mod n.
    pub fn from_bytes_le(bytes: &[u8; 40]) -> (r: Self)
        ensures
            r@ == limbs_value(bytes_limbs(bytes@)) % group_order(),
            limbs_value(bytes_limbs(bytes@)) < group_order() ==> r.0@ == bytes_limbs(bytes@),
    {
        let s = load_limbs_le(bytes);
        if bigint_cmp(&s, &Self::N) >= 0 {
            let big = limbs_to_bigint(&s);
            let reduced = bigint_reduce(&big);
            return Scalar(reduced);
        }
        proof { lemma_below_order(limbs_value(s@)); }
        Scalar(s)
    }

    /// The 40 little-endian bytes of the five limbs, as stored.
    pub fn to_bytes_le(&self) -> (r: [u8; 40])
        ensures
            r@ == limbs_le_bytes(self.0@),
    {
        let mut out = [0u8; 40];
        for i in 0..5
            invariant
                forall|k: int| 0 <= k < 8 * i ==> #[trigger] out@[k] == limbs_le_bytes(self.0@)[k],
        {
            let w = self.0[i];
            let b: [u8; 8] = [
                w as u8,
                (w >> 8u32) as u8,
                (w >> 16u32) as u8,
                (w >> 24u32) as u8,
                (w >> 32u32) as u8,
                (w >> 40u32) as u8,
                (w >> 48u32) as u8,
                (w >> 56u32) as u8,
            ];
            assert(b@ =~= u64_le_bytes(w));
            for j in 0..8
                invariant
                    0 <= i < 5,
                    b@ == u64_le_bytes(self.0[i as int]),
                    forall|k: int| 0 <= k < 8 * i + j ==> #[trigger] out@[k] == limbs_le_bytes(self.0@)[k],
            {
                out[i * 8 + j] = b[j];
                proof {
                    let l = self.0@;
                    assert(limbs_le_bytes(l)[8 * i + j] == u64_le_bytes(l[i as int])[j as int]);
                }
            }
        }
        assert(out@ =~= limbs_le_bytes(self.0@));
        out
    }

    /// True when the scalar is below n.
    pub fn is_canonical(&self) -> (r: bool)
        ensures
            r == (self@ < group_order()),
    {
        bigint_cmp(&self.0, &Self::N) < 0
    }

    /// Limb-wise addition, dropping the final carry.
    fn add_inner(a: &[u64; 5], b: &[u64; 5]) -> (r: [u64; 5])
        ensures
            limbs_value(a@) + limbs_value(b@) < mont_radix() ==> limbs_value(r@) == limbs_value(a@)
                + limbs_value(b@),
            limbs_value(a@) + limbs_value(b@) >= mont_radix() ==> limbs_value(r@) == limbs_value(a@)
                + limbs_value(b@) - mont_radix(),
    {
        let (r0, c) = adc(a[0], b[0], 0);
        let (r1, c) = adc(a[1], b[1], c);
        let (r2, c) = adc(a[2], b[2], c);
        let (r3, c) = adc(a[3], b[3], c);
        let (r4, c) = adc(a[4], b[4], c);
        let r = [r0, r1, r2, r3, r4];
        proof {
            assert(r@[0] == r0 && r@[1] == r1 && r@[2] == r2 && r@[3] == r3 && r@[4] == r4);
            assert(a@[0] == a[0] && a@[1] == a[1] && a@[2] == a[2] && a@[3] == a[3] && a@[4] == a[4]);
            assert(b@[0] == b[0] && b@[1] == b[1] && b@[2] == b[2] && b@[3] == b[3] && b@[4] == b[4]);
            assert(limbs_value(r@) == limbs5(r0 as int, r1 as int, r2 as int, r3 as int, r4 as int));
            assert(limbs_value(r@) + c * mont_radix() == limbs_value(a@) + limbs_value(b@));
        }
        r
    }

    /// Limb-wise subtraction; the second result is all ones when it borrowed.
    fn sub_inner(a: &[u64; 5], b: &[u64; 5]) -> (r: ([u64; 5], u64))
        ensures
            r.1 == (if limbs_value(a@) < limbs_value(b@) { 0xFFFF_FFFF_FFFF_FFFFu64 } else { 0u64 }),
            limbs_value(a@) >= limbs_value(b@) ==> limbs_value(r.0@) == limbs_value(a@) - limbs_value(b@),
            limbs_value(a@) < limbs_value(b@) ==> limbs_value(r.0@) == limbs_value(a@) - limbs_value(b@)
                + mont_radix(),
    {
        let (r0, c) = sbb(a[0], b[0], 0);
        let (r1, c) = sbb(a[1], b[1], c);
        let (r2, c) = sbb(a[2], b[2], c);
        let (r3, c) = sbb(a[3], b[3], c);
        let (r4, c) = sbb(a[4], b[4], c);
        let r = [r0, r1, r2, r3, r4];
        proof {
            assert(r@[0] == r0 && r@[1] == r1 && r@[2] == r2 && r@[3] == r3 && r@[4] == r4);
            assert(a@[0] == a[0] && a@[1] == a[1] && a@[2] == a[2] && a@[3] == a[3] && a@[4] == a[4]);
            assert(b@[0] == b[0] && b@[1] == b[1] && b@[2] == b[2] && b@[3] == b[3] && b@[4] == b[4]);
            assert(limbs_value(r@) == limbs5(r0 as int, r1 as int, r2 as int, r3 as int, r4 as int));
            assert(limbs_value(r@) - c * mont_radix() == limbs_value(a@) - limbs_value(b@));
            lemma_limbs_value_bounds(r@);
            lemma_limbs_value_bounds(a@);
            lemma_limbs_value_bounds(b@);
        }
        let m = if c != 0 { 0xFFFFFFFFFFFFFFFFu64 } else { 0u64 };
        (r, m)
    }

    /// Constant-time choice: `a0` when `c` is zero, `a1` when it is all ones.
    fn select(c: u64, a0: [u64; 5], a1: [u64; 5]) -> (r: Self)
        requires
            c == 0 || c == 0xFFFF_FFFF_FFFF_FFFFu64,
        ensures
            r.0@ == (if c == 0 { a0@ } else { a1@ }),
    {
        let r = Scalar([
            a0[0] ^ (c & (a0[0] ^ a1[0])),
            a0[1] ^ (c & (a0[1] ^ a1[1])),
            a0[2] ^ (c & (a0[2] ^ a1[2])),
            a0[3] ^ (c & (a0[3] ^ a1[3])),
            a0[4] ^ (c & (a0[4] ^ a1[4])),
        ]);
        proof {
            assert forall|x: u64, y: u64| #![auto] (c == 0 || c == 0xFFFF_FFFF_FFFF_FFFFu64) ==> (x ^ (c & (
            x ^ y))) == (if c == 0 { x } else { y }) by {
                assert((c == 0 || c == 0xFFFF_FFFF_FFFF_FFFFu64) ==> (x ^ (c & (x ^ y))) == (if c == 0 {
                    x
                } else {
                    y
                })) by (bit_vector);
            }
            assert(r.0@ =~= (if c == 0 { a0@ } else { a1@ }));
        }
        r
    }

    /// (self + rhs) mod n, for scalars below n.
    pub fn add(&self, rhs: &Self) -> (r: Self)
        requires
            self@ < group_order(),
            rhs@ < group_order(),
        ensures
            r@ == (self@ + rhs@) % group_order(),
            r@ < group_order(),
    {
        let r0 = Self::add_inner(&self.0, &rhs.0);
        let (r1, c) = Self::sub_inner(&r0, &Self::N);
        let r = Self::select(c, r1, r0);
        proof {
            let n = group_order();
            let s = self@ + rhs@;
            if s >= n {
                lemma_mod_multiples_vanish(1, s - n, n);
                lemma_small_mod((s - n) as nat, n as nat);
            } else {
                lemma_small_mod(s as nat, n as nat);
            }
        }
        r
    }

    /// (self - rhs) mod n, for scalars below n.
    pub fn sub(&self, rhs: &Self) -> (r: Self)
        requires
            self@ < group_order(),
            rhs@ < group_order(),
        ensures
            r@ == (self@ - rhs@) % group_order(),
            r@ < group_order(),
    {
        let (r0, c) = Self::sub_inner(&self.0, &rhs.0);
        let r1 = Self::add_inner(&r0, &Self::N);
        let r = Self::select(c, r0, r1);
        proof {
            let n = group_order();
            let d = self@ - rhs@;
            if d < 0 {
                lemma_mod_multiples_vanish(-1, d + n, n);
                lemma_small_mod((d + n) as nat, n as nat);
            } else {
                lemma_small_mod(d as nat, n as nat);
            }
        }
        r
    }

    /// -self mod n, for a scalar below n.
    pub fn neg(&self) -> (r: Self)
        requires
            self@ < group_order(),
        ensures
            r@ == (-self@) % group_order(),
            r@ < group_order(),
    {
        Self::zero().sub(self)
    }

    /// (self * rhs) mod n, for scalars below n.
    pub fn mul(&self, rhs: &Self) -> (r: Self)
        requires
            self@ < group_order(),
            rhs@ < group_order(),
        ensures
            r@ == (self@ * rhs@) % group_order(),
    {
        let s_mont = self.monty_mul(&Self::R2);
        let r = s_mont.monty_mul(&rhs.0);
        proof {
            assert(limbs_value(Self::R2@) == 624019960623364527448457231688836422125560607095429164912527378834797040967609741804725967111993int);
            lemma_mont_mul_chain(self@, rhs@, limbs_value(Self::R2@), s_mont@);
        }
        r
    }

    /// One Montgomery round: (r + s * m + f * n) / 2^64 for the f that makes
    /// the division exact.
    #[verifier::rlimit(60)]
    #[verifier::spinoff_prover]
    fn monty_step(s: &[u64; 5], r: &[u64; 5], m: u64) -> (res: ([u64; 5], u64))
        requires
            limbs_value(s@) < group_order(),
            limbs_value(r@) < 2 * group_order(),
        ensures
            limbs_value(res.0@) * limb_base() == limbs_value(r@) + limbs_value(s@) * m + res.1 * group_order(),
            limbs_value(res.0@) < 2 * group_order(),
    {
        let f = s[0].wrapping_mul(m).wrapping_add(r[0]).wrapping_mul(Self::N0I);
        let (lo0, c10) = mac(s[0], m, r[0], 0);
        let (z0, c20) = mac(f, Self::N[0], lo0, 0);
        let (lo1, c11) = mac(s[1], m, r[1], c10);
        let (o0, c21) = mac(f, Self::N[1], lo1, c20);
        let (lo2, c12) = mac(s[2], m, r[2], c11);
        let (o1, c22) = mac(f, Self::N[2], lo2, c21);
        let (lo3, c13) = mac(s[3], m, r[3], c12);
        let (o2, c23) = mac(f, Self::N[3], lo3, c22);
        let (lo4, c14) = mac(s[4], m, r[4], c13);
        let (o3, c24) = mac(f, Self::N[4], lo4, c23);
        proof {
            let b = limb_base();
            let t = s[0].wrapping_mul(m).wrapping_add(r[0]);
            assert(t == (s[0] * m + r[0]) % b) by {
                lemma_add_mod_noop(s[0] * m, r[0] as int, b);
                lemma_small_mod(r[0] as nat, b as nat);
            }
            assert(lo0 == (s[0] * m + r[0]) % b) by {
                lemma_fundamental_div_mod_converse(s[0] * m + r[0], b, c10 as int, lo0 as int);
            }
            lemma_n0i(lo0 as int, f as int);
            assert(z0 == 0) by {
                lemma_fundamental_div_mod_converse(f * Self::N[0] + lo0, b, c20 as int, z0 as int);
            }
        }
        let ghost full: int = limbs5(o0 as int, o1 as int, o2 as int, o3 as int, c14 + c24);
        proof {
            let b = limb_base();
            lemma_limbs_mul(s@, m as int);
            lemma_limbs_mul(Self::N@, f as int);
            assert(limbs_value(Self::N@) == group_order());
            assert(full * b == limbs_value(r@) + limbs_value(s@) * m + f * group_order());
            assert(limbs_value(s@) * m <= (group_order() - 1) * (b - 1)) by (nonlinear_arith)
                requires
                    0 <= limbs_value(s@) <= group_order() - 1,
                    0 <= m <= b - 1,
            ;
            assert(f * group_order() <= (b - 1) * group_order()) by (nonlinear_arith)
                requires
                    0 <= f <= b - 1,
                    group_order() > 0,
            ;
            assert(full < 2 * group_order());
            assert(c14 + c24 < b);
        }
        let top = c14.wrapping_add(c24);
        let res = [o0, o1, o2, o3, top];
        proof {
            assert(limbs_value(res@) == full);
        }
        (res, f)
    }

    /// Montgomery product (self * rhs / R) mod n, for self below n and any
    /// five-limb rhs.
    #[verifier::rlimit(40)]
    fn monty_mul(&self, rhs: &[u64; 5]) -> (r: Self)
        requires
            self@ < group_order(),
        ensures
            r@ == (self@ * limbs_value(rhs@) * mont_radix_inv()) % group_order(),
            r@ < group_order(),
    {
        let s = &self.0;
        let r = [0u64; 5];
        let (r, f0) = Self::monty_step(s, &r, rhs[0]);
        let (r, f1) = Self::monty_step(s, &r, rhs[1]);
        let (r, f2) = Self::monty_step(s, &r, rhs[2]);
        let (r, f3) = Self::monty_step(s, &r, rhs[3]);
        let (r, f4) = Self::monty_step(s, &r, rhs[4]);
        let (r2, c) = Self::sub_inner(&r, &Self::N);
        let res = Self::select(c, r2, r);
        proof {
            let b = limb_base();
            let ff = limbs5(f0 as int, f1 as int, f2 as int, f3 as int, f4 as int);
            lemma_limbs_mul(rhs@, self@);
            assert(limbs_value(r@) * mont_radix() == self@ * limbs_value(rhs@) + ff * group_order()) by {
                assert(self@ * limbs_value(rhs@) == limbs_value(rhs@) * self@) by (nonlinear_arith);
            }
            lemma_monty_result(limbs_value(r@), self@, limbs_value(rhs@), ff, res@);
        }
        res
    }

    /// Signed recoding in windows of `w` bits into `ss`.
    pub fn recode_signed(&self, ss: &mut [i32], w: i32)
        requires
            2 <= w <= 10,
        ensures
            final(ss)@.len() == old(ss)@.len(),
            forall|k: int| 0 <= k < old(ss)@.len() ==> #[trigger] final(ss)@[k] == recode_digit(
                limbs_seq_value(self.0@),
                w as nat,
                k as nat,
            ),
            forall|k: int|
                0 <= k < old(ss)@.len() ==> -pow2((w - 1) as nat) < #[trigger] final(ss)@[k] <= pow2(
                    (w - 1) as nat,
                ),
            old(ss)@.len() >= 1 && limbs_seq_value(self.0@) < pow2((w * old(ss)@.len() - 1) as nat) ==> digit_sum(
                final(ss)@,
                w as nat,
                old(ss)@.len(),
            ) == limbs_seq_value(self.0@),
    {
        recode_signed_from_limbs(&self.0, ss, w);
        proof {
            let n = ss@.len();
            lemma_digit_sum_recode(ss@, limbs_seq_value(self.0@), w as nat, n);
            lemma_recode_sum(limbs_seq_value(self.0@), w as nat, n);
            assert forall|k: int| 0 <= k < n implies -pow2((w - 1) as nat) < #[trigger] ss@[k]
                <= pow2((w - 1) as nat) by {
                assert(recode_digit(limbs_seq_value(self.0@), w as nat, k as nat) == ss@[k]);
            }
            if n >= 1 && limbs_seq_value(self.0@) < pow2((w * n - 1) as nat) {
                lemma_recode_exact(limbs_seq_value(self.0@), w as nat, n);
            }
        }
    }

    /// The 80 four-bit digits of the limbs, least significant first.
    pub fn split_to_4bit_limbs(&self) -> (r: [u8; 80])
        ensures
            forall|k: int| 0 <= k < 80 ==> #[trigger] r[k] as nat == nibble(self.0@, k),
    {
        let mut result = [0u8; 80];
        for i in 0..5
            invariant
                forall|k: int| 0 <= k < 16 * i ==> #[trigger] result[k] as nat == nibble(self.0@, k),
        {
            for j in 0..16
                invariant
                    0 <= i < 5,
                    forall|k: int| 0 <= k < 16 * (i as int) + (j as int) ==> #[trigger] result[k] as nat == nibble(self.0@, k),
            {
                let limb = self.0[i];
                let d = ((limb >> (j * 4) as u32) & 0xF) as u8;
                proof {
                    lemma_u64_shr_is_div(limb, (j * 4) as u64);
                    let sh = limb >> (j * 4) as u32;
                    assert(sh & 0xF == sh % 16) by (bit_vector);
                    let k = 16 * i + j;
                    assert(k / 16 == i && k % 16 == j);
                }
                result[i * 16 + j] = d;
            }
        }
        result
    }

    /// Reads the canonical coefficients of a quintic element as the limbs of
    /// an integer and reduces it mod n.
    pub fn from_fp5(fp5: &Fp5) -> (r: Self)
        ensures
            r@ == fp5_scalar_value(fp5@),
            r@ == ((fp5@[0] + fp5@[1] * pow2(64) + fp5@[2] * pow2(128) + fp5@[3] * pow2(192) + fp5@[4] * pow2(256))
                as int) % group_order(),
            r@ < group_order(),
    {
        proof {
            lemma_fp5_scalar_value_powers(fp5@);
        }
        let mut limbs = [0u64; 5];
        for i in 0..5
            invariant
                forall|k: int| 0 <= k < i ==> #[trigger] limbs[k] as nat == fp5@[k],
        {
            limbs[i] = fp5.0[i].canonical();
        }
        let big = limbs_to_bigint(&limbs);
        let r = Scalar(bigint_reduce(&big));
        proof { lemma_mod_bound(limbs_value(limbs@), group_order()); }
        r
    }
}

/// A value in [0, n) is its own residue.
proof fn lemma_below_order(x: int)
    requires
        0 <= x < group_order(),
    ensures
        x % group_order() == x,
{
    lemma_small_mod(x as nat, group_order() as nat);
}

/// The five little-endian 64-bit words of 40 bytes.
fn load_limbs_le(bytes: &[u8; 40]) -> (s: [u64; 5])
    ensures
        s@ == bytes_limbs(bytes@),
{
    let mut s = [0u64; 5];
    for i in 0..5
        invariant
            forall|k: int| 0 <= k < i ==> #[trigger] s[k] == le_word(bytes@, k),
    {
        let chunk = &bytes[i * 8..(i + 1) * 8];
        assert(chunk@ =~= bytes@.subrange(8 * i, 8 * i + 8));
        s[i] = (chunk[0] as u64) | ((chunk[1] as u64) << 8u32) | ((chunk[2] as u64) << 16u32)
            | ((chunk[3] as u64) << 24u32) | ((chunk[4] as u64) << 32u32) | ((chunk[5] as u64)
            << 40u32) | ((chunk[6] as u64) << 48u32) | ((chunk[7] as u64) << 56u32);
    }
    assert(s@ =~= bytes_limbs(bytes@));
    s
}

/// Compares two five-limb integers: -1, 0 or 1.
fn bigint_cmp(a: &[u64; 5], b: &[u64; 5]) -> (r: i32)
    ensures
        r == (if limbs_value(a@) < limbs_value(b@) {
            -1i32
        } else if limbs_value(a@) == limbs_value(b@) {
            0i32
        } else {
            1i32
        }),
{
    let mut i: usize = 5;
    while i > 0
        invariant
            i <= 5,
            forall|j: int| i <= j < 5 ==> a[j] == b[j],
        decreases i,
    {
        i -= 1;
        if a[i] < b[i] {
            proof { lemma_limbs_lt(a@, b@, i); }
            return -1;
        }
        if a[i] > b[i] {
            proof { lemma_limbs_lt(b@, a@, i); }
            return 1;
        }
    }
    assert(a@ =~= b@);
    0
}

/// Reduces a five-limb integer mod n by repeated subtraction.
fn bigint_reduce(val: &[u64; 5]) -> (r: [u64; 5])
    ensures
        limbs_value(r@) == limbs_value(val@) % group_order(),
{
    let mut v = *val;
    while bigint_cmp(&v, &Scalar::N) >= 0
        invariant
            limbs_value(v@) % group_order() == limbs_value(val@) % group_order(),
            limbs_value(v@) >= 0,
        decreases limbs_value(v@),
    {
        let (r, _) = Scalar::sub_inner(&v, &Scalar::N);
        proof { lemma_mod_multiples_vanish(1, limbs_value(r@), group_order()); }
        v = r;
    }
    proof { lemma_below_order(limbs_value(v@)); }
    v
}

/// The limbs unchanged, as the integer they encode.
fn limbs_to_bigint(limbs: &[u64; 5]) -> (r: [u64; 5])
    ensures
        r@ == limbs@,
{
    *limbs
}


/// x splits at bit `a` into its low bits and the rest.
proof fn lemma_pow2_split(x: int, a: nat)
    requires
        x >= 0,
    ensures
        pow2(a) > 0,
        x == x % (pow2(a) as int) + pow2(a) * (x / (pow2(a) as int)),
        0 <= x % (pow2(a) as int) < pow2(a),
        x / (pow2(a) as int) >= 0,
{
    lemma_pow2_pos(a);
    lemma_fundamental_div_mod(x, pow2(a) as int);
    lemma_mod_bound(x, pow2(a) as int);
    lemma_div_pos_is_pos(x, pow2(a) as int);
}

/// Dividing by 2^a and then by 2^b divides by 2^(a+b).
proof fn lemma_pow2_div_div(x: int, a: nat, b: nat)
    requires
        x >= 0,
    ensures
        (x / (pow2(a) as int)) / (pow2(b) as int) == x / (pow2(a + b) as int),
{
    lemma_pow2_pos(a);
    lemma_pow2_pos(b);
    lemma_pow2_adds(a, b);
    lemma_div_denominator(x, pow2(a) as int, pow2(b) as int);
}

/// Taking w bits from a buffer that holds the low `al >= w` bits of x.
proof fn lemma_stream_take(x: int, al: nat, w: nat)
    requires
        x >= 0,
        w <= al,
    ensures
        (x % (pow2(al) as int)) % (pow2(w) as int) == x % (pow2(w) as int),
        (x % (pow2(al) as int)) / (pow2(w) as int) == (x / (pow2(w) as int)) % (pow2((al - w) as nat) as int),
{
    let pw = pow2(w) as int;
    let pr = pow2((al - w) as nat) as int;
    lemma_pow2_adds(w, (al - w) as nat);
    lemma_pow2_pos(w);
    lemma_pow2_pos((al - w) as nat);
    assert(pow2(al) as int == pw * pr);
    lemma_mod_mod(x, pw, pr);
    lemma_mod_breakdown(x, pw, pr);
    lemma_mod_bound(x, pw);
    lemma_fundamental_div_mod_converse(x % (pw * pr), pw, (x / pw) % pr, x % pw);
}

/// Taking w bits from a buffer holding the low `al < w` bits of x, topped up
/// with the next 64-bit word `nl` of x.
proof fn lemma_stream_load(x: int, al: nat, w: nat, nl: int)
    requires
        x >= 0,
        al < w <= 64,
        nl == (x / (pow2(al) as int)) % (pow2(64) as int),
    ensures
        x % (pow2(w) as int) == x % (pow2(al) as int) + pow2(al) * (nl % (pow2((w - al) as nat) as int)),
        (x / (pow2(w) as int)) % (pow2((al + 64 - w) as nat) as int) == nl / (pow2((w - al) as nat) as int),
{
    let d: nat = (w - al) as nat;
    let e: nat = (64 - d) as nat;
    let pa = pow2(al) as int;
    let pd = pow2(d) as int;
    let pe = pow2(e) as int;
    let pw = pow2(w) as int;
    let p64 = pow2(64) as int;
    lemma_pow2_split(x, al);
    let acc = x % pa;
    let y = x / pa;
    lemma_pow2_split(y, 64);
    let z = y / p64;
    lemma_pow2_split(nl, d);
    let q = nl / pd;
    let r = nl % pd;
    lemma_pow2_adds(al, d);
    lemma_pow2_adds(d, e);
    lemma_pow2_adds(w, e);
    assert(pw == pa * pd);
    assert(p64 == pd * pe);
    assert(pow2(al + 64) == pw * pe) by {
        lemma_pow2_adds(al, 64);
        assert(al + 64 == w + e);
    }
    // x = (acc + pa r) + pw (q + pe z)
    assert(pa * y == pa * nl + (pa * p64) * z) by (nonlinear_arith)
        requires
            y == nl + p64 * z,
    ;
    assert(pa * nl == pa * r + (pa * pd) * q) by (nonlinear_arith)
        requires
            nl == r + pd * q,
    ;
    assert((pa * p64) * z == (pa * pd) * (pe * z)) by (nonlinear_arith)
        requires
            p64 == pd * pe,
    ;
    assert(x == (acc + pa * r) + pw * (q + pe * z)) by (nonlinear_arith)
        requires
            x == acc + pa * y,
            pa * y == pa * nl + (pa * p64) * z,
            pa * nl == pa * r + (pa * pd) * q,
            (pa * p64) * z == (pa * pd) * (pe * z),
            pw == pa * pd,
    ;
    assert(acc + pa * r < pw) by (nonlinear_arith)
        requires
            0 <= acc < pa,
            0 <= r < pd,
            pw == pa * pd,
    ;
    assert(0 <= acc + pa * r) by (nonlinear_arith)
        requires
            0 <= acc,
            0 <= r,
            0 < pa,
    ;
    lemma_fundamental_div_mod_converse(x, pw, q + pe * z, acc + pa * r);
    // q < pe since nl < 2^64
    assert(q < pe) by (nonlinear_arith)
        requires
            nl == r + pd * q,
            0 <= r,
            nl < p64,
            p64 == pd * pe,
            pd > 0,
    ;
    assert(q >= 0) by (nonlinear_arith)
        requires
            nl == r + pd * q,
            r < pd,
            nl >= 0,
            pd > 0,
    ;
    assert(z >= 0);
    lemma_mod_multiples_vanish(z, q, pe);
    lemma_small_mod(q as nat, pe as nat);
    assert(al + 64 - w == e);
}

/// The value of a sequence of limbs, shifted right by whole limbs.
proof fn lemma_limbs_shift(l: Seq<u64>, k: nat)
    requires
        k <= l.len(),
    ensures
        (limbs_seq_value(l) as int) / (pow2(64 * k) as int) == limbs_seq_value(l.skip(k as int)),
    decreases k,
{
    if k == 0 {
        assert(l.skip(0) =~= l);
        lemma2_to64();
    } else {
        lemma_limbs_shift(l.drop_first(), (k - 1) as nat);
        assert(l.drop_first().skip(k - 1) =~= l.skip(k as int));
        lemma2_to64();
        lemma_div_multiples_vanish_fancy(limbs_seq_value(l.drop_first()) as int, l[0] as int, pow2(64) as int);
        lemma_pow2_div_div(limbs_seq_value(l) as int, 64, 64 * (k - 1) as nat);
        assert(64 + 64 * (k - 1) as nat == 64 * k);
    }
}

/// The low 64 bits of a non-empty limb sequence are its first limb.
proof fn lemma_limbs_low(l: Seq<u64>)
    requires
        l.len() > 0,
    ensures
        (limbs_seq_value(l) as int) % (pow2(64) as int) == l[0],
{
    lemma2_to64();
    lemma_mod_multiples_vanish(limbs_seq_value(l.drop_first()) as int, l[0] as int, pow2(64) as int);
    lemma_small_mod(l[0] as nat, pow2(64));
}

/// Past the last limb, the value shifted right is zero.
proof fn lemma_limbs_exhausted(l: Seq<u64>, k: nat)
    requires
        k >= l.len(),
    ensures
        (limbs_seq_value(l) as int) / (pow2(64 * k) as int) == 0,
{
    lemma_limbs_shift(l, l.len());
    assert(l.skip(l.len() as int) =~= Seq::<u64>::empty());
    lemma_pow2_pos(64 * l.len());
    lemma_small_div_converse(limbs_seq_value(l) as int, pow2(64 * l.len()) as int);
    assert(limbs_seq_value(l) < pow2(64 * l.len()));
    if k > l.len() {
        lemma_pow2_strictly_increases(64 * l.len(), 64 * k);
    }
    lemma_basic_div(limbs_seq_value(l) as int, pow2(64 * k) as int);
}

/// 1 << s is 2^s for small shifts.
proof fn lemma_one_shl(s: u32)
    requires
        s <= 10,
    ensures
        (1u32 << s) == pow2(s as nat),
        (1u64 << s) == pow2(s as nat),
        pow2(s as nat) <= 1024,
        pow2(s as nat) >= 1,
{
    lemma2_to64();
    if s < 10 {
        lemma_pow2_strictly_increases(s as nat, 10);
    }
    lemma_u32_shl_is_mul(1, s);
    lemma_u64_shl_is_mul(1, s as u64);
    lemma_pow2_pos(s as nat);
}

/// Signed recoding of the limbs in windows of `w` bits: digit k of `ss` is
/// `recode_digit(v, w, k)` for the value v of the limbs.
fn recode_signed_from_limbs(limbs: &[u64], ss: &mut [i32], w: i32)
    requires
        2 <= w <= 10,
    ensures
        final(ss)@.len() == old(ss)@.len(),
        forall|k: int| 0 <= k < old(ss)@.len() ==> #[trigger] final(ss)@[k] == recode_digit(
            limbs_seq_value(limbs@),
            w as nat,
            k as nat,
        ),
{
    let wu: u32 = w as u32;
    proof {
        lemma_one_shl(wu);
        lemma_one_shl((wu - 1) as u32);
        lemma_pow2_adds((wu - 1) as nat, 1);
        lemma2_to64();
    }
    let mw: u32 = (1u32 << wu) - 1;
    let hw: u32 = 1u32 << (wu - 1);
    let mut acc: u64 = 0;
    let mut acc_len: i32 = 0;
    let mut j: usize = 0;
    let mut cc: u32 = 0;
    let ghost v: nat = limbs_seq_value(limbs@);
    let ghost mut jj: nat = 0;
    let n = ss.len();
    let mut idx: usize = 0;
    proof {
        lemma_pow2_split(v as int, 0);
    }
    while idx < n
        invariant
            2 <= w <= 10,
            wu == w,
            mw == pow2(w as nat) - 1,
            hw == pow2((w - 1) as nat),
            pow2(w as nat) <= 1024,
            pow2(w as nat) == 2 * pow2((w - 1) as nat),
            n == ss@.len(),
            n == old(ss)@.len(),
            v == limbs_seq_value(limbs@),
            idx <= n,
            0 <= acc_len < 64,
            acc_len + w * idx == 64 * jj,
            j == (if jj <= limbs@.len() { jj } else { limbs@.len() }),
            acc == (v as int / (pow2((w * idx) as nat) as int)) % (pow2(acc_len as nat) as int),
            cc == recode_carry(v, w as nat, idx as nat),
            forall|k: int| 0 <= k < idx ==> #[trigger] ss@[k] == recode_digit(v, w as nat, k as nat),
        decreases n - idx,
    {
        let ghost x: int = v as int / (pow2((w * idx) as nat) as int);
        proof {
            lemma_one_shl(wu);
            lemma_pow2_split(v as int, (w * idx) as nat);
            lemma_pow2_split(x, acc_len as nat);
            lemma_pow2_div_div(v as int, (w * idx) as nat, acc_len as nat);
            assert((w * idx) as nat + acc_len as nat == 64 * jj);
            lemma_pow2_div_div(v as int, (w * idx) as nat, w as nat);
            assert((w * idx) as nat + w as nat == (w * (idx + 1)) as nat) by (nonlinear_arith)
                requires
                    w >= 0,
                    idx >= 0,
            ;
        }
        let bb: u32;
        if acc_len < w {
            if j < limbs.len() {
                let nl = limbs[j];
                proof {
                    lemma_limbs_shift(limbs@, jj);
                    lemma_limbs_low(limbs@.skip(jj as int));
                    lemma_stream_load(x, acc_len as nat, w as nat, nl as int);
                    lemma_bits_load(acc, nl, acc_len as u32, wu);
                }
                j += 1;
                bb = ((acc | (nl << (acc_len as u32))) as u32) & mw;
                proof {
                    let al = acc_len as u32;
                    assert(mw == (((1u32 << wu) - 1) as u32));
                    let k1 = (wu - al) as nat;
                    let k2 = (w - acc_len) as nat;
                    let m1 = nl as nat % pow2(k1);
                    let m2 = nl as int % (pow2(k2) as int);
                    let pa1 = pow2(al as nat) as int;
                    let pa2 = pow2(acc_len as nat) as int;
                    assert(bb == acc + pa1 * m1) by (nonlinear_arith)
                        requires
                            bb == acc + pow2(al as nat) * (nl as nat % pow2((wu - al) as nat)),
                            pa1 == pow2(al as nat),
                            k1 == (wu - al) as nat,
                            m1 == nl as nat % pow2(k1),
                    ;
                    assert(x % (pow2(w as nat) as int) == acc + pa2 * m2) by (nonlinear_arith)
                        requires
                            x % (pow2(w as nat) as int) == x % (pow2(acc_len as nat) as int) + pow2(
                                acc_len as nat,
                            ) * (nl as int % (pow2((w - acc_len) as nat) as int)),
                            acc == x % (pow2(acc_len as nat) as int),
                            pa2 == pow2(acc_len as nat),
                            k2 == (w - acc_len) as nat,
                            m2 == nl as int % (pow2(k2) as int),
                    ;
                    assert(pa1 * m1 == pa2 * m2) by (nonlinear_arith)
                        requires
                            m1 == m2,
                            pa1 == pa2,
                    ;
                }
                assert(bb == x % (pow2(w as nat) as int));
                acc = nl >> ((w - acc_len) as u32);
                proof {
                    lemma_u64_shr_is_div(nl, (w - acc_len) as u64);
                }
            } else {
                proof {
                    lemma_limbs_exhausted(limbs@, jj);
                    lemma_bits_low(acc, wu);
                    lemma_pow2_strictly_increases(acc_len as nat, w as nat);
                    assert(x / (pow2(acc_len as nat) as int) == 0);
                    assert((pow2(acc_len as nat) as int) * (x / (pow2(acc_len as nat) as int)) == 0) by (nonlinear_arith)
                        requires
                            x / (pow2(acc_len as nat) as int) == 0,
                    ;
                    assert(x == acc);
                    lemma_small_mod(x as nat, pow2(w as nat));
                    lemma_basic_div(x, pow2(w as nat) as int);
                    lemma_pow2_pos((acc_len + 64 - w) as nat);
                    lemma_small_mod(0, pow2((acc_len + 64 - w) as nat));
                }
                bb = (acc as u32) & mw;
                assert(bb == x % (pow2(w as nat) as int));
                acc = 0;
            }
            acc_len += 64 - w;
            proof {
                jj = jj + 1;
            }
        } else {
            proof {
                lemma_stream_take(x, acc_len as nat, w as nat);
                lemma_bits_low(acc, wu);
                lemma_u64_shr_is_div(acc, wu as u64);
            }
            bb = (acc as u32) & mw;
            assert(bb == x % (pow2(w as nat) as int));
            acc_len -= w;
            acc >>= wu;
        }
        assert(bb == recode_window(v, w as nat, idx as nat));
        let b = bb.wrapping_add(cc);
        proof {
            lemma_pow2_pos(w as nat);
            assert(b == bb + cc);
            assert(b <= 1025);
        }
        cc = hw.wrapping_sub(b) >> 31u32;
        proof {
            if b > hw {
                assert(hw.wrapping_sub(b) == hw - b + 0x1_0000_0000);
                let t = hw.wrapping_sub(b);
                assert(t >= 0xFFFF_FBFFu32 ==> (t >> 31u32) == 1) by (bit_vector);
            } else {
                let t = hw.wrapping_sub(b);
                assert(t <= 1024u32 ==> (t >> 31u32) == 0) by (bit_vector);
            }
            assert(cc == recode_carry(v, w as nat, (idx + 1) as nat));
            lemma_u32_shl_is_mul(cc, wu);
        }
        ss[idx] = (b as i32) - ((cc << wu) as i32);
        idx += 1;
    }
}

/// The low w bits of a word, as `(x as u32) & mw`.
proof fn lemma_bits_low(x: u64, w: u32)
    requires
        2 <= w <= 10,
    ensures
        ((x as u32) & (((1u32 << w) - 1) as u32)) == x as nat % pow2(w as nat),
{
    let m = ((1u32 << w) - 1) as u32;
    assert(((x as u32) & m) as u64 == x & (m as u64)) by (bit_vector);
    lemma_one_shl(w);
    assert(m as nat == low_bits_mask(w as nat));
    lemma_u64_low_bits_mask_is_mod(x, w as nat);
}

/// Topping up a buffer of `al < w` bits with the word `nl` and taking the low
/// w bits.
proof fn lemma_bits_load(acc: u64, nl: u64, al: u32, w: u32)
    requires
        al < w <= 10,
        acc < pow2(al as nat),
    ensures
        (((acc | (nl << al)) as u32) & (((1u32 << w) - 1) as u32)) == acc + pow2(al as nat) * (nl as nat
            % pow2((w - al) as nat)),
{
    let d = (w - al) as u32;
    lemma_one_shl(al);
    lemma_one_shl(d);
    let m = ((1u32 << w) - 1) as u32;
    let md = ((1u64 << d) - 1) as u64;
    assert(((acc | (nl << al)) as u32) & m == ((acc + ((nl & md) << (al as u64))) as u32)) by (bit_vector)
        requires
            al < w <= 10,
            d == w - al,
            acc < (1u64 << al),
            m == ((1u32 << w) - 1) as u32,
            md == ((1u64 << d) - 1) as u64,
    ;
    assert(md as nat == low_bits_mask(d as nat));
    assert(md == low_bits_mask(d as nat) as u64);
    lemma_u64_low_bits_mask_is_mod(nl, d as nat);
    let t = nl & md;
    assert((nl & md) <= md) by (bit_vector);
    assert(t * pow2(al as nat) <= 1024 * 1024) by (nonlinear_arith)
        requires
            t <= 1024,
            pow2(al as nat) <= 1024,
    ;
    lemma_u64_shl_is_mul(t, al as u64);
    assert(acc + (t << (al as u64)) < 0x1_0000_0000);
    let u: u64 = (acc + (t << (al as u64))) as u64;
    assert(u == acc + (t << (al as u64)));
    assert(u < 0x1_0000_0000u64 ==> (u as u32) as u64 == u) by (bit_vector);
    assert(t as nat == nl as nat % pow2(d as nat));
    assert((t << (al as u64)) == t * pow2(al as nat));
    assert(((acc | (nl << al)) as u32) & m == (u as u32));
    assert(((acc | (nl << al)) as u32) & m == u);
    assert(u == acc + pow2(al as nat) * (nl as nat % pow2(d as nat)));
}


impl Default for Scalar {
    /// The scalar zero.
    fn default() -> (r: Self)
        ensures
            r.0@ == seq![0u64, 0u64, 0u64, 0u64, 0u64],
            r@ == 0,
    {
        Scalar([0u64; 5])
    }
}

impl PartialEq for Scalar {
    fn eq(&self, other: &Self) -> (r: bool) {
        let r = self.0[0] == other.0[0] && self.0[1] == other.0[1] && self.0[2] == other.0[2] && self.0[3]
            == other.0[3] && self.0[4] == other.0[4];
        proof {
            if r {
                assert(self.0@ =~= other.0@);
            }
        }
        r
    }
}

impl Eq for Scalar {}

impl vstd::std_specs::cmp::PartialEqSpecImpl for Scalar {
    open spec fn obeys_eq_spec() -> bool {
        true
    }

    open spec fn eq_spec(&self, other: &Self) -> bool {
        self.0@ == other.0@
    }
}

/// Subtracting b undoes adding b, for scalars below n.
pub proof fn lemma_scalar_add_sub(a: int, b: int)
    requires
        0 <= a < group_order(),
        0 <= b < group_order(),
    ensures
        (((a + b) % group_order()) - b) % group_order() == a,
{
    let n = group_order();
    if a + b >= n {
        lemma_mod_multiples_vanish(1, a + b - n, n);
        lemma_small_mod((a + b - n) as nat, n as nat);
        lemma_mod_multiples_vanish(-1, a, n);
    } else {
        lemma_small_mod((a + b) as nat, n as nat);
    }
    lemma_small_mod(a as nat, n as nat);
}

/// A scalar plus its negation is zero, for scalars below n.
pub proof fn lemma_scalar_add_neg(a: int)
    requires
        0 <= a < group_order(),
    ensures
        (a + (-a) % group_order()) % group_order() == 0,
{
    let n = group_order();
    if a == 0 {
        lemma_small_mod(0, n as nat);
    } else {
        lemma_mod_multiples_vanish(-1, n - a, n);
        lemma_small_mod((n - a) as nat, n as nat);
        lemma_mod_self_0(n);
    }
}

/// Scalar multiplication mod n is commutative.
pub proof fn lemma_scalar_mul_commutative(a: int, b: int)
    ensures
        (a * b) % group_order() == (b * a) % group_order(),
{
    lemma_mul_is_commutative(a, b);
}

/// Writing five limbs as bytes and reading them back gives the limbs.
pub proof fn lemma_scalar_bytes_roundtrip(l: Seq<u64>)
    requires
        l.len() == 5,
    ensures
        limbs_le_bytes(l).len() == 40,
        bytes_limbs(limbs_le_bytes(l)) == l,
{
    let b = limbs_le_bytes(l);
    lemma_u64_le_bytes_roundtrip(l[0]);
    lemma_u64_le_bytes_roundtrip(l[1]);
    lemma_u64_le_bytes_roundtrip(l[2]);
    lemma_u64_le_bytes_roundtrip(l[3]);
    lemma_u64_le_bytes_roundtrip(l[4]);
    assert(b.subrange(0, 8) =~= u64_le_bytes(l[0]));
    assert(b.subrange(8, 16) =~= u64_le_bytes(l[1]));
    assert(b.subrange(16, 24) =~= u64_le_bytes(l[2]));
    assert(b.subrange(24, 32) =~= u64_le_bytes(l[3]));
    assert(b.subrange(32, 40) =~= u64_le_bytes(l[4]));
    assert(bytes_limbs(b) =~= l);
}

/// Reading 40 bytes as limbs and writing them back gives the bytes.
pub proof fn lemma_scalar_limbs_roundtrip(b: Seq<u8>)
    requires
        b.len() == 40,
    ensures
        limbs_le_bytes(bytes_limbs(b)) == b,
{
    let l = bytes_limbs(b);
    lemma_u64_from_le_bytes_roundtrip(b.subrange(0, 8));
    lemma_u64_from_le_bytes_roundtrip(b.subrange(8, 16));
    lemma_u64_from_le_bytes_roundtrip(b.subrange(16, 24));
    lemma_u64_from_le_bytes_roundtrip(b.subrange(24, 32));
    lemma_u64_from_le_bytes_roundtrip(b.subrange(32, 40));
    assert(limbs_le_bytes(l) =~= b);
}

/// The value of signed base-2^w digits, digit i weighing 2^(w i).
pub open spec fn digit_sum(d: Seq<i32>, w: nat, n: nat) -> int
    decreases n,
{
    if n == 0 {
        0
    } else {
        digit_sum(d, w, (n - 1) as nat) + d[n - 1] * pow2(w * (n - 1) as nat)
    }
}

/// Digits equal to the recoding digits sum as the recoding does.
proof fn lemma_digit_sum_recode(d: Seq<i32>, v: nat, w: nat, n: nat)
    requires
        n <= d.len(),
        forall|k: int| 0 <= k < n ==> #[trigger] d[k] == recode_digit(v, w, k as nat),
    ensures
        digit_sum(d, w, n) == recode_sum(v, w, n),
    decreases n,
{
    reveal(recode_sum);
    if n > 0 {
        lemma_digit_sum_recode(d, v, w, (n - 1) as nat);
        assert(d[n - 1] == recode_digit(v, w, (n - 1) as nat));
    }
}

/// With room for the top digit (v below 2^(w n - 1)), the n signed digits
/// leave no carry and sum, with weights 2^(w i), to v itself.
pub proof fn lemma_recode_exact(v: nat, w: nat, n: nat)
    requires
        w >= 1,
        n >= 1,
        v < pow2((w * n - 1) as nat),
    ensures
        recode_carry(v, w, n) == 0,
        recode_sum(v, w, n) == v,
{
    lemma_recode_sum(v, w, n);
    let n1 = (n - 1) as nat;
    let lo = w * n1;
    assert(w * n == lo + w) by (nonlinear_arith)
        requires
            lo == w * n1,
            n == n1 + 1,
    ;
    lemma_pow2_adds(lo, (w - 1) as nat);
    assert(lo + (w - 1) as nat == (w * n - 1) as nat);
    lemma_pow2_pos(lo);
    lemma_pow2_pos(w);
    let hi = v / pow2(lo);
    lemma_fundamental_div_mod(v as int, pow2(lo) as int);
    lemma_mod_bound(v as int, pow2(lo) as int);
    assert(hi < pow2((w - 1) as nat)) by (nonlinear_arith)
        requires
            v == pow2(lo) * hi + v % pow2(lo),
            v % pow2(lo) >= 0,
            v < pow2(lo) * pow2((w - 1) as nat),
            pow2(lo) > 0,
    ;
    lemma_pow2_strictly_increases((w - 1) as nat, w);
    lemma_small_mod(hi, pow2(w));
    assert(recode_window(v, w, n1) == hi);
    assert(recode_carry(v, w, n1) <= 1);
    assert(recode_carry(v, w, n) == 0);
    assert(w * n >= 1) by (nonlinear_arith)
        requires
            w >= 1,
            n >= 1,
    ;
    lemma_pow2_adds((w * n - 1) as nat, 1);
    lemma2_to64();
    assert((w * n - 1) as nat + 1 == w * n);
    lemma_pow2_pos((w * n - 1) as nat);
    assert(v < pow2(w * n));
    lemma_small_mod(v, pow2(w * n));
    assert(recode_carry(v, w, n) * pow2(w * n) == 0) by (nonlinear_arith)
        requires
            recode_carry(v, w, n) == 0,
    ;
}

/// Weighted sum of the first `n` recoding digits, digit i weighing 2^(w i).
#[verifier::opaque]
pub open spec fn recode_sum(v: nat, w: nat, n: nat) -> int
    decreases n,
{
    if n == 0 {
        0
    } else {
        recode_sum(v, w, (n - 1) as nat) + recode_digit(v, w, (n - 1) as nat) * pow2(w * (n - 1) as nat)
    }
}

/// The signed digits, with the carry out of the last one, give back the low
/// w * n bits of the value; every digit lies in (-2^(w-1), 2^(w-1)].
pub proof fn lemma_recode_sum(v: nat, w: nat, n: nat)
    requires
        w >= 1,
    ensures
        recode_sum(v, w, n) + recode_carry(v, w, n) * pow2(w * n) == v % pow2(w * n),
        forall|i: nat| i < n ==> -pow2((w - 1) as nat) < #[trigger] recode_digit(v, w, i) <= pow2((w - 1) as nat),
    decreases n,
{
    reveal(recode_sum);
    lemma_pow2_adds((w - 1) as nat, 1);
    lemma2_to64();
    let hw = pow2((w - 1) as nat);
    lemma_pow2_pos((w - 1) as nat);
    assert(pow2(w) == 2 * hw);
    if n == 0 {
        lemma_pow2_pos(0);
        assert(w * n == 0) by (nonlinear_arith)
            requires
                n == 0,
        ;
        assert(pow2(0) == 1);
        assert(v % 1 == 0);
    } else {
        let m = (n - 1) as nat;
        lemma_recode_sum(v, w, m);
        let pm = pow2(w * m) as int;
        let pw = pow2(w) as int;
        lemma_pow2_pos(w * m);
        lemma_pow2_pos(w);
        lemma_pow2_adds(w * m, w);
        assert(w * m + w == w * n) by (nonlinear_arith)
            requires
                m + 1 == n,
        ;
        let pn = pow2(w * n) as int;
        assert(pn == pm * pw);
        lemma_mod_breakdown(v as int, pm, pw);
        let win = recode_window(v, w, m) as int;
        let c = recode_carry(v, w, m) as int;
        let c1 = recode_carry(v, w, n) as int;
        let sm = recode_sum(v, w, m);
        assert(win == (v as int / pm) % pw);
        assert(recode_digit(v, w, m) == win + c - c1 * pw);
        assert(recode_sum(v, w, n) == sm + (win + c - c1 * pw) * pm);
        assert(sm + c * pm == (v as int) % pm);
        assert(sm + (win + c - c1 * pw) * pm + c1 * pn == (v as int) % pm + pm * win) by (nonlinear_arith)
            requires
                sm + c * pm == (v as int) % pm,
                pn == pm * pw,
        ;
        assert((v as int) % pn == pm * win + (v as int) % pm);
        let total = recode_sum(v, w, n);
        let cn = recode_carry(v, w, n);
        assert(total + cn * pow2(w * n) == v % pow2(w * n)) by (nonlinear_arith)
            requires
                total == sm + (win + c - c1 * pw) * pm,
                sm + (win + c - c1 * pw) * pm + c1 * pn == (v as int) % pm + pm * win,
                (v as int) % pn == pm * win + (v as int) % pm,
                cn == c1,
                pn == pow2(w * n),
        ;
        lemma_mod_bound(v as int / pm, pw);
        assert(0 <= c <= 1);
        assert(c1 == (if win + c > hw { 1int } else { 0int }));
        assert forall|i: nat| i < n implies -pow2((w - 1) as nat) < #[trigger] recode_digit(v, w, i)
            <= pow2((w - 1) as nat) by {
            if i < m {
            } else {
                assert(i == m);
                if c1 == 1 {
                    assert(c1 * pw == pw) by (nonlinear_arith)
                        requires
                            c1 == 1,
                    ;
                    assert(win + c > hw);
                } else {
                    assert(c1 * pw == 0) by (nonlinear_arith)
                        requires
                            c1 == 0,
                    ;
                    assert(win + c <= hw);
                }
                assert(recode_digit(v, w, i) == win + c - c1 * pw);
            }
        }
    }
}


/// Five-limb values determine their limbs.
pub proof fn lemma_limbs_value_injective(a: Seq<u64>, b: Seq<u64>)
    requires
        a.len() == 5,
        b.len() == 5,
        limbs_value(a) == limbs_value(b),
    ensures
        a == b,
{
    let bb = limb_base();
    let (a0, a1, a2, a3, a4) = (a[0] as int, a[1] as int, a[2] as int, a[3] as int, a[4] as int);
    let (b0, b1, b2, b3, b4) = (b[0] as int, b[1] as int, b[2] as int, b[3] as int, b[4] as int);
    let ra1 = a1 + bb * (a2 + bb * (a3 + bb * a4));
    let rb1 = b1 + bb * (b2 + bb * (b3 + bb * b4));
    assert(limbs_value(a) == a0 + bb * ra1);
    assert(limbs_value(b) == b0 + bb * rb1);
    lemma_fundamental_div_mod_converse(limbs_value(a), bb, ra1, a0);
    lemma_fundamental_div_mod_converse(limbs_value(b), bb, rb1, b0);
    let ra2 = a2 + bb * (a3 + bb * a4);
    let rb2 = b2 + bb * (b3 + bb * b4);
    lemma_fundamental_div_mod_converse(ra1, bb, ra2, a1);
    lemma_fundamental_div_mod_converse(rb1, bb, rb2, b1);
    let ra3 = a3 + bb * a4;
    let rb3 = b3 + bb * b4;
    lemma_fundamental_div_mod_converse(ra2, bb, ra3, a2);
    lemma_fundamental_div_mod_converse(rb2, bb, rb3, b2);
    lemma_fundamental_div_mod_converse(ra3, bb, a4, a3);
    lemma_fundamental_div_mod_converse(rb3, bb, b4, b3);
    assert(a =~= b);
}
/// The scalar that a quintic element stands for: its five coefficients as the
/// little-endian 64-bit digits of one number, reduced mod n.
pub proof fn lemma_fp5_scalar_value_powers(a: Seq<nat>)
    ensures
        fp5_scalar_value(a) == ((a[0] + a[1] * pow2(64) + a[2] * pow2(128) + a[3] * pow2(192) + a[4] * pow2(256))
            as int) % group_order(),
{
    lemma2_to64();
    lemma_pow2_adds(64, 64);
    lemma_pow2_adds(128, 64);
    lemma_pow2_adds(192, 64);
    assert(pow2(64) == 0x1_0000_0000_0000_0000);
    assert(pow2(128) == 0x1_0000_0000_0000_0000_0000_0000_0000_0000);
    assert(pow2(192) == 0x1_0000_0000_0000_0000_0000_0000_0000_0000_0000_0000_0000_0000);
    assert(pow2(256) == 0x1_0000_0000_0000_0000_0000_0000_0000_0000_0000_0000_0000_0000_0000_0000_0000_0000);
    assert(a[1] * pow2(64) == 0x1_0000_0000_0000_0000int * a[1]) by (nonlinear_arith)
        requires
            pow2(64) == 0x1_0000_0000_0000_0000,
    ;
    assert(a[2] * pow2(128) == 0x1_0000_0000_0000_0000_0000_0000_0000_0000int * a[2]) by (nonlinear_arith)
        requires
            pow2(128) == 0x1_0000_0000_0000_0000_0000_0000_0000_0000,
    ;
    assert(a[3] * pow2(192) == 0x1_0000_0000_0000_0000_0000_0000_0000_0000_0000_0000_0000_0000int * a[3]) by (nonlinear_arith)
        requires
            pow2(192) == 0x1_0000_0000_0000_0000_0000_0000_0000_0000_0000_0000_0000_0000,
    ;
    assert(a[4] * pow2(256) == 0x1_0000_0000_0000_0000_0000_0000_0000_0000_0000_0000_0000_0000_0000_0000_0000_0000int
        * a[4]) by (nonlinear_arith)
        requires
            pow2(256) == 0x1_0000_0000_0000_0000_0000_0000_0000_0000_0000_0000_0000_0000_0000_0000_0000_0000,
    ;
}

} // verus!
