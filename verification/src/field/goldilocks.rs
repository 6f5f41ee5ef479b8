use vstd::prelude::*;
use vstd::arithmetic::div_mod::*;
use vstd::arithmetic::power::*;
use vstd::arithmetic::power2::*;
use vstd::arithmetic::mul::*;
use vstd::string::StringSliceAdditionalSpecFns;
use vstd::utf8::encode_utf8;
use crate::field::prime::{lemma_square_root_of_one, lemma_powmod, lemma_eleven_half, lemma_fermat};
use crate::codec::{hex_value, lemma_hex_roundtrip, hex_encode, hex_decode, hex_lower, hex_decodable, hex_decoded, strip_hex_prefix, without_hex_prefix, u64_to_decimal, decimal_nat};

verus! {

/// The Goldilocks prime p = 2^64 - 2^32 + 1.
pub open spec fn modulus() -> nat {
    18446744069414584321
}

/// 2^64 mod p, the correction applied when a 64-bit operation wraps.
pub open spec fn epsilon() -> nat {
    4294967295
}

/// A Goldilocks field element stored as a raw `u64` that is not necessarily
/// reduced modulo p.  Its value is the raw word taken modulo p.
#[derive(Debug, Clone, Copy)]
pub struct GoldilocksField(pub u64);

impl View for GoldilocksField {
    type V = nat;

    open spec fn view(&self) -> nat {
        (self.0 as nat) % modulus()
    }
}

/// Difference of two residues modulo p.
pub open spec fn field_sub(a: nat, b: nat) -> nat {
    ((a + modulus() - b) % (modulus() as int)) as nat
}

/// `(k * p + r) % p == r % p`.
pub proof fn lemma_mod_p_multiple(k: int, r: int)
    ensures
        (k * modulus() + r) % (modulus() as int) == r % (modulus() as int),
{
    lemma_mod_multiples_vanish(k, r, modulus() as int);
}



/// Reducing the summands first does not change a sum modulo p.
pub proof fn lemma_add_congr(x: int, y: int, a: nat, b: nat)
    requires
        a == x % (modulus() as int),
        b == y % (modulus() as int),
    ensures
        (a + b) % modulus() == (x + y) % (modulus() as int),
{
    lemma_add_mod_noop(x, y, modulus() as int);
}

/// Reducing the factors first does not change a product modulo p.
pub proof fn lemma_mul_congr(x: int, y: int, a: nat, b: nat)
    requires
        a == x % (modulus() as int),
        b == y % (modulus() as int),
    ensures
        (a * b) % modulus() == (x * y) % (modulus() as int),
{
    lemma_mul_mod_noop(x, y, modulus() as int);
}

/// Multiplying two reduced powers of `a` adds the exponents.
pub proof fn lemma_pow_mul_mod(a: int, e1: nat, e2: nat)
    ensures
        ((pow(a, e1) % (modulus() as int)) * (pow(a, e2) % (modulus() as int)))
            % (modulus() as int) == pow(a, e1 + e2) % (modulus() as int),
{
    lemma_pow_adds(a, e1, e2);
    lemma_mul_mod_noop(pow(a, e1), pow(a, e2), modulus() as int);
}

/// Raising a reduced power of `a` to a further power multiplies the exponents.
pub proof fn lemma_pow_pow_mod(a: int, m: nat, e: nat)
    ensures
        pow(pow(a, m) % (modulus() as int), e) % (modulus() as int) == pow(a, m * e)
            % (modulus() as int),
{
    lemma_pow_mod_noop(pow(a, m), e, modulus() as int);
    lemma_pow_multiplies(a, m, e);
}

/// One step of an addition chain: `(t^(2^s)) * y` where `t = a^m`, `y = a^k`.
pub proof fn lemma_chain_step(a: int, m: nat, s: nat, k: nat, t: nat, y: nat)
    requires
        t == pow(a, m) % (modulus() as int),
        y == pow(a, k) % (modulus() as int),
    ensures
        ((pow(t as int, pow2(s)) % (modulus() as int)) * y) % (modulus() as int) == pow(
            a,
            m * pow2(s) + k,
        ) % (modulus() as int),
{
    lemma_pow_pow_mod(a, m, pow2(s));
    lemma_mul_nonnegative(m as int, pow2(s) as int);
    lemma_pow_mul_mod(a, (m * pow2(s)) as nat, k);
}

/// Squaring a reduced power doubles the exponent.
pub proof fn lemma_square_pow_mod(a: int, e: nat, t: nat)
    requires
        t == pow(a, e) % (modulus() as int),
    ensures
        (t * t) % modulus() == pow(a, e + e) % (modulus() as int),
        (t * t) % modulus() == pow(t as int, 2) % (modulus() as int),
{
    lemma_pow_mul_mod(a, e, e);
    lemma_square_is_pow2(t as int);
}

/// One step of binary exponentiation.
pub proof fn lemma_exp_step(r: nat, b: nat, e: nat)
    requires
        e > 0,
    ensures
        (r * pow(b as int, e)) % (modulus() as int) == ((if e % 2 == 1 {
            (r * b) % modulus()
        } else {
            r
        }) * pow(((b * b) % modulus()) as int, e / 2)) % (modulus() as int),
{
    let p = modulus() as int;
    let h = e / 2;
    let bi = b as int;
    let ri = r as int;
    let bb = ((b * b) % modulus()) as int;
    let x = pow(bi * bi, h);
    lemma_pow_adds(bi, e % 2, 2 * h);
    lemma_pow_multiplies(bi, 2, h);
    lemma_square_is_pow2(bi);
    lemma_pow_mod_noop(bi * bi, h, p);
    assert(pow(bi, e) == pow(bi, e % 2) * x);
    assert(x % p == pow(bb, h) % p);
    let r2: int = if e % 2 == 1 { (ri * bi) % p } else { ri };
    if e % 2 == 1 {
        lemma_pow1(bi);
        assert(pow(bi, e) == bi * x);
        lemma_mul_is_associative(ri, bi, x);
        assert(ri * pow(bi, e) == (ri * bi) * x);
        lemma_mul_mod_noop(ri * bi, x, p);
        lemma_mul_mod_noop(r2, pow(bb, h), p);
        lemma_mod_twice(ri * bi, p);
        assert(((ri * bi) * x) % p == (r2 * pow(bb, h)) % p);
    } else {
        lemma_pow0(bi);
        assert(pow(bi, e) == x);
        lemma_mul_mod_noop(ri, x, p);
        lemma_mul_mod_noop(ri, pow(bb, h), p);
    }
}


/// Little-endian bytes of a 64-bit word.
pub open spec fn u64_le_bytes(x: u64) -> Seq<u8> {
    seq![
        x as u8,
        (x >> 8u64) as u8,
        (x >> 16u64) as u8,
        (x >> 24u64) as u8,
        (x >> 32u64) as u8,
        (x >> 40u64) as u8,
        (x >> 48u64) as u8,
        (x >> 56u64) as u8,
    ]
}

/// The 64-bit word whose little-endian bytes are the first eight of `b`.
pub open spec fn u64_from_le_bytes(b: Seq<u8>) -> u64 {
    (b[0] as u64) | ((b[1] as u64) << 8u64) | ((b[2] as u64) << 16u64) | ((b[3] as u64) << 24u64)
        | ((b[4] as u64) << 32u64) | ((b[5] as u64) << 40u64) | ((b[6] as u64) << 48u64) | ((
    b[7] as u64) << 56u64)
}

/// Encoding a word and decoding the bytes gives the word back.
pub proof fn lemma_u64_le_bytes_roundtrip(x: u64)
    ensures
        u64_from_le_bytes(u64_le_bytes(x)) == x,
        u64_le_bytes(x).len() == 8,
{
    let b = u64_le_bytes(x);
    assert(((x as u8) as u64) | ((((x >> 8u64) as u8) as u64) << 8u64) | ((((x >> 16u64) as u8)
        as u64) << 16u64) | ((((x >> 24u64) as u8) as u64) << 24u64) | ((((x >> 32u64) as u8)
        as u64) << 32u64) | ((((x >> 40u64) as u8) as u64) << 40u64) | ((((x >> 48u64) as u8)
        as u64) << 48u64) | ((((x >> 56u64) as u8) as u64) << 56u64) == x) by (bit_vector);
}

/// Decoding eight bytes and encoding the word gives the bytes back.
pub proof fn lemma_u64_from_le_bytes_roundtrip(b: Seq<u8>)
    requires
        b.len() == 8,
    ensures
        u64_le_bytes(u64_from_le_bytes(b)) == b,
{
    let (b0, b1, b2, b3, b4, b5, b6, b7) = (b[0], b[1], b[2], b[3], b[4], b[5], b[6], b[7]);
    let x = u64_from_le_bytes(b);
    assert(x as u8 == b0 && (x >> 8u64) as u8 == b1 && (x >> 16u64) as u8 == b2 && (x >> 24u64)
        as u8 == b3 && (x >> 32u64) as u8 == b4 && (x >> 40u64) as u8 == b5 && (x >> 48u64) as u8
        == b6 && (x >> 56u64) as u8 == b7) by (bit_vector)
        requires
            x == (b0 as u64) | ((b1 as u64) << 8u64) | ((b2 as u64) << 16u64) | ((b3 as u64)
                << 24u64) | ((b4 as u64) << 32u64) | ((b5 as u64) << 40u64) | ((b6 as u64)
                << 48u64) | ((b7 as u64) << 56u64),
    ;
    assert(u64_le_bytes(x) =~= b);
}

/// Negation undoes itself, cancels addition, and a value minus itself is
/// zero, on canonical values.
pub proof fn lemma_goldilocks_neg_laws(a: nat)
    requires
        a < modulus(),
    ensures
        ((modulus() - ((modulus() - a) as nat) % modulus()) as nat) % modulus() == a,
        (a + ((modulus() - a) as nat) % modulus()) % modulus() == 0,
        field_sub(a, a) == 0,
{
    let p = modulus();
    lemma_mod_self_0(p as int);
    lemma_small_mod(0, p);
    lemma_small_mod(a, p);
    if a == 0 {
        assert(((p - a) as nat) % p == 0);
    } else {
        lemma_small_mod((p - a) as nat, p);
    }
}

/// `to_bytes_le` then `from_bytes_le` gives back the canonical value: the
/// eight bytes of a value below p decode to it.
pub proof fn lemma_goldilocks_bytes_roundtrip(x: u64)
    requires
        x < modulus(),
    ensures
        u64_le_bytes(x).len() == 8,
        u64_from_le_bytes(u64_le_bytes(x)) == x,
        u64_from_le_bytes(u64_le_bytes(x)) < modulus(),
{
    lemma_u64_le_bytes_roundtrip(x);
}

/// `to_hex` then `from_hex`, with or without a "0x" prefix, gives back the
/// canonical value: the hexadecimal text of a value below p has 16 digits
/// that decode to it.
pub proof fn lemma_goldilocks_hex_roundtrip(x: u64)
    requires
        x < modulus(),
    ensures
        without_hex_prefix(encode_utf8(hex_lower(u64_le_bytes(x)))) == encode_utf8(hex_lower(u64_le_bytes(x))),
        without_hex_prefix(seq![48u8, 120u8] + encode_utf8(hex_lower(u64_le_bytes(x)))) == encode_utf8(
            hex_lower(u64_le_bytes(x)),
        ),
        encode_utf8(hex_lower(u64_le_bytes(x))).len() == 16,
        hex_decodable(encode_utf8(hex_lower(u64_le_bytes(x)))),
        u64_from_le_bytes(hex_decoded(encode_utf8(hex_lower(u64_le_bytes(x))))) == x,
{
    let b = u64_le_bytes(x);
    lemma_u64_le_bytes_roundtrip(x);
    lemma_hex_roundtrip(b);
    let t = encode_utf8(hex_lower(b));
    assert(hex_value(t[1]) >= 0);
    assert(t[1] != 120u8);
    assert((seq![48u8, 120u8] + t).subrange(2, t.len() + 2int) =~= t);
}

/// Zero, or a value g with g^((p-1)/2) = 1 (Euler's criterion): exactly the
/// values on which `sqrt` finds a root.
pub open spec fn euler_square(g: nat) -> bool {
    g == 0 || pow(g as int, 9223372034707292160) % (modulus() as int) == 1
}

/// a^(p-2) is the multiplicative inverse of a non-zero a modulo p.
pub proof fn lemma_goldilocks_inverse(a: nat)
    requires
        0 < a < modulus(),
    ensures
        (a * (pow(a as int, (modulus() - 2) as nat) % (modulus() as int)) as nat) % modulus() == 1,
{
    let p = modulus();
    lemma_small_mod(a, p);
    lemma_fermat(a);
    lemma_pow_adds(a as int, 1, (p - 2) as nat);
    lemma_pow1(a as int);
    lemma_mul_mod_noop_right(a as int, pow(a as int, (p - 2) as nat), p as int);
    lemma_mod_bound(pow(a as int, (p - 2) as nat), p as int);
}

/// A value has a square root modulo p exactly when it passes Euler's
/// criterion (a consequence of Fermat's little theorem).
pub proof fn lemma_square_is_euler(x: nat, g: nat)
    requires
        x < modulus(),
        g == (x * x) % modulus(),
    ensures
        euler_square(g),
{
    let p = modulus();
    if x != 0 {
        lemma_small_mod(x, p);
        lemma_fermat(x);
        lemma_pow_mod_noop((x * x) as int, 9223372034707292160, p as int);
        lemma_pow_multiplies(x as int, 2, 9223372034707292160);
        assert(pow(x as int, 2) == x * x) by {
            lemma_square_is_pow2(x as int);
        }
    } else {
        lemma_small_mod(0, p);
    }
}

/// x^2 mod p.
pub open spec fn square_mod(x: nat) -> nat {
    (x * x) % modulus()
}

/// g has a square root modulo p.
pub open spec fn has_square_root(g: nat) -> bool {
    exists|x: nat| x < modulus() && #[trigger] square_mod(x) == g
}

/// Every square passes Euler's criterion.
proof fn lemma_squares_are_euler(g: nat)
    ensures
        has_square_root(g) ==> euler_square(g),
{
    if has_square_root(g) {
        let x = choose|x: nat| x < modulus() && #[trigger] square_mod(x) == g;
        lemma_square_is_euler(x, g);
    }
}

/// x squared n times modulo p, that is x^(2^n) mod p.
pub open spec fn sq_n(x: nat, n: nat) -> nat
    decreases n,
{
    if n == 0 {
        x
    } else {
        let y = sq_n(x, (n - 1) as nat);
        (y * y) % modulus()
    }
}

/// Squaring a power of a n times multiplies its exponent by 2^n.
proof fn lemma_sq_n_pow(a: int, e: nat, t: nat, n: nat)
    requires
        t == pow(a, e) % (modulus() as int),
    ensures
        sq_n(t, n) == pow(a, e * pow2(n)) % (modulus() as int),
    decreases n,
{
    if n == 0 {
        lemma_pow2(0);
        lemma_pow0(2);
        assert(e * pow2(0) == e);
    } else {
        let n1 = (n - 1) as nat;
        lemma_sq_n_pow(a, e, t, n1);
        let y = sq_n(t, n1);
        lemma_mul_nonnegative(e as int, pow2(n1) as int);
        lemma_square_pow_mod(a, e * pow2(n1), y);
        lemma_pow2_unfold(n);
        assert(e * pow2(n1) + e * pow2(n1) == e * pow2(n)) by (nonlinear_arith)
            requires
                pow2(n) == 2 * pow2(n1),
        ;
    }
}

/// Squaring a times and then b times is squaring a + b times.
proof fn lemma_sq_n_add(x: nat, a: nat, b: nat)
    ensures
        sq_n(sq_n(x, a), b) == sq_n(x, a + b),
    decreases b,
{
    if b > 0 {
        lemma_sq_n_add(x, a, (b - 1) as nat);
        assert(a + b - 1 == a + (b - 1));
    }
}

/// Repeated squaring distributes over products modulo p.
proof fn lemma_sq_n_mul(x: nat, y: nat, n: nat)
    ensures
        sq_n((x * y) % modulus(), n) == (sq_n(x, n) * sq_n(y, n)) % modulus(),
    decreases n,
{
    let p = modulus() as int;
    if n == 0 {
    } else {
        let n1 = (n - 1) as nat;
        lemma_sq_n_mul(x, y, n1);
        let u = sq_n(x, n1);
        let v = sq_n(y, n1);
        let w = (u * v) % modulus();
        // (w * w) % p == ((u*u)%p * (v*v)%p) % p
        lemma_mul_mod_noop((u * v) as int, (u * v) as int, p);
        lemma_mul_mod_noop((u * u) as int, (v * v) as int, p);
        assert((u * v) * (u * v) == (u * u) * (v * v)) by (nonlinear_arith);
    }
}

/// The value of p - 1 squared once.
proof fn lemma_minus_one_squared()
    ensures
        ((modulus() - 1) as nat * (modulus() - 1) as nat) % modulus() == 1,
{
    assert((18446744069414584320nat * 18446744069414584320nat) % 18446744069414584321nat == 1);
}

/// A square root of 1 other than 1 is p - 1.
proof fn lemma_sq_n_minus_one(y: nat)
    requires
        y < modulus(),
        y != 1,
        (y * y) % modulus() == 1,
    ensures
        y == modulus() - 1,
{
    lemma_square_root_of_one(y);
}

/// The Tonelli-Shanks update keeps r^2 = a t: multiplying r by b and t by b^2.
proof fn lemma_tonelli_root_step(a: nat, r0: nat, b: nat, t0: nat)
    requires
        (r0 * r0) % modulus() == (a * t0) % modulus(),
    ensures
        (((r0 * b) % modulus()) * ((r0 * b) % modulus())) % modulus() == (a * ((t0 * ((b * b)
            % modulus())) % modulus())) % modulus(),
{
    let p = modulus() as int;
    lemma_mul_mod_noop((r0 * b) as int, (r0 * b) as int, p);
    assert((r0 * b) * (r0 * b) == (r0 * r0) * (b * b)) by (nonlinear_arith);
    lemma_mul_mod_noop_left((r0 * r0) as int, (b * b) as int, p);
    lemma_mul_mod_noop_left((a * t0) as int, (b * b) as int, p);
    lemma_mul_mod_noop_right(a as int, (t0 * ((b * b) % modulus())) as int, p);
    assert(a * (t0 * ((b * b) % modulus())) == (a * t0) * ((b * b) % modulus())) by (nonlinear_arith);
    lemma_mul_mod_noop_right((a * t0) as int, (b * b) as int, p);
}

/// One stays one under squaring.
proof fn lemma_sq_n_one(n: nat)
    ensures
        sq_n(1, n) == 1,
    decreases n,
{
    if n > 0 {
        lemma_sq_n_one((n - 1) as nat);
        lemma_small_mod(1, modulus());
        assert(sq_n(1, n) == (sq_n(1, (n - 1) as nat) * sq_n(1, (n - 1) as nat)) % modulus());
        assert(1nat * 1nat == 1nat);
    }
}

/// Wrapping 64-bit addition that also reports whether it wrapped.
fn overflowing_add(a: u64, b: u64) -> (res: (u64, bool))
    ensures
        res.1 == (a + b > u64::MAX),
        res.0 == (if res.1 { a + b - 0x1_0000_0000_0000_0000 } else { a + b }),
{
    let s = a.wrapping_add(b);
    (s, s < a)
}

/// Wrapping 64-bit subtraction that also reports whether it borrowed.
fn overflowing_sub(a: u64, b: u64) -> (res: (u64, bool))
    ensures
        res.1 == (a < b),
        res.0 == (if res.1 { a - b + 0x1_0000_0000_0000_0000 } else { a - b }),
{
    (a.wrapping_sub(b), a < b)
}

impl GoldilocksField {
    pub const MODULUS: u64 = 0xFFFFFFFF00000001;
    pub const EPSILON: u64 = 0xFFFFFFFF;
    pub const ORDER: u64 = 0xFFFFFFFF00000001;

    /// The additive identity.
    pub fn zero() -> (r: Self)
        ensures
            r.0 == 0,
    {
        GoldilocksField(0)
    }

    /// The multiplicative identity.
    pub fn one() -> (r: Self)
        ensures
            r.0 == 1,
    {
        GoldilocksField(1)
    }

    /// Reduces a 128-bit product modulo p, using 2^64 = EPSILON and
    /// 2^96 = -1 (mod p).
    pub(crate) fn reduce128(x: u128) -> (r: u64)
        ensures
            r as int % (modulus() as int) == x as int % (modulus() as int),
    {
        let lo = x as u64;
        let hi = (x >> 64u32) as u64;
        let hi_hi = hi >> 32u32;
        let hi_lo = hi & Self::EPSILON;
        proof {
            assert(x == (hi as u128) * 0x1_0000_0000_0000_0000u128 + (lo as u128)) by (bit_vector)
                requires
                    lo == x as u64,
                    hi == (x >> 64u32) as u64,
            ;
            assert(hi == hi_hi * 0x1_0000_0000u64 + hi_lo && hi_hi < 0x1_0000_0000u64
                && hi_lo <= 0xFFFF_FFFFu64) by (bit_vector)
                requires
                    hi_hi == hi >> 32u32,
                    hi_lo == hi & 0xFFFF_FFFFu64,
            ;
        }
        let (t0, borrow) = overflowing_sub(lo, hi_hi);
        let t0 = t0.wrapping_sub(if borrow { Self::EPSILON } else { 0 });
        let t1 = hi_lo * Self::EPSILON;
        let (sum, over) = overflowing_add(t0, t1);
        let r = sum.wrapping_add(if over { Self::EPSILON } else { 0 });
        proof {
            let p = modulus() as int;
            let j: int = (if borrow { 1int } else { 0int }) - (if over { 1int } else { 0int });
            assert(r as int == lo as int - hi_hi as int + hi_lo as int * 0xFFFF_FFFF + j * p);
            let k: int = hi_hi as int * 0x1_0000_0001 + hi_lo as int - j;
            assert(x as int == k * p + r as int);
            lemma_mod_p_multiple(k, r as int);
        }
        r
    }

    /// Returns the canonical representative in [0, p).
    pub fn canonical(&self) -> (r: u64)
        ensures
            r == self@,
    {
        if self.0 >= Self::MODULUS {
            proof { lemma_mod_p_multiple(1, self.0 as int - modulus()); }
            self.0 - Self::MODULUS
        } else {
            proof { lemma_small_mod(self.0 as nat, modulus()); }
            self.0
        }
    }

    pub fn is_zero(&self) -> (r: bool)
        ensures
            r == (self@ == 0),
    {
        self.canonical() == 0
    }

    pub fn is_one(&self) -> (r: bool)
        ensures
            r == (self@ == 1),
    {
        self.canonical() == 1
    }

    /// Addition with epsilon-based carry propagation.
    pub fn add(&self, other: &Self) -> (r: Self)
        ensures
            r@ == (self@ + other@) % modulus(),
    {
        let (sum, over) = overflowing_add(self.0, other.0);
        let (sum, over2) = overflowing_add(sum, if over { Self::EPSILON } else { 0 });
        let r = if over2 { sum.wrapping_add(Self::EPSILON) } else { sum };
        proof {
            let p = modulus() as int;
            let j: int = (if over { 1int } else { 0int }) + (if over2 { 1int } else { 0int });
            assert(r as int == self.0 as int + other.0 as int - j * p);
            lemma_mod_p_multiple(-j, self.0 as int + other.0 as int);
            lemma_add_mod_noop(self.0 as int, other.0 as int, p);
        }
        GoldilocksField(r)
    }

    /// Subtraction with epsilon-based borrow propagation.
    pub fn sub(&self, other: &Self) -> (r: Self)
        ensures
            r@ == field_sub(self@, other@),
    {
        let (diff, borrow) = overflowing_sub(self.0, other.0);
        let (diff, borrow2) = overflowing_sub(diff, if borrow { Self::EPSILON } else { 0 });
        let r = if borrow2 { diff.wrapping_sub(Self::EPSILON) } else { diff };
        proof {
            let p = modulus() as int;
            let j: int = (if borrow { 1int } else { 0int }) + (if borrow2 { 1int } else { 0int });
            assert(r as int == self.0 as int - other.0 as int + j * p);
            lemma_mod_p_multiple(j, self.0 as int - other.0 as int);
            lemma_sub_mod_noop(self.0 as int, other.0 as int, p);
            lemma_mod_add_multiples_vanish(self@ - other@, p);
            lemma_mod_bound(self@ + p - other@, p);
        }
        GoldilocksField(r)
    }

    /// Multiplication with reduction via `reduce128`.
    pub fn mul(&self, other: &Self) -> (r: Self)
        ensures
            r@ == (self@ * other@) % modulus(),
    {
        proof {
            lemma_mul_upper_bound(self.0 as int, u64::MAX as int, other.0 as int, u64::MAX as int);
            assert(u64::MAX as int * u64::MAX as int <= u128::MAX) by (nonlinear_arith);
        }
        let product = (self.0 as u128) * (other.0 as u128);
        let r = Self::reduce128(product);
        proof {
            lemma_mul_mod_noop(self.0 as int, other.0 as int, modulus() as int);
        }
        GoldilocksField(r)
    }

    /// Squaring (a multiplication by itself).
    pub fn square(&self) -> (r: Self)
        ensures
            r@ == (self@ * self@) % modulus(),
    {
        self.mul(self)
    }

    /// Multiply by 2.
    pub fn double(&self) -> (r: Self)
        ensures
            r@ == (self@ + self@) % modulus(),
    {
        self.add(self)
    }

    /// Adds a raw word below p to this element, which may itself be
    /// non-canonical.
    pub fn add_canonical_u64(&self, rhs: u64) -> (r: Self)
        requires
            rhs < modulus(),
        ensures
            r@ == (self@ + rhs as nat) % modulus(),
    {
        let (sum, over) = overflowing_add(self.0, rhs);
        let r = sum.wrapping_add(if over { Self::EPSILON } else { 0 });
        proof {
            let p = modulus() as int;
            let j: int = if over { 1int } else { 0int };
            assert(r as int == self.0 as int + rhs as int - j * p);
            lemma_mod_p_multiple(-j, self.0 as int + rhs as int);
            lemma_add_mod_noop(self.0 as int, rhs as int, p);
            lemma_small_mod(rhs as nat, modulus());
        }
        GoldilocksField(r)
    }

    /// Additive inverse.
    pub fn neg(&self) -> (r: Self)
        ensures
            r@ == ((modulus() - self@) as nat) % modulus(),
            r.0 < modulus(),
    {
        let x = self.canonical();
        if x == 0 {
            proof { lemma_mod_self_0(modulus() as int); }
            GoldilocksField(0)
        } else {
            proof { lemma_small_mod((modulus() - x) as nat, modulus()); }
            GoldilocksField(Self::MODULUS - x)
        }
    }

    /// Creates an element from a word known to be below p.
    pub fn from_canonical_u64(val: u64) -> (r: Self)
        requires
            val < modulus(),
        ensures
            r.0 == val,
            r@ == val,
    {
        proof { lemma_small_mod(val as nat, modulus()); }
        GoldilocksField(val)
    }

    /// Creates an element from any word, reducing it below p.
    pub fn from_noncanonical_u64(val: u64) -> (r: Self)
        ensures
            r.0 == (val as nat) % modulus(),
            r.0 < modulus(),
            r@ == (val as nat) % modulus(),
    {
        let v = if val >= Self::MODULUS { val - Self::MODULUS } else { val };
        proof {
            if val >= Self::MODULUS {
                lemma_mod_p_multiple(1, v as int);
                lemma_small_mod(v as nat, modulus());
            } else {
                lemma_small_mod(val as nat, modulus());
            }
            lemma_small_mod(v as nat, modulus());
        }
        GoldilocksField(v)
    }

    /// Creates an element from the two's complement bit pattern of an `i64`.
    pub fn from_i64(val: i64) -> (r: Self)
        ensures
            r.0 == val as u64,
    {
        GoldilocksField(val as u64)
    }

    /// Exponentiation by a `u64` power using binary exponentiation.
    pub fn exp(&self, exponent: u64) -> (r: Self)
        ensures
            r@ == pow(self@ as int, exponent as nat) % (modulus() as int),
    {
        let p = Ghost(modulus() as int);
        if exponent == 0 {
            proof {
                lemma_pow0(self@ as int);
                lemma_small_mod(1, modulus());
            }
            return Self::one();
        }
        if exponent == 1 {
            proof {
                lemma_pow1(self@ as int);
                lemma_mod_twice(self.0 as int, p@);
            }
            return *self;
        }
        let mut result = Self::one();
        let mut base = *self;
        let mut exp = exponent;
        proof {
            lemma_small_mod(1, modulus());
            lemma_mod_twice(self.0 as int, p@);
        }
        while exp > 0
            invariant
                p@ == modulus(),
                (result@ * pow(base@ as int, exp as nat)) % p@ == pow(self@ as int, exponent as nat)
                    % p@,
            decreases exp,
        {
            proof {
                lemma_exp_step(result@, base@, exp as nat);
                assert((exp & 1 == 1) == (exp % 2 == 1)) by (bit_vector);
                assert(exp >> 1u32 == exp / 2) by (bit_vector);
            }
            if exp & 1 == 1 {
                result = result.mul(&base);
            }
            base = base.square();
            exp = exp >> 1u32;
        }
        proof {
            lemma_pow0(base@ as int);
            lemma_small_mod(result@, modulus());
        }
        result
    }

    /// Repeated squaring: returns `self^(2^n)`.
    pub fn exp_power_of_2(&self, n: usize) -> (r: Self)
        ensures
            r@ == pow(self@ as int, pow2(n as nat)) % (modulus() as int),
    {
        let mut result = *self;
        proof {
            lemma2_to64();
            lemma_pow1(self@ as int);
            lemma_mod_twice(self.0 as int, modulus() as int);
        }
        for i in 0..n
            invariant
                result@ == pow(self@ as int, pow2(i as nat)) % (modulus() as int),
        {
            proof {
                lemma_square_pow_mod(self@ as int, pow2(i as nat), result@);
                lemma_pow2_unfold((i + 1) as nat);
            }
            result = result.square();
        }
        result
    }

    /// Multiplicative inverse computed as `self^(p-2)` with an addition chain;
    /// zero maps to zero.
    pub fn inverse_or_zero(&self) -> (r: Self)
        ensures
            r@ == pow(self@ as int, (modulus() - 2) as nat) % (modulus() as int),
            self@ == 0 ==> r@ == 0,
            self@ != 0 ==> (self@ * r@) % modulus() == 1,
    {
        if self.is_zero() {
            proof {
                lemma0_pow((modulus() - 2) as nat);
                lemma_small_mod(0, modulus());
            }
            return Self::zero();
        }
        let a = *self;
        let ghost aa = self@ as int;
        proof {
            lemma2_to64();
            lemma_pow1(aa);
            lemma_mod_twice(self.0 as int, modulus() as int);
            assert(a@ == pow(aa, 1) % (modulus() as int));
        }
        let t2 = a.square().mul(&a);
        proof {
            lemma_square_pow_mod(aa, 1, a@);
            lemma_pow_mul_mod(aa, 2, 1);
            assert(t2@ == pow(aa, 3) % (modulus() as int));
        }
        let t3 = t2.square().mul(&a);
        proof {
            lemma_square_pow_mod(aa, 3, t2@);
            lemma_pow_mul_mod(aa, 6, 1);
            assert(t3@ == pow(aa, 7) % (modulus() as int));
        }
        let t6 = t3.exp_power_of_2(3).mul(&t3);
        proof {
            lemma_chain_step(aa, 7, 3, 7, t3@, t3@);
            assert(t6@ == pow(aa, 63) % (modulus() as int));
        }
        let t12 = t6.exp_power_of_2(6).mul(&t6);
        proof {
            lemma_chain_step(aa, 63, 6, 63, t6@, t6@);
            assert(t12@ == pow(aa, 4095) % (modulus() as int));
        }
        let t24 = t12.exp_power_of_2(12).mul(&t12);
        proof {
            lemma_chain_step(aa, 4095, 12, 4095, t12@, t12@);
            assert(t24@ == pow(aa, 16777215) % (modulus() as int));
        }
        let t30 = t24.exp_power_of_2(6).mul(&t6);
        proof {
            lemma_chain_step(aa, 16777215, 6, 63, t24@, t6@);
            assert(t30@ == pow(aa, 1073741823) % (modulus() as int));
        }
        let t31 = t30.square().mul(&a);
        proof {
            lemma_square_pow_mod(aa, 1073741823, t30@);
            lemma_pow_mul_mod(aa, 2147483646, 1);
            assert(t31@ == pow(aa, 2147483647) % (modulus() as int));
        }
        let t63 = t31.exp_power_of_2(32).mul(&t31);
        proof {
            lemma_chain_step(aa, 2147483647, 32, 2147483647, t31@, t31@);
            assert(t63@ == pow(aa, 9223372034707292159) % (modulus() as int));
        }
        let r = t63.square().mul(&a);
        proof {
            lemma_square_pow_mod(aa, 9223372034707292159, t63@);
            lemma_pow_mul_mod(aa, 18446744069414584318, 1);
            lemma_goldilocks_inverse(self@);
        }
        r
    }

    /// Multiplicative inverse of a non-zero element.
    pub fn inverse(&self) -> (r: Self)
        requires
            self@ != 0,
        ensures
            r@ == pow(self@ as int, (modulus() - 2) as nat) % (modulus() as int),
            (self@ * r@) % modulus() == 1,
    {
        self.inverse_or_zero()
    }

    /// Square root by Tonelli-Shanks (p - 1 = 2^32 * EPSILON, 11 a
    /// non-residue).  A root is found for zero and for every a with
    /// a^((p-1)/2) = 1 (Euler's criterion for squares); `None` only
    /// otherwise.
    pub fn sqrt(&self) -> (r: Option<Self>)
        ensures
            self@ == 0 ==> (r matches Some(s) && s@ == 0),
            r is Some <==> euler_square(self@),
            r is Some <==> has_square_root(self@),
            r matches Some(s) ==> (s@ * s@) % modulus() == self@,
    {
        proof {
            lemma_squares_are_euler(self@);
        }
        if self.is_zero() {
            proof {
                lemma_small_mod(0, modulus());
                assert(0nat * 0nat == 0nat);
                assert(square_mod(0) == 0);
            }
            return Some(Self::zero());
        }
        let e: usize = 32;
        let q: u64 = Self::EPSILON;
        // 11 is a quadratic non-residue modulo p.
        let z = Self::from_canonical_u64(11);
        let mut c = z.exp(q);
        let mut t = self.exp(q);
        let mut r = self.exp((q + 1) / 2);
        let mut m = e;
        let ghost qr = pow(self@ as int, 9223372034707292160) % (modulus() as int) == 1;
        proof {
            assert(pow2(31) == 2147483648) by {
                lemma2_to64();
            }
            assert(q * pow2(31) == 9223372034707292160);
            lemma_sq_n_pow(11, q as nat, c@, 31);
            lemma_eleven_half();
            lemma_powmod(11, 9223372034707292160, modulus());
            lemma_sq_n_pow(self@ as int, q as nat, t@, 31);
            lemma_square_pow_mod(self@ as int, 2147483648, r@);
            lemma_pow1(self@ as int);
            lemma_small_mod(self@, modulus());
            lemma_pow_mul_mod(self@ as int, 1, q as nat);
        }
        while t.canonical() != 1
            invariant
                self@ != 0,
                has_square_root(self@) ==> euler_square(self@),
                qr == (pow(self@ as int, 9223372034707292160) % (modulus() as int) == 1),
                1 <= m <= 32,
                sq_n(c@, (m - 1) as nat) == modulus() - 1,
                qr <==> sq_n(t@, (m - 1) as nat) == 1,
                (r@ * r@) % modulus() == (self@ * t@) % modulus(),
            decreases m,
        {
            let mut i: usize = 0;
            let mut tt = t;
            while i < m && tt.canonical() != 1
                invariant
                    i <= m,
                    tt@ == sq_n(t@, i as nat),
                    forall|j: nat| j < i ==> #[trigger] sq_n(t@, j) != 1,
                decreases m - i,
            {
                tt = tt.square();
                i += 1;
            }
            if i == m {
                proof {
                    if qr {
                        assert(sq_n(t@, (m - 1) as nat) != 1);
                    }
                }
                return None;
            }
            assert(i >= 1);
            let mut b = c;
            for k in 0..(m - i - 1)
                invariant
                    b@ == sq_n(c@, k as nat),
            {
                b = b.square();
            }
            proof {
                lemma_sq_n_add(t@, i as nat, (m - 1 - i) as nat);
                lemma_sq_n_one((m - 1 - i) as nat);
                assert(qr);
            }
            let ghost t0 = t@;
            let ghost c0 = c@;
            let ghost r0 = r@;
            let ghost m0 = m;
            r = r.mul(&b);
            c = b.square();
            t = t.mul(&c);
            m = i;
            proof {
                let i1 = (i - 1) as nat;
                lemma_sq_n_add(c0, (m0 - i - 1) as nat, 1);
                assert(c@ == sq_n(c0, (m0 - i) as nat));
                lemma_sq_n_add(c0, (m0 - i) as nat, i1);
                assert((m0 - i) as nat + i1 == (m0 - 1) as nat);
                lemma_sq_n_mul(t0, c@, i1);
                let y = sq_n(t0, i1);
                assert(y != 1);
                assert(sq_n(t0, i as nat) == (y * y) % modulus());
                if i1 > 0 {
                    lemma_mod_bound((sq_n(t0, (i1 - 1) as nat) * sq_n(t0, (i1 - 1) as nat)) as int, modulus() as int);
                }
                lemma_sq_n_minus_one(y);
                lemma_minus_one_squared();
                lemma_tonelli_root_step(self@, r0, b@, t0);
            }
        }
        let r_sq = r.square();
        proof {
            lemma_small_mod(self@, modulus());
            lemma_sq_n_one((m - 1) as nat);
        }
        if r_sq.canonical() == self.canonical() {
            proof {
                lemma_mod_bound(r.0 as int, modulus() as int);
                assert(r@ < modulus() && square_mod(r@) == self@);
            }
            Some(r)
        } else {
            None
        }
    }

    /// Serializes as the 8 little-endian bytes of the canonical value.
    pub fn to_bytes_le(&self) -> (r: [u8; 8])
        ensures
            r@ == u64_le_bytes(self@ as u64),
    {
        let c = self.canonical();
        let r = [
            c as u8,
            (c >> 8u32) as u8,
            (c >> 16u32) as u8,
            (c >> 24u32) as u8,
            (c >> 32u32) as u8,
            (c >> 40u32) as u8,
            (c >> 48u32) as u8,
            (c >> 56u32) as u8,
        ];
        assert(r@ =~= u64_le_bytes(c));
        r
    }

    /// Deserializes from 8 little-endian bytes, refusing values not below p.
    pub fn from_bytes_le(bytes: &[u8]) -> (r: Result<Self, &'static str>)
        ensures
            bytes@.len() != 8 ==> (r matches Err(e) && e@ == "expected 8 bytes"@),
            bytes@.len() == 8 && u64_from_le_bytes(bytes@) >= modulus() ==> (r matches Err(e)
                && e@ == "non-canonical Goldilocks element"@),
            r is Ok <==> (bytes@.len() == 8 && u64_from_le_bytes(bytes@) < modulus()),
            r matches Ok(x) ==> x.0 == u64_from_le_bytes(bytes@),
    {
        if bytes.len() != 8 {
            return Err("expected 8 bytes");
        }
        let val = (bytes[0] as u64) | ((bytes[1] as u64) << 8u32) | ((bytes[2] as u64) << 16u32)
            | ((bytes[3] as u64) << 24u32) | ((bytes[4] as u64) << 32u32) | ((bytes[5] as u64)
            << 40u32) | ((bytes[6] as u64) << 48u32) | ((bytes[7] as u64) << 56u32);
        if val >= Self::MODULUS {
            return Err("non-canonical Goldilocks element");
        }
        Ok(GoldilocksField(val))
    }
}

impl GoldilocksField {
    /// The 16 lower-case hexadecimal digits of the canonical little-endian
    /// bytes.
    pub fn to_hex(&self) -> (r: String)
        ensures
            r@ == hex_lower(u64_le_bytes(self@ as u64)),
    {
        let b = self.to_bytes_le();
        hex_encode(&b)
    }

    /// Parses 16 hexadecimal digits, with an optional "0x" prefix, as the
    /// little-endian bytes of a canonical element.
    pub fn from_hex(s: &str) -> (r: Result<Self, &'static str>)
        ensures
            without_hex_prefix(s.spec_bytes()).len() != 16 ==> (r matches Err(e) && e@ == "expected 16 hex chars"@),
            without_hex_prefix(s.spec_bytes()).len() == 16 && !hex_decodable(without_hex_prefix(s.spec_bytes()))
                ==> (r matches Err(e) && e@ == "hex decode error"@),
            without_hex_prefix(s.spec_bytes()).len() == 16 && hex_decodable(without_hex_prefix(s.spec_bytes()))
                && u64_from_le_bytes(hex_decoded(without_hex_prefix(s.spec_bytes()))) >= modulus() ==> (r matches Err(
                e,
            ) && e@ == "non-canonical Goldilocks element"@),
            r is Ok <==> without_hex_prefix(s.spec_bytes()).len() == 16 && hex_decodable(
                without_hex_prefix(s.spec_bytes()),
            ) && u64_from_le_bytes(hex_decoded(without_hex_prefix(s.spec_bytes()))) < modulus(),
            r matches Ok(x) ==> x.0 == u64_from_le_bytes(hex_decoded(without_hex_prefix(s.spec_bytes()))),
    {
        let d = strip_hex_prefix(s.as_bytes());
        if d.len() != 16 {
            return Err("expected 16 hex chars");
        }
        match hex_decode(d) {
            Err(_) => Err("hex decode error"),
            Ok(bytes) => Self::from_bytes_le(bytes.as_slice()),
        }
    }

    /// The canonical value in decimal, as `Display` writes it.
    pub fn to_string(&self) -> (r: String)
        ensures
            r@ == decimal_nat(self@),
    {
        u64_to_decimal(self.canonical())
    }
}

impl PartialEq for GoldilocksField {
    fn eq(&self, other: &Self) -> (r: bool) {
        self.canonical() == other.canonical()
    }
}

impl Eq for GoldilocksField {}

impl vstd::std_specs::cmp::PartialEqSpecImpl for GoldilocksField {
    open spec fn obeys_eq_spec() -> bool {
        true
    }

    open spec fn eq_spec(&self, other: &Self) -> bool {
        self@ == other@
    }
}

} // verus!
