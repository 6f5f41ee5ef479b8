use vstd::prelude::*;
use crate::field::quintic::{Fp5, fp5_zero, fp5_one, fp5_neg};
use crate::curve::point::Point;

verus! {

/// The view of an affine point: its (x, u) coordinates.
pub type AffineView = (Seq<nat>, Seq<nat>);

/// The affine neutral element (0, 0).
pub open spec fn affine_neutral() -> AffineView {
    (fp5_zero(), fp5_zero())
}

/// What a window lookup selects: digit 0 gives (0, 0); a digit k with
/// 1 <= k <= len gives entry k - 1; the digit -k gives that entry negated,
/// (x, -u).
pub proof fn lemma_window_lookup_digits(win: Seq<AffineView>, k: int)
    ensures
        window_lookup(win, 0) == (fp5_zero(), fp5_zero()),
        1 <= k <= win.len() ==> window_lookup(win, k) == win[k - 1],
        1 <= k <= win.len() ==> window_lookup(win, -k) == (win[k - 1].0, fp5_neg(win[k - 1].1)),
{
}

/// The views of a sequence of affine points.
pub open spec fn affine_views(win: Seq<AffinePoint>) -> Seq<AffineView> {
    win.map_values(|p: AffinePoint| p@)
}

/// The window entry that digit `k` selects: entry |k| - 1, with u negated
/// when k is negative; (0, 0) when |k| is zero or past the window.
pub open spec fn window_lookup(win: Seq<AffineView>, k: int) -> AffineView {
    let a = if k < 0 {
        -k
    } else {
        k
    };
    let e = if 1 <= a <= win.len() {
        win[a - 1]
    } else {
        affine_neutral()
    };
    if k < 0 {
        (e.0, fp5_neg(e.1))
    } else {
        e
    }
}

/// An ECgFp5 point in affine (x, u) coordinates, used for precomputed
/// windows.
#[derive(Debug, Clone, Copy)]
pub struct AffinePoint {
    pub x: Fp5,
    pub u: Fp5,
}

impl View for AffinePoint {
    type V = AffineView;

    open spec fn view(&self) -> AffineView {
        (self.x@, self.u@)
    }
}

/// All ones when `m` is zero, zero otherwise, without branching.
fn zero_mask(m: u32) -> (r: u32)
    ensures
        r == (if m == 0 { 0xFFFF_FFFFu32 } else { 0u32 }),
{
    let neg = (!m).wrapping_add(1);
    proof {
        assert(!m == 0xFFFF_FFFFu32 - m) by (bit_vector);
        if m == 0 {
            assert(neg == 0);
        } else {
            assert(neg == 0x1_0000_0000 - m);
        }
        assert((m == 0 ==> neg == 0) && (m != 0 ==> neg as int == 0x1_0000_0000 - m) ==> ((m | neg) >> 31u32)
            == (if m == 0 { 0u32 } else { 1u32 })) by (bit_vector);
    }
    ((m | neg) >> 31u32).wrapping_sub(1)
}

impl AffinePoint {
    /// The neutral element (0, 0).
    pub fn neutral() -> (r: Self)
        ensures
            r@ == affine_neutral(),
    {
        AffinePoint { x: Fp5::zero(), u: Fp5::zero() }
    }

    pub fn new(x: Fp5, u: Fp5) -> (r: Self)
        ensures
            r.x == x,
            r.u == u,
    {
        Self { x, u }
    }

    /// The projective point (x, 1, u, 1).
    pub fn to_point(&self) -> (r: Point)
        ensures
            r@ == (self.x@, fp5_one(), self.u@, fp5_one()),
    {
        Point { x: self.x, z: Fp5::one(), u: self.u, t: Fp5::one() }
    }

    /// Negates the point in place: u becomes -u.
    pub fn set_neg(&mut self)
        ensures
            final(self)@ == (old(self).x@, fp5_neg(old(self).u@)),
    {
        self.u = self.u.neg();
    }

    /// Constant-time window lookup of digit `k`: every entry is read.
    pub fn lookup(win: &[AffinePoint], k: i32) -> (r: Self)
        requires
            win@.len() <= 0xFFFF_FFFF,
        ensures
            r@ == window_lookup(affine_views(win@), k as int),
            k == 0 ==> r.x@ == fp5_zero() && r.u@ == fp5_zero(),
            0 < k <= win@.len() ==> r.x@ == win@[k - 1].x@ && r.u@ == win@[k - 1].u@,
            k < 0 && -k <= win@.len() ==> r.x@ == win@[-k - 1].x@ && r.u@ == fp5_neg(win@[-k - 1].u@),
    {
        proof {
            lemma_window_lookup_digits(affine_views(win@), if k < 0 { -k } else { k as int });
        }
        let sign = (k >> 31u32) as u32;
        let ka = ((k as u32) ^ sign).wrapping_sub(sign);
        let km1 = ka.wrapping_sub(1);
        let ghost a: int = if k < 0 {
            -k
        } else {
            k as int
        };
        proof {
            assert((k >> 31u32) as u32 == (if k < 0 { 0xFFFF_FFFFu32 } else { 0u32 })) by (bit_vector);
            if k < 0 {
                assert(k < 0 ==> ((k as u32) ^ 0xFFFF_FFFFu32) as int == -(k as int) - 1) by (bit_vector);
            } else {
                assert(k >= 0 ==> ((k as u32) ^ 0u32) as int == k) by (bit_vector);
            }
            assert(ka == a);
            assert(km1 == (if a == 0 { 0xFFFF_FFFFint } else { a - 1 }));
        }
        let mut x = Fp5::zero();
        let mut u = Fp5::zero();
        let n = win.len();
        let mut i: usize = 0;
        while i < n
            invariant
                n == win@.len(),
                n <= 0xFFFF_FFFF,
                i <= n,
                km1 == (if a == 0 { 0xFFFF_FFFFint } else { a - 1 }),
                (x@, u@) == (if 1 <= a <= i { affine_views(win@)[a - 1] } else { affine_neutral() }),
            decreases n - i,
        {
            let w = &win[i];
            let m = km1.wrapping_sub(i as u32);
            let mask = zero_mask(m);
            let c = mask as u64;
            proof {
                assert(m == 0 <==> km1 == i);
            }
            if c != 0 {
                x = w.x;
                u = w.u;
            }
            i += 1;
        }
        let c = sign as u64 | ((sign as u64) << 32u32);
        proof {
            assert(sign == 0 ==> (sign as u64 | ((sign as u64) << 32u32)) == 0) by (bit_vector);
            assert(sign == 0xFFFF_FFFFu32 ==> (sign as u64 | ((sign as u64) << 32u32)) != 0) by (bit_vector);
        }
        if c != 0 {
            u = u.neg();
        }
        Self { x, u }
    }

    /// Variable-time window lookup of digit `k`.
    pub fn lookup_var_time(win: &[AffinePoint], k: i32) -> (r: Self)
        requires
            k != i32::MIN,
            (if k < 0 { -k } else { k as int }) <= win@.len(),
        ensures
            r@ == window_lookup(affine_views(win@), k as int),
            k == 0 ==> r.x@ == fp5_zero() && r.u@ == fp5_zero(),
            0 < k <= win@.len() ==> r.x@ == win@[k - 1].x@ && r.u@ == win@[k - 1].u@,
            k < 0 && -k <= win@.len() ==> r.x@ == win@[-k - 1].x@ && r.u@ == fp5_neg(win@[-k - 1].u@),
    {
        proof {
            lemma_window_lookup_digits(affine_views(win@), if k < 0 { -k } else { k as int });
        }
        if k == 0 {
            Self::neutral()
        } else if k > 0 {
            win[k as usize - 1]
        } else {
            let mut res = win[(-k) as usize - 1];
            res.set_neg();
            res
        }
    }
}

} // verus!
