//! Fixed-point scalar type: a signed 64-bit raw value carrying 32 fractional
//! bits.  Every arithmetic operation is specified exactly, over mathematical
//! integers, in terms of truncated (round-toward-zero) division.
use vstd::arithmetic::div_mod::{
    lemma_div_is_ordered, lemma_div_multiples_vanish, lemma_div_nonincreasing,
    lemma_div_pos_is_pos, lemma_fundamental_div_mod, lemma_mod_bound,
};
use vstd::prelude::*;

verus! {

/// Number of raw units in 1.0: two to the 32nd power.
pub const SCALE: i64 = 4294967296;

/// Absolute value over the mathematical integers.
pub open spec fn iabs(a: int) -> int {
    if a >= 0 {
        a
    } else {
        -a
    }
}

/// Truncated (round-toward-zero) division, the rounding used by every
/// fixed-point operation of this crate.
pub open spec fn tdiv(a: int, b: int) -> int
    recommends
        b != 0,
{
    if (a >= 0) == (b >= 0) {
        iabs(a) / iabs(b)
    } else {
        -(iabs(a) / iabs(b))
    }
}

/// Raw value of the fixed-point product of two raw values.
pub open spec fn fmul_s(a: int, b: int) -> int {
    tdiv(a * b, SCALE as int)
}

/// Raw value of the fixed-point quotient of two raw values.
pub open spec fn fdiv_s(a: int, b: int) -> int
    recommends
        b != 0,
{
    tdiv(a * (SCALE as int), b)
}

/// A real number represented as `raw` / 2^32.
#[derive(Clone, Copy, PartialEq, Eq, Structural, Debug)]
pub struct Fx {
    pub raw: i64,
}

impl View for Fx {
    type V = int;

    open spec fn view(&self) -> int {
        self.raw as int
    }
}

/// The magnitude of a product is bounded by the product of the bounds.
pub proof fn lemma_mul_mag(a: int, b: int, aa: int, bb: int)
    requires
        iabs(a) <= aa,
        iabs(b) <= bb,
    ensures
        iabs(a * b) <= aa * bb,
{
    assert(iabs(a * b) <= aa * bb) by (nonlinear_arith)
        requires
            iabs(a) <= aa,
            iabs(b) <= bb,
    ;
}

/// The magnitude of a truncated quotient is monotone in the magnitude of the
/// dividend and antitone in the magnitude of the divisor.
pub proof fn lemma_tdiv_mag(a: int, b: int, aa: int, bb: int)
    requires
        iabs(a) <= aa,
        iabs(b) >= bb,
        bb >= 1,
    ensures
        iabs(tdiv(a, b)) * bb <= aa,
        iabs(tdiv(a, b)) <= aa / bb,
        iabs(tdiv(a, b)) <= aa,
{
    let am = iabs(a);
    let bm = iabs(b);
    let q = am / bm;
    lemma_div_pos_is_pos(am, bm);
    lemma_fundamental_div_mod(am, bm);
    lemma_mod_bound(am, bm);
    assert(bm * q <= am);
    assert(q * bb <= q * bm) by (nonlinear_arith)
        requires
            q >= 0,
            1 <= bb <= bm,
    ;
    assert(q * bm == bm * q) by (nonlinear_arith);
    assert(q * bb <= aa);
    lemma_div_is_ordered(q * bb, aa, bb);
    lemma_div_multiples_vanish(q, bb);
    assert(q * bb == bb * q) by (nonlinear_arith);
    assert(q <= aa / bb);
    lemma_div_nonincreasing(aa, bb);
    assert(iabs(tdiv(a, b)) == q);
}

/// Magnitude bound for a fixed-point product.
pub proof fn lemma_fmul_mag(a: int, b: int, aa: int, bb: int)
    requires
        iabs(a) <= aa,
        iabs(b) <= bb,
    ensures
        iabs(fmul_s(a, b)) <= (aa * bb) / (SCALE as int),
        iabs(fmul_s(a, b)) * (SCALE as int) <= aa * bb,
{
    assert(iabs(a * b) <= aa * bb) by (nonlinear_arith)
        requires
            iabs(a) <= aa,
            iabs(b) <= bb,
    ;
    lemma_tdiv_mag(a * b, SCALE as int, aa * bb, SCALE as int);
}

/// Magnitude bound for a fixed-point quotient with a divisor bounded away
/// from zero.
pub proof fn lemma_fdiv_mag(a: int, b: int, aa: int, bb: int)
    requires
        iabs(a) <= aa,
        iabs(b) >= bb,
        bb >= 1,
    ensures
        iabs(fdiv_s(a, b)) <= (aa * (SCALE as int)) / bb,
{
    assert(iabs(a * (SCALE as int)) <= aa * (SCALE as int)) by (nonlinear_arith)
        requires
            iabs(a) <= aa,
    ;
    lemma_tdiv_mag(a * (SCALE as int), b, aa * (SCALE as int), bb);
}

/// A truncated quotient of a non-negative dividend and positive divisor is
/// non-negative; of a non-positive dividend, non-positive.
pub proof fn lemma_tdiv_sign(a: int, b: int)
    requires
        b >= 1,
    ensures
        a >= 0 ==> tdiv(a, b) >= 0,
        a <= 0 ==> tdiv(a, b) <= 0,
        a >= 0 ==> tdiv(a, b) <= a,
{
    lemma_div_pos_is_pos(iabs(a), iabs(b));
    lemma_div_nonincreasing(iabs(a), iabs(b));
}

/// The fixed-point product of two non-negative values is non-negative.
pub proof fn lemma_fmul_nonneg(a: int, b: int)
    requires
        a >= 0,
        b >= 0,
    ensures
        fmul_s(a, b) >= 0,
{
    assert(a * b >= 0) by (nonlinear_arith)
        requires
            a >= 0,
            b >= 0,
    ;
    lemma_tdiv_sign(a * b, SCALE as int);
}

/// Truncated division of an `i128` dividend by a non-zero `i128` divisor.
pub(crate) fn tdiv_i128(a: i128, b: i128) -> (r: i128)
    requires
        b != 0,
        a != i128::MIN,
        b != i128::MIN,
    ensures
        r as int == tdiv(a as int, b as int),
        iabs(r as int) <= iabs(a as int),
{
    let neg: bool = (a < 0) != (b < 0);
    let am: u128 = if a < 0 {
        (-a) as u128
    } else {
        a as u128
    };
    let bm: u128 = if b < 0 {
        (-b) as u128
    } else {
        b as u128
    };
    assert(am as int == iabs(a as int));
    assert(bm as int == iabs(b as int));
    let q: u128 = am / bm;
    proof {
        lemma_div_nonincreasing(am as int, bm as int);
        lemma_div_pos_is_pos(am as int, bm as int);
    }
    if neg {
        -(q as i128)
    } else {
        q as i128
    }
}

impl Fx {
    /// Raw fixed-point value taken as given.
    pub fn from_raw(raw: i64) -> (r: Fx)
        ensures
            r@ == raw as int,
    {
        Fx { raw }
    }

    /// The integer `n` as a fixed-point value.
    pub fn from_int(n: i64) -> (r: Fx)
        requires
            -0x7fffffff <= n <= 0x7fffffff,
        ensures
            r@ == n * (SCALE as int),
    {
        proof {
            assert(iabs(n * (SCALE as int)) <= 0x7fffffff * (SCALE as int)) by (nonlinear_arith)
                requires
                    -0x7fffffff <= n <= 0x7fffffff,
            ;
        }
        Fx { raw: n * SCALE }
    }

    /// The ratio `n` / `d` as a fixed-point value, rounded toward zero.
    pub fn from_ratio(n: i64, d: i64) -> (r: Fx)
        requires
            d >= 1,
            -0x7fffffff <= n <= 0x7fffffff,
        ensures
            r@ == fdiv_s(n as int, d as int),
    {
        proof {
            assert(-0x7fffffff * (SCALE as int) <= (n as int) * (SCALE as int)
                <= 0x7fffffff * (SCALE as int)) by (nonlinear_arith)
                requires
                    -0x7fffffff <= n <= 0x7fffffff,
            ;
        }
        let p: i128 = (n as i128) * (SCALE as i128);
        proof {
            assert(iabs(p as int) <= 0x7fffffff * (SCALE as int));
        }
        let q: i128 = tdiv_i128(p, d as i128);
        proof {
            lemma_tdiv_mag(p as int, d as int, 0x7fffffff * (SCALE as int), 1);
        }
        Fx { raw: q as i64 }
    }

    /// Zero.
    pub fn zero() -> (r: Fx)
        ensures
            r@ == 0,
    {
        Fx { raw: 0 }
    }

    /// One.
    pub fn one() -> (r: Fx)
        ensures
            r@ == SCALE as int,
    {
        Fx { raw: SCALE }
    }
}

/// Fixed-point sum; the caller shows the mathematical sum fits.
pub fn fx_add(a: Fx, b: Fx) -> (r: Fx)
    requires
        iabs(a@ + b@) <= i64::MAX as int,
    ensures
        r@ == a@ + b@,
{
    Fx { raw: a.raw + b.raw }
}

/// Fixed-point difference; the caller shows the mathematical difference fits.
pub fn fx_sub(a: Fx, b: Fx) -> (r: Fx)
    requires
        iabs(a@ - b@) <= i64::MAX as int,
    ensures
        r@ == a@ - b@,
{
    Fx { raw: a.raw - b.raw }
}

/// Fixed-point negation.
pub fn fx_neg(a: Fx) -> (r: Fx)
    requires
        a@ != i64::MIN as int,
    ensures
        r@ == -a@,
{
    Fx { raw: -a.raw }
}

/// Fixed-point absolute value.
pub fn fx_abs(a: Fx) -> (r: Fx)
    requires
        a@ != i64::MIN as int,
    ensures
        r@ == iabs(a@),
{
    if a.raw < 0 {
        Fx { raw: -a.raw }
    } else {
        a
    }
}

/// Fixed-point product, rounded toward zero; the caller shows the result fits.
pub fn fx_mul(a: Fx, b: Fx) -> (r: Fx)
    requires
        iabs(fmul_s(a@, b@)) <= i64::MAX as int,
    ensures
        r@ == fmul_s(a@, b@),
{
    proof {
        lemma_mul_mag(a@, b@, 0x8000_0000_0000_0000, 0x8000_0000_0000_0000);
    }
    let p: i128 = (a.raw as i128) * (b.raw as i128);
    let q: i128 = tdiv_i128(p, SCALE as i128);
    Fx { raw: q as i64 }
}

/// Fixed-point quotient, rounded toward zero; the caller shows the divisor is
/// non-zero and the result fits.
pub fn fx_div(a: Fx, b: Fx) -> (r: Fx)
    requires
        b@ != 0,
        iabs(fdiv_s(a@, b@)) <= i64::MAX as int,
    ensures
        r@ == fdiv_s(a@, b@),
{
    proof {
        lemma_mul_mag(a@, SCALE as int, 0x8000_0000_0000_0000, SCALE as int);
    }
    let p: i128 = (a.raw as i128) * (SCALE as i128);
    let q: i128 = tdiv_i128(p, b.raw as i128);
    Fx { raw: q as i64 }
}

/// `r` is the integer square root of `n`: the largest integer whose square
/// does not exceed `n`.
pub open spec fn is_isqrt(n: int, r: int) -> bool {
    0 <= r && r * r <= n && n < (r + 1) * (r + 1)
}

/// The integer square root of a non-negative integer.
pub open spec fn isqrt_s(n: int) -> int
    recommends
        n >= 0,
{
    choose|r: int| #[trigger] is_isqrt(n, r)
}

/// Every non-negative integer has an integer square root.
pub proof fn lemma_isqrt_exists(n: int)
    requires
        n >= 0,
    ensures
        exists|r: int| #[trigger] is_isqrt(n, r),
    decreases n,
{
    if n == 0 {
        assert(is_isqrt(0, 0));
    } else {
        lemma_isqrt_exists(n - 1);
        let r = choose|r: int| #[trigger] is_isqrt(n - 1, r);
        if n < (r + 1) * (r + 1) {
            assert(is_isqrt(n, r));
        } else {
            assert((r + 1) * (r + 1) == n);
            assert((r + 1) * (r + 1) < (r + 2) * (r + 2)) by (nonlinear_arith)
                requires
                    r >= 0,
            ;
            assert(is_isqrt(n, r + 1));
        }
    }
}

/// The integer square root is unique.
pub proof fn lemma_isqrt_unique(n: int, r1: int, r2: int)
    requires
        is_isqrt(n, r1),
        is_isqrt(n, r2),
    ensures
        r1 == r2,
{
    if r1 < r2 {
        assert((r1 + 1) * (r1 + 1) <= r2 * r2) by (nonlinear_arith)
            requires
                0 <= r1 + 1 <= r2,
        ;
    }
    if r2 < r1 {
        assert((r2 + 1) * (r2 + 1) <= r1 * r1) by (nonlinear_arith)
            requires
                0 <= r2 + 1 <= r1,
        ;
    }
}

/// Raw value of the fixed-point square root of a raw value.
pub open spec fn fsqrt_s(a: int) -> int
    recommends
        a >= 0,
{
    isqrt_s(a * (SCALE as int))
}

/// An integer square root is bounded by any `b` whose successor's square
/// exceeds the radicand.
pub proof fn lemma_isqrt_mag(n: int, b: int)
    requires
        0 <= n,
        0 <= b,
        n < (b + 1) * (b + 1),
    ensures
        0 <= isqrt_s(n) <= b,
{
    lemma_isqrt_exists(n);
    let r = isqrt_s(n);
    assert(is_isqrt(n, r));
    if r > b {
        assert((b + 1) * (b + 1) <= r * r) by (nonlinear_arith)
            requires
                0 <= b + 1 <= r,
        ;
    }
}

/// Fixed-point square root, rounded down: the raw result is the integer
/// square root of `raw * SCALE`, so the value is the square root of the
/// value, accurate to one raw unit.
pub fn fx_sqrt(a: Fx) -> (r: Fx)
    requires
        a@ >= 0,
    ensures
        r@ == fsqrt_s(a@),
        is_isqrt(a@ * (SCALE as int), r@),
        0 <= r@ < 0x1000000000000,
{
    let n: u128 = (a.raw as u128) * (SCALE as u128);
    let mut lo: u64 = 0;
    let mut hi: u64 = 0x1000000000000;
    proof {
        assert((a.raw as int) * (SCALE as int) < 0x1000000000000 * 0x1000000000000)
            by (nonlinear_arith)
            requires
                0 <= a.raw < 0x8000000000000000,
                SCALE == 4294967296,
        ;
    }
    while lo + 1 < hi
        invariant
            0 <= lo < hi <= 0x1000000000000,
            (lo as int) * (lo as int) <= n as int,
            (n as int) < (hi as int) * (hi as int),
            n as int == a@ * (SCALE as int),
        decreases hi - lo,
    {
        let mid: u64 = lo + (hi - lo) / 2;
        proof {
            assert((mid as int) * (mid as int) <= 0x1000000000000 * 0x1000000000000)
                by (nonlinear_arith)
                requires
                    0 <= mid <= 0x1000000000000,
            ;
        }
        if (mid as u128) * (mid as u128) <= n {
            lo = mid;
        } else {
            hi = mid;
        }
    }
    proof {
        assert(is_isqrt(n as int, lo as int));
        lemma_isqrt_exists(n as int);
        lemma_isqrt_unique(n as int, lo as int, isqrt_s(n as int));
    }
    Fx { raw: lo as i64 }
}

/// Fixed-point sum checked against a symmetric bound: `Some` exactly when the
/// mathematical sum lies within `[-bound, bound]`.
pub fn fx_add_bounded(a: Fx, b: Fx, bound: i64) -> (r: Option<Fx>)
    requires
        bound >= 0,
    ensures
        match r {
            Some(c) => c@ == a@ + b@ && iabs(a@ + b@) <= bound as int,
            None => iabs(a@ + b@) > bound as int,
        },
{
    let s: i128 = (a.raw as i128) + (b.raw as i128);
    if s < -(bound as i128) || s > bound as i128 {
        None
    } else {
        Some(Fx { raw: s as i64 })
    }
}

} // verus!
