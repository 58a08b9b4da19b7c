//! Elementary transcendental functions over the fixed-point scalar: sine,
//! cosine, natural logarithm and exponential, each computed by a truncated
//! series whose every rounding step is pinned down by its specification.
use crate::fixed::{
    lemma_fdiv_mag, lemma_fmul_nonneg, fx_div,
    fdiv_s, fmul_s, fx_mul, iabs, lemma_fmul_mag, lemma_mul_mag, lemma_tdiv_mag, lemma_tdiv_sign,
    tdiv, tdiv_i128,
    Fx, SCALE,
};
use vstd::arithmetic::div_mod::{
    lemma_div_decreases,
    lemma_div_is_ordered, lemma_div_multiples_vanish, lemma_fundamental_div_mod, lemma_mod_bound,
};
use vstd::prelude::*;

verus! {

/// Pi, rounded to the nearest raw unit.
pub const PI_RAW: i64 = 13493037705;

/// Two pi, rounded to the nearest raw unit.
pub const TWO_PI_RAW: i64 = 26986075409;

/// Half pi, rounded to the nearest raw unit.
pub const HALF_PI_RAW: i64 = 6746518852;

/// The natural logarithm of two, rounded to the nearest raw unit.
pub const LN2_RAW: i64 = 2977044472;

/// Largest angle magnitude the trigonometric functions accept.
pub const TRIG_MAX_ARG: i64 = 36028797018963968;

/// Number of series steps taken for sine.
pub const SIN_TERMS: u64 = 12;

/// Saturation bound of the trigonometric results: one, plus a rounding
/// allowance of 16 raw units.
pub const TRIG_CLAMP: i64 = 4294967312;

/// Largest angle magnitude the cosine accepts: a quarter turn less than the
/// sine's limit, since the cosine advances its angle by a quarter turn.
pub const COS_MAX_ARG: i64 = 36028797018963968 - 6746518852;

/// Remainder of `a` after subtracting the largest multiple of `b` with
/// magnitude at most `|a|`, as truncated division leaves it.
pub proof fn lemma_tdiv_rem(a: int, b: int)
    requires
        b >= 1,
    ensures
        iabs(a - tdiv(a, b) * b) < b,
        a >= 0 ==> a - tdiv(a, b) * b >= 0,
        a <= 0 ==> a - tdiv(a, b) * b <= 0,
{
    let am = iabs(a);
    let q = am / b;
    lemma_fundamental_div_mod(am, b);
    lemma_mod_bound(am, b);
    if a >= 0 {
        assert(tdiv(a, b) == q);
        assert(a - q * b == am % b) by {
            assert(b * q == q * b) by (nonlinear_arith);
        }
    } else {
        assert(tdiv(a, b) == -q);
        assert(a - (-q) * b == -(am % b)) by {
            assert(b * q == q * b && (-q) * b == -(q * b)) by (nonlinear_arith);
        }
    }
}

/// The angle congruent to `a` modulo two pi that lies in `[-pi, pi]`.
pub open spec fn reduce_angle_s(a: int) -> int {
    let r = a - tdiv(a, TWO_PI_RAW as int) * (TWO_PI_RAW as int);
    if r > PI_RAW as int {
        r - TWO_PI_RAW as int
    } else if r < -(PI_RAW as int) {
        r + TWO_PI_RAW as int
    } else {
        r
    }
}

/// Reduce an angle to `[-pi, pi]`, exactly as `reduce_angle_s` states.
fn reduce_angle(a: Fx) -> (r: Fx)
    requires
        iabs(a@) <= TRIG_MAX_ARG as int,
    ensures
        r@ == reduce_angle_s(a@),
        iabs(r@) <= PI_RAW as int,
{
    let q: i128 = tdiv_i128(a.raw as i128, TWO_PI_RAW as i128);
    proof {
        lemma_tdiv_rem(a@, TWO_PI_RAW as int);
    }
    let r0: i128 = (a.raw as i128) - q * (TWO_PI_RAW as i128);
    let r1: i128 = if r0 > PI_RAW as i128 {
        r0 - TWO_PI_RAW as i128
    } else if r0 < -(PI_RAW as i128) {
        r0 + TWO_PI_RAW as i128
    } else {
        r0
    };
    Fx { raw: r1 as i64 }
}

/// Powers of two.
pub open spec fn pow2i(k: nat) -> int
    decreases k,
{
    if k == 0 {
        1
    } else {
        2 * pow2i((k - 1) as nat)
    }
}

/// Powers of two are at least one.
pub proof fn lemma_pow2i_pos(k: nat)
    ensures
        pow2i(k) >= 1,
    decreases k,
{
    if k > 0 {
        lemma_pow2i_pos((k - 1) as nat);
    }
}

/// Powers of two are monotone in the exponent.
pub proof fn lemma_pow2i_mono(a: nat, b: nat)
    requires
        a <= b,
    ensures
        1 <= pow2i(a) <= pow2i(b),
    decreases b,
{
    lemma_pow2i_pos(a);
    if a < b {
        lemma_pow2i_mono(a, (b - 1) as nat);
    }
}

/// One step of the sine series: subtract the next scaled term.  `k` counts
/// steps from 1; the divisor `(2k)(2k+1)` carries the factorial forward.
pub open spec fn sin_iter_s(x2: int, term: int, acc: int, k: nat, fuel: nat) -> int
    decreases fuel,
{
    if fuel == 0 {
        acc
    } else {
        let t = -tdiv(tdiv(term * x2, SCALE as int), (4 * k * k + 2 * k) as int);
        sin_iter_s(x2, t, acc + t, k + 1, (fuel - 1) as nat)
    }
}

/// Saturate a raw trigonometric result to `[-TRIG_CLAMP, TRIG_CLAMP]`.
pub open spec fn clamp_one_s(v: int) -> int {
    if v > TRIG_CLAMP as int {
        TRIG_CLAMP as int
    } else if v < -(TRIG_CLAMP as int) {
        -(TRIG_CLAMP as int)
    } else {
        v
    }
}

/// Raw sine of a raw angle: reduce to `[-pi, pi]`, run the Taylor series for
/// `SIN_TERMS` steps, saturate to one.
pub open spec fn sin_s(a: int) -> int {
    let r = reduce_angle_s(a);
    clamp_one_s(sin_iter_s(fmul_s(r, r), r, r, 1, SIN_TERMS as nat))
}

/// Raw cosine of a raw angle, as the sine of the angle advanced a quarter
/// turn.
pub open spec fn cos_s(a: int) -> int {
    sin_s(a + HALF_PI_RAW as int)
}

/// Magnitude growth of one sine-series step: each step at most doubles the
/// term.
proof fn lemma_sin_step_mag(term: int, x2: int, d: int, tb: int)
    requires
        iabs(term) <= tb,
        0 <= x2 <= 42391158271,
        d >= 6,
        tb >= 0,
    ensures
        iabs(-tdiv(tdiv(term * x2, SCALE as int), d)) <= 2 * tb,
{
    lemma_fmul_mag(term, x2, tb, 42391158271);
    assert(tb * 42391158271 <= tb * 42949672960) by (nonlinear_arith)
        requires
            tb >= 0,
    ;
    lemma_div_is_ordered(tb * 42391158271, tb * 42949672960, SCALE as int);
    assert(tb * 42949672960 == (10 * tb) * (SCALE as int)) by (nonlinear_arith);
    lemma_div_multiples_vanish(10 * tb, SCALE as int);
    assert((10 * tb) * (SCALE as int) == (SCALE as int) * (10 * tb)) by (nonlinear_arith);
    assert(iabs(fmul_s(term, x2)) <= 10 * tb);
    lemma_tdiv_mag(fmul_s(term, x2), d, 10 * tb, 6);
    lemma_div_is_ordered(10 * tb, 12 * tb, 6);
    assert(12 * tb == 6 * (2 * tb)) by (nonlinear_arith);
    lemma_div_multiples_vanish(2 * tb, 6);
}

/// Fixed-point sine.  The result is exactly `sin_s` of the argument, and its
/// magnitude never exceeds one plus a rounding allowance.
pub fn sin_fx(a: Fx) -> (r: Fx)
    requires
        iabs(a@) <= TRIG_MAX_ARG as int,
    ensures
        r@ == sin_s(a@),
        iabs(r@) <= TRIG_CLAMP as int,
{
    let red = reduce_angle(a);
    proof {
        lemma_fmul_mag(red@, red@, PI_RAW as int, PI_RAW as int);
        lemma_tdiv_sign(red@ * red@, SCALE as int);
        assert(red@ * red@ >= 0) by (nonlinear_arith);
    }
    let x2 = fx_mul(red, red);
    let mut term: i64 = red.raw;
    let mut acc: i64 = red.raw;
    let mut k: u64 = 1;
    let ghost goal = sin_iter_s(x2@, term as int, acc as int, 1, SIN_TERMS as nat);
    while k <= SIN_TERMS
        invariant
            1 <= k <= SIN_TERMS + 1,
            0 <= x2@ <= 42391158271,
            iabs(term as int) <= (PI_RAW as int) * pow2i((k - 1) as nat),
            iabs(acc as int) <= (PI_RAW as int) * (2 * pow2i((k - 1) as nat) - 1),
            pow2i((k - 1) as nat) <= 4096,
            sin_iter_s(x2@, term as int, acc as int, k as nat, (SIN_TERMS + 1 - k) as nat)
                == goal,
        decreases SIN_TERMS + 1 - k,
    {
        let ki: i64 = k as i64;
        proof {
            assert(4 * ki * ki + 2 * ki <= 1000 && 4 * ki * ki + 2 * ki >= 6)
                by (nonlinear_arith)
                requires
                    1 <= ki <= 13,
            ;
        }
        let d: i64 = 4 * ki * ki + 2 * ki;
        proof {
            lemma_mul_mag(
                term as int,
                x2@,
                0x8000000000000000,
                0x8000000000000000,
            );
            lemma_sin_step_mag(term as int, x2@, d as int, (PI_RAW as int) * pow2i(
                (k - 1) as nat,
            ));
        }
        let p: i128 = (term as i128) * (x2.raw as i128);
        let t1: i128 = tdiv_i128(p, SCALE as i128);
        let t2: i128 = tdiv_i128(t1, d as i128);
        let t: i64 = -(t2 as i64);
        proof {
            assert((PI_RAW as int) * (2 * pow2i((k - 1) as nat)) == (PI_RAW as int) * pow2i(
                k as nat,
            ));
            assert((PI_RAW as int) * (2 * pow2i((k - 1) as nat) - 1) + (PI_RAW as int) * (2
                * pow2i((k - 1) as nat)) == (PI_RAW as int) * (2 * pow2i(k as nat) - 1))
                by (nonlinear_arith)
                requires
                    pow2i(k as nat) == 2 * pow2i((k - 1) as nat),
            ;
        }
        acc = acc + t;
        term = t;
        k = k + 1;
        proof {
            lemma_pow2i_mono((k - 1) as nat, 12);
            reveal_with_fuel(pow2i, 14);
            assert(pow2i(12) == 4096);
        }
    }
    let clamped: i64 = if acc > TRIG_CLAMP {
        TRIG_CLAMP
    } else if acc < -TRIG_CLAMP {
        -TRIG_CLAMP
    } else {
        acc
    };
    Fx { raw: clamped }
}

/// Number of series steps taken for the logarithm.
pub const LN_TERMS: u64 = 17;

/// Magnitude bound of a logarithm result.
pub const LN_BOUND: i64 = 257698037760;

/// Halve a raw value until it drops below two, counting the halvings:
/// yields the mantissa and the binary exponent shed on the way down.
pub open spec fn norm_down_s(m: int) -> (int, int)
    decreases m,
    when m >= 1
    via norm_down_s_dec
{
    if m >= 2 * (SCALE as int) {
        let r = norm_down_s(tdiv(m, 2));
        (r.0, r.1 + 1)
    } else {
        (m, 0)
    }
}

#[via_fn]
proof fn norm_down_s_dec(m: int) {
    if m >= 2 * (SCALE as int) {
        lemma_div_decreases(m, 2);
        lemma_div_is_ordered(2, m, 2);
    }
}

/// Double a raw value until it reaches one, counting the doublings.
pub open spec fn norm_up_s(m: int) -> (int, int)
    decreases 2 * (SCALE as int) - m,
    when 1 <= m < 2 * (SCALE as int)
{
    if m < SCALE as int {
        let r = norm_up_s(2 * m);
        (r.0, r.1 + 1)
    } else {
        (m, 0)
    }
}

/// One step of the logarithm series: add the current odd power of `u`
/// divided by its odd index, then advance the power.
pub open spec fn ln_iter_s(u2: int, upow: int, acc: int, j: nat, fuel: nat) -> int
    decreases fuel,
{
    if fuel == 0 {
        acc
    } else {
        ln_iter_s(
            u2,
            fmul_s(upow, u2),
            acc + tdiv(upow, (2 * j + 1) as int),
            j + 1,
            (fuel - 1) as nat,
        )
    }
}

/// Raw natural logarithm of a positive raw value: normalise the argument to
/// `[1, 2)` by exact binary shifts, expand `ln` of the mantissa by the
/// inverse-hyperbolic-tangent series, and add back the shed exponent times
/// `ln 2`.
pub open spec fn ln_s(a: int) -> int
    recommends
        a >= 1,
{
    let d = norm_down_s(a);
    let up = norm_up_s(d.0);
    let m = up.0;
    let e = d.1 - up.1;
    let u = fdiv_s(m - SCALE as int, m + SCALE as int);
    2 * ln_iter_s(fmul_s(u, u), u, 0, 0, LN_TERMS as nat) + e * (LN2_RAW as int)
}

/// Fixed-point natural logarithm of a positive value.
pub fn ln_fx(a: Fx) -> (r: Fx)
    requires
        a@ >= 1,
    ensures
        r@ == ln_s(a@),
        iabs(r@) <= LN_BOUND as int,
{
    let mut m: i64 = a.raw;
    let mut e_down: i64 = 0;
    proof {
        assert(pow2i(0) == 1);
        assert((m as int) * 1 == m as int) by (nonlinear_arith);
    }
    while m >= 2 * SCALE
        invariant
            1 <= m,
            0 <= e_down <= 30,
            m * pow2i(e_down as nat) <= a@,
            norm_down_s(a@).0 == norm_down_s(m as int).0,
            norm_down_s(a@).1 == norm_down_s(m as int).1 + e_down,
        decreases m,
    {
        proof {
            if e_down >= 30 {
                lemma_pow2i_mono(30, e_down as nat);
                reveal_with_fuel(pow2i, 31);
                assert(pow2i(30) == 0x40000000);
                assert(m * pow2i(e_down as nat) >= 2 * (SCALE as int) * 0x40000000)
                    by (nonlinear_arith)
                    requires
                        m >= 2 * (SCALE as int),
                        pow2i(e_down as nat) >= 0x40000000,
                ;
            }
            let m2 = tdiv(m as int, 2);
            assert(2 * m2 <= m as int && m2 >= SCALE as int) by {
                lemma_fundamental_div_mod(m as int, 2);
                lemma_mod_bound(m as int, 2);
                lemma_div_is_ordered(2 * (SCALE as int), m as int, 2);
                lemma_div_multiples_vanish(SCALE as int, 2);
            }
            lemma_pow2i_pos(e_down as nat);
            assert(pow2i((e_down + 1) as nat) == 2 * pow2i(e_down as nat));
            assert(m2 * pow2i((e_down + 1) as nat) <= m * pow2i(e_down as nat))
                by (nonlinear_arith)
                requires
                    2 * m2 <= m as int,
                    pow2i((e_down + 1) as nat) == 2 * pow2i(e_down as nat),
                    pow2i(e_down as nat) >= 1,
            ;
        }
        let m128: i128 = tdiv_i128(m as i128, 2);
        m = m128 as i64;
        e_down = e_down + 1;
    }
    let mut e_up: i64 = 0;
    let ghost mid: int = m as int;
    proof {
        lemma_pow2i_pos(0);
    }
    while m < SCALE
        invariant
            1 <= m < 2 * (SCALE as int),
            0 <= e_up <= 34,
            pow2i(e_up as nat) <= m * 2,
            mid >= 1,
            norm_up_s(mid).0 == norm_up_s(m as int).0,
            norm_up_s(mid).1 == norm_up_s(m as int).1 + e_up,
        decreases 2 * SCALE - m,
    {
        proof {
            if e_up >= 33 {
                lemma_pow2i_mono(33, e_up as nat);
                reveal_with_fuel(pow2i, 34);
                assert(pow2i(33) == 0x200000000);
            }
            assert(pow2i((e_up + 1) as nat) == 2 * pow2i(e_up as nat));
        }
        m = 2 * m;
        e_up = e_up + 1;
    }
    let num = Fx { raw: m - SCALE };
    let den = Fx { raw: m + SCALE };
    proof {
        lemma_fdiv_mag(num@, den@, SCALE as int, 2 * (SCALE as int));
    }
    let u = fx_div(num, den);
    proof {
        lemma_tdiv_sign(num@ * (SCALE as int), den@);
        assert(num@ * (SCALE as int) >= 0) by (nonlinear_arith)
            requires
                num@ >= 0,
        ;
        lemma_fmul_mag(u@, u@, SCALE as int, SCALE as int);
        lemma_fmul_nonneg(u@, u@);
    }
    let u2 = fx_mul(u, u);
    let mut upow: i64 = u.raw;
    let mut acc: i64 = 0;
    let mut j: u64 = 0;
    let ghost goal = ln_iter_s(u2@, upow as int, acc as int, 0, LN_TERMS as nat);
    while j < LN_TERMS
        invariant
            0 <= j <= LN_TERMS,
            0 <= u2@ <= SCALE as int,
            0 <= upow <= SCALE,
            0 <= acc <= j * (SCALE as int),
            ln_iter_s(u2@, upow as int, acc as int, j as nat, (LN_TERMS - j) as nat) == goal,
        decreases LN_TERMS - j,
    {
        let dj: i64 = 2 * (j as i64) + 1;
        proof {
            lemma_tdiv_sign(upow as int, dj as int);
            lemma_fmul_mag(upow as int, u2@, SCALE as int, SCALE as int);
            lemma_fmul_nonneg(upow as int, u2@);
            lemma_mul_mag(upow as int, u2@, SCALE as int, SCALE as int);
        }
        let t128: i128 = tdiv_i128(upow as i128, dj as i128);
        let t: i64 = t128 as i64;
        let p: i128 = (upow as i128) * (u2.raw as i128);
        let np: i128 = tdiv_i128(p, SCALE as i128);
        acc = acc + t;
        upow = np as i64;
        j = j + 1;
    }
    let e: i64 = e_down - e_up;
    let r: i64 = 2 * acc + e * LN2_RAW;
    proof {
        assert(norm_down_s(m as int).0 == m as int && norm_down_s(m as int).1 == 0);
        assert(norm_up_s(m as int).0 == m as int && norm_up_s(m as int).1 == 0);
    }
    Fx { raw: r }
}

/// Number of series steps taken for the exponential.
pub const EXP_TERMS: u64 = 16;

/// Largest argument the exponential accepts: twenty.
pub const EXP_MAX_ARG: i64 = 85899345920;

/// Least argument the exponential accepts: minus forty.
pub const EXP_MIN_ARG: i64 = -171798691840;

/// Saturate the raw series value of `exp` on `(-ln 2, ln 2)` to `[0, 2]`.
pub open spec fn clamp_exp_s(v: int) -> int {
    if v < 0 {
        0
    } else if v > 2 * (SCALE as int) {
        2 * (SCALE as int)
    } else {
        v
    }
}

/// One step of the exponential series: scale the term by `r / k` and add it.
pub open spec fn exp_iter_s(r: int, term: int, acc: int, k: nat, fuel: nat) -> int
    decreases fuel,
{
    if fuel == 0 {
        acc
    } else {
        let t = tdiv(tdiv(term * r, SCALE as int), k as int);
        exp_iter_s(r, t, acc + t, k + 1, (fuel - 1) as nat)
    }
}

/// Raw exponential of a raw value: split off an integer power of two using
/// `ln 2`, expand the remainder by the Taylor series, saturate to `[0, 2]`,
/// and shift back.
pub open spec fn exp_s(a: int) -> int {
    let n = tdiv(a, LN2_RAW as int);
    let r = a - n * (LN2_RAW as int);
    let t = clamp_exp_s(exp_iter_s(r, SCALE as int, SCALE as int, 1, EXP_TERMS as nat));
    if n >= 0 {
        t * pow2i(n as nat)
    } else {
        tdiv(t, pow2i((-n) as nat))
    }
}

/// Fixed-point exponential.
pub fn exp_fx(a: Fx) -> (r: Fx)
    requires
        EXP_MIN_ARG as int <= a@ <= EXP_MAX_ARG as int,
    ensures
        r@ == exp_s(a@),
        0 <= r@ <= 0x2000000000000000,
{
    let n128: i128 = tdiv_i128(a.raw as i128, LN2_RAW as i128);
    proof {
        lemma_tdiv_mag(a@, LN2_RAW as int, 171798691840, LN2_RAW as int);
        lemma_tdiv_rem(a@, LN2_RAW as int);
    }
    let n: i64 = n128 as i64;
    let r: i64 = a.raw - (n as i64) * LN2_RAW;
    let mut term: i64 = SCALE;
    let mut acc: i64 = SCALE;
    let mut k: u64 = 1;
    let ghost goal = exp_iter_s(r as int, term as int, acc as int, 1, EXP_TERMS as nat);
    while k <= EXP_TERMS
        invariant
            1 <= k <= EXP_TERMS + 1,
            iabs(r as int) < LN2_RAW as int,
            iabs(term as int) <= SCALE as int,
            iabs(acc as int) <= (k as int) * (SCALE as int),
            exp_iter_s(r as int, term as int, acc as int, k as nat, (EXP_TERMS + 1 - k) as nat)
                == goal,
        decreases EXP_TERMS + 1 - k,
    {
        proof {
            lemma_mul_mag(term as int, r as int, SCALE as int, LN2_RAW as int);
            lemma_fmul_mag(term as int, r as int, SCALE as int, LN2_RAW as int);
            lemma_tdiv_mag(fmul_s(term as int, r as int), k as int, LN2_RAW as int, 1);
        }
        let p: i128 = (term as i128) * (r as i128);
        let t1: i128 = tdiv_i128(p, SCALE as i128);
        let t2: i128 = tdiv_i128(t1, k as i128);
        let t: i64 = t2 as i64;
        acc = acc + t;
        term = t;
        k = k + 1;
    }
    let tc: i64 = if acc < 0 {
        0
    } else if acc > 2 * SCALE {
        2 * SCALE
    } else {
        acc
    };
    if n >= 0 {
        let mut p: i64 = 1;
        let mut i: i64 = 0;
        while i < n
            invariant
                0 <= i <= n <= 28,
                p == pow2i(i as nat),
                1 <= p <= 0x10000000,
            decreases n - i,
        {
            proof {
                if i >= 28 {
                }
                reveal_with_fuel(pow2i, 30);
                lemma_pow2i_mono((i + 1) as nat, 28);
                assert(pow2i(28) == 0x10000000);
            }
            p = 2 * p;
            i = i + 1;
        }
        proof {
            lemma_mul_mag(tc as int, p as int, 2 * (SCALE as int), 0x10000000);
            assert((tc as int) * (p as int) >= 0) by (nonlinear_arith)
                requires
                    tc >= 0,
                    p >= 1,
            ;
        }
        Fx { raw: tc * p }
    } else {
        let nn: i64 = -n;
        let mut p: i64 = 1;
        let mut i: i64 = 0;
        while i < nn
            invariant
                0 <= i <= nn <= 58,
                p == pow2i(i as nat),
                1 <= p <= 0x400000000000000,
            decreases nn - i,
        {
            proof {
                reveal_with_fuel(pow2i, 60);
                lemma_pow2i_mono((i + 1) as nat, 58);
                assert(pow2i(58) == 0x400000000000000);
            }
            p = 2 * p;
            i = i + 1;
        }
        let q: i128 = tdiv_i128(tc as i128, p as i128);
        proof {
            lemma_tdiv_sign(tc as int, p as int);
        }
        Fx { raw: q as i64 }
    }
}

/// Fixed-point cosine, as the sine of the angle advanced a quarter turn.
pub fn cos_fx(a: Fx) -> (r: Fx)
    requires
        iabs(a@) <= COS_MAX_ARG as int,
    ensures
        r@ == cos_s(a@),
        iabs(r@) <= TRIG_CLAMP as int,
{
    sin_fx(Fx { raw: a.raw + HALF_PI_RAW })
}

} // verus!
