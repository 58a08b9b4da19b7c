//! Bessel functions of order zero: the first kind by its integral
//! representation, and the second kind both by integration and by its
//! logarithmic series, the pair the plotting screens compare.
use crate::elementary::{ln_fx, ln_s, HALF_PI_RAW, PI_RAW};
use crate::fixed::{
    fdiv_s, fmul_s, fx_div, fx_mul, iabs, lemma_fdiv_mag, lemma_fmul_mag, lemma_fmul_nonneg,
    lemma_tdiv_mag, lemma_tdiv_sign, tdiv, tdiv_i128, Fx, SCALE,
};
use vstd::arithmetic::div_mod::lemma_div_is_ordered;
use crate::quadrature::{
    integrate, simpson_s, Integrand, BESSEL_X_MAX, BESSEL_X_MIN, GAMMA_RAW,
};
use crate::NumericalError;
use vstd::prelude::*;

verus! {

/// Number of Simpson divisions used for the Bessel integrals.
pub const BESSEL_DIVISIONS: u32 = 10000;

/// Lower integration limit that keeps the logarithmic singularity of the
/// second-kind integrand out of the sample grid: about a millionth.
pub const BESSEL_DELTA_RAW: i64 = 4295;

/// Safety ceiling on the number of series terms.
pub const SERIES_MAX_TERMS: u64 = 40;

/// A series stops once a term's magnitude drops below about a millionth.
pub const SERIES_TOL_RAW: i64 = 4295;

/// Magnitude cap on series state; beyond it the evaluation reports overflow.
pub const SERIES_CAP: i64 = 36028797018963968;

/// Magnitude cap on the first-kind Bessel value used inside the series
/// computation of the second kind.
pub const J0_CAP: i64 = 1099511627776;

/// Raw first-kind Bessel value of order zero: the Simpson integral of
/// `cos(x sin t)` over `[0, pi]`, divided by pi.
pub open spec fn j0_s(x: Fx) -> int {
    fdiv_s(
        simpson_s(Integrand::BesselJ0 { x }, 0, PI_RAW as int, BESSEL_DIVISIONS as int),
        PI_RAW as int,
    )
}

/// Raw second-kind Bessel value of order zero by integration: the Simpson
/// integral of its integrand over `[delta, pi/2]`, times `4 / pi^2`.
pub open spec fn y0_int_s(x: Fx) -> int {
    fmul_s(
        simpson_s(
            Integrand::BesselY0 { x },
            BESSEL_DELTA_RAW as int,
            HALF_PI_RAW as int,
            BESSEL_DIVISIONS as int,
        ),
        fdiv_s(4 * (SCALE as int), fmul_s(PI_RAW as int, PI_RAW as int)),
    )
}

/// Bessel function of the first kind, order zero, by its integral
/// representation.  Fails with `Overflow` exactly when the Simpson value
/// leaves the representable range.
pub fn j0(x: Fx) -> (r: Result<Fx, NumericalError>)
    requires
        BESSEL_X_MIN as int <= x@ <= BESSEL_X_MAX as int,
    ensures
        match r {
            Ok(v) => v@ == j0_s(x),
            Err(e) => e == NumericalError::Overflow && iabs(
                simpson_s(
                    Integrand::BesselJ0 { x },
                    0,
                    PI_RAW as int,
                    BESSEL_DIVISIONS as int,
                ),
            ) > i64::MAX as int,
        },
{
    let f = Integrand::BesselJ0 { x };
    match integrate(Fx { raw: 0 }, Fx { raw: PI_RAW }, BESSEL_DIVISIONS, &f) {
        Ok(v) => {
            proof {
                lemma_fdiv_mag(v@, PI_RAW as int, i64::MAX as int, SCALE as int);
            }
            Ok(fx_div(v, Fx { raw: PI_RAW }))
        },
        Err(e) => Err(e),
    }
}

/// Bessel function of the second kind, order zero, by its integral
/// representation.  Fails with `Overflow` exactly when the Simpson value
/// leaves the representable range.
pub fn y0_by_integration(x: Fx) -> (r: Result<Fx, NumericalError>)
    requires
        BESSEL_X_MIN as int <= x@ <= BESSEL_X_MAX as int,
    ensures
        match r {
            Ok(v) => v@ == y0_int_s(x),
            Err(e) => e == NumericalError::Overflow && iabs(
                simpson_s(
                    Integrand::BesselY0 { x },
                    BESSEL_DELTA_RAW as int,
                    HALF_PI_RAW as int,
                    BESSEL_DIVISIONS as int,
                ),
            ) > i64::MAX as int,
        },
{
    let f = Integrand::BesselY0 { x };
    match integrate(
        Fx { raw: BESSEL_DELTA_RAW },
        Fx { raw: HALF_PI_RAW },
        BESSEL_DIVISIONS,
        &f,
    ) {
        Ok(v) => {
            proof {
                assert(13493037705int * 13493037705 == 182062066508551667025int)
                    by (nonlinear_arith);
                assert(fmul_s(PI_RAW as int, PI_RAW as int) == 42389628130) by {
                    assert((PI_RAW as int) * (PI_RAW as int) == 182062066508551667025int);
                    assert(182062066508551667025int / 4294967296int == 42389628130int);
                    assert(tdiv(182062066508551667025int, SCALE as int) == 42389628130);
                }
            }
            let pipi = fx_mul(Fx { raw: PI_RAW }, Fx { raw: PI_RAW });
            proof {
                lemma_fdiv_mag(4 * (SCALE as int), pipi@, 4 * (SCALE as int), 42389628130);
            }
            let c = fx_div(Fx { raw: 4 * SCALE }, pipi);
            proof {
                lemma_fmul_mag(v@, c@, i64::MAX as int, 1740684680);
            }
            Ok(fx_mul(v, c))
        },
        Err(e) => Err(e),
    }
}

/// One step of the second-kind series: add the signed term `h * u`, stop
/// when the term has shrunk below the tolerance, otherwise scale the power
/// and advance the harmonic number.  `None` when the running state leaves
/// the capped range.
pub open spec fn series_iter_s(
    dm: int,
    u: int,
    h: int,
    s: int,
    plus: bool,
    k: nat,
    fuel: nat,
) -> Option<int>
    decreases fuel,
{
    if fuel == 0 {
        Some(s)
    } else {
        let a = fmul_s(h, u);
        let s2 = if plus {
            s + a
        } else {
            s - a
        };
        if iabs(s2) > SERIES_CAP as int {
            None
        } else if a < SERIES_TOL_RAW as int {
            Some(s2)
        } else {
            let u2 = tdiv(fmul_s(u, dm), ((k + 1) * (k + 1)) as int);
            if iabs(u2) > SERIES_CAP as int {
                None
            } else {
                series_iter_s(
                    dm,
                    u2,
                    h + tdiv(SCALE as int, (k + 1) as int),
                    s2,
                    !plus,
                    k + 1,
                    (fuel - 1) as nat,
                )
            }
        }
    }
}

/// The raw series sum for the second-kind Bessel value, or `None` when it
/// left the capped range.
pub open spec fn y0_series_core_s(x: Fx) -> Option<int> {
    let dm = tdiv(fmul_s(x@, x@), 4);
    series_iter_s(dm, dm, SCALE as int, 0, true, 1, SERIES_MAX_TERMS as nat)
}

/// Raw second-kind Bessel value of order zero by series:
/// `((ln(x/2) + gamma) j0(x) + s) * 2 / pi`, with `s` the series sum.
pub open spec fn y0_ser_s(x: Fx, s: int) -> int {
    fmul_s(
        fmul_s(ln_s(tdiv(x@, 2)) + GAMMA_RAW as int, j0_s(x)) + s,
        fdiv_s(2 * (SCALE as int), PI_RAW as int),
    )
}

/// Bessel function of the second kind, order zero, by its logarithmic
/// series.  Fails with `Overflow` exactly when the series state, the Simpson
/// value inside `j0`, or the `j0` value itself leaves its capped range.
pub fn y0_by_series(x: Fx) -> (r: Result<Fx, NumericalError>)
    requires
        BESSEL_X_MIN as int <= x@ <= BESSEL_X_MAX as int,
    ensures
        match r {
            Ok(v) => y0_series_core_s(x) matches Some(s) && v@ == y0_ser_s(x, s),
            Err(e) => e == NumericalError::Overflow && (y0_series_core_s(x) is None || iabs(
                simpson_s(
                    Integrand::BesselJ0 { x },
                    0,
                    PI_RAW as int,
                    BESSEL_DIVISIONS as int,
                ),
            ) > i64::MAX as int || iabs(j0_s(x)) > J0_CAP as int),
        },
{
    proof {
        lemma_fmul_mag(x@, x@, BESSEL_X_MAX as int, BESSEL_X_MAX as int);
    }
    let xx = fx_mul(x, x);
    proof {
        lemma_tdiv_mag(xx@, 4, 1099511627776, 4);
        lemma_tdiv_sign(xx@, 4);
        lemma_fmul_nonneg(x@, x@) ;
    }
    let dm: i64 = tdiv_i128(xx.raw as i128, 4) as i64;
    let mut u: i64 = dm;
    let mut h: i64 = SCALE;
    let mut s: i64 = 0;
    let mut plus: bool = true;
    let mut k: u64 = 1;
    let mut failed: bool = false;
    let mut done: bool = false;
    let ghost goal = series_iter_s(
        dm as int,
        u as int,
        h as int,
        s as int,
        true,
        1,
        SERIES_MAX_TERMS as nat,
    );
    while k <= SERIES_MAX_TERMS
        invariant
            1 <= k <= SERIES_MAX_TERMS + 1,
            0 <= dm <= 274877906944,
            iabs(u as int) <= SERIES_CAP as int,
            SCALE as int <= h as int <= (k as int) * (SCALE as int),
            iabs(s as int) <= SERIES_CAP as int,
            goal == y0_series_core_s(x),
            !done && !failed ==> series_iter_s(
                dm as int,
                u as int,
                h as int,
                s as int,
                plus,
                k as nat,
                (SERIES_MAX_TERMS + 1 - k) as nat,
            ) == goal,
            done && !failed ==> goal == Some(s as int),
            failed ==> goal is None,
        decreases SERIES_MAX_TERMS + 1 - k,
    {
        if !done && !failed {
            proof {
                lemma_fmul_mag(h as int, u as int, 176093659136, SERIES_CAP as int);
            }
            let a: i64 = fx_mul(Fx { raw: h }, Fx { raw: u }).raw;
            let s2_128: i128 = if plus {
                (s as i128) + (a as i128)
            } else {
                (s as i128) - (a as i128)
            };
            if s2_128 > SERIES_CAP as i128 || s2_128 < -(SERIES_CAP as i128) {
                failed = true;
            } else {
                s = s2_128 as i64;
                if a < SERIES_TOL_RAW {
                    done = true;
                } else {
                    proof {
                        lemma_fmul_mag(u as int, dm as int, SERIES_CAP as int, 274877906944);
                        assert(1 <= ((k as int) + 1) * ((k as int) + 1) <= 3600)
                            by (nonlinear_arith)
                            requires
                                1 <= k <= 40,
                        ;
                    }
                    let ksq: i64 = ((k as i64) + 1) * ((k as i64) + 1);
                    let u2: i64 = tdiv_i128(fx_mul(Fx { raw: u }, Fx { raw: dm }).raw as i128, ksq as i128) as i64;
                    if u2 > SERIES_CAP || u2 < -SERIES_CAP {
                        failed = true;
                    } else {
                        u = u2;
                        proof {
                            lemma_tdiv_sign(SCALE as int, (k as int) + 1);
                        }
                        h = h + tdiv_i128(SCALE as i128, (k as i128) + 1) as i64;
                        plus = !plus;
                    }
                }
            }
        }
        k = k + 1;
    }
    if failed {
        return Err(NumericalError::Overflow);
    }
    let jr = j0(x);
    match jr {
        Ok(jv) => {
            if jv.raw > J0_CAP || jv.raw < -J0_CAP {
                return Err(NumericalError::Overflow);
            }
            proof {
                lemma_div_is_ordered(42949672, x@, 2);
            }
            let xh: i64 = tdiv_i128(x.raw as i128, 2) as i64;
            let l = ln_fx(Fx { raw: xh });
            let t1 = Fx { raw: l.raw + GAMMA_RAW };
            proof {
                lemma_fmul_mag(t1@, jv@, 262278037764, J0_CAP as int);
            }
            let t2 = fx_mul(t1, jv);
            let c = fx_div(Fx { raw: 2 * SCALE }, Fx { raw: PI_RAW });
            proof {
                lemma_fdiv_mag(2 * (SCALE as int), PI_RAW as int, 2 * (SCALE as int), SCALE as int);
                lemma_fmul_mag(t2@ + s as int, c@, 144115188075855872, 8589934592);
            }
            Ok(fx_mul(Fx { raw: t2.raw + s }, c))
        },
        Err(e) => Err(e),
    }
}

} // verus!
