//! Composite Simpson's-rule quadrature over a fixed even number of equal
//! intervals.  Endpoints weigh 1, odd interior sample points 4, even interior
//! sample points 2, and the weighted sum is scaled by a third of the step.
use crate::elementary::{cos_s, ln_s, sin_s, cos_fx, ln_fx, sin_fx, HALF_PI_RAW, PI_RAW};
use crate::fixed::{
    fdiv_s, fmul_s, fx_div, fx_mul, iabs, lemma_fdiv_mag, lemma_fmul_mag, lemma_mul_mag, lemma_tdiv_mag,
    lemma_tdiv_sign, tdiv, tdiv_i128, Fx, SCALE,
};
use crate::surface_functions::{surface_eval, surface_s, SurfaceKind, SURFACE_BOUND};
use crate::NumericalError;
use vstd::prelude::*;

verus! {

/// Euler's constant, rounded to the nearest raw unit.
pub const GAMMA_RAW: i64 = 2479122403;

/// Magnitude bound of every integrand value on its accepted domain.
pub const EVAL_BOUND: i64 = 288230376151711744;

/// Largest number of Simpson divisions the quadrature accepts; the rule
/// samples twice as many intervals plus one point.
pub const MAX_DIVISIONS: u32 = 100000;

/// Magnitude bound of polynomial coefficients and abscissas: 64.
pub const POLY_MAX: i64 = 274877906944;

/// Least abscissa the Bessel integrands accept.
pub const BESSEL_X_MIN: i64 = 42949672;

/// Greatest abscissa the Bessel integrands accept: 16.
pub const BESSEL_X_MAX: i64 = 68719476736;

/// Least wave-model plate length: one sixteenth.
pub const DELTA_MIN: i64 = 268435456;

/// Greatest wave-model plate length: 16.
pub const DELTA_MAX: i64 = 68719476736;

/// Greatest wave-model Fourier wavenumber.
pub const WAVE_K_MAX: i64 = 17592186044416;

/// A function under the integral sign, chosen by name, with its parameters.
#[derive(Clone, Copy, PartialEq, Eq, Structural, Debug)]
pub enum Integrand {
    /// The cubic polynomial `((c3 x + c2) x + c1) x + c0`.
    Poly3 { c3: Fx, c2: Fx, c1: Fx, c0: Fx },
    /// The integrand of the integral representation of the Bessel function
    /// of the second kind, order zero, at abscissa `x`:
    /// `cos(x cos t) (gamma + ln(2x) + 2 ln(sin t))`.
    BesselY0 { x: Fx },
    /// The integrand of the integral representation of the Bessel function
    /// of the first kind, order zero, at abscissa `x`: `cos(x sin t)`.
    BesselJ0 { x: Fx },
    /// The wave-model Fourier integrand
    /// `epsilon * surface(t / delta) * cos(k t)`.
    Fourier { kind: SurfaceKind, delta: Fx, epsilon: Fx, k: Fx },
}

/// Parameters of an integrand lie in the ranges its evaluation needs.
pub open spec fn integrand_wf(f: Integrand) -> bool {
    match f {
        Integrand::Poly3 { c3, c2, c1, c0 } => iabs(c3@) <= POLY_MAX as int && iabs(c2@)
            <= POLY_MAX as int && iabs(c1@) <= POLY_MAX as int && iabs(c0@) <= POLY_MAX as int,
        Integrand::BesselY0 { x } => BESSEL_X_MIN as int <= x@ <= BESSEL_X_MAX as int,
        Integrand::BesselJ0 { x } => BESSEL_X_MIN as int <= x@ <= BESSEL_X_MAX as int,
        Integrand::Fourier { kind, delta, epsilon, k } => DELTA_MIN as int <= delta@
            <= DELTA_MAX as int && 0 <= epsilon@ <= SCALE as int && 0 <= k@ <= WAVE_K_MAX as int,
    }
}

/// Least abscissa an integrand accepts.
pub open spec fn domain_lo_s(f: Integrand) -> int {
    match f {
        Integrand::Poly3 { .. } => -(POLY_MAX as int),
        Integrand::BesselY0 { .. } => 1,
        Integrand::BesselJ0 { .. } => 0,
        Integrand::Fourier { .. } => 0,
    }
}

/// Greatest abscissa an integrand accepts.
pub open spec fn domain_hi_s(f: Integrand) -> int {
    match f {
        Integrand::Poly3 { .. } => POLY_MAX as int,
        Integrand::BesselY0 { .. } => HALF_PI_RAW as int,
        Integrand::BesselJ0 { .. } => PI_RAW as int,
        Integrand::Fourier { delta, .. } => delta@,
    }
}

/// An abscissa lies in the integrand's accepted interval.
pub open spec fn in_domain(f: Integrand, x: int) -> bool {
    domain_lo_s(f) <= x <= domain_hi_s(f)
}

/// Raw value of an integrand at a raw abscissa.
pub open spec fn integrand_s(f: Integrand, t: int) -> int {
    match f {
        Integrand::Poly3 { c3, c2, c1, c0 } => fmul_s(
            fmul_s(fmul_s(c3@, t) + c2@, t) + c1@,
            t,
        ) + c0@,
        Integrand::BesselY0 { x } => {
            let s = sin_s(t);
            if s < 1 {
                0
            } else {
                fmul_s(
                    cos_s(fmul_s(x@, cos_s(t))),
                    GAMMA_RAW as int + ln_s(2 * x@) + 2 * ln_s(s),
                )
            }
        },
        Integrand::BesselJ0 { x } => cos_s(fmul_s(sin_s(t), x@)),
        Integrand::Fourier { kind, delta, epsilon, k } => fmul_s(
            fmul_s(epsilon@, surface_s(kind, fdiv_s(t, delta@))),
            cos_s(fmul_s(k@, t)),
        ),
    }
}

/// Evaluate an integrand, exactly as `integrand_s` states, with its value
/// bounded by `EVAL_BOUND`.
pub fn integrand_eval(f: &Integrand, t: Fx) -> (r: Fx)
    requires
        integrand_wf(*f),
        in_domain(*f, t@),
    ensures
        r@ == integrand_s(*f, t@),
        iabs(r@) <= EVAL_BOUND as int,
{
    match f {
        Integrand::Poly3 { c3, c2, c1, c0 } => {
            proof {
                lemma_fmul_mag(c3@, t@, POLY_MAX as int, POLY_MAX as int);
                lemma_fmul_mag(
                    fmul_s(c3@, t@) + c2@,
                    t@,
                    17867063951360,
                    POLY_MAX as int,
                );
                lemma_fmul_mag(
                    fmul_s(fmul_s(c3@, t@) + c2@, t@) + c1@,
                    t@,
                    1143766970793984,
                    POLY_MAX as int,
                );
            }
            let u1 = fx_mul(*c3, t);
            let u2 = Fx { raw: u1.raw + c2.raw };
            let u3 = fx_mul(u2, t);
            let u4 = Fx { raw: u3.raw + c1.raw };
            let u5 = fx_mul(u4, t);
            Fx { raw: u5.raw + c0.raw }
        },
        Integrand::BesselY0 { x } => {
            let s = sin_fx(t);
            if s.raw < 1 {
                Fx { raw: 0 }
            } else {
                proof {
                    lemma_fmul_mag(x@, cos_s(t@), BESSEL_X_MAX as int, 4294967312);
                }
                let inner = fx_mul(*x, cos_fx(t));
                let c = cos_fx(inner);
                let l1 = ln_fx(Fx { raw: 2 * x.raw });
                let l2 = ln_fx(s);
                let w = Fx { raw: GAMMA_RAW + l1.raw + 2 * l2.raw };
                proof {
                    lemma_fmul_mag(c@, w@, 4294967312, 778168113152);
                }
                fx_mul(c, w)
            }
        },
        Integrand::BesselJ0 { x } => {
            proof {
                lemma_fmul_mag(sin_s(t@), x@, 4294967312, BESSEL_X_MAX as int);
            }
            let inner = fx_mul(sin_fx(t), *x);
            cos_fx(inner)
        },
        Integrand::Fourier { kind, delta, epsilon, k } => {
            proof {
                lemma_fdiv_mag(t@, delta@, DELTA_MAX as int, DELTA_MIN as int);
                lemma_fmul_mag(k@, t@, WAVE_K_MAX as int, DELTA_MAX as int);
            }
            let arg = fx_div(t, *delta);
            let sv = surface_eval(*kind, arg);
            proof {
                lemma_fmul_mag(epsilon@, sv@, SCALE as int, SURFACE_BOUND as int);
            }
            let es = fx_mul(*epsilon, sv);
            let cv = cos_fx(fx_mul(*k, t));
            proof {
                lemma_fmul_mag(es@, cv@, SURFACE_BOUND as int, 4294967312);
            }
            fx_mul(es, cv)
        },
    }
}

/// Simpson weight of sample `i` of `n + 1`: endpoints 1, odd points 4, even
/// interior points 2.
pub open spec fn simpson_w(i: int, n: int) -> int {
    if i == 0 || i == n {
        1
    } else if i % 2 == 1 {
        4
    } else {
        2
    }
}

/// The Simpson weights read the same from either end of the grid: the rule
/// treats the interval symmetrically, whatever the even interval count.
pub proof fn lemma_simpson_weight_symmetry(i: int, n: int)
    requires
        0 <= i <= n,
        n % 2 == 0,
    ensures
        simpson_w(i, n) == simpson_w(n - i, n),
{
    assert((n - i) % 2 == i % 2) by {
        vstd::arithmetic::div_mod::lemma_mod_bound(i, 2);
        vstd::arithmetic::div_mod::lemma_fundamental_div_mod(i, 2);
        vstd::arithmetic::div_mod::lemma_fundamental_div_mod(n, 2);
        vstd::arithmetic::div_mod::lemma_fundamental_div_mod_converse(
            n - i,
            2,
            n / 2 - i / 2 - i % 2,
            i % 2,
        );
    }
}

/// Weighted tail sum of integrand samples from index `i` to `n`, on the grid
/// anchored at `x1` with step `dx`.
pub open spec fn simpson_sum_s(f: Integrand, x1: int, dx: int, n: int, i: int) -> int
    decreases n + 1 - i,
    when i <= n + 1
{
    if i > n {
        0
    } else {
        simpson_w(i, n) * integrand_s(f, x1 + dx * i) + simpson_sum_s(f, x1, dx, n, i + 1)
    }
}

/// Raw value of the Simpson approximation of the integral of `f` from `x1`
/// to `x2` over `2 * divisions` intervals.
pub open spec fn simpson_s(f: Integrand, x1: int, x2: int, divisions: int) -> int {
    let n = 2 * divisions;
    let dx = tdiv(x2 - x1, n);
    tdiv(simpson_sum_s(f, x1, dx, n, 0) * dx, 3 * (SCALE as int))
}

/// Evaluate the definite integral of `f` from `x1` to `x2` by the composite
/// Simpson rule over `2 * divisions` equal intervals.  Returns the exact
/// `simpson_s` value, or `Overflow` exactly when that value does not fit.
pub fn integrate(x1: Fx, x2: Fx, divisions: u32, f: &Integrand) -> (r: Result<
    Fx,
    NumericalError,
>)
    requires
        1 <= divisions <= MAX_DIVISIONS,
        integrand_wf(*f),
        in_domain(*f, x1@),
        in_domain(*f, x2@),
        x1@ <= x2@,
    ensures
        match r {
            Ok(v) => v@ == simpson_s(*f, x1@, x2@, divisions as int) && iabs(v@)
                <= i64::MAX as int,
            Err(e) => e == NumericalError::Overflow && iabs(
                simpson_s(*f, x1@, x2@, divisions as int),
            ) > i64::MAX as int,
        },
{
    proof {
        assert(-(POLY_MAX as int) <= domain_lo_s(*f) && domain_hi_s(*f) <= POLY_MAX as int);
    }
    let n: u32 = 2 * divisions;
    let d: i64 = x2.raw - x1.raw;
    let dx128: i128 = tdiv_i128(d as i128, n as i128);
    proof {
        lemma_tdiv_sign(d as int, n as int);
        lemma_tdiv_mag(d as int, n as int, iabs(d as int), 1);
    }
    let dx: i64 = dx128 as i64;
    proof {
        lemma_fundamental_div_mod_tdiv(d as int, n as int);
    }
    let mut s: i128 = 0;
    let mut i: u32 = 0;
    while i <= n
        invariant
            0 <= i <= n + 1,
            n == 2 * divisions,
            1 <= divisions <= MAX_DIVISIONS,
            integrand_wf(*f),
            in_domain(*f, x1@),
            in_domain(*f, x2@),
            x1@ <= x2@,
            dx as int == tdiv(x2@ - x1@, n as int),
            0 <= dx <= 549755813888,
            (dx as int) * (n as int) <= x2@ - x1@,
            iabs(s as int) <= 1152921504606846976 * (i as int),
            simpson_sum_s(*f, x1@, dx as int, n as int, 0) == s + simpson_sum_s(
                *f,
                x1@,
                dx as int,
                n as int,
                i as int,
            ),
        decreases n + 1 - i,
    {
        proof {
            assert(0 <= (dx as int) * (i as int) <= (dx as int) * (n as int))
                by (nonlinear_arith)
                requires
                    0 <= dx,
                    0 <= i <= n,
            ;
        }
        let xi = Fx { raw: x1.raw + dx * (i as i64) };
        let y = integrand_eval(f, xi);
        let w: i64 = if i == 0 || i == n {
            1
        } else if i % 2 == 1 {
            4
        } else {
            2
        };
        proof {
            assert(iabs((w as int) * y@) <= 1152921504606846976) by (nonlinear_arith)
                requires
                    1 <= w <= 4,
                    iabs(y@) <= 288230376151711744,
            ;
        }
        s = s + (w as i128) * (y.raw as i128);
        proof {
            assert((w as int) * y@ == simpson_w(i as int, n as int) * integrand_s(
                *f,
                x1@ + (dx as int) * (i as int),
            ));
        }
        i = i + 1;
    }
    proof {
        lemma_mul_mag(s as int, dx as int, 1152921504606846976int * 200001, 549755813888);
    }
    let p: i128 = s * (dx as i128);
    let q: i128 = tdiv_i128(p, 3 * (SCALE as i128));
    if q >= -0x7fffffffffffffff && q <= 0x7fffffffffffffff {
        Ok(Fx { raw: q as i64 })
    } else {
        Err(NumericalError::Overflow)
    }
}

/// Truncated division leaves a dividend at least the divisor times the
/// quotient, for non-negative dividends.
proof fn lemma_fundamental_div_mod_tdiv(d: int, n: int)
    requires
        d >= 0,
        n >= 1,
    ensures
        tdiv(d, n) * n <= d,
{
    vstd::arithmetic::div_mod::lemma_fundamental_div_mod(d, n);
    vstd::arithmetic::div_mod::lemma_mod_bound(d, n);
    assert(n * (d / n) == (d / n) * n) by (nonlinear_arith);
}

} // verus!
