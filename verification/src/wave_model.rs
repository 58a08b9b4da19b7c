//! The water-surface model: a chosen initial surface shape is decomposed
//! into Fourier harmonics once per reset, and every grid point is then a
//! closed-form superposition of those harmonics at the current time.  The
//! hyperbolic depth factors are evaluated as ratios of decaying
//! exponentials, so that every intermediate stays representable.
use crate::elementary::{
    clamp_exp_s, cos_s, cos_fx, exp_fx, exp_iter_s, exp_s, lemma_pow2i_pos, pow2i, sin_s,
    sin_fx, EXP_MIN_ARG, EXP_TERMS, LN2_RAW, PI_RAW,
};
use crate::fixed::{
    fdiv_s, fmul_s, fsqrt_s, fx_div, fx_mul, fx_sqrt, iabs, lemma_fdiv_mag, lemma_fmul_mag,
    lemma_fmul_nonneg, lemma_isqrt_mag, lemma_mul_mag, lemma_tdiv_mag, lemma_tdiv_sign, tdiv,
    tdiv_i128, Fx, SCALE,
};
use crate::quadrature::{integrate, simpson_s, Integrand, DELTA_MAX, DELTA_MIN, WAVE_K_MAX};
use crate::surface_functions::SurfaceKind;
use crate::NumericalError;
use vstd::prelude::*;

verus! {

/// Number of Simpson divisions behind each Fourier coefficient.
pub const FOURIER_DIVISIONS: u32 = 500;

/// Magnitude cap on a Fourier coefficient: four.
pub const WAVE_A_MAX: i64 = 17179869184;

/// Least squared dispersion frequency a particle may carry: about a
/// millionth.  Below it the displacement formulas would divide by nothing.
pub const SIGMA2_MIN: i64 = 4295;

/// Greatest squared dispersion frequency a particle may carry.
pub const SIGMA2_MAX: i64 = 2251799813685248;

/// Magnitude bound of a particle's dispersion frequency.
pub const SIGMA_MAX: i64 = 3109888511975;

/// Least water depth: one sixty-fourth.
pub const WAVE_H_MIN: i64 = 67108864;

/// Greatest water depth: sixteen.
pub const WAVE_H_MAX: i64 = 68719476736;

/// Greatest gravity: sixty-four.
pub const WAVE_G_MAX: i64 = 274877906944;

/// One moveable grid point: displaced coordinates and rest coordinates.
#[derive(Clone, Copy, PartialEq, Eq, Structural, Debug)]
pub struct Point {
    /// Displaced horizontal coordinate.
    pub x: Fx,
    /// Displaced vertical coordinate.
    pub z: Fx,
    /// Rest horizontal coordinate.
    pub x0: Fx,
    /// Rest vertical coordinate.
    pub z0: Fx,
}

/// One harmonic of the surface decomposition: wavenumber, Fourier
/// amplitude, and the squared and plain dispersion frequency.
#[derive(Clone, Copy, PartialEq, Eq, Structural, Debug)]
pub struct Particle {
    /// Wavenumber.
    pub k: Fx,
    /// Fourier amplitude of the initial surface at this wavenumber.
    pub a: Fx,
    /// Squared dispersion frequency.
    pub sigma2: Fx,
    /// Dispersion frequency.
    pub sigma: Fx,
}

/// The exponential extended by zero below its argument floor; every
/// argument here is non-positive, so the value never exceeds two.
pub open spec fn exp_floor_s(a: int) -> int {
    if a < EXP_MIN_ARG as int {
        0
    } else {
        exp_s(a)
    }
}

/// The clamped series value inside the exponential.
pub open spec fn clamp_exp_of(a: int) -> int {
    clamp_exp_s(
        exp_iter_s(
            a - tdiv(a, LN2_RAW as int) * (LN2_RAW as int),
            SCALE as int,
            SCALE as int,
            1,
            EXP_TERMS as nat,
        ),
    )
}

/// The exponential of a non-positive argument stays within `[0, 2]`.
pub proof fn lemma_exp_floor_bounds(a: int)
    requires
        a <= 0,
    ensures
        0 <= exp_floor_s(a) <= 2 * (SCALE as int),
{
    if a >= EXP_MIN_ARG as int {
        let n = tdiv(a, LN2_RAW as int);
        lemma_tdiv_sign(a, LN2_RAW as int);
        if n == 0 {
            assert(pow2i(0) == 1);
            assert(clamp_exp_of(a) * pow2i(0) == clamp_exp_of(a)) by (nonlinear_arith)
                requires
                    pow2i(0) == 1,
            ;
        } else {
            lemma_pow2i_pos((-n) as nat);
            lemma_tdiv_mag(clamp_exp_of(a), pow2i((-n) as nat), 2 * (SCALE as int), 1);
            lemma_tdiv_sign(clamp_exp_of(a), pow2i((-n) as nat));
        }
    }
}

/// Raw hyperbolic tangent of a non-negative raw value, as a ratio of
/// decaying exponentials; the numerator is floored at zero so that the
/// last raw units of rounding cannot push the ratio negative.
pub open spec fn tanh_s(v: int) -> int {
    let e = exp_floor_s(-2 * v);
    let num = if SCALE as int - e < 0 {
        0
    } else {
        SCALE as int - e
    };
    fdiv_s(num, SCALE as int + e)
}

/// Evaluate the floored exponential.
fn exp_floor(a: Fx) -> (r: Fx)
    requires
        a@ <= 0,
    ensures
        r@ == exp_floor_s(a@),
        0 <= r@ <= 2 * (SCALE as int),
{
    proof {
        lemma_exp_floor_bounds(a@);
    }
    if a.raw < EXP_MIN_ARG {
        Fx { raw: 0 }
    } else {
        exp_fx(a)
    }
}

/// Evaluate the hyperbolic tangent of a non-negative value.
fn tanh_fx(v: Fx) -> (r: Fx)
    requires
        0 <= v@ <= 0x2000000000000000,
    ensures
        r@ == tanh_s(v@),
        0 <= r@ <= SCALE as int,
{
    let vd: i64 = 2 * v.raw;
    let e = exp_floor(Fx { raw: -vd });
    let num = if SCALE - e.raw < 0 {
        Fx { raw: 0 }
    } else {
        Fx { raw: SCALE - e.raw }
    };
    let den = Fx { raw: SCALE + e.raw };
    proof {
        lemma_fdiv_mag(num@, den@, SCALE as int, SCALE as int);
        lemma_tdiv_sign(num@ * (SCALE as int), den@);
        assert(num@ * (SCALE as int) >= 0) by (nonlinear_arith)
            requires
                num@ >= 0,
                SCALE == 4294967296,
        ;
    }
    fx_div(num, den)
}

/// Raw wavenumber of harmonic `i`: `pi (i + 1) / delta`.
pub open spec fn wave_k_s(i: int, delta: int) -> int {
    tdiv((i + 1) * (PI_RAW as int) * (SCALE as int), delta)
}

/// Raw Fourier amplitude of the surface at wavenumber `k`: twice the
/// Simpson integral of the scaled surface times `cos(k t)` over one
/// plate, divided by the plate length.
pub open spec fn wave_a_s(kind: SurfaceKind, delta: Fx, epsilon: Fx, k: Fx) -> int {
    tdiv(
        2 * simpson_s(
            Integrand::Fourier { kind, delta, epsilon, k },
            0,
            delta@,
            FOURIER_DIVISIONS as int,
        ) * (SCALE as int),
        delta@,
    )
}

/// Raw squared dispersion frequency: `g k tanh(k h)`.
pub open spec fn wave_sigma2_s(g: int, k: int, h: int) -> int {
    fmul_s(fmul_s(g, k), tanh_s(fmul_s(k, h)))
}

/// Build harmonic `i` of the decomposition.  Fails with `Overflow` exactly
/// when the wavenumber, the Simpson integral or the amplitude leaves its
/// range, and with `InvalidParameterValue` exactly when those fit but the
/// squared dispersion frequency degenerates.
pub fn make_particle(
    kind: SurfaceKind,
    i: usize,
    delta: Fx,
    epsilon: Fx,
    h: Fx,
    g: Fx,
) -> (r: Result<Particle, NumericalError>)
    requires
        i < 64,
        DELTA_MIN as int <= delta@ <= DELTA_MAX as int,
        0 <= epsilon@ <= SCALE as int,
        WAVE_H_MIN as int <= h@ <= WAVE_H_MAX as int,
        0 <= g@ <= WAVE_G_MAX as int,
    ensures
        match r {
            Ok(p) => {
                &&& p.k@ == wave_k_s(i as int, delta@)
                &&& 0 <= p.k@ <= WAVE_K_MAX as int
                &&& p.a@ == wave_a_s(kind, delta, epsilon, p.k)
                &&& iabs(p.a@) <= WAVE_A_MAX as int
                &&& p.sigma2@ == wave_sigma2_s(g@, p.k@, h@)
                &&& SIGMA2_MIN as int <= p.sigma2@ <= SIGMA2_MAX as int
                &&& p.sigma@ == fsqrt_s(p.sigma2@)
                &&& 0 <= p.sigma@ <= SIGMA_MAX as int
            },
            Err(e) => {
                let kv = wave_k_s(i as int, delta@);
                let kx = Fx { raw: kv as i64 };
                if kv > WAVE_K_MAX as int {
                    e == NumericalError::Overflow
                } else if iabs(
                    simpson_s(
                        Integrand::Fourier { kind, delta, epsilon, k: kx },
                        0,
                        delta@,
                        FOURIER_DIVISIONS as int,
                    ),
                ) > i64::MAX as int {
                    e == NumericalError::Overflow
                } else if iabs(wave_a_s(kind, delta, epsilon, kx)) > WAVE_A_MAX as int {
                    e == NumericalError::Overflow
                } else {
                    e == NumericalError::InvalidParameterValue && !(SIGMA2_MIN as int
                        <= wave_sigma2_s(g@, kv, h@) <= SIGMA2_MAX as int)
                }
            },
        },
{
    let il: i64 = (i as i64) + 1;
    proof {
        lemma_mul_mag(il as int, PI_RAW as int, 64, PI_RAW as int);
        lemma_mul_mag(il as int * (PI_RAW as int), SCALE as int, 64 * (PI_RAW as int),
            SCALE as int);
        lemma_tdiv_mag(
            il as int * (PI_RAW as int) * (SCALE as int),
            delta@,
            64 * (PI_RAW as int) * (SCALE as int),
            DELTA_MIN as int,
        );
        lemma_tdiv_sign(il as int * (PI_RAW as int) * (SCALE as int), delta@);
        assert(il as int * (PI_RAW as int) * (SCALE as int) >= 0) by (nonlinear_arith)
            requires
                il >= 1,
                PI_RAW == 13493037705,
                SCALE == 4294967296,
        ;
    }
    let kp: i128 = tdiv_i128(
        (il as i128) * (PI_RAW as i128) * (SCALE as i128),
        delta.raw as i128,
    );
    if kp > WAVE_K_MAX as i128 {
        return Err(NumericalError::Overflow);
    }
    let k = Fx { raw: kp as i64 };
    let f = Integrand::Fourier { kind, delta, epsilon, k };
    let v = match integrate(Fx { raw: 0 }, delta, FOURIER_DIVISIONS, &f) {
        Ok(v) => v,
        Err(e) => {
            return Err(e);
        },
    };
    proof {
        lemma_mul_mag(2 * v@, SCALE as int, 0x10000000000000000, SCALE as int);
        lemma_tdiv_mag(
            2 * v@ * (SCALE as int),
            delta@,
            0x10000000000000000int * (SCALE as int),
            1,
        );
    }
    let ap: i128 = tdiv_i128(2 * (v.raw as i128) * (SCALE as i128), delta.raw as i128);
    if ap > WAVE_A_MAX as i128 || ap < -(WAVE_A_MAX as i128) {
        return Err(NumericalError::Overflow);
    }
    let a = Fx { raw: ap as i64 };
    proof {
        lemma_fmul_mag(k@, h@, WAVE_K_MAX as int, WAVE_H_MAX as int);
        lemma_fmul_nonneg(k@, h@);
        lemma_fmul_mag(g@, k@, WAVE_G_MAX as int, WAVE_K_MAX as int);
        lemma_fmul_nonneg(g@, k@);
    }
    let kh = fx_mul(k, h);
    let th = tanh_fx(kh);
    let gk = fx_mul(g, k);
    proof {
        lemma_fmul_mag(gk@, th@, 1125899906842624, SCALE as int);
        lemma_fmul_nonneg(gk@, th@);
    }
    let s2 = fx_mul(gk, th);
    if s2.raw < SIGMA2_MIN || s2.raw > SIGMA2_MAX {
        return Err(NumericalError::InvalidParameterValue);
    }
    proof {
        lemma_isqrt_mag(s2@ * (SCALE as int), SIGMA_MAX as int);
        assert(s2@ * (SCALE as int) < 3109888511976int * 3109888511976)
            by (nonlinear_arith)
            requires
                0 <= s2@ <= 2251799813685248,
                SCALE == 4294967296,
        ;
    }
    let s = fx_sqrt(s2);
    Ok(Particle { k, a, sigma2: s2, sigma: s })
}

/// A particle's fields lie in the ranges the displacement sums need.
pub open spec fn particle_ok(p: Particle) -> bool {
    &&& 0 <= p.k@ <= WAVE_K_MAX as int
    &&& iabs(p.a@) <= WAVE_A_MAX as int
    &&& SIGMA2_MIN as int <= p.sigma2@ <= SIGMA2_MAX as int
    &&& 0 <= p.sigma@ <= SIGMA_MAX as int
}

/// Raw horizontal displacement weight of one harmonic at rest depth `z0`
/// and time `t`: the cosine-hyperbolic depth ratio times the travelling
/// factor, scaled by `-k a / sigma^2`.
pub open spec fn wave_gx_s(p: Particle, h: int, z0: int, t: int) -> int {
    let e1 = exp_floor_s(fmul_s(p.k@, z0));
    let e2 = exp_floor_s(-2 * fmul_s(p.k@, z0 + h));
    let e3 = exp_floor_s(-2 * fmul_s(p.k@, h));
    let cr = fdiv_s(fmul_s(e1, SCALE as int + e2), SCALE as int + e3);
    let amp = fdiv_s(fmul_s(p.k@, p.a@), p.sigma2@);
    -fmul_s(fmul_s(amp, cr), cos_s(fmul_s(p.sigma@, t)))
}

/// Raw vertical displacement weight of one harmonic: as the horizontal
/// one, with the sine-hyperbolic depth ratio, floored at zero against the
/// last raw units of rounding.
pub open spec fn wave_gz_s(p: Particle, h: int, z0: int, t: int) -> int {
    let e1 = exp_floor_s(fmul_s(p.k@, z0));
    let e2 = exp_floor_s(-2 * fmul_s(p.k@, z0 + h));
    let e3 = exp_floor_s(-2 * fmul_s(p.k@, h));
    let num = if SCALE as int - e2 < 0 {
        0
    } else {
        SCALE as int - e2
    };
    let sr = fdiv_s(fmul_s(e1, num), SCALE as int + e3);
    let amp = fdiv_s(fmul_s(p.k@, p.a@), p.sigma2@);
    -fmul_s(fmul_s(amp, sr), cos_s(fmul_s(p.sigma@, t)))
}

/// Weighted tail sum of the horizontal harmonics from index `i` on.
pub open spec fn wave_sum_x_s(
    ps: Seq<Particle>,
    h: int,
    z0: int,
    x0: int,
    t: int,
    i: int,
) -> int
    decreases ps.len() - i,
    when 0 <= i <= ps.len()
{
    if i >= ps.len() {
        0
    } else {
        fmul_s(wave_gx_s(ps[i], h, z0, t), sin_s(fmul_s(ps[i].k@, x0))) + wave_sum_x_s(
            ps,
            h,
            z0,
            x0,
            t,
            i + 1,
        )
    }
}

/// Weighted tail sum of the vertical harmonics from index `i` on.
pub open spec fn wave_sum_z_s(
    ps: Seq<Particle>,
    h: int,
    z0: int,
    x0: int,
    t: int,
    i: int,
) -> int
    decreases ps.len() - i,
    when 0 <= i <= ps.len()
{
    if i >= ps.len() {
        0
    } else {
        fmul_s(wave_gz_s(ps[i], h, z0, t), cos_s(fmul_s(ps[i].k@, x0))) + wave_sum_z_s(
            ps,
            h,
            z0,
            x0,
            t,
            i + 1,
        )
    }
}

/// Raw horizontal displacement of the rest point `(x0, z0)` at time `t`.
pub open spec fn wave_fx_s(g: int, ps: Seq<Particle>, h: int, z0: int, x0: int, t: int) -> int {
    fmul_s(g, wave_sum_x_s(ps, h, z0, x0, t, 0))
}

/// Raw vertical displacement of the rest point `(x0, z0)` at time `t`.
pub open spec fn wave_fz_s(g: int, ps: Seq<Particle>, h: int, z0: int, x0: int, t: int) -> int {
    fmul_s(g, wave_sum_z_s(ps, h, z0, x0, t, 0))
}

/// Fixed-point product over wide intermediates.
fn wmul(a: i128, b: i128) -> (r: i128)
    requires
        iabs(a as int) <= 0x2000000000000000000000,
        iabs(b as int) <= 0x10000000000,
    ensures
        r as int == fmul_s(a as int, b as int),
{
    proof {
        lemma_mul_mag(a as int, b as int, 0x2000000000000000000000, 0x10000000000);
    }
    tdiv_i128(a * b, SCALE as i128)
}

/// Fixed-point quotient over wide intermediates.
fn wdiv(a: i128, b: i128) -> (r: i128)
    requires
        b != 0,
        iabs(a as int) <= 0x2000000000000000000000,
        iabs(b as int) < 0x80000000000000000000000000000000,
    ensures
        r as int == fdiv_s(a as int, b as int),
{
    proof {
        lemma_mul_mag(a as int, SCALE as int, 0x2000000000000000000000, SCALE as int);
    }
    tdiv_i128(a * (SCALE as i128), b)
}

/// Magnitude bound of one harmonic's displacement weight.
pub proof fn lemma_wave_g_mag(p: Particle, h: int, z0: int, t: int)
    requires
        particle_ok(p),
        -(WAVE_H_MAX as int) <= z0 <= 0,
        z0 + h >= 0,
        0 <= h <= WAVE_H_MAX as int,
    ensures
        iabs(wave_gx_s(p, h, z0, t)) <= 452312848583266388224,
        iabs(wave_gz_s(p, h, z0, t)) <= 452312848583266388224,
{
    let e1 = exp_floor_s(fmul_s(p.k@, z0));
    let e2 = exp_floor_s(-2 * fmul_s(p.k@, z0 + h));
    let e3 = exp_floor_s(-2 * fmul_s(p.k@, h));
    lemma_fmul_nonneg(p.k@, z0 + h);
    lemma_fmul_nonneg(p.k@, h);
    assert(p.k@ * z0 <= 0) by (nonlinear_arith)
        requires
            p.k@ >= 0,
            z0 <= 0,
    ;
    lemma_tdiv_sign(p.k@ * z0, SCALE as int);
    lemma_exp_floor_bounds(fmul_s(p.k@, z0));
    lemma_exp_floor_bounds(-2 * fmul_s(p.k@, z0 + h));
    lemma_exp_floor_bounds(-2 * fmul_s(p.k@, h));
    lemma_fmul_mag(e1, SCALE as int + e2, 2 * (SCALE as int), 3 * (SCALE as int));
    lemma_fdiv_mag(
        fmul_s(e1, SCALE as int + e2),
        SCALE as int + e3,
        6 * (SCALE as int),
        SCALE as int,
    );
    let num = if SCALE as int - e2 < 0 {
        0
    } else {
        SCALE as int - e2
    };
    lemma_fmul_mag(e1, num, 2 * (SCALE as int), SCALE as int);
    lemma_fdiv_mag(fmul_s(e1, num), SCALE as int + e3, 2 * (SCALE as int), SCALE as int);
    lemma_fmul_mag(p.k@, p.a@, WAVE_K_MAX as int, WAVE_A_MAX as int);
    lemma_fdiv_mag(fmul_s(p.k@, p.a@), p.sigma2@, 0x400000000000, SIGMA2_MIN as int);
    let amp = fdiv_s(fmul_s(p.k@, p.a@), p.sigma2@);
    let cr = fdiv_s(fmul_s(e1, SCALE as int + e2), SCALE as int + e3);
    let sr = fdiv_s(fmul_s(e1, num), SCALE as int + e3);
    lemma_fmul_mag(amp, cr, 0x40000000000000000, 0x600000000);
    lemma_fmul_mag(amp, sr, 0x40000000000000000, 0x600000000);
    lemma_fmul_mag(fmul_s(amp, cr), cos_s(fmul_s(p.sigma@, t)), 442721857769029238784,
        4294967312);
    lemma_fmul_mag(fmul_s(amp, sr), cos_s(fmul_s(p.sigma@, t)), 442721857769029238784,
        4294967312);
}

/// Evaluate both displacements of one rest point from the particle table.
/// `Some` exactly when both displaced coordinates stay within the point
/// bound.
fn wave_displace(
    g: Fx,
    particles: &Vec<Particle>,
    h: Fx,
    z0: Fx,
    x0: Fx,
    t: Fx,
) -> (r: Option<(Fx, Fx)>)
    requires
        0 <= g@ <= WAVE_G_MAX as int,
        particles@.len() <= 64,
        forall|j: int| 0 <= j < particles@.len() ==> particle_ok(#[trigger] particles@[j]),
        0 <= h@ <= WAVE_H_MAX as int,
        -(WAVE_H_MAX as int) <= z0@ <= 0,
        z0@ + h@ >= 0,
        iabs(x0@) <= 0x10000000000,
        0 <= t@ <= 0x80000000000,
    ensures
        ({
            let fx = wave_fx_s(g@, particles@, h@, z0@, x0@, t@);
            let fz = wave_fz_s(g@, particles@, h@, z0@, x0@, t@);
            match r {
                Some(d) => d.0@ == x0@ + fx && d.1@ == z0@ - fz && iabs(d.0@)
                    <= 0x10000000000 && iabs(d.1@) <= 0x10000000000,
                None => iabs(x0@ + fx) > 0x10000000000 || iabs(z0@ - fz)
                    > 0x10000000000,
            }
        }),
{
    let n = particles.len();
    let mut sx: i128 = 0;
    let mut sz: i128 = 0;
    let mut i: usize = 0;
    while i < n
        invariant
            0 <= i <= n,
            n == particles@.len() <= 64,
            forall|j: int| 0 <= j < n ==> particle_ok(#[trigger] particles@[j]),
            0 <= g@ <= WAVE_G_MAX as int,
            0 <= h@ <= WAVE_H_MAX as int,
            -(WAVE_H_MAX as int) <= z0@ <= 0,
            z0@ + h@ >= 0,
            iabs(x0@) <= 0x10000000000,
            0 <= t@ <= 0x80000000000,
            iabs(sx as int) <= (i as int) * 590295810358705651712,
            iabs(sz as int) <= (i as int) * 590295810358705651712,
            wave_sum_x_s(particles@, h@, z0@, x0@, t@, 0) == sx + wave_sum_x_s(
                particles@,
                h@,
                z0@,
                x0@,
                t@,
                i as int,
            ),
            wave_sum_z_s(particles@, h@, z0@, x0@, t@, 0) == sz + wave_sum_z_s(
                particles@,
                h@,
                z0@,
                x0@,
                t@,
                i as int,
            ),
        decreases n - i,
    {
        let p = particles[i];
        proof {
            lemma_wave_g_mag(p, h@, z0@, t@);
            lemma_fmul_mag(p.k@, z0@, WAVE_K_MAX as int, WAVE_H_MAX as int);
            lemma_fmul_mag(p.k@, z0@ + h@, WAVE_K_MAX as int, WAVE_H_MAX as int);
            lemma_fmul_mag(p.k@, h@, WAVE_K_MAX as int, WAVE_H_MAX as int);
            lemma_fmul_mag(p.k@, p.a@, WAVE_K_MAX as int, WAVE_A_MAX as int);
            lemma_fmul_mag(p.sigma@, t@, SIGMA_MAX as int, 0x80000000000);
            lemma_fmul_mag(p.k@, x0@, WAVE_K_MAX as int, 0x10000000000);
        }
        proof {
            assert(p.k@ * z0@ <= 0) by (nonlinear_arith)
                requires
                    p.k@ >= 0,
                    z0@ <= 0,
            ;
            lemma_tdiv_sign(p.k@ * z0@, SCALE as int);
            lemma_fmul_nonneg(p.k@, z0@ + h@);
            lemma_fmul_nonneg(p.k@, h@);
        }
        let kz0: i64 = fx_mul(p.k, z0).raw;
        let kzh: i64 = fx_mul(p.k, Fx { raw: z0.raw + h.raw }).raw;
        let kh: i64 = fx_mul(p.k, h).raw;
        let kzh2: i64 = 2 * kzh;
        let kh2: i64 = 2 * kh;
        let e1 = exp_floor(Fx { raw: kz0 });
        let e2 = exp_floor(Fx { raw: -kzh2 });
        let e3 = exp_floor(Fx { raw: -kh2 });
        proof {
            lemma_fmul_mag(e1@, SCALE as int + e2@, 2 * (SCALE as int), 3 * (SCALE as int));
            lemma_fdiv_mag(
                fmul_s(e1@, SCALE as int + e2@),
                SCALE as int + e3@,
                6 * (SCALE as int),
                SCALE as int,
            );
        }
        let crn: i128 = wmul(e1.raw as i128, (SCALE + e2.raw) as i128);
        let cr: i128 = wdiv(crn, (SCALE + e3.raw) as i128);
        let numz: i64 = if SCALE - e2.raw < 0 {
            0
        } else {
            SCALE - e2.raw
        };
        proof {
            lemma_fmul_mag(e1@, numz as int, 2 * (SCALE as int), SCALE as int);
            lemma_fdiv_mag(
                fmul_s(e1@, numz as int),
                SCALE as int + e3@,
                2 * (SCALE as int),
                SCALE as int,
            );
        }
        let srn: i128 = wmul(e1.raw as i128, numz as i128);
        let sr: i128 = wdiv(srn, (SCALE + e3.raw) as i128);
        let ka: i128 = wmul(p.k.raw as i128, p.a.raw as i128);
        proof {
            lemma_fdiv_mag(ka as int, p.sigma2@, 0x400000000000, SIGMA2_MIN as int);
        }
        let amp: i128 = wdiv(ka, p.sigma2.raw as i128);
        let cst = cos_fx(fx_mul(p.sigma, t));
        proof {
            lemma_fmul_mag(amp as int, cr as int, 0x40000000000000000, 0x600000000);
            lemma_fmul_mag(amp as int, sr as int, 0x40000000000000000, 0x600000000);
            lemma_fmul_mag(
                fmul_s(amp as int, cr as int),
                cst@,
                442721857769029238784,
                4294967312,
            );
            lemma_fmul_mag(
                fmul_s(amp as int, sr as int),
                cst@,
                442721857769029238784,
                4294967312,
            );
        }
        let gx: i128 = -wmul(wmul(amp, cr), cst.raw as i128);
        let gz: i128 = -wmul(wmul(amp, sr), cst.raw as i128);
        let sn = sin_fx(fx_mul(p.k, x0));
        let cn = cos_fx(fx_mul(p.k, x0));
        proof {
            lemma_fmul_mag(gx as int, sn@, 452312848583266388224, 4294967312);
            lemma_fmul_mag(gz as int, cn@, 452312848583266388224, 4294967312);
        }
        sx = sx + wmul(gx, sn.raw as i128);
        sz = sz + wmul(gz, cn.raw as i128);
        i = i + 1;
    }
    proof {
        lemma_fmul_mag(sx as int, g@, 37778931862957161709568, WAVE_G_MAX as int);
        lemma_fmul_mag(sz as int, g@, 37778931862957161709568, WAVE_G_MAX as int);
        assert(g@ * (sx as int) == (sx as int) * g@) by (nonlinear_arith);
        assert(g@ * (sz as int) == (sz as int) * g@) by (nonlinear_arith);
    }
    let fxv: i128 = wmul(sx, g.raw as i128);
    let fzv: i128 = wmul(sz, g.raw as i128);
    let nx: i128 = (x0.raw as i128) + fxv;
    let nz: i128 = (z0.raw as i128) - fzv;
    if nx > 0x10000000000 || nx < -0x10000000000 || nz > 0x10000000000 || nz
        < -0x10000000000 {
        None
    } else {
        Some((Fx { raw: nx as i64 }, Fx { raw: nz as i64 }))
    }
}

/// Model of a water cross-section: the surface decomposition and the grid
/// of moveable points.
pub struct WaveModel {
    /// Gravitational acceleration.
    pub g: Fx,
    /// Plate length: the horizontal extent of one surface period.
    pub delta: Fx,
    /// Amplitude scale of the initial surface.
    pub epsilon: Fx,
    /// Water depth.
    pub h: Fx,
    /// Elapsed simulation time.
    pub time: Fx,
    /// Time delta of one step.
    pub dtime: Fx,
    /// Number of steps taken since the last reset.
    pub frame: i32,
    /// Number of grid points along the surface.
    pub xn: usize,
    /// Number of grid points down the depth.
    pub zn: usize,
    /// Number of harmonics kept from the decomposition.
    pub maxn: usize,
    /// The harmonics, computed at reset.
    pub particles: Vec<Particle>,
    /// The grid points.
    pub points: Vec<Point>,
    /// The initial surface shape.
    pub surface: SurfaceKind,
}

/// The user-settable fields lie in the ranges `reset` accepts.
pub open spec fn wave_params_ok(m: WaveModel) -> bool {
    &&& 0 <= m.g@ <= WAVE_G_MAX as int
    &&& DELTA_MIN as int <= m.delta@ <= DELTA_MAX as int
    &&& 0 <= m.epsilon@ <= SCALE as int
    &&& WAVE_H_MIN as int <= m.h@ <= WAVE_H_MAX as int
    &&& 1 <= m.dtime@ <= SCALE as int
    &&& 2 <= m.xn <= 64
    &&& 2 <= m.zn <= 64
    &&& 1 <= m.maxn <= 64
}

/// The decomposition and the grid are consistent with the parameters:
/// what one step needs and reestablishes.
pub open spec fn wave_gridded(m: WaveModel) -> bool {
    &&& wave_params_ok(m)
    &&& m.particles@.len() == m.maxn
    &&& (forall|j: int| 0 <= j < m.maxn ==> particle_ok(#[trigger] m.particles@[j]))
    &&& m.points@.len() == m.xn * m.zn
    &&& (forall|idx: int|
        0 <= idx < m.points@.len() ==> {
            let p = #[trigger] m.points@[idx];
            &&& iabs(p.x0@) <= 0x10000000000
            &&& -(m.h@) <= p.z0@ <= 0
            &&& iabs(p.x@) <= 0x10000000000
            &&& iabs(p.z@) <= 0x10000000000
        })
    &&& 0 <= m.frame
    &&& 0 <= m.time@ <= 0x80000000000
}

/// Harmonic `i` of the decomposition, as `reset` computes it.
pub open spec fn wave_particle_at(m: WaveModel, i: int) -> Particle {
    let kv = wave_k_s(i, m.delta@);
    let kx = Fx { raw: kv as i64 };
    let s2 = wave_sigma2_s(m.g@, kv, m.h@);
    Particle {
        k: kx,
        a: Fx { raw: wave_a_s(m.surface, m.delta, m.epsilon, kx) as i64 },
        sigma2: Fx { raw: s2 as i64 },
        sigma: Fx { raw: fsqrt_s(s2) as i64 },
    }
}

/// The whole decomposition `reset` computes.
pub open spec fn wave_particles_s(m: WaveModel) -> Seq<Particle> {
    Seq::new(m.maxn as nat, |i: int| wave_particle_at(m, i))
}

/// Harmonic `i` stays within every range `reset` checks.
pub open spec fn wave_particle_fits(m: WaveModel, i: int) -> bool {
    let kv = wave_k_s(i, m.delta@);
    let kx = Fx { raw: kv as i64 };
    &&& kv <= WAVE_K_MAX as int
    &&& iabs(
        simpson_s(
            Integrand::Fourier { kind: m.surface, delta: m.delta, epsilon: m.epsilon, k: kx },
            0,
            m.delta@,
            FOURIER_DIVISIONS as int,
        ),
    ) <= i64::MAX as int
    &&& iabs(wave_a_s(m.surface, m.delta, m.epsilon, kx)) <= WAVE_A_MAX as int
    &&& SIGMA2_MIN as int <= wave_sigma2_s(m.g@, kv, m.h@) <= SIGMA2_MAX as int
}

/// The rest coordinates of grid point `idx`.
pub open spec fn wave_x0_s(m: WaveModel, idx: int) -> int {
    tdiv(m.delta@, m.xn - 1) * (idx / (m.zn as int))
}

/// The rest depth of grid point `idx`.
pub open spec fn wave_z0_s(m: WaveModel, idx: int) -> int {
    -(tdiv(m.h@, m.zn - 1) * (idx % (m.zn as int)))
}

/// Grid point `idx`, displaced by `ps` at time `t`, stays within the
/// point bound.
pub open spec fn wave_point_fits(m: WaveModel, ps: Seq<Particle>, idx: int, t: int) -> bool {
    let x0 = wave_x0_s(m, idx);
    let z0 = wave_z0_s(m, idx);
    &&& iabs(x0 + wave_fx_s(m.g@, ps, m.h@, z0, x0, t)) <= 0x10000000000
    &&& iabs(z0 - wave_fz_s(m.g@, ps, m.h@, z0, x0, t)) <= 0x10000000000
}

/// Everything `reset` computes stays within its range.
pub open spec fn wave_reset_fits(m: WaveModel) -> bool {
    &&& wave_params_ok(m)
    &&& (forall|i: int| 0 <= i < m.maxn ==> #[trigger] wave_particle_fits(m, i))
    &&& (forall|idx: int|
        0 <= idx < m.xn * m.zn ==> #[trigger] wave_point_fits(m, wave_particles_s(m), idx, 0))
}

impl WaveModel {
    /// A model with the default parameters: standard gravity, a unit
    /// plate, a tenth of amplitude, three tenths of depth, a hundredth of
    /// a second per step, a thirty by fifteen grid, fifty harmonics, and
    /// the sloped-line surface.  The grid itself is laid out by `reset`.
    pub fn make_model() -> (r: WaveModel)
        ensures
            wave_params_ok(r),
            r.g@ == fdiv_s(981, 100),
            r.delta@ == SCALE as int,
            r.epsilon@ == fdiv_s(1, 10),
            r.h@ == fdiv_s(3, 10),
            r.dtime@ == fdiv_s(1, 100),
            r.xn == 30 && r.zn == 15 && r.maxn == 50,
            r.surface == SurfaceKind::Linear,
            r.frame == 0 && r.time@ == 0,
            r.particles@.len() == 0 && r.points@.len() == 0,
    {
        proof {
            assert(4294967296int / 100 == 42949672int);
            assert(3int * 4294967296 == 12884901888int);
            assert(12884901888int / 10 == 1288490188int);
            assert(4294967296int / 10 == 429496729int);
            assert(981int * 4294967296 == 4213362917376int) by (nonlinear_arith);
            assert(4213362917376int / 100 == 42133629173int);
        }
        WaveModel {
            g: Fx::from_ratio(981, 100),
            delta: Fx::one(),
            epsilon: Fx::from_ratio(1, 10),
            h: Fx::from_ratio(3, 10),
            time: Fx::zero(),
            dtime: Fx::from_ratio(1, 100),
            frame: 0,
            xn: 30,
            zn: 15,
            maxn: 50,
            particles: Vec::new(),
            points: Vec::new(),
            surface: SurfaceKind::Linear,
        }
    }

    /// Choose the initial surface shape used at the next reset.
    pub fn set_surface_func(&mut self, kind: SurfaceKind)
        ensures
            *final(self) == (WaveModel { surface: kind, ..*old(self) }),
    {
        self.surface = kind;
    }

    /// Decompose the chosen surface into harmonics and lay the grid out at
    /// time zero.  Fails, changing nothing, with `InvalidParameterValue`
    /// when a parameter or a dispersion frequency is out of range, and
    /// with `Overflow` when a coefficient or a displaced point leaves its
    /// range; succeeds whenever `wave_reset_fits` holds beforehand.
    pub fn reset(&mut self) -> (r: Result<(), NumericalError>)
        ensures
            match r {
                Ok(()) => {
                    &&& wave_gridded(*final(self))
                    &&& final(self).time@ == 0 && final(self).frame == 0
                    &&& final(self).g == old(self).g && final(self).delta == old(self).delta
                    &&& final(self).epsilon == old(self).epsilon && final(self).h == old(
                        self,
                    ).h
                    &&& final(self).dtime == old(self).dtime && final(self).surface == old(
                        self,
                    ).surface
                    &&& final(self).xn == old(self).xn && final(self).zn == old(self).zn
                    &&& final(self).maxn == old(self).maxn
                    &&& final(self).particles@ =~= wave_particles_s(*old(self))
                    &&& final(self).points@.len() == old(self).xn * old(self).zn
                    &&& (forall|idx: int|
                        0 <= idx < final(self).points@.len() ==> {
                            let p = #[trigger] final(self).points@[idx];
                            let ps = wave_particles_s(*old(self));
                            let x0 = wave_x0_s(*old(self), idx);
                            let z0 = wave_z0_s(*old(self), idx);
                            &&& p.x0@ == x0
                            &&& p.z0@ == z0
                            &&& p.x@ == x0 + wave_fx_s(
                                old(self).g@,
                                ps,
                                old(self).h@,
                                z0,
                                x0,
                                0,
                            )
                            &&& p.z@ == z0 - wave_fz_s(
                                old(self).g@,
                                ps,
                                old(self).h@,
                                z0,
                                x0,
                                0,
                            )
                        })
                },
                Err(e) => {
                    &&& *final(self) == *old(self)
                    &&& (e == NumericalError::InvalidParameterValue || e
                        == NumericalError::Overflow)
                    &&& !wave_reset_fits(*old(self))
                },
            },
    {
        let ghost m0 = *self;
        if self.g.raw < 0 || self.g.raw > WAVE_G_MAX || self.delta.raw < DELTA_MIN
            || self.delta.raw > DELTA_MAX || self.epsilon.raw < 0 || self.epsilon.raw > SCALE
            || self.h.raw < WAVE_H_MIN || self.h.raw > WAVE_H_MAX || self.dtime.raw < 1
            || self.dtime.raw > SCALE || self.xn < 2 || self.xn > 64 || self.zn < 2
            || self.zn > 64 || self.maxn < 1 || self.maxn > 64 {
            return Err(NumericalError::InvalidParameterValue);
        }
        let maxn = self.maxn;
        let mut parts: Vec<Particle> = Vec::new();
        let mut i: usize = 0;
        while i < maxn
            invariant
                0 <= i <= maxn,
                *self == m0,
                m0 == *old(self),
                wave_params_ok(m0),
                maxn == m0.maxn,
                parts@.len() == i,
                forall|j: int| 0 <= j < i ==> #[trigger] parts@[j] == wave_particle_at(m0, j),
                forall|j: int| 0 <= j < i ==> particle_ok(#[trigger] parts@[j]),
            decreases maxn - i,
        {
            match make_particle(self.surface, i, self.delta, self.epsilon, self.h, self.g) {
                Ok(p) => {
                    parts.push(p);
                },
                Err(e) => {
                    proof {
                        assert(!wave_particle_fits(m0, i as int));
                    }
                    return Err(e);
                },
            }
            i = i + 1;
        }
        proof {
            assert(parts@ =~= wave_particles_s(m0));
        }
        let xn = self.xn;
        let zn = self.zn;
        proof {
            lemma_grid_step(self.delta@, (xn - 1) as int);
            lemma_grid_step(self.h@, (zn - 1) as int);
        }
        let dx: i64 = tdiv_i128(self.delta.raw as i128, (xn as i128) - 1) as i64;
        let dz: i64 = tdiv_i128(self.h.raw as i128, (zn as i128) - 1) as i64;
        proof {
            assert(xn * zn <= 4096) by (nonlinear_arith)
                requires
                    2 <= xn <= 64,
                    2 <= zn <= 64,
            ;
        }
        let total = xn * zn;
        let mut pts: Vec<Point> = Vec::new();
        let mut idx: usize = 0;
        while idx < total
            invariant
                0 <= idx <= total,
                *self == m0,
                m0 == *old(self),
                wave_params_ok(m0),
                total == m0.xn * m0.zn,
                xn == m0.xn && zn == m0.zn,
                dx as int == tdiv(m0.delta@, m0.xn - 1),
                dz as int == tdiv(m0.h@, m0.zn - 1),
                0 <= dx && (dx as int) * (m0.xn - 1) <= m0.delta@,
                0 <= dz && (dz as int) * (m0.zn - 1) <= m0.h@,
                parts@ =~= wave_particles_s(m0),
                parts@.len() == m0.maxn,
                forall|j: int| 0 <= j < parts@.len() ==> particle_ok(#[trigger] parts@[j]),
                pts@.len() == idx,
                forall|q: int|
                    0 <= q < idx ==> {
                        let p = #[trigger] pts@[q];
                        &&& p.x0@ == wave_x0_s(m0, q)
                        &&& p.z0@ == wave_z0_s(m0, q)
                        &&& p.x@ == wave_x0_s(m0, q) + wave_fx_s(
                            m0.g@,
                            parts@,
                            m0.h@,
                            wave_z0_s(m0, q),
                            wave_x0_s(m0, q),
                            0,
                        )
                        &&& p.z@ == wave_z0_s(m0, q) - wave_fz_s(
                            m0.g@,
                            parts@,
                            m0.h@,
                            wave_z0_s(m0, q),
                            wave_x0_s(m0, q),
                            0,
                        )
                        &&& iabs(p.x@) <= 0x10000000000
                        &&& iabs(p.z@) <= 0x10000000000
                        &&& -(m0.h@) <= p.z0@ <= 0
                        &&& iabs(p.x0@) <= 0x10000000000
                    },
            decreases total - idx,
        {
            let gi = idx / zn;
            let gj = idx % zn;
            proof {
                assert(gi < xn) by (nonlinear_arith)
                    requires
                        idx < total,
                        total == xn * zn,
                        zn >= 1,
                        gi == idx as int / zn as int,
                ;
                assert(0 <= (dx as int) * (gi as int) && (dx as int) * (gi as int) <= (
                dx as int) * (m0.xn - 1)) by (nonlinear_arith)
                    requires
                        0 <= dx,
                        0 <= gi <= m0.xn - 1,
                ;
                assert(0 <= (dz as int) * (gj as int) && (dz as int) * (gj as int) <= (
                dz as int) * (m0.zn - 1)) by (nonlinear_arith)
                    requires
                        0 <= dz,
                        0 <= gj <= m0.zn - 1,
                ;
            }
            let x0 = Fx { raw: dx * (gi as i64) };
            let z0 = Fx { raw: -(dz * (gj as i64)) };
            match wave_displace(self.g, &parts, self.h, z0, x0, Fx { raw: 0 }) {
                Some(d) => {
                    pts.push(Point { x: d.0, z: d.1, x0, z0 });
                },
                None => {
                    proof {
                        assert(!wave_point_fits(m0, wave_particles_s(m0), idx as int, 0));
                    }
                    return Err(NumericalError::Overflow);
                },
            }
            idx = idx + 1;
        }
        self.time = Fx::zero();
        self.frame = 0;
        self.particles = parts;
        self.points = pts;
        Ok(())
    }

    /// Advance the frame counter, set the time to the frame count times
    /// the time delta, and re-evaluate every grid point's displacement at
    /// the new time.  Fails, changing nothing, with `Overflow` when the
    /// counter, the time or a displaced point leaves its range; succeeds
    /// whenever `wave_step_fits` holds beforehand.
    pub fn step(&mut self) -> (r: Result<(), NumericalError>)
        requires
            wave_gridded(*old(self)),
        ensures
            match r {
                Ok(()) => {
                    &&& wave_gridded(*final(self))
                    &&& wave_step_fits(*old(self))
                    &&& final(self).frame == old(self).frame + 1
                    &&& final(self).time@ == (old(self).frame + 1) * old(self).dtime@
                    &&& final(self).particles == old(self).particles
                    &&& final(self).points@.len() == old(self).points@.len()
                    &&& (forall|idx: int|
                        0 <= idx < final(self).points@.len() ==> {
                            let p = #[trigger] final(self).points@[idx];
                            let q = old(self).points@[idx];
                            let t = (old(self).frame + 1) * old(self).dtime@;
                            &&& p.x0 == q.x0
                            &&& p.z0 == q.z0
                            &&& p.x@ == q.x0@ + wave_fx_s(
                                old(self).g@,
                                old(self).particles@,
                                old(self).h@,
                                q.z0@,
                                q.x0@,
                                t,
                            )
                            &&& p.z@ == q.z0@ - wave_fz_s(
                                old(self).g@,
                                old(self).particles@,
                                old(self).h@,
                                q.z0@,
                                q.x0@,
                                t,
                            )
                        })
                    &&& final(self).g == old(self).g && final(self).dtime == old(self).dtime
                },
                Err(e) => {
                    &&& *final(self) == *old(self)
                    &&& e == NumericalError::Overflow
                    &&& !wave_step_fits(*old(self))
                },
            },
    {
        let ghost m0 = *self;
        if self.frame == i32::MAX {
            return Err(NumericalError::Overflow);
        }
        let nf: i32 = self.frame + 1;
        proof {
            lemma_mul_mag(nf as int, self.dtime@, 0x80000000, SCALE as int);
            assert((nf as int) * self.dtime@ >= 0) by (nonlinear_arith)
                requires
                    nf >= 1,
                    self.dtime@ >= 1,
            ;
        }
        let tn: i128 = (nf as i128) * (self.dtime.raw as i128);
        if tn > 0x80000000000 {
            return Err(NumericalError::Overflow);
        }
        let t = Fx { raw: tn as i64 };
        let total = self.points.len();
        let mut pts: Vec<Point> = Vec::new();
        let mut idx: usize = 0;
        while idx < total
            invariant
                0 <= idx <= total,
                *self == m0,
                m0 == *old(self),
                wave_gridded(m0),
                total == m0.points@.len(),
                0 <= t@ <= 0x80000000000,
                t@ == (m0.frame + 1) * m0.dtime@,
                pts@.len() == idx,
                forall|q: int|
                    0 <= q < idx ==> {
                        let p = #[trigger] pts@[q];
                        let o = m0.points@[q];
                        &&& p.x0 == o.x0
                        &&& p.z0 == o.z0
                        &&& p.x@ == o.x0@ + wave_fx_s(m0.g@, m0.particles@, m0.h@, o.z0@, o.x0@, t@)
                        &&& p.z@ == o.z0@ - wave_fz_s(m0.g@, m0.particles@, m0.h@, o.z0@, o.x0@, t@)
                        &&& iabs(p.x@) <= 0x10000000000
                        &&& iabs(p.z@) <= 0x10000000000
                    },
            decreases total - idx,
        {
            let o = self.points[idx];
            match wave_displace(self.g, &self.particles, self.h, o.z0, o.x0, t) {
                Some(d) => {
                    pts.push(Point { x: d.0, z: d.1, x0: o.x0, z0: o.z0 });
                },
                None => {
                    proof {
                        assert(!wave_step_fits(m0));
                    }
                    return Err(NumericalError::Overflow);
                },
            }
            idx = idx + 1;
        }
        proof {
            assert forall|q: int| 0 <= q < total implies {
                let o = #[trigger] m0.points@[q];
                &&& iabs(o.x0@ + wave_fx_s(m0.g@, m0.particles@, m0.h@, o.z0@, o.x0@, t@))
                    <= 0x10000000000
                &&& iabs(o.z0@ - wave_fz_s(m0.g@, m0.particles@, m0.h@, o.z0@, o.x0@, t@))
                    <= 0x10000000000
            } by {
                assert(pts@[q].x@ == m0.points@[q].x0@ + wave_fx_s(
                    m0.g@,
                    m0.particles@,
                    m0.h@,
                    m0.points@[q].z0@,
                    m0.points@[q].x0@,
                    t@,
                ));
            }
        }
        self.frame = nf;
        self.time = t;
        self.points = pts;
        Ok(())
    }
}

/// Everything one step computes stays within its range.
pub open spec fn wave_step_fits(m: WaveModel) -> bool {
    let t = (m.frame + 1) * m.dtime@;
    &&& m.frame < i32::MAX
    &&& t <= 0x80000000000
    &&& (forall|idx: int|
        0 <= idx < m.points@.len() ==> {
            let o = #[trigger] m.points@[idx];
            &&& iabs(o.x0@ + wave_fx_s(m.g@, m.particles@, m.h@, o.z0@, o.x0@, t))
                <= 0x10000000000
            &&& iabs(o.z0@ - wave_fz_s(m.g@, m.particles@, m.h@, o.z0@, o.x0@, t))
                <= 0x10000000000
        })
}

/// A positive grid extent divided into cells leaves a non-negative cell
/// width whose multiples stay inside the extent.
proof fn lemma_grid_step(extent: int, cells: int)
    requires
        extent >= 0,
        cells >= 1,
    ensures
        tdiv(extent, cells) >= 0,
        tdiv(extent, cells) * cells <= extent,
{
    lemma_tdiv_sign(extent, cells);
    vstd::arithmetic::div_mod::lemma_fundamental_div_mod(extent, cells);
    vstd::arithmetic::div_mod::lemma_mod_bound(extent, cells);
    assert(cells * (extent / cells) == (extent / cells) * cells) by (nonlinear_arith);
}

} // verus!
