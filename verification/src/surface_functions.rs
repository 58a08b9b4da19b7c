//! Initial water-surface shapes for the wave model, defined on the unit
//! interval and carrying about one unit of amplitude.
use crate::elementary::{cos_fx, cos_s, sin_fx, sin_s, PI_RAW, TWO_PI_RAW};
use crate::fixed::{fmul_s, fx_mul, iabs, lemma_fmul_mag, Fx, SCALE};
use vstd::prelude::*;

verus! {

/// Largest argument magnitude the surface functions accept.
pub const SURFACE_MAX_ARG: i64 = 1099511627776;

/// Magnitude bound of every surface function value on accepted arguments.
pub const SURFACE_BOUND: i64 = 1103806595072;

/// The four built-in surface shapes.
#[derive(Clone, Copy, PartialEq, Eq, Structural, Debug)]
pub enum SurfaceKind {
    /// A sloped line through the middle of the interval.
    Linear,
    /// One full sine period over the interval.
    Sine,
    /// One full cosine period over the interval.
    Cosine,
    /// Half a sine period, centered on the interval.
    HalfSine,
}

/// Raw value of a surface shape at a raw abscissa.
pub open spec fn surface_s(kind: SurfaceKind, x: int) -> int {
    match kind {
        SurfaceKind::Linear => x - (SCALE as int) / 2,
        SurfaceKind::Sine => sin_s(fmul_s(TWO_PI_RAW as int, x)),
        SurfaceKind::Cosine => cos_s(fmul_s(TWO_PI_RAW as int, x)),
        SurfaceKind::HalfSine => sin_s(fmul_s(PI_RAW as int, x + (SCALE as int) / 2)),
    }
}

/// The sloped-line surface.
pub fn linear_surface(x: Fx) -> (r: Fx)
    requires
        iabs(x@) <= SURFACE_MAX_ARG as int,
    ensures
        r@ == surface_s(SurfaceKind::Linear, x@),
        iabs(r@) <= SURFACE_BOUND as int,
{
    Fx { raw: x.raw - SCALE / 2 }
}

/// The full-period sine surface.
pub fn sine_surface(x: Fx) -> (r: Fx)
    requires
        iabs(x@) <= SURFACE_MAX_ARG as int,
    ensures
        r@ == surface_s(SurfaceKind::Sine, x@),
        iabs(r@) <= SURFACE_BOUND as int,
{
    proof {
        lemma_fmul_mag(TWO_PI_RAW as int, x@, TWO_PI_RAW as int, SURFACE_MAX_ARG as int);
    }
    sin_fx(fx_mul(Fx { raw: TWO_PI_RAW }, x))
}

/// The full-period cosine surface.
pub fn cosine_surface(x: Fx) -> (r: Fx)
    requires
        iabs(x@) <= SURFACE_MAX_ARG as int,
    ensures
        r@ == surface_s(SurfaceKind::Cosine, x@),
        iabs(r@) <= SURFACE_BOUND as int,
{
    proof {
        lemma_fmul_mag(TWO_PI_RAW as int, x@, TWO_PI_RAW as int, SURFACE_MAX_ARG as int);
    }
    cos_fx(fx_mul(Fx { raw: TWO_PI_RAW }, x))
}

/// The half-period sine surface.
pub fn halfsine_surface(x: Fx) -> (r: Fx)
    requires
        iabs(x@) <= SURFACE_MAX_ARG as int,
    ensures
        r@ == surface_s(SurfaceKind::HalfSine, x@),
        iabs(r@) <= SURFACE_BOUND as int,
{
    proof {
        lemma_fmul_mag(
            PI_RAW as int,
            x@ + (SCALE as int) / 2,
            PI_RAW as int,
            SURFACE_MAX_ARG as int + (SCALE as int) / 2,
        );
    }
    sin_fx(fx_mul(Fx { raw: PI_RAW }, Fx { raw: x.raw + SCALE / 2 }))
}

/// Evaluate a surface shape chosen by its kind.
pub fn surface_eval(kind: SurfaceKind, x: Fx) -> (r: Fx)
    requires
        iabs(x@) <= SURFACE_MAX_ARG as int,
    ensures
        r@ == surface_s(kind, x@),
        iabs(r@) <= SURFACE_BOUND as int,
{
    match kind {
        SurfaceKind::Linear => linear_surface(x),
        SurfaceKind::Sine => sine_surface(x),
        SurfaceKind::Cosine => cosine_surface(x),
        SurfaceKind::HalfSine => halfsine_surface(x),
    }
}

} // verus!
