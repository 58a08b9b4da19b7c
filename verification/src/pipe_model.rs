//! Waves in a medium-filled pipe: velocity and pressure carried on a
//! staggered grid and advanced by the method of characteristics — midpoint
//! values from neighbouring cells, tip values from the boundary conditions,
//! then one transport update per cell.
use crate::fixed::{
    fdiv_s, fmul_s, fx_div, fx_mul, iabs, lemma_fdiv_mag, lemma_fmul_mag, lemma_fmul_nonneg,
    lemma_mul_mag, lemma_tdiv_mag, lemma_tdiv_sign, tdiv, tdiv_i128, Fx, SCALE,
};
use crate::NumericalError;
use vstd::prelude::*;

verus! {

/// Magnitude bound every velocity and pressure sample respects.
pub const PIPE_LIMIT: i64 = 1099511627776;

/// Magnitude bound of the elapsed simulation time.
pub const PIPE_TIME_LIMIT: i64 = 1125899906842624;

/// Least pipe length: one sixteenth.
pub const PIPE_LEN_MIN: i64 = 268435456;

/// Greatest pipe length: sixty-four.
pub const PIPE_LEN_MAX: i64 = 274877906944;

/// Greatest cell count.
pub const PIPE_N_MAX: usize = 10000;

/// Least density and sound speed: one sixty-fourth.
pub const PIPE_COEF_MIN: i64 = 67108864;

/// Greatest density and sound speed: sixty-four.
pub const PIPE_COEF_MAX: i64 = 274877906944;

/// A boundary condition `b u + c p = 0` at a pipe tip.
#[derive(Clone, Copy, PartialEq, Eq, Structural, Debug)]
pub struct BoundaryCondition {
    /// Weight of the velocity at the tip.
    pub b: Fx,
    /// Weight of the pressure at the tip.
    pub c: Fx,
}

/// A sealed tip: the velocity vanishes.
pub fn boundary_sealed() -> (r: BoundaryCondition)
    ensures
        r.b@ == 0 && r.c@ == SCALE as int,
{
    BoundaryCondition { b: Fx { raw: 0 }, c: Fx { raw: SCALE } }
}

/// An open tip: the pressure vanishes.
pub fn boundary_open() -> (r: BoundaryCondition)
    ensures
        r.b@ == SCALE as int && r.c@ == 0,
{
    BoundaryCondition { b: Fx { raw: SCALE }, c: Fx { raw: 0 } }
}

/// The built-in initial profiles over the unit interval, the shapes a
/// selector row offers.
#[derive(Clone, Copy, PartialEq, Eq, Structural, Debug)]
pub enum InitialShape {
    /// Zero everywhere.
    Flat,
    /// One on the outer thirds, zero in the middle.
    EdgesHigh,
    /// One on the left third, zero elsewhere.
    LeftHigh,
    /// One on the middle third, zero elsewhere.
    MiddleHigh,
    /// One on the right third, zero elsewhere.
    RightHigh,
    /// Minus one on the left half, one on the right.
    StepUp,
    /// One on the left half, minus one on the right.
    StepDown,
}

/// Raw profile value at a raw abscissa normalised to the unit interval.
pub open spec fn initial_shape_s(s: InitialShape, x: int) -> int {
    match s {
        InitialShape::Flat => 0,
        InitialShape::EdgesHigh => if 3 * x < SCALE as int || 3 * x > 2 * (SCALE as int) {
            SCALE as int
        } else {
            0
        },
        InitialShape::LeftHigh => if 3 * x < SCALE as int {
            SCALE as int
        } else {
            0
        },
        InitialShape::MiddleHigh => if 3 * x > SCALE as int && 3 * x < 2 * (SCALE as int) {
            SCALE as int
        } else {
            0
        },
        InitialShape::RightHigh => if 3 * x > 2 * (SCALE as int) {
            SCALE as int
        } else {
            0
        },
        InitialShape::StepUp => if 2 * x < SCALE as int {
            -(SCALE as int)
        } else {
            SCALE as int
        },
        InitialShape::StepDown => if 2 * x < SCALE as int {
            SCALE as int
        } else {
            -(SCALE as int)
        },
    }
}

/// Evaluate an initial profile.
pub fn initial_shape(s: InitialShape, x: Fx) -> (r: Fx)
    requires
        iabs(x@) <= 2 * (SCALE as int),
    ensures
        r@ == initial_shape_s(s, x@),
        iabs(r@) <= SCALE as int,
{
    match s {
        InitialShape::Flat => Fx { raw: 0 },
        InitialShape::EdgesHigh => if 3 * x.raw < SCALE || 3 * x.raw > 2 * SCALE {
            Fx { raw: SCALE }
        } else {
            Fx { raw: 0 }
        },
        InitialShape::LeftHigh => if 3 * x.raw < SCALE {
            Fx { raw: SCALE }
        } else {
            Fx { raw: 0 }
        },
        InitialShape::MiddleHigh => if 3 * x.raw > SCALE && 3 * x.raw < 2 * SCALE {
            Fx { raw: SCALE }
        } else {
            Fx { raw: 0 }
        },
        InitialShape::RightHigh => if 3 * x.raw > 2 * SCALE {
            Fx { raw: SCALE }
        } else {
            Fx { raw: 0 }
        },
        InitialShape::StepUp => if 2 * x.raw < SCALE {
            Fx { raw: -SCALE }
        } else {
            Fx { raw: SCALE }
        },
        InitialShape::StepDown => if 2 * x.raw < SCALE {
            Fx { raw: SCALE }
        } else {
            Fx { raw: -SCALE }
        },
    }
}

/// Model of a wave-carrying pipe: `n` cells of velocity and pressure
/// samples, and the derived grid constants.
pub struct PipeModel {
    /// Elapsed simulation time.
    pub time: Fx,
    /// Pipe length.
    pub len: Fx,
    /// Number of cells.
    pub n: usize,
    /// Courant number: the fraction of a cell a wave crosses per step.
    pub sigma: Fx,
    /// Speed of sound in the medium.
    pub a: Fx,
    /// Density of the medium.
    pub rho: Fx,
    /// Acoustic impedance: density times sound speed.
    pub rho_a: Fx,
    /// Cell width.
    pub h: Fx,
    /// Half cell width.
    pub h2: Fx,
    /// Time delta of one step.
    pub tau: Fx,
    /// Time delta over cell width.
    pub tau_h: Fx,
    /// Boundary condition at the left tip.
    pub bl: BoundaryCondition,
    /// Boundary condition at the right tip.
    pub br: BoundaryCondition,
    /// Grid node abscissas.
    pub x: Vec<Fx>,
    /// Cell midpoint abscissas.
    pub x2: Vec<Fx>,
    /// Cell velocities.
    pub u1: Vec<Fx>,
    /// Cell pressures.
    pub p1: Vec<Fx>,
    /// Node velocities of the current step.
    pub u: Vec<Fx>,
    /// Node pressures of the current step.
    pub p: Vec<Fx>,
    /// Profile the velocities start from.
    pub un_shape: InitialShape,
    /// Profile the pressures start from.
    pub pn_shape: InitialShape,
}

/// The user-settable fields lie in the ranges `reset` accepts.
pub open spec fn pipe_params_ok(m: PipeModel) -> bool {
    &&& 1 <= m.n <= PIPE_N_MAX
    &&& PIPE_LEN_MIN as int <= m.len@ <= PIPE_LEN_MAX as int
    &&& 1 <= m.sigma@ <= SCALE as int
    &&& PIPE_COEF_MIN as int <= m.a@ <= PIPE_COEF_MAX as int
    &&& PIPE_COEF_MIN as int <= m.rho@ <= PIPE_COEF_MAX as int
    &&& iabs(m.bl.b@) <= SCALE as int && iabs(m.bl.c@) <= SCALE as int
    &&& iabs(m.br.b@) <= SCALE as int && iabs(m.br.c@) <= SCALE as int
}

/// Raw signal at the left tip: `u - p / (rho a)` of the first cell.
pub open spec fn pipe_yl_s(m: PipeModel) -> int {
    m.u1@[0]@ - fdiv_s(m.p1@[0]@, m.rho_a@)
}

/// Raw left-tip system determinant: `b + c / (rho a)`.
pub open spec fn pipe_dl_s(m: PipeModel) -> int {
    m.bl.b@ + fdiv_s(m.bl.c@, m.rho_a@)
}

/// Raw signal at the right tip: `u + p / (rho a)` of the last cell.
pub open spec fn pipe_yr_s(m: PipeModel) -> int {
    m.u1@[m.n - 1]@ + fdiv_s(m.p1@[m.n - 1]@, m.rho_a@)
}

/// Raw right-tip system determinant: `b - c / (rho a)`.
pub open spec fn pipe_dr_s(m: PipeModel) -> int {
    m.br.b@ - fdiv_s(m.br.c@, m.rho_a@)
}

/// Raw node velocity after the characteristics pass: tips from the
/// boundary systems, interior nodes from neighbouring cell averages.
pub open spec fn pipe_u_new_s(m: PipeModel, i: int) -> int {
    if i == 0 {
        fdiv_s(fmul_s(pipe_yl_s(m), m.bl.b@), pipe_dl_s(m))
    } else if i == m.n {
        fdiv_s(fmul_s(pipe_yr_s(m), m.br.b@), pipe_dr_s(m))
    } else {
        tdiv((m.u1@[i]@ + m.u1@[i - 1]@) - fdiv_s(m.p1@[i]@ - m.p1@[i - 1]@, m.rho_a@), 2)
    }
}

/// Raw node pressure after the characteristics pass.
pub open spec fn pipe_p_new_s(m: PipeModel, i: int) -> int {
    if i == 0 {
        -fdiv_s(fmul_s(pipe_yl_s(m), m.bl.c@), pipe_dl_s(m))
    } else if i == m.n {
        -fdiv_s(fmul_s(pipe_yr_s(m), m.br.c@), pipe_dr_s(m))
    } else {
        tdiv((m.p1@[i]@ + m.p1@[i - 1]@) - fmul_s(m.u1@[i]@ - m.u1@[i - 1]@, m.rho_a@), 2)
    }
}

/// Raw cell velocity after the transport update:
/// `u - (p[i+1] - p[i]) tau_h / rho` over the new node pressures.
pub open spec fn pipe_u1_next_s(m: PipeModel, i: int) -> int {
    m.u1@[i]@ - fdiv_s(fmul_s(pipe_p_new_s(m, i + 1) - pipe_p_new_s(m, i), m.tau_h@), m.rho@)
}

/// Raw cell pressure after the transport update:
/// `p - (u[i+1] - u[i]) rho a tau_h a` over the new node velocities.
pub open spec fn pipe_p1_next_s(m: PipeModel, i: int) -> int {
    m.p1@[i]@ - fmul_s(
        fmul_s(fmul_s(pipe_u_new_s(m, i + 1) - pipe_u_new_s(m, i), m.rho_a@), m.tau_h@),
        m.a@,
    )
}

/// Every node and cell value one step computes stays within the sample
/// bound, and the advanced time within its own.
pub open spec fn pipe_step_fits(m: PipeModel) -> bool {
    &&& iabs(m.time@ + m.tau@) <= PIPE_TIME_LIMIT as int
    &&& (forall|i: int|
        0 <= i <= m.n ==> iabs(#[trigger] pipe_u_new_s(m, i)) <= PIPE_LIMIT as int)
    &&& (forall|i: int|
        0 <= i <= m.n ==> iabs(#[trigger] pipe_p_new_s(m, i)) <= PIPE_LIMIT as int)
    &&& (forall|i: int|
        0 <= i < m.n ==> iabs(#[trigger] pipe_u1_next_s(m, i)) <= PIPE_LIMIT as int)
    &&& (forall|i: int|
        0 <= i < m.n ==> iabs(#[trigger] pipe_p1_next_s(m, i)) <= PIPE_LIMIT as int)
}

/// Fixed-point product over wide intermediates.
fn fmul128(a: i128, b: i128) -> (r: i128)
    requires
        iabs(a as int) <= 0x4000000000000000,
        iabs(b as int) <= 0x4000000000000000,
    ensures
        r as int == fmul_s(a as int, b as int),
{
    proof {
        lemma_mul_mag(a as int, b as int, 0x4000000000000000, 0x4000000000000000);
        lemma_tdiv_mag(
            (a as int) * (b as int),
            SCALE as int,
            0x4000000000000000int * 0x4000000000000000,
            SCALE as int,
        );
    }
    tdiv_i128(a * b, SCALE as i128)
}

/// Fixed-point quotient over wide intermediates.
fn fdiv128(a: i128, b: i128) -> (r: i128)
    requires
        b != 0,
        iabs(a as int) <= 0x4000000000000000,
        iabs(b as int) < 0x80000000000000000000000000000000,
    ensures
        r as int == fdiv_s(a as int, b as int),
{
    proof {
        lemma_mul_mag(a as int, SCALE as int, 0x4000000000000000, SCALE as int);
    }
    tdiv_i128(a * (SCALE as i128), b)
}

impl PipeModel {
    /// The grid and the derived constants are consistent and every sample
    /// bounded: what one step needs and reestablishes.
    pub open spec fn gridded(self) -> bool {
        &&& pipe_params_ok(self)
        &&& 1048576 <= self.rho_a@ <= 17592186044416
        &&& 1 <= self.h@ <= PIPE_LEN_MAX as int
        &&& 0 <= self.tau@ <= 17592186044416
        &&& 0 <= self.tau_h@ <= 274877906944
        &&& self.u1@.len() == self.n && self.p1@.len() == self.n
        &&& self.u@.len() == self.n + 1 && self.p@.len() == self.n + 1
        &&& (forall|i: int|
            0 <= i < self.n ==> iabs(#[trigger] self.u1@[i]@) <= PIPE_LIMIT as int)
        &&& (forall|i: int|
            0 <= i < self.n ==> iabs(#[trigger] self.p1@[i]@) <= PIPE_LIMIT as int)
        &&& 0 <= self.time@ <= PIPE_TIME_LIMIT as int
    }

    /// A pipe of the given length and cell count, with unit sound speed
    /// and density, a Courant number of a tenth, sealed tips, a flat
    /// velocity profile and pressure high on the left third.  The grid
    /// itself is laid out by `reset`.
    pub fn new(len: Fx, n: usize) -> (r: PipeModel)
        requires
            PIPE_LEN_MIN as int <= len@ <= PIPE_LEN_MAX as int,
            1 <= n <= PIPE_N_MAX,
        ensures
            pipe_params_ok(r),
            r.len == len && r.n == n,
            r.sigma@ == fdiv_s(1, 10),
            r.time@ == 0,
            r.a@ == SCALE as int && r.rho@ == SCALE as int,
            r.un_shape == InitialShape::Flat,
            r.pn_shape == InitialShape::LeftHigh,
            r.bl.b@ == 0 && r.bl.c@ == SCALE as int,
            r.br.b@ == 0 && r.br.c@ == SCALE as int,
            r.x@.len() == 0 && r.x2@.len() == 0,
            r.u1@.len() == 0 && r.p1@.len() == 0,
            r.u@.len() == 0 && r.p@.len() == 0,
            r.rho_a@ == 0 && r.h@ == 0 && r.h2@ == 0,
            r.tau@ == 0 && r.tau_h@ == 0,
    {
        proof {
            assert(4294967296int / 10 == 429496729int);
            assert(fdiv_s(1, 10) == 429496729);
        }
        PipeModel {
            time: Fx::zero(),
            len,
            n,
            sigma: Fx::from_ratio(1, 10),
            a: Fx::one(),
            rho: Fx::one(),
            rho_a: Fx::zero(),
            h: Fx::zero(),
            h2: Fx::zero(),
            tau: Fx::zero(),
            tau_h: Fx::zero(),
            bl: boundary_sealed(),
            br: boundary_sealed(),
            x: Vec::new(),
            x2: Vec::new(),
            u1: Vec::new(),
            p1: Vec::new(),
            u: Vec::new(),
            p: Vec::new(),
            un_shape: InitialShape::Flat,
            pn_shape: InitialShape::LeftHigh,
        }
    }

    /// Choose the profile the velocities start from at the next reset.
    pub fn set_initial_u(&mut self, shape: InitialShape)
        ensures
            *final(self) == (PipeModel { un_shape: shape, ..*old(self) }),
    {
        self.un_shape = shape;
    }

    /// Choose the profile the pressures start from at the next reset.
    pub fn set_initial_p(&mut self, shape: InitialShape)
        ensures
            *final(self) == (PipeModel { pn_shape: shape, ..*old(self) }),
    {
        self.pn_shape = shape;
    }

    /// Lay out the grid from the current coefficients and fill the cells
    /// from the chosen profiles.  Fails with `InvalidParameterValue`, and
    /// changes nothing, exactly when a coefficient is out of range.
    pub fn reset(&mut self) -> (r: Result<(), NumericalError>)
        ensures
            match r {
                Ok(()) => {
                    &&& pipe_params_ok(*old(self))
                    &&& final(self).gridded()
                    &&& final(self).time@ == 0
                    &&& final(self).n == old(self).n && final(self).len == old(self).len
                    &&& final(self).sigma == old(self).sigma && final(self).a == old(
                        self,
                    ).a && final(self).rho == old(self).rho
                    &&& final(self).bl == old(self).bl && final(self).br == old(self).br
                    &&& final(self).un_shape == old(self).un_shape && final(self).pn_shape
                        == old(self).pn_shape
                    &&& final(self).h@ == tdiv(old(self).len@, old(self).n as int)
                    &&& final(self).h2@ == tdiv(final(self).h@, 2)
                    &&& final(self).rho_a@ == fmul_s(old(self).rho@, old(self).a@)
                    &&& final(self).tau@ == fdiv_s(
                        fmul_s(old(self).sigma@, final(self).h@),
                        old(self).a@,
                    )
                    &&& final(self).tau_h@ == fdiv_s(old(self).sigma@, old(self).a@)
                    &&& final(self).x@.len() == old(self).n + 1
                    &&& (forall|i: int|
                        0 <= i <= old(self).n ==> (#[trigger] final(self).x@[i])@ == tdiv(
                            old(self).len@,
                            old(self).n as int,
                        ) * i)
                    &&& final(self).x2@.len() == old(self).n
                    &&& (forall|i: int|
                        0 <= i < old(self).n ==> (#[trigger] final(self).x2@[i])@ == tdiv(
                            old(self).len@,
                            old(self).n as int,
                        ) * i + tdiv(final(self).h@, 2))
                    &&& (forall|i: int|
                        0 <= i < old(self).n ==> (#[trigger] final(self).u1@[i])@
                            == initial_shape_s(
                            old(self).un_shape,
                            fdiv_s(final(self).x2@[i]@, old(self).len@),
                        ))
                    &&& (forall|i: int|
                        0 <= i < old(self).n ==> (#[trigger] final(self).p1@[i])@
                            == initial_shape_s(
                            old(self).pn_shape,
                            fdiv_s(final(self).x2@[i]@, old(self).len@),
                        ))
                    &&& (forall|i: int|
                        0 <= i <= old(self).n ==> (#[trigger] final(self).u@[i])@ == 0)
                    &&& (forall|i: int|
                        0 <= i <= old(self).n ==> (#[trigger] final(self).p@[i])@ == 0)
                },
                Err(e) => {
                    &&& e == NumericalError::InvalidParameterValue
                    &&& *final(self) == *old(self)
                    &&& !pipe_params_ok(*old(self))
                },
            },
    {
        if self.n < 1 || self.n > PIPE_N_MAX || self.len.raw < PIPE_LEN_MIN || self.len.raw
            > PIPE_LEN_MAX || self.sigma.raw < 1 || self.sigma.raw > SCALE || self.a.raw
            < PIPE_COEF_MIN || self.a.raw > PIPE_COEF_MAX || self.rho.raw < PIPE_COEF_MIN
            || self.rho.raw > PIPE_COEF_MAX || self.bl.b.raw > SCALE || self.bl.b.raw
            < -SCALE || self.bl.c.raw > SCALE || self.bl.c.raw < -SCALE || self.br.b.raw
            > SCALE || self.br.b.raw < -SCALE || self.br.c.raw > SCALE || self.br.c.raw
            < -SCALE {
            return Err(NumericalError::InvalidParameterValue);
        }
        let n = self.n;
        let nl: i64 = n as i64;
        proof {
            lemma_tdiv_sign(self.len@, nl as int);
            lemma_tdiv_mag(self.len@, nl as int, PIPE_LEN_MAX as int, 1);
        }
        let h: i64 = tdiv_i128(self.len.raw as i128, nl as i128) as i64;
        proof {
            lemma_hi_times_n(self.len@, nl as int);
        }
        let h2: i64 = tdiv_i128(h as i128, 2) as i64;
        proof {
            lemma_tdiv_sign(h as int, 2);
            lemma_fmul_mag(self.rho@, self.a@, PIPE_COEF_MAX as int, PIPE_COEF_MAX as int);
            lemma_rho_a_low(self.rho@, self.a@);
            lemma_fmul_mag(self.sigma@, h as int, SCALE as int, PIPE_LEN_MAX as int);
            lemma_fdiv_mag(
                fmul_s(self.sigma@, h as int),
                self.a@,
                PIPE_LEN_MAX as int,
                PIPE_COEF_MIN as int,
            );
            lemma_tdiv_sign(fmul_s(self.sigma@, h as int) * (SCALE as int), self.a@);
            lemma_fmul_nonneg(self.sigma@, h as int);
            lemma_fdiv_mag(self.sigma@, self.a@, SCALE as int, PIPE_COEF_MIN as int);
            lemma_tdiv_sign(self.sigma@ * (SCALE as int), self.a@);
            assert(self.sigma@ * (SCALE as int) >= 0) by (nonlinear_arith)
                requires
                    self.sigma@ >= 1,
                    SCALE == 4294967296,
            ;
        }
        let rho_a = fx_mul(self.rho, self.a);
        let tau = fx_div(fx_mul(self.sigma, Fx { raw: h }), self.a);
        let tau_h = fx_div(self.sigma, self.a);
        let mut xs: Vec<Fx> = Vec::new();
        let mut i: usize = 0;
        proof {
            lemma_hi_times_n(self.len@, nl as int);
        }
        while i <= n
            invariant
                0 <= i <= n + 1,
                n == self.n,
                1 <= n <= PIPE_N_MAX,
                h as int == tdiv(self.len@, n as int),
                1 <= h,
                (h as int) * (n as int) <= self.len@ <= PIPE_LEN_MAX as int,
                xs@.len() == i,
                forall|j: int| 0 <= j < i ==> (#[trigger] xs@[j])@ == (h as int) * j,
            decreases n + 1 - i,
        {
            proof {
                assert(0 <= (h as int) * (i as int) <= (h as int) * (n as int))
                    by (nonlinear_arith)
                    requires
                        1 <= h,
                        0 <= i <= n,
                ;
            }
            xs.push(Fx { raw: h * (i as i64) });
            i = i + 1;
        }
        let mut x2s: Vec<Fx> = Vec::new();
        let mut u1s: Vec<Fx> = Vec::new();
        let mut p1s: Vec<Fx> = Vec::new();
        let mut zu: Vec<Fx> = Vec::new();
        let mut zp: Vec<Fx> = Vec::new();
        let mut i2: usize = 0;
        while i2 < n
            invariant
                0 <= i2 <= n,
                n == self.n,
                1 <= n <= PIPE_N_MAX,
                h as int == tdiv(self.len@, n as int),
                1 <= h,
                h2 as int == tdiv(h as int, 2),
                0 <= h2 <= h,
                (h as int) * (n as int) <= self.len@ <= PIPE_LEN_MAX as int,
                PIPE_LEN_MIN as int <= self.len@,
                x2s@.len() == i2 && u1s@.len() == i2 && p1s@.len() == i2,
                forall|j: int|
                    0 <= j < i2 ==> (#[trigger] x2s@[j])@ == (h as int) * j + h2 as int,
                forall|j: int|
                    0 <= j < i2 ==> (#[trigger] u1s@[j])@ == initial_shape_s(
                        self.un_shape,
                        fdiv_s((h as int) * j + h2 as int, self.len@),
                    ),
                forall|j: int|
                    0 <= j < i2 ==> (#[trigger] p1s@[j])@ == initial_shape_s(
                        self.pn_shape,
                        fdiv_s((h as int) * j + h2 as int, self.len@),
                    ),
                forall|j: int| 0 <= j < i2 ==> iabs((#[trigger] u1s@[j])@) <= SCALE as int,
                forall|j: int| 0 <= j < i2 ==> iabs((#[trigger] p1s@[j])@) <= SCALE as int,
            decreases n - i2,
        {
            proof {
                assert(0 <= (h as int) * (i2 as int) && (h as int) * ((i2 as int) + 1)
                    <= (h as int) * (n as int)) by (nonlinear_arith)
                    requires
                        1 <= h,
                        0 <= i2 < n,
                ;
                assert((h as int) * ((i2 as int) + 1) == (h as int) * (i2 as int)
                    + h as int) by (nonlinear_arith);
                lemma_tdiv_mag(
                    ((h as int) * (i2 as int) + h2 as int) * (SCALE as int),
                    self.len@,
                    self.len@ * (SCALE as int),
                    self.len@,
                );
                assert(iabs(((h as int) * (i2 as int) + h2 as int) * (SCALE as int))
                    <= self.len@ * (SCALE as int)) by (nonlinear_arith)
                    requires
                        0 <= (h as int) * (i2 as int) + h2 as int <= self.len@,
                        SCALE == 4294967296,
                ;
                let q = fdiv_s((h as int) * (i2 as int) + h2 as int, self.len@);
                assert(iabs(q) <= 2 * (SCALE as int)) by (nonlinear_arith)
                    requires
                        iabs(q) * self.len@ <= self.len@ * (SCALE as int),
                        self.len@ >= 1,
                ;
                lemma_tdiv_sign(
                    ((h as int) * (i2 as int) + h2 as int) * (SCALE as int),
                    self.len@,
                );
            }
            let xm = Fx { raw: h * (i2 as i64) + h2 };
            let arg = Fx { raw: tdiv_i128((xm.raw as i128) * (SCALE as i128), self.len.raw as i128) as i64 };
            x2s.push(xm);
            u1s.push(initial_shape(self.un_shape, arg));
            p1s.push(initial_shape(self.pn_shape, arg));
            i2 = i2 + 1;
        }
        let mut i3: usize = 0;
        while i3 <= n
            invariant
                0 <= i3 <= n + 1,
                n <= PIPE_N_MAX,
                zu@.len() == i3 && zp@.len() == i3,
                forall|j: int| 0 <= j < i3 ==> (#[trigger] zu@[j])@ == 0,
                forall|j: int| 0 <= j < i3 ==> (#[trigger] zp@[j])@ == 0,
            decreases n + 1 - i3,
        {
            zu.push(Fx { raw: 0 });
            zp.push(Fx { raw: 0 });
            i3 = i3 + 1;
        }
        self.time = Fx::zero();
        self.rho_a = rho_a;
        self.h = Fx { raw: h };
        self.h2 = Fx { raw: h2 };
        self.tau = tau;
        self.tau_h = tau_h;
        self.x = xs;
        self.x2 = x2s;
        self.u1 = u1s;
        self.p1 = p1s;
        self.u = zu;
        self.p = zp;
        Ok(())
    }
}

impl PipeModel {
    /// Advance velocities and pressures by one time delta: node values by
    /// the method of characteristics — tips from the boundary systems,
    /// interior nodes from neighbouring cells — then one transport update
    /// per cell.  Fails with `SingularDerivative`, changing nothing, when
    /// a boundary system's determinant vanishes, and with `Overflow` when
    /// a computed sample or the time leaves its range.
    pub fn step(&mut self) -> (r: Result<(), NumericalError>)
        requires
            old(self).gridded(),
        ensures
            final(self).gridded(),
            match r {
                Ok(()) => {
                    &&& pipe_dl_s(*old(self)) != 0 && pipe_dr_s(*old(self)) != 0
                    &&& pipe_step_fits(*old(self))
                    &&& final(self).time@ == old(self).time@ + old(self).tau@
                    &&& (forall|i: int|
                        0 <= i <= old(self).n ==> (#[trigger] final(self).u@[i])@
                            == pipe_u_new_s(*old(self), i))
                    &&& (forall|i: int|
                        0 <= i <= old(self).n ==> (#[trigger] final(self).p@[i])@
                            == pipe_p_new_s(*old(self), i))
                    &&& (forall|i: int|
                        0 <= i < old(self).n ==> (#[trigger] final(self).u1@[i])@
                            == pipe_u1_next_s(*old(self), i))
                    &&& (forall|i: int|
                        0 <= i < old(self).n ==> (#[trigger] final(self).p1@[i])@
                            == pipe_p1_next_s(*old(self), i))
                    &&& final(self).n == old(self).n && final(self).len == old(self).len
                    &&& final(self).h == old(self).h && final(self).tau == old(self).tau
                    &&& final(self).tau_h == old(self).tau_h && final(self).rho_a == old(
                        self,
                    ).rho_a
                    &&& final(self).x == old(self).x && final(self).x2 == old(self).x2
                },
                Err(e) => {
                    &&& *final(self) == *old(self)
                    &&& (e == NumericalError::SingularDerivative && (pipe_dl_s(*old(self))
                        == 0 || pipe_dr_s(*old(self)) == 0)) || (e == NumericalError::Overflow
                        && pipe_dl_s(*old(self)) != 0 && pipe_dr_s(*old(self)) != 0
                        && !pipe_step_fits(*old(self)))
                },
            },
    {
        let ghost m0 = *self;
        let n = self.n;
        let ra: i128 = self.rho_a.raw as i128;
        proof {
            lemma_fdiv_mag(self.p1@[0]@, ra as int, PIPE_LIMIT as int, 1048576);
            lemma_fdiv_mag(self.bl.c@, ra as int, SCALE as int, 1048576);
            lemma_fdiv_mag(self.p1@[n - 1]@, ra as int, PIPE_LIMIT as int, 1048576);
            lemma_fdiv_mag(self.br.c@, ra as int, SCALE as int, 1048576);
        }
        let yl: i128 = (self.u1[0].raw as i128) - fdiv128(self.p1[0].raw as i128, ra);
        let dl: i128 = (self.bl.b.raw as i128) + fdiv128(self.bl.c.raw as i128, ra);
        let yr: i128 = (self.u1[n - 1].raw as i128) + fdiv128(
            self.p1[n - 1].raw as i128,
            ra,
        );
        let dr: i128 = (self.br.b.raw as i128) - fdiv128(self.br.c.raw as i128, ra);
        if dl == 0 || dr == 0 {
            return Err(NumericalError::SingularDerivative);
        }
        proof {
            assert(iabs(self.u1@[0]@) <= 1099511627776);
            assert((1099511627776int * 4294967296) / 1048576 == 4503599627370496int)
                by (nonlinear_arith);
            assert(iabs(fdiv_s(self.p1@[0]@, ra as int)) <= 4503599627370496);
            assert(yl as int == self.u1@[0]@ - fdiv_s(self.p1@[0]@, ra as int));
            assert(iabs(yl as int) <= 4504699138998272);
            lemma_fmul_mag(yl as int, self.bl.b@, 4504699138998272, SCALE as int);
            lemma_fmul_mag(yl as int, self.bl.c@, 4504699138998272, SCALE as int);
            assert(iabs(self.u1@[n - 1]@) <= 1099511627776);
            assert(iabs(fdiv_s(self.p1@[n - 1]@, ra as int)) <= 4503599627370496);
            assert(yr as int == self.u1@[n - 1]@ + fdiv_s(self.p1@[n - 1]@, ra as int));
            assert(iabs(yr as int) <= 4504699138998272);
            lemma_fmul_mag(yr as int, self.br.b@, 4504699138998272, SCALE as int);
            lemma_fmul_mag(yr as int, self.br.c@, 4504699138998272, SCALE as int);
        }
        let u0: i128 = fdiv128(fmul128(yl, self.bl.b.raw as i128), dl);
        let p0: i128 = -fdiv128(fmul128(yl, self.bl.c.raw as i128), dl);
        let un_tip: i128 = fdiv128(fmul128(yr, self.br.b.raw as i128), dr);
        let pn_tip: i128 = -fdiv128(fmul128(yr, self.br.c.raw as i128), dr);
        proof {
            assert(u0 as int == pipe_u_new_s(m0, 0));
            assert(p0 as int == pipe_p_new_s(m0, 0));
            assert(un_tip as int == pipe_u_new_s(m0, m0.n as int));
            assert(pn_tip as int == pipe_p_new_s(m0, m0.n as int));
        }
        if u0 > PIPE_LIMIT as i128 || u0 < -(PIPE_LIMIT as i128) || p0 > PIPE_LIMIT as i128
            || p0 < -(PIPE_LIMIT as i128) || un_tip > PIPE_LIMIT as i128 || un_tip < -(
        PIPE_LIMIT as i128) || pn_tip > PIPE_LIMIT as i128 || pn_tip < -(
        PIPE_LIMIT as i128) {
            proof {
                assert(!pipe_step_fits(m0));
            }
            return Err(NumericalError::Overflow);
        }
        let tn: i128 = (self.time.raw as i128) + (self.tau.raw as i128);
        if tn > PIPE_TIME_LIMIT as i128 {
            return Err(NumericalError::Overflow);
        }
        let mut nu: Vec<Fx> = Vec::new();
        let mut np: Vec<Fx> = Vec::new();
        nu.push(Fx { raw: u0 as i64 });
        np.push(Fx { raw: p0 as i64 });
        let mut i: usize = 1;
        while i < n
            invariant
                1 <= i <= n,
                *self == m0,
                m0 == *old(self),
                pipe_dl_s(m0) != 0,
                pipe_dr_s(m0) != 0,
                m0.gridded(),
                n == m0.n,
                ra as int == m0.rho_a@,
                nu@.len() == i && np@.len() == i,
                forall|j: int|
                    0 <= j < i ==> (#[trigger] nu@[j])@ == pipe_u_new_s(m0, j) && iabs(
                        nu@[j]@,
                    ) <= PIPE_LIMIT as int,
                forall|j: int|
                    0 <= j < i ==> (#[trigger] np@[j])@ == pipe_p_new_s(m0, j) && iabs(
                        np@[j]@,
                    ) <= PIPE_LIMIT as int,
            decreases n - i,
        {
            proof {
                lemma_fdiv_mag(
                    self.p1@[i as int]@ - self.p1@[i - 1]@,
                    ra as int,
                    2 * (PIPE_LIMIT as int),
                    1048576,
                );
                lemma_fmul_mag(
                    self.u1@[i as int]@ - self.u1@[i - 1]@,
                    ra as int,
                    2 * (PIPE_LIMIT as int),
                    17592186044416,
                );
                lemma_tdiv_mag(
                    (self.u1@[i as int]@ + self.u1@[i - 1]@) - fdiv_s(
                        self.p1@[i as int]@ - self.p1@[i - 1]@,
                        ra as int,
                    ),
                    2,
                    0x40000000000000000,
                    1,
                );
                lemma_tdiv_mag(
                    (self.p1@[i as int]@ + self.p1@[i - 1]@) - fmul_s(
                        self.u1@[i as int]@ - self.u1@[i - 1]@,
                        ra as int,
                    ),
                    2,
                    0x40000000000000000,
                    1,
                );
            }
            let du_sum: i128 = (self.u1[i].raw as i128) + (self.u1[i - 1].raw as i128);
            let dp: i128 = (self.p1[i].raw as i128) - (self.p1[i - 1].raw as i128);
            let um: i128 = tdiv_i128(du_sum - fdiv128(dp, ra), 2);
            let dp_sum: i128 = (self.p1[i].raw as i128) + (self.p1[i - 1].raw as i128);
            let du: i128 = (self.u1[i].raw as i128) - (self.u1[i - 1].raw as i128);
            let pm: i128 = tdiv_i128(dp_sum - fmul128(du, ra), 2);
            proof {
                assert(um as int == pipe_u_new_s(m0, i as int));
                assert(pm as int == pipe_p_new_s(m0, i as int));
            }
            if um > PIPE_LIMIT as i128 || um < -(PIPE_LIMIT as i128) || pm
                > PIPE_LIMIT as i128 || pm < -(PIPE_LIMIT as i128) {
                proof {
                    assert(!pipe_step_fits(m0));
                }
                return Err(NumericalError::Overflow);
            }
            nu.push(Fx { raw: um as i64 });
            np.push(Fx { raw: pm as i64 });
            i = i + 1;
        }
        nu.push(Fx { raw: un_tip as i64 });
        np.push(Fx { raw: pn_tip as i64 });
        let mut nu1: Vec<Fx> = Vec::new();
        let mut np1: Vec<Fx> = Vec::new();
        let mut i2: usize = 0;
        while i2 < n
            invariant
                0 <= i2 <= n,
                *self == m0,
                m0 == *old(self),
                pipe_dl_s(m0) != 0,
                pipe_dr_s(m0) != 0,
                m0.gridded(),
                n == m0.n,
                ra as int == m0.rho_a@,
                nu@.len() == n + 1 && np@.len() == n + 1,
                forall|j: int|
                    0 <= j <= n as int ==> (#[trigger] nu@[j])@ == pipe_u_new_s(m0, j)
                        && iabs(nu@[j]@) <= PIPE_LIMIT as int,
                forall|j: int|
                    0 <= j <= n as int ==> (#[trigger] np@[j])@ == pipe_p_new_s(m0, j)
                        && iabs(np@[j]@) <= PIPE_LIMIT as int,
                nu1@.len() == i2 && np1@.len() == i2,
                forall|j: int|
                    0 <= j < i2 ==> (#[trigger] nu1@[j])@ == pipe_u1_next_s(m0, j) && iabs(
                        nu1@[j]@,
                    ) <= PIPE_LIMIT as int,
                forall|j: int|
                    0 <= j < i2 ==> (#[trigger] np1@[j])@ == pipe_p1_next_s(m0, j) && iabs(
                        np1@[j]@,
                    ) <= PIPE_LIMIT as int,
            decreases n - i2,
        {
            proof {
                lemma_fmul_mag(
                    np@[i2 + 1]@ - np@[i2 as int]@,
                    m0.tau_h@,
                    2 * (PIPE_LIMIT as int),
                    274877906944,
                );
                lemma_fdiv_mag(
                    fmul_s(np@[i2 + 1]@ - np@[i2 as int]@, m0.tau_h@),
                    m0.rho@,
                    140737488355328,
                    PIPE_COEF_MIN as int,
                );
                lemma_fmul_mag(
                    nu@[i2 + 1]@ - nu@[i2 as int]@,
                    ra as int,
                    2 * (PIPE_LIMIT as int),
                    17592186044416,
                );
                lemma_fmul_mag(
                    fmul_s(nu@[i2 + 1]@ - nu@[i2 as int]@, ra as int),
                    m0.tau_h@,
                    9007199254740992,
                    274877906944,
                );
                lemma_fmul_mag(
                    fmul_s(fmul_s(nu@[i2 + 1]@ - nu@[i2 as int]@, ra as int), m0.tau_h@),
                    m0.a@,
                    576460752303423488,
                    PIPE_COEF_MAX as int,
                );
            }
            let dpn: i128 = (np[i2 + 1].raw as i128) - (np[i2].raw as i128);
            let t2: i128 = fdiv128(fmul128(dpn, self.tau_h.raw as i128), self.rho.raw as i128);
            let v_u: i128 = (self.u1[i2].raw as i128) - t2;
            let dun: i128 = (nu[i2 + 1].raw as i128) - (nu[i2].raw as i128);
            let t3: i128 = fmul128(
                fmul128(fmul128(dun, ra), self.tau_h.raw as i128),
                self.a.raw as i128,
            );
            let v_p: i128 = (self.p1[i2].raw as i128) - t3;
            proof {
                assert(v_u as int == pipe_u1_next_s(m0, i2 as int));
                assert(v_p as int == pipe_p1_next_s(m0, i2 as int));
            }
            if v_u > PIPE_LIMIT as i128 || v_u < -(PIPE_LIMIT as i128) || v_p
                > PIPE_LIMIT as i128 || v_p < -(PIPE_LIMIT as i128) {
                proof {
                    assert(!pipe_step_fits(m0));
                }
                return Err(NumericalError::Overflow);
            }
            nu1.push(Fx { raw: v_u as i64 });
            np1.push(Fx { raw: v_p as i64 });
            i2 = i2 + 1;
        }
        proof {
            assert forall|j: int| 0 <= j <= n as int implies iabs(
                #[trigger] pipe_u_new_s(m0, j),
            ) <= PIPE_LIMIT as int by {
                assert(nu@[j]@ == pipe_u_new_s(m0, j));
            }
            assert forall|j: int| 0 <= j <= n as int implies iabs(
                #[trigger] pipe_p_new_s(m0, j),
            ) <= PIPE_LIMIT as int by {
                assert(np@[j]@ == pipe_p_new_s(m0, j));
            }
            assert forall|j: int| 0 <= j < n as int implies iabs(
                #[trigger] pipe_u1_next_s(m0, j),
            ) <= PIPE_LIMIT as int by {
                assert(nu1@[j]@ == pipe_u1_next_s(m0, j));
            }
            assert forall|j: int| 0 <= j < n as int implies iabs(
                #[trigger] pipe_p1_next_s(m0, j),
            ) <= PIPE_LIMIT as int by {
                assert(np1@[j]@ == pipe_p1_next_s(m0, j));
            }
        }
        self.time = Fx { raw: tn as i64 };
        self.u = nu;
        self.p = np;
        self.u1 = nu1;
        self.p1 = np1;
        Ok(())
    }
}

/// A truncated quotient of positive values is at least one once the
/// dividend reaches the divisor, and its product with the divisor stays
/// under the dividend.
proof fn lemma_hi_times_n(len: int, n: int)
    requires
        n >= 1,
        len >= n,
    ensures
        tdiv(len, n) >= 1,
        tdiv(len, n) * n <= len,
{
    vstd::arithmetic::div_mod::lemma_div_is_ordered(n, len, n);
    vstd::arithmetic::div_mod::lemma_div_multiples_vanish(1, n);
    assert(1 * n == n * 1) by (nonlinear_arith);
    vstd::arithmetic::div_mod::lemma_fundamental_div_mod(len, n);
    vstd::arithmetic::div_mod::lemma_mod_bound(len, n);
    assert(n * (len / n) == (len / n) * n) by (nonlinear_arith);
}

/// The impedance of in-range density and sound speed stays above the
/// gridded floor.
proof fn lemma_rho_a_low(rho: int, a: int)
    requires
        PIPE_COEF_MIN as int <= rho,
        PIPE_COEF_MIN as int <= a,
    ensures
        fmul_s(rho, a) >= 1048576,
{
    assert(rho * a >= 67108864 * 67108864) by (nonlinear_arith)
        requires
            rho >= 67108864,
            a >= 67108864,
    ;
    vstd::arithmetic::div_mod::lemma_div_is_ordered(
        67108864int * 67108864,
        rho * a,
        SCALE as int,
    );
}

} // verus!
