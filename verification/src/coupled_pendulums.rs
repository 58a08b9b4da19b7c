//! Two pendulums joined by a spring: the state is memoryless, a closed-form
//! superposition of the two normal modes evaluated at the elapsed time, with
//! the mode amplitudes fixed at restart.
use crate::elementary::{cos_s, cos_fx};
use crate::fixed::{
    fdiv_s, fmul_s, fsqrt_s, fx_add_bounded, fx_div, fx_mul, fx_sqrt, iabs, lemma_fdiv_mag,
    lemma_fmul_mag, lemma_isqrt_mag, lemma_tdiv_mag, lemma_tdiv_sign, tdiv, tdiv_i128, Fx,
    SCALE,
};
use crate::params::{Param, ParamList, Parametrized};
use crate::pendulum_model::{ParametrizedModel, PendulumModel, Phase};
use crate::simple_pendulum::{lemma_key_lookup, to_rad_s, RAD_PER_DEG, THETA0_MAX};
use crate::NumericalError;
use vstd::prelude::*;

verus! {

/// Magnitude bound every angle, amplitude and elapsed time of this model
/// respects.
pub const COUPLED_LIMIT: i64 = 8796093022208;

/// Magnitude bound of the two mode frequencies.
pub const COUPLED_OMEGA_MAX: i64 = 549755813888;

/// Magnitude bound of the two mode amplitudes: twice the largest initial
/// angle in radians.
pub const COUPLED_AMPL_MAX: i64 = 5397215040000;

/// Least pendulum length and mass: one sixty-fourth.
pub const COUPLED_PARAM_MIN: i64 = 67108864;

/// Greatest pendulum length, mass, spring constant and gravity: sixty-four.
pub const COUPLED_PARAM_MAX: i64 = 274877906944;

/// Model of two coupled pendulums.
pub struct CoupledPendulumsModel {
    /// The editable parameters: two initial angles, length, mass, spring
    /// constant, gravity, time delta.
    pub params: ParamList,
    /// Where the model stands in its life cycle.
    pub phase: Phase,
    /// Elapsed simulation time.
    pub time: Fx,
    /// Time delta of one step.
    pub dtime: Fx,
    /// Pendulum length.
    pub length: Fx,
    /// Mass of each weight.
    pub mass: Fx,
    /// Spring constant.
    pub k: Fx,
    /// Angle of the left pendulum, in radians.
    pub theta1: Fx,
    /// Angle of the right pendulum, in radians.
    pub theta2: Fx,
    /// Frequency of the in-phase mode.
    pub omega1: Fx,
    /// Frequency of the out-of-phase mode.
    pub omega2: Fx,
    /// Amplitude of the in-phase mode: the sum of the initial angles.
    pub a: Fx,
    /// Amplitude of the out-of-phase mode: their difference.
    pub b: Fx,
    /// Gravitational acceleration.
    pub g: Fx,
}

/// The parameter values lie in the ranges the model accepts.
pub open spec fn coupled_params_ok(
    th1: int,
    th2: int,
    l: int,
    m: int,
    k: int,
    g: int,
    dt: int,
) -> bool {
    &&& iabs(th1) <= THETA0_MAX as int
    &&& iabs(th2) <= THETA0_MAX as int
    &&& COUPLED_PARAM_MIN as int <= l <= COUPLED_PARAM_MAX as int
    &&& COUPLED_PARAM_MIN as int <= m <= COUPLED_PARAM_MAX as int
    &&& 0 <= k <= COUPLED_PARAM_MAX as int
    &&& 0 <= g <= COUPLED_PARAM_MAX as int
    &&& 1 <= dt <= SCALE as int
}

/// The parameter list holds all seven keys the model reads.
pub open spec fn coupled_keys_present(p: ParamList) -> bool {
    &&& p.has_key("theta1_0"@)
    &&& p.has_key("theta2_0"@)
    &&& p.has_key("L"@)
    &&& p.has_key("mass"@)
    &&& p.has_key("k"@)
    &&& p.has_key("g"@)
    &&& p.has_key("dtime"@)
}

/// Raw frequency of the in-phase mode: `sqrt(g / L)`.
pub open spec fn coupled_omega1_s(g: int, l: int) -> int {
    fsqrt_s(fdiv_s(g, l))
}

/// Raw frequency of the out-of-phase mode: `sqrt(g / L + 2 k / mass)`.
pub open spec fn coupled_omega2_s(g: int, l: int, k: int, m: int) -> int {
    fsqrt_s(fdiv_s(g, l) + fdiv_s(2 * k, m))
}

/// Raw left angle at raw time `t`:
/// `a cos(omega1 t) / 2 + b cos(omega2 t) / 2`.
pub open spec fn coupled_th1_s(m: CoupledPendulumsModel, t: int) -> int {
    tdiv(fmul_s(m.a@, cos_s(fmul_s(m.omega1@, t))), 2) + tdiv(
        fmul_s(m.b@, cos_s(fmul_s(m.omega2@, t))),
        2,
    )
}

/// Raw right angle at raw time `t`:
/// `a cos(omega1 t) / 2 - b cos(omega2 t) / 2`.
pub open spec fn coupled_th2_s(m: CoupledPendulumsModel, t: int) -> int {
    tdiv(fmul_s(m.a@, cos_s(fmul_s(m.omega1@, t))), 2) - tdiv(
        fmul_s(m.b@, cos_s(fmul_s(m.omega2@, t))),
        2,
    )
}

/// The advanced time stays within the state bound; the angles always do.
pub open spec fn coupled_step_fits(m: CoupledPendulumsModel) -> bool {
    iabs(m.time@ + m.dtime@) <= COUPLED_LIMIT as int
}

/// Two pendulums released from equal angles carry no out-of-phase mode,
/// so they swing identically at every time: with the difference amplitude
/// at zero, both closed-form angles coincide, whatever the frequencies,
/// the in-phase amplitude and the time.
pub proof fn lemma_coupled_symmetry(m: CoupledPendulumsModel, t: int)
    requires
        m.b@ == 0,
    ensures
        coupled_th1_s(m, t) == coupled_th2_s(m, t),
{
    assert(0 * cos_s(fmul_s(m.omega2@, t)) == 0) by (nonlinear_arith);
    assert(fmul_s(0, cos_s(fmul_s(m.omega2@, t))) == 0);
    assert(tdiv(0, 2) == 0);
}

impl CoupledPendulumsModel {
    /// The model's invariant: unique parameter keys and, once restarted,
    /// amplitudes, frequencies and state within their ranges.
    pub open spec fn inv(self) -> bool {
        &&& self.params.wf()
        &&& self.phase != Phase::Uninitialized ==> {
            &&& 1 <= self.dtime@ <= SCALE as int
            &&& iabs(self.a@) <= COUPLED_AMPL_MAX as int
            &&& iabs(self.b@) <= COUPLED_AMPL_MAX as int
            &&& 0 <= self.omega1@ <= COUPLED_OMEGA_MAX as int
            &&& 0 <= self.omega2@ <= COUPLED_OMEGA_MAX as int
            &&& iabs(self.theta1@) <= COUPLED_LIMIT as int
            &&& iabs(self.theta2@) <= COUPLED_LIMIT as int
            &&& 0 <= self.time@ <= COUPLED_LIMIT as int
        }
    }

    /// A model with the default parameters: initial angles of 45 and 30
    /// degrees, unit length and mass, a spring constant of thirty,
    /// standard gravity, a time delta of a twentieth.
    pub fn new() -> (r: CoupledPendulumsModel)
        ensures
            r.inv(),
            r.phase == Phase::Uninitialized,
            r.params.params@.len() == 7,
            r.params.has_key("theta1_0"@) && r.params.value_of("theta1_0"@)@ == 45 * (
            SCALE as int),
            r.params.has_key("theta2_0"@) && r.params.value_of("theta2_0"@)@ == 30 * (
            SCALE as int),
            r.params.has_key("L"@) && r.params.value_of("L"@)@ == SCALE as int,
            r.params.has_key("mass"@) && r.params.value_of("mass"@)@ == SCALE as int,
            r.params.has_key("k"@) && r.params.value_of("k"@)@ == 30 * (SCALE as int),
            r.params.has_key("g"@) && r.params.value_of("g"@)@ == fdiv_s(981, 100),
            r.params.has_key("dtime"@) && r.params.value_of("dtime"@)@ == fdiv_s(1, 20),
            r.params.key_at(0) == "theta1_0"@ && r.params.key_at(1) == "theta2_0"@
                && r.params.key_at(2) == "L"@ && r.params.key_at(3) == "mass"@
                && r.params.key_at(4) == "k"@ && r.params.key_at(5) == "g"@
                && r.params.key_at(6) == "dtime"@,
            r.time@ == 0,
            r.theta1@ == 0 && r.theta2@ == 0,
            r.omega1@ == 0 && r.omega2@ == 0,
            r.a@ == 0 && r.b@ == 0,
            r.dtime@ == fdiv_s(1, 20),
            r.length@ == SCALE as int && r.mass@ == SCALE as int,
            r.k@ == 30 * (SCALE as int),
            r.g@ == fdiv_s(981, 100),
    {
        let mut params = ParamList::new();
        proof {
            reveal_strlit("theta1_0");
            reveal_strlit("theta2_0");
            reveal_strlit("L");
            reveal_strlit("mass");
            reveal_strlit("k");
            reveal_strlit("g");
            reveal_strlit("dtime");
            assert("theta1_0"@.len() == 8 && "theta2_0"@.len() == 8 && "L"@.len() == 1
                && "mass"@.len() == 4 && "k"@.len() == 1 && "g"@.len() == 1 && "dtime"@.len()
                == 5);
            assert("theta1_0"@[5] == '1' && "theta2_0"@[5] == '2');
            assert("L"@[0] == 'L' && "k"@[0] == 'k' && "g"@[0] == 'g');
            assert("theta1_0"@ != "theta2_0"@);
            assert("L"@ != "k"@ && "L"@ != "g"@ && "k"@ != "g"@);
        }
        params.push("theta1_0", "theta1(0)", Fx::from_int(45), "Initial angle of left pendulum");
        params.push(
            "theta2_0",
            "theta2(0)",
            Fx::from_int(30),
            "Initial angle of right pendulum",
        );
        params.push("L", "L", Fx::one(), "Pendulum length");
        params.push("mass", "m", Fx::one(), "Mass of each pendulum");
        params.push("k", "k", Fx::from_int(30), "Spring constant");
        params.push("g", "g", Fx::from_ratio(981, 100), "Gravitational constant");
        params.push("dtime", "dT", Fx::from_ratio(1, 20), "Time step delta");
        let m = CoupledPendulumsModel {
            params,
            phase: Phase::Uninitialized,
            time: Fx::zero(),
            dtime: Fx::from_ratio(1, 20),
            length: Fx::one(),
            mass: Fx::one(),
            k: Fx::from_int(30),
            theta1: Fx::zero(),
            theta2: Fx::zero(),
            omega1: Fx::zero(),
            omega2: Fx::zero(),
            a: Fx::zero(),
            b: Fx::zero(),
            g: Fx::from_ratio(981, 100),
        };
        proof {
            lemma_key_lookup(m.params, 0);
            lemma_key_lookup(m.params, 1);
            lemma_key_lookup(m.params, 2);
            lemma_key_lookup(m.params, 3);
            lemma_key_lookup(m.params, 4);
            lemma_key_lookup(m.params, 5);
            lemma_key_lookup(m.params, 6);
        }
        m
    }

    /// Derive the mode frequencies and amplitudes from the current
    /// parameters; the angles start at their initial values and time at
    /// zero.
    pub fn restart(&mut self) -> (r: Result<(), NumericalError>)
        requires
            old(self).inv(),
        ensures
            final(self).inv(),
            match r {
                Ok(()) => {
                    &&& coupled_keys_present(old(self).params)
                    &&& coupled_params_ok(
                        old(self).params.value_of("theta1_0"@)@,
                        old(self).params.value_of("theta2_0"@)@,
                        old(self).params.value_of("L"@)@,
                        old(self).params.value_of("mass"@)@,
                        old(self).params.value_of("k"@)@,
                        old(self).params.value_of("g"@)@,
                        old(self).params.value_of("dtime"@)@,
                    )
                    &&& final(self).phase == Phase::Ready
                    &&& final(self).params == old(self).params
                    &&& final(self).time@ == 0
                    &&& final(self).theta1@ == to_rad_s(
                        old(self).params.value_of("theta1_0"@)@,
                    )
                    &&& final(self).theta2@ == to_rad_s(
                        old(self).params.value_of("theta2_0"@)@,
                    )
                    &&& final(self).a@ == final(self).theta1@ + final(self).theta2@
                    &&& final(self).b@ == final(self).theta1@ - final(self).theta2@
                    &&& final(self).omega1@ == coupled_omega1_s(
                        old(self).params.value_of("g"@)@,
                        old(self).params.value_of("L"@)@,
                    )
                    &&& final(self).omega2@ == coupled_omega2_s(
                        old(self).params.value_of("g"@)@,
                        old(self).params.value_of("L"@)@,
                        old(self).params.value_of("k"@)@,
                        old(self).params.value_of("mass"@)@,
                    )
                    &&& final(self).length == old(self).params.value_of("L"@)
                    &&& final(self).mass == old(self).params.value_of("mass"@)
                    &&& final(self).k == old(self).params.value_of("k"@)
                    &&& final(self).g == old(self).params.value_of("g"@)
                    &&& final(self).dtime == old(self).params.value_of("dtime"@)
                },
                Err(e) => {
                    &&& *final(self) == *old(self)
                    &&& (e == NumericalError::ParameterNotFound && !coupled_keys_present(
                        old(self).params,
                    )) || (e == NumericalError::InvalidParameterValue
                        && coupled_keys_present(old(self).params) && !coupled_params_ok(
                        old(self).params.value_of("theta1_0"@)@,
                        old(self).params.value_of("theta2_0"@)@,
                        old(self).params.value_of("L"@)@,
                        old(self).params.value_of("mass"@)@,
                        old(self).params.value_of("k"@)@,
                        old(self).params.value_of("g"@)@,
                        old(self).params.value_of("dtime"@)@,
                    ))
                },
            },
    {
        let th1 = match self.params.get_by_key(&("theta1_0".to_owned())) {
            Ok(v) => v,
            Err(e) => {
                return Err(e);
            },
        };
        let th2 = match self.params.get_by_key(&("theta2_0".to_owned())) {
            Ok(v) => v,
            Err(e) => {
                return Err(e);
            },
        };
        let l = match self.params.get_by_key(&("L".to_owned())) {
            Ok(v) => v,
            Err(e) => {
                return Err(e);
            },
        };
        let mass = match self.params.get_by_key(&("mass".to_owned())) {
            Ok(v) => v,
            Err(e) => {
                return Err(e);
            },
        };
        let k = match self.params.get_by_key(&("k".to_owned())) {
            Ok(v) => v,
            Err(e) => {
                return Err(e);
            },
        };
        let g = match self.params.get_by_key(&("g".to_owned())) {
            Ok(v) => v,
            Err(e) => {
                return Err(e);
            },
        };
        let dt = match self.params.get_by_key(&("dtime".to_owned())) {
            Ok(v) => v,
            Err(e) => {
                return Err(e);
            },
        };
        if th1.raw > THETA0_MAX || th1.raw < -THETA0_MAX || th2.raw > THETA0_MAX || th2.raw
            < -THETA0_MAX || l.raw < COUPLED_PARAM_MIN || l.raw > COUPLED_PARAM_MAX || mass.raw
            < COUPLED_PARAM_MIN || mass.raw > COUPLED_PARAM_MAX || k.raw < 0 || k.raw
            > COUPLED_PARAM_MAX || g.raw < 0 || g.raw > COUPLED_PARAM_MAX || dt.raw < 1
            || dt.raw > SCALE {
            return Err(NumericalError::InvalidParameterValue);
        }
        proof {
            lemma_fmul_mag(th1@, RAD_PER_DEG as int, THETA0_MAX as int, RAD_PER_DEG as int);
            lemma_fmul_mag(th2@, RAD_PER_DEG as int, THETA0_MAX as int, RAD_PER_DEG as int);
            lemma_fdiv_mag(g@, l@, COUPLED_PARAM_MAX as int, COUPLED_PARAM_MIN as int);
            lemma_tdiv_sign(g@ * (SCALE as int), l@);
            lemma_fdiv_mag(2 * k@, mass@, 2 * (COUPLED_PARAM_MAX as int), COUPLED_PARAM_MIN as int);
            lemma_tdiv_sign(2 * k@ * (SCALE as int), mass@);
            assert(g@ * (SCALE as int) >= 0) by (nonlinear_arith)
                requires
                    g@ >= 0,
                    SCALE == 4294967296,
            ;
            assert(2 * k@ * (SCALE as int) >= 0) by (nonlinear_arith)
                requires
                    k@ >= 0,
                    SCALE == 4294967296,
            ;
        }
        let r1 = fx_mul(th1, Fx { raw: RAD_PER_DEG });
        let r2 = fx_mul(th2, Fx { raw: RAD_PER_DEG });
        let gl = fx_div(g, l);
        let km = fx_div(Fx { raw: 2 * k.raw }, mass);
        proof {
            lemma_isqrt_mag((gl@) * (SCALE as int), COUPLED_OMEGA_MAX as int);
            assert(gl@ * (SCALE as int) < 549755813889 * 549755813889) by (nonlinear_arith)
                requires
                    0 <= gl@ <= 17592186044416,
                    SCALE == 4294967296,
            ;
            lemma_isqrt_mag((gl@ + km@) * (SCALE as int), COUPLED_OMEGA_MAX as int);
            assert((gl@ + km@) * (SCALE as int) < 549755813889 * 549755813889)
                by (nonlinear_arith)
                requires
                    0 <= gl@ + km@ <= 52776558133248,
                    SCALE == 4294967296,
            ;
        }
        let om1 = fx_sqrt(gl);
        let om2 = fx_sqrt(Fx { raw: gl.raw + km.raw });
        self.phase = Phase::Ready;
        self.time = Fx::zero();
        self.dtime = dt;
        self.length = l;
        self.mass = mass;
        self.k = k;
        self.theta1 = r1;
        self.theta2 = r2;
        self.omega1 = om1;
        self.omega2 = om2;
        self.a = Fx { raw: r1.raw + r2.raw };
        self.b = Fx { raw: r1.raw - r2.raw };
        self.g = g;
        Ok(())
    }

    /// Advance time by one delta and evaluate both angles from the
    /// closed-form mode superposition at the new time.
    pub fn step(&mut self) -> (r: Result<(), NumericalError>)
        requires
            old(self).inv(),
            old(self).phase != Phase::Uninitialized,
        ensures
            final(self).inv(),
            match r {
                Ok(()) => {
                    &&& coupled_step_fits(*old(self))
                    &&& final(self).phase == Phase::Stepping
                    &&& final(self).time@ == old(self).time@ + old(self).dtime@
                    &&& final(self).theta1@ == coupled_th1_s(
                        *old(self),
                        old(self).time@ + old(self).dtime@,
                    )
                    &&& final(self).theta2@ == coupled_th2_s(
                        *old(self),
                        old(self).time@ + old(self).dtime@,
                    )
                    &&& final(self).params == old(self).params
                    &&& final(self).a == old(self).a
                    &&& final(self).b == old(self).b
                    &&& final(self).omega1 == old(self).omega1
                    &&& final(self).omega2 == old(self).omega2
                    &&& final(self).dtime == old(self).dtime
                },
                Err(e) => {
                    &&& e == NumericalError::Overflow
                    &&& *final(self) == *old(self)
                    &&& !coupled_step_fits(*old(self))
                },
            },
    {
        let tn = match fx_add_bounded(self.time, self.dtime, COUPLED_LIMIT) {
            Some(t) => t,
            None => {
                return Err(NumericalError::Overflow);
            },
        };
        proof {
            lemma_fmul_mag(self.omega1@, tn@, COUPLED_OMEGA_MAX as int, COUPLED_LIMIT as int);
            lemma_fmul_mag(self.omega2@, tn@, COUPLED_OMEGA_MAX as int, COUPLED_LIMIT as int);
        }
        let c1 = cos_fx(fx_mul(self.omega1, tn));
        let c2 = cos_fx(fx_mul(self.omega2, tn));
        proof {
            lemma_fmul_mag(self.a@, c1@, COUPLED_AMPL_MAX as int, 4294967312);
            lemma_fmul_mag(self.b@, c2@, COUPLED_AMPL_MAX as int, 4294967312);
            lemma_tdiv_mag(fmul_s(self.a@, c1@), 2, 5397215060106, 2);
            lemma_tdiv_mag(fmul_s(self.b@, c2@), 2, 5397215060106, 2);
        }
        let h1: i64 = tdiv_i128(fx_mul(self.a, c1).raw as i128, 2) as i64;
        let h2: i64 = tdiv_i128(fx_mul(self.b, c2).raw as i128, 2) as i64;
        self.phase = Phase::Stepping;
        self.time = tn;
        self.theta1 = Fx { raw: h1 + h2 };
        self.theta2 = Fx { raw: h1 - h2 };
        Ok(())
    }

    /// The elapsed simulation time.
    pub fn time(&self) -> (t: Fx)
        ensures
            t == self.time,
    {
        self.time
    }

    /// The model's display name.
    pub fn label(&self) -> &'static str {
        "Coupled pendulums"
    }
}

impl Parametrized for CoupledPendulumsModel {
    open spec fn params_view(&self) -> Seq<Param> {
        self.params.params@
    }

    open spec fn same_but_params(&self, other: &Self) -> bool {
        self.phase == other.phase && self.time == other.time && self.dtime == other.dtime
            && self.length == other.length && self.mass == other.mass && self.k == other.k
            && self.theta1 == other.theta1 && self.theta2 == other.theta2 && self.omega1
            == other.omega1 && self.omega2 == other.omega2 && self.a == other.a && self.b
            == other.b && self.g == other.g
    }

    fn copy_params_from(&mut self, other: &ParamList) {
        self.params.copy_from(other);
    }

    fn get_params(&self) -> (r: ParamList) {
        self.params.duplicate()
    }
}

impl PendulumModel for CoupledPendulumsModel {
    open spec fn wf(&self) -> bool {
        self.inv()
    }

    open spec fn spec_time(&self) -> int {
        self.time@
    }

    open spec fn spec_phase(&self) -> Phase {
        self.phase
    }

    fn label(&self) -> &'static str {
        "Coupled pendulums"
    }

    fn time(&self) -> (t: Fx) {
        self.time
    }

    fn restart(&mut self) -> (r: Result<(), NumericalError>) {
        self.restart()
    }

    fn step(&mut self) -> (r: Result<(), NumericalError>) {
        self.step()
    }
}

impl ParametrizedModel for CoupledPendulumsModel {

}

} // verus!
