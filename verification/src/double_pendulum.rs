//! The double pendulum: two equal arms, advanced by the classical
//! fourth-order Runge-Kutta rule — four derivative evaluations per step,
//! combined with weights one, two, two, one.
use crate::elementary::{cos_s, cos_fx, sin_s, sin_fx, TRIG_CLAMP};
use crate::fixed::{
    fdiv_s, fmul_s, fx_add, fx_add_bounded, fx_div, fx_mul, fx_neg, fx_sub, iabs,
    lemma_fdiv_mag, lemma_fmul_mag, lemma_fmul_nonneg, lemma_mul_mag, lemma_tdiv_mag,
    lemma_tdiv_sign, tdiv, tdiv_i128, Fx, SCALE,
};
use crate::params::{Param, ParamList, Parametrized};
use crate::pendulum_model::{ParametrizedModel, PendulumModel, Phase};
use crate::simple_pendulum::{lemma_key_lookup, to_rad_s, RAD_PER_DEG};
use crate::NumericalError;
use vstd::prelude::*;

verus! {

/// Magnitude bound every angle, angular velocity, stage value and elapsed
/// time of this model respects.
pub const DOUBLE_LIMIT: i64 = 1099511627776;

/// Least arm length: one sixteenth.
pub const DP_LENGTH_MIN: i64 = 268435456;

/// Greatest arm length: sixteen.
pub const DP_LENGTH_MAX: i64 = 68719476736;

/// Least mass: one sixty-fourth.
pub const DP_MASS_MIN: i64 = 67108864;

/// Greatest mass: sixteen.
pub const DP_MASS_MAX: i64 = 68719476736;

/// Magnitude bound of the second derivative component on bounded state.
pub const DP_F2_BOUND: i64 = 74309467142881808;

/// Magnitude bound of the fourth derivative component on bounded state.
pub const DP_F4_BOUND: i64 = 1193455147078923024;

/// Model of a double pendulum.
pub struct DoublePendulumModel {
    /// The editable parameters: two initial angles, arm length, mass,
    /// time delta.
    pub params: ParamList,
    /// Where the model stands in its life cycle.
    pub phase: Phase,
    /// Elapsed simulation time.
    pub time: Fx,
    /// Time delta of one step.
    pub dtime: Fx,
    /// Length of each arm.
    pub length: Fx,
    /// Mass of each weight.
    pub mass: Fx,
    /// Angle of the upper arm, in radians.
    pub theta1: Fx,
    /// Angle of the lower arm, in radians.
    pub theta2: Fx,
    /// Angular velocity of the upper arm.
    pub omega1: Fx,
    /// Angular velocity of the lower arm.
    pub omega2: Fx,
}

/// The parameter values lie in the ranges the model accepts.
pub open spec fn double_params_ok(th1: int, th2: int, l: int, m: int, dt: int) -> bool {
    &&& iabs(th1) <= 15032385536000
    &&& iabs(th2) <= 15032385536000
    &&& DP_LENGTH_MIN as int <= l <= DP_LENGTH_MAX as int
    &&& DP_MASS_MIN as int <= m <= DP_MASS_MAX as int
    &&& 1 <= dt <= SCALE as int
}

/// The parameter list holds all five keys the model reads.
pub open spec fn double_keys_present(p: ParamList) -> bool {
    &&& p.has_key("theta1_0"@)
    &&& p.has_key("theta2_0"@)
    &&& p.has_key("L"@)
    &&& p.has_key("mass"@)
    &&& p.has_key("dtime"@)
}

/// Raw angular acceleration of the upper arm.  With the angle difference
/// `d = theta2 - theta1`:
/// `(m sin(d) (L omega2^2 + sin(theta2)) + m sin(2d) omega1^2 / 2
///   - sin(theta1)) / (1 + m sin(d)^2)`, the form the standard derivation
/// gives.
pub open spec fn dp_f2_s(l: int, m: int, th1: int, om1: int, th2: int, om2: int) -> int {
    let d = th2 - th1;
    let s = sin_s(d);
    fdiv_s(
        fmul_s(fmul_s(m, s), fmul_s(l, fmul_s(om2, om2)) + sin_s(th2)) + fmul_s(
            fmul_s(m, sin_s(2 * d)),
            tdiv(fmul_s(om1, om1), 2),
        ) - sin_s(th1),
        SCALE as int + fmul_s(m, fmul_s(s, s)),
    )
}

/// Raw angular acceleration of the lower arm.  With `d = theta2 - theta1`:
/// `-(sin(theta2) + sin(d) omega1^2 + cos(d) f2) / L`.
pub open spec fn dp_f4_s(l: int, m: int, th1: int, om1: int, th2: int, om2: int) -> int {
    let d = th2 - th1;
    -fdiv_s(
        sin_s(th2) + fmul_s(sin_s(d), fmul_s(om1, om1)) + fmul_s(
            cos_s(d),
            dp_f2_s(l, m, th1, om1, th2, om2),
        ),
        l,
    )
}

/// The raw derivative of the four-component state: the two angle rates are
/// the angular velocities, the two velocity rates the accelerations.
pub open spec fn dp_deriv_s(l: int, m: int, st: (int, int, int, int)) -> (
    int,
    int,
    int,
    int,
) {
    (
        st.1,
        dp_f2_s(l, m, st.0, st.1, st.2, st.3),
        st.3,
        dp_f4_s(l, m, st.0, st.1, st.2, st.3),
    )
}

/// Advance every state component by its rate scaled with `dt`.
pub open spec fn dp_advance_s(st: (int, int, int, int), k: (int, int, int, int), dt: int) -> (
    int,
    int,
    int,
    int,
) {
    (
        st.0 + fmul_s(k.0, dt),
        st.1 + fmul_s(k.1, dt),
        st.2 + fmul_s(k.2, dt),
        st.3 + fmul_s(k.3, dt),
    )
}

/// The Runge-Kutta combination of one component:
/// `st + (k1 + 2 (k2 + k3) + k4) dt / 6`.
pub open spec fn dp_combine_s(st: int, k1: int, k2: int, k3: int, k4: int, dt: int) -> int {
    st + tdiv((k1 + 2 * (k2 + k3) + k4) * dt, 6 * (SCALE as int))
}

/// The four stage derivatives of one Runge-Kutta step from state `st`.
pub open spec fn dp_stages_s(l: int, m: int, st: (int, int, int, int), dt: int) -> (
    (int, int, int, int),
    (int, int, int, int),
    (int, int, int, int),
    (int, int, int, int),
) {
    let dt2 = tdiv(dt, 2);
    let k1 = dp_deriv_s(l, m, st);
    let k2 = dp_deriv_s(l, m, dp_advance_s(st, k1, dt2));
    let k3 = dp_deriv_s(l, m, dp_advance_s(st, k2, dt2));
    let k4 = dp_deriv_s(l, m, dp_advance_s(st, k3, dt));
    (k1, k2, k3, k4)
}

/// The state after one Runge-Kutta step from `st`.
pub open spec fn dp_next_s(l: int, m: int, st: (int, int, int, int), dt: int) -> (
    int,
    int,
    int,
    int,
) {
    let (k1, k2, k3, k4) = dp_stages_s(l, m, st, dt);
    (
        dp_combine_s(st.0, k1.0, k2.0, k3.0, k4.0, dt),
        dp_combine_s(st.1, k1.1, k2.1, k3.1, k4.1, dt),
        dp_combine_s(st.2, k1.2, k2.2, k3.2, k4.2, dt),
        dp_combine_s(st.3, k1.3, k2.3, k3.3, k4.3, dt),
    )
}

/// Every component of the tuple lies within the state bound.
pub open spec fn dp_in_bounds(st: (int, int, int, int)) -> bool {
    &&& iabs(st.0) <= DOUBLE_LIMIT as int
    &&& iabs(st.1) <= DOUBLE_LIMIT as int
    &&& iabs(st.2) <= DOUBLE_LIMIT as int
    &&& iabs(st.3) <= DOUBLE_LIMIT as int
}

/// The intermediate stage states and the final state of one step all stay
/// within the state bound, and the time advances within it too.
pub open spec fn double_step_fits(m: DoublePendulumModel) -> bool {
    let l = m.length@;
    let ms = m.mass@;
    let dt = m.dtime@;
    let dt2 = tdiv(dt, 2);
    let st = (m.theta1@, m.omega1@, m.theta2@, m.omega2@);
    let k1 = dp_deriv_s(l, ms, st);
    let s2 = dp_advance_s(st, k1, dt2);
    let k2 = dp_deriv_s(l, ms, s2);
    let s3 = dp_advance_s(st, k2, dt2);
    let k3 = dp_deriv_s(l, ms, s3);
    let s4 = dp_advance_s(st, k3, dt);
    &&& iabs(m.time@ + dt) <= DOUBLE_LIMIT as int
    &&& dp_in_bounds(s2)
    &&& dp_in_bounds(s3)
    &&& dp_in_bounds(s4)
    &&& dp_in_bounds(dp_next_s(l, ms, st, dt))
}

/// Evaluate the derivative of the four-component state.
fn dp_deriv(l: Fx, m: Fx, th1: Fx, om1: Fx, th2: Fx, om2: Fx) -> (r: (Fx, Fx, Fx, Fx))
    requires
        DP_LENGTH_MIN as int <= l@ <= DP_LENGTH_MAX as int,
        DP_MASS_MIN as int <= m@ <= DP_MASS_MAX as int,
        dp_in_bounds((th1@, om1@, th2@, om2@)),
    ensures
        (r.0@, r.1@, r.2@, r.3@) == dp_deriv_s(l@, m@, (th1@, om1@, th2@, om2@)),
        r.0 == om1,
        r.2 == om2,
        iabs(r.1@) <= DP_F2_BOUND as int,
        iabs(r.3@) <= DP_F4_BOUND as int,
{
    let d = Fx { raw: th2.raw - th1.raw };
    let s = sin_fx(d);
    proof {
        lemma_fmul_mag(om2@, om2@, DOUBLE_LIMIT as int, DOUBLE_LIMIT as int);
        lemma_fmul_mag(l@, fmul_s(om2@, om2@), DP_LENGTH_MAX as int, 281474976710656);
        lemma_fmul_mag(m@, s@, DP_MASS_MAX as int, TRIG_CLAMP as int);
        lemma_fmul_mag(fmul_s(m@, s@), fmul_s(l@, fmul_s(om2@, om2@)) + sin_s(th2@),
            68719476992, 4503603922337808);
        lemma_fmul_mag(om1@, om1@, DOUBLE_LIMIT as int, DOUBLE_LIMIT as int);
        lemma_tdiv_mag(fmul_s(om1@, om1@), 2, 281474976710656, 2);
        lemma_fmul_mag(m@, sin_s(2 * d@), DP_MASS_MAX as int, TRIG_CLAMP as int);
        lemma_fmul_mag(fmul_s(m@, sin_s(2 * d@)), tdiv(fmul_s(om1@, om1@), 2), 68719476992,
            140737488355328);
        lemma_fmul_mag(s@, s@, TRIG_CLAMP as int, TRIG_CLAMP as int);
        assert(s@ * s@ >= 0) by (nonlinear_arith);
        lemma_tdiv_sign(s@ * s@, SCALE as int);
        lemma_fmul_nonneg(m@, fmul_s(s@, s@));
        lemma_fmul_mag(m@, fmul_s(s@, s@), DP_MASS_MAX as int, 4294967328);
    }
    let om2sq = fx_mul(om2, om2);
    let inner = fx_add(fx_mul(l, om2sq), sin_fx(th2));
    let a1 = fx_mul(m, s);
    let term1 = fx_mul(a1, inner);
    let s2 = sin_fx(Fx { raw: 2 * d.raw });
    let om1sq = fx_mul(om1, om1);
    let halfsq: i64 = tdiv_i128(om1sq.raw as i128, 2) as i64;
    let b1 = fx_mul(fx_mul(m, s2), Fx { raw: halfsq });
    let num = fx_sub(fx_add(term1, b1), sin_fx(th1));
    let den = fx_add(Fx { raw: SCALE }, fx_mul(m, fx_mul(s, s)));
    proof {
        lemma_fdiv_mag(num@, den@, 74309467142881808, SCALE as int);
    }
    let f2 = fx_div(num, den);
    proof {
        lemma_fmul_mag(s@, fmul_s(om1@, om1@), TRIG_CLAMP as int, 281474976710656);
        lemma_fmul_mag(cos_s(d@), f2@, TRIG_CLAMP as int, 74309467142881808);
        lemma_fdiv_mag(
            sin_s(th2@) + fmul_s(s@, fmul_s(om1@, om1@)) + fmul_s(cos_s(d@), f2@),
            l@,
            74590946692432689,
            DP_LENGTH_MIN as int,
        );
    }
    let num4 = fx_add(fx_add(sin_fx(th2), fx_mul(s, om1sq)), fx_mul(cos_fx(d), f2));
    let f4 = fx_neg(fx_div(num4, l));
    (om1, f2, om2, f4)
}

/// Combine one component's four stage derivatives into its new value, if
/// that stays within the state bound.
fn dp_combine(st: Fx, k1: Fx, k2: Fx, k3: Fx, k4: Fx, dt: Fx) -> (r: Option<Fx>)
    requires
        iabs(st@) <= DOUBLE_LIMIT as int,
        iabs(k1@) <= DP_F4_BOUND as int,
        iabs(k2@) <= DP_F4_BOUND as int,
        iabs(k3@) <= DP_F4_BOUND as int,
        iabs(k4@) <= DP_F4_BOUND as int,
        1 <= dt@ <= SCALE as int,
    ensures
        match r {
            Some(v) => v@ == dp_combine_s(st@, k1@, k2@, k3@, k4@, dt@) && iabs(v@)
                <= DOUBLE_LIMIT as int,
            None => iabs(dp_combine_s(st@, k1@, k2@, k3@, k4@, dt@)) > DOUBLE_LIMIT as int,
        },
{
    let sum: i128 = (k1.raw as i128) + 2 * ((k2.raw as i128) + (k3.raw as i128)) + (
    k4.raw as i128);
    proof {
        lemma_mul_mag(sum as int, dt@, 7160730882473538144, SCALE as int);
        lemma_tdiv_mag(
            (sum as int) * dt@,
            6 * (SCALE as int),
            0x8000000000000000int * 0x100000000int,
            6 * (SCALE as int),
        );
    }
    let p: i128 = sum * (dt.raw as i128);
    let incr: i128 = tdiv_i128(p, 6 * (SCALE as i128));
    let v: i128 = (st.raw as i128) + incr;
    if v > DOUBLE_LIMIT as i128 || v < -(DOUBLE_LIMIT as i128) {
        None
    } else {
        Some(Fx { raw: v as i64 })
    }
}

impl DoublePendulumModel {
    /// The model's invariant: unique parameter keys and, once restarted,
    /// state and derived constants within their ranges.
    pub open spec fn inv(self) -> bool {
        &&& self.params.wf()
        &&& self.phase != Phase::Uninitialized ==> {
            &&& DP_LENGTH_MIN as int <= self.length@ <= DP_LENGTH_MAX as int
            &&& DP_MASS_MIN as int <= self.mass@ <= DP_MASS_MAX as int
            &&& 1 <= self.dtime@ <= SCALE as int
            &&& dp_in_bounds((self.theta1@, self.omega1@, self.theta2@, self.omega2@))
            &&& 0 <= self.time@ <= DOUBLE_LIMIT as int
        }
    }

    /// A model with the default parameters: initial angles of 30 and 45
    /// degrees, unit length and mass, a time delta of a twentieth.
    pub fn new() -> (r: DoublePendulumModel)
        ensures
            r.inv(),
            r.phase == Phase::Uninitialized,
            r.params.params@.len() == 5,
            r.params.has_key("theta1_0"@) && r.params.value_of("theta1_0"@)@ == 30 * (
            SCALE as int),
            r.params.has_key("theta2_0"@) && r.params.value_of("theta2_0"@)@ == 45 * (
            SCALE as int),
            r.params.has_key("L"@) && r.params.value_of("L"@)@ == SCALE as int,
            r.params.has_key("mass"@) && r.params.value_of("mass"@)@ == SCALE as int,
            r.params.has_key("dtime"@) && r.params.value_of("dtime"@)@ == fdiv_s(1, 20),
            r.params.key_at(0) == "theta1_0"@ && r.params.key_at(1) == "theta2_0"@
                && r.params.key_at(2) == "L"@ && r.params.key_at(3) == "mass"@
                && r.params.key_at(4) == "dtime"@,
            r.time@ == 0,
            r.theta1@ == 0 && r.theta2@ == 0,
            r.omega1@ == 0 && r.omega2@ == 0,
            r.dtime@ == fdiv_s(1, 20),
            r.length@ == SCALE as int && r.mass@ == SCALE as int,
    {
        let mut params = ParamList::new();
        proof {
            reveal_strlit("theta1_0");
            reveal_strlit("theta2_0");
            reveal_strlit("L");
            reveal_strlit("mass");
            reveal_strlit("dtime");
            assert("theta1_0"@.len() == 8 && "theta2_0"@.len() == 8 && "L"@.len() == 1
                && "mass"@.len() == 4 && "dtime"@.len() == 5);
            assert("theta1_0"@[5] == '1' && "theta2_0"@[5] == '2');
            assert("theta1_0"@ != "theta2_0"@);
        }
        params.push(
            "theta1_0",
            "theta1(0)",
            Fx::from_int(30),
            "Initial angle of first pendulum",
        );
        params.push(
            "theta2_0",
            "theta2(0)",
            Fx::from_int(45),
            "Initial angle of second pendulum",
        );
        params.push("L", "L", Fx::one(), "Length of each pendulum");
        params.push("mass", "m", Fx::one(), "Mass of each pendulum");
        params.push("dtime", "dT", Fx::from_ratio(1, 20), "Time step delta");
        let m = DoublePendulumModel {
            params,
            phase: Phase::Uninitialized,
            time: Fx::zero(),
            dtime: Fx::from_ratio(1, 20),
            length: Fx::one(),
            mass: Fx::one(),
            theta1: Fx::zero(),
            theta2: Fx::zero(),
            omega1: Fx::zero(),
            omega2: Fx::zero(),
        };
        proof {
            lemma_key_lookup(m.params, 0);
            lemma_key_lookup(m.params, 1);
            lemma_key_lookup(m.params, 2);
            lemma_key_lookup(m.params, 3);
            lemma_key_lookup(m.params, 4);
        }
        m
    }

    /// Derive angles, constants and time delta from the current
    /// parameters; the angular velocities and time start at zero.  The
    /// initial angles are capped at fifty turns so that the swinging state
    /// keeps a comfortable margin inside the state bound.
    pub fn restart(&mut self) -> (r: Result<(), NumericalError>)
        requires
            old(self).inv(),
        ensures
            final(self).inv(),
            match r {
                Ok(()) => {
                    &&& double_keys_present(old(self).params)
                    &&& double_params_ok(
                        old(self).params.value_of("theta1_0"@)@,
                        old(self).params.value_of("theta2_0"@)@,
                        old(self).params.value_of("L"@)@,
                        old(self).params.value_of("mass"@)@,
                        old(self).params.value_of("dtime"@)@,
                    )
                    &&& final(self).phase == Phase::Ready
                    &&& final(self).params == old(self).params
                    &&& final(self).time@ == 0
                    &&& final(self).omega1@ == 0
                    &&& final(self).omega2@ == 0
                    &&& final(self).theta1@ == to_rad_s(
                        old(self).params.value_of("theta1_0"@)@,
                    )
                    &&& final(self).theta2@ == to_rad_s(
                        old(self).params.value_of("theta2_0"@)@,
                    )
                    &&& final(self).length == old(self).params.value_of("L"@)
                    &&& final(self).mass == old(self).params.value_of("mass"@)
                    &&& final(self).dtime == old(self).params.value_of("dtime"@)
                },
                Err(e) => {
                    &&& *final(self) == *old(self)
                    &&& (e == NumericalError::ParameterNotFound && !double_keys_present(
                        old(self).params,
                    )) || (e == NumericalError::InvalidParameterValue
                        && double_keys_present(old(self).params) && !double_params_ok(
                        old(self).params.value_of("theta1_0"@)@,
                        old(self).params.value_of("theta2_0"@)@,
                        old(self).params.value_of("L"@)@,
                        old(self).params.value_of("mass"@)@,
                        old(self).params.value_of("dtime"@)@,
                    ))
                },
            },
    {
        let th1 = match self.params.get_by_key(&("theta1_0".to_owned())) {
            Ok(v) => v,
            Err(e) => {
                return Err(e);
            },
        };
        let th2 = match self.params.get_by_key(&("theta2_0".to_owned())) {
            Ok(v) => v,
            Err(e) => {
                return Err(e);
            },
        };
        let l = match self.params.get_by_key(&("L".to_owned())) {
            Ok(v) => v,
            Err(e) => {
                return Err(e);
            },
        };
        let mass = match self.params.get_by_key(&("mass".to_owned())) {
            Ok(v) => v,
            Err(e) => {
                return Err(e);
            },
        };
        let dt = match self.params.get_by_key(&("dtime".to_owned())) {
            Ok(v) => v,
            Err(e) => {
                return Err(e);
            },
        };
        if th1.raw > 15032385536000 || th1.raw < -15032385536000 || th2.raw > 15032385536000
            || th2.raw < -15032385536000 || l.raw < DP_LENGTH_MIN || l.raw > DP_LENGTH_MAX
            || mass.raw < DP_MASS_MIN || mass.raw > DP_MASS_MAX || dt.raw < 1 || dt.raw
            > SCALE {
            return Err(NumericalError::InvalidParameterValue);
        }
        proof {
            lemma_fmul_mag(th1@, RAD_PER_DEG as int, 15032385536000, RAD_PER_DEG as int);
            lemma_fmul_mag(th2@, RAD_PER_DEG as int, 15032385536000, RAD_PER_DEG as int);
        }
        self.phase = Phase::Ready;
        self.time = Fx::zero();
        self.dtime = dt;
        self.length = l;
        self.mass = mass;
        self.theta1 = fx_mul(th1, Fx { raw: RAD_PER_DEG });
        self.theta2 = fx_mul(th2, Fx { raw: RAD_PER_DEG });
        self.omega1 = Fx::zero();
        self.omega2 = Fx::zero();
        Ok(())
    }

    /// Advance the state by one classical Runge-Kutta step: four stage
    /// derivatives, combined with weights one, two, two, one.
    pub fn step(&mut self) -> (r: Result<(), NumericalError>)
        requires
            old(self).inv(),
            old(self).phase != Phase::Uninitialized,
        ensures
            final(self).inv(),
            match r {
                Ok(()) => {
                    &&& double_step_fits(*old(self))
                    &&& final(self).phase == Phase::Stepping
                    &&& final(self).time@ == old(self).time@ + old(self).dtime@
                    &&& (
                    final(self).theta1@,
                    final(self).omega1@,
                    final(self).theta2@,
                    final(self).omega2@,
                    ) == dp_next_s(
                        old(self).length@,
                        old(self).mass@,
                        (
                            old(self).theta1@,
                            old(self).omega1@,
                            old(self).theta2@,
                            old(self).omega2@,
                        ),
                        old(self).dtime@,
                    )
                    &&& final(self).params == old(self).params
                    &&& final(self).length == old(self).length
                    &&& final(self).mass == old(self).mass
                    &&& final(self).dtime == old(self).dtime
                },
                Err(e) => {
                    &&& e == NumericalError::Overflow
                    &&& *final(self) == *old(self)
                    &&& !double_step_fits(*old(self))
                },
            },
    {
        let tn = match fx_add_bounded(self.time, self.dtime, DOUBLE_LIMIT) {
            Some(t) => t,
            None => {
                return Err(NumericalError::Overflow);
            },
        };
        let l = self.length;
        let m = self.mass;
        let dt = self.dtime;
        let dt2 = Fx { raw: tdiv_i128(dt.raw as i128, 2) as i64 };
        proof {
            lemma_tdiv_sign(dt@, 2);
        }
        let (a1, b1, c1, d1) = dp_deriv(l, m, self.theta1, self.omega1, self.theta2,
            self.omega2);
        proof {
            lemma_fmul_mag(b1@, dt2@, DP_F4_BOUND as int, SCALE as int);
            lemma_fmul_mag(d1@, dt2@, DP_F4_BOUND as int, SCALE as int);
            lemma_fmul_mag(a1@, dt2@, DOUBLE_LIMIT as int, SCALE as int);
            lemma_fmul_mag(c1@, dt2@, DOUBLE_LIMIT as int, SCALE as int);
        }
        let s2 = (
            fx_add_bounded(self.theta1, fx_mul(a1, dt2), DOUBLE_LIMIT),
            fx_add_bounded(self.omega1, fx_mul(b1, dt2), DOUBLE_LIMIT),
            fx_add_bounded(self.theta2, fx_mul(c1, dt2), DOUBLE_LIMIT),
            fx_add_bounded(self.omega2, fx_mul(d1, dt2), DOUBLE_LIMIT),
        );
        let (p0, p1, p2, p3) = match s2 {
            (Some(x0), Some(x1), Some(x2), Some(x3)) => (x0, x1, x2, x3),
            _ => {
                return Err(NumericalError::Overflow);
            },
        };
        let (a2, b2, c2, d2) = dp_deriv(l, m, p0, p1, p2, p3);
        proof {
            lemma_fmul_mag(b2@, dt2@, DP_F4_BOUND as int, SCALE as int);
            lemma_fmul_mag(d2@, dt2@, DP_F4_BOUND as int, SCALE as int);
            lemma_fmul_mag(a2@, dt2@, DOUBLE_LIMIT as int, SCALE as int);
            lemma_fmul_mag(c2@, dt2@, DOUBLE_LIMIT as int, SCALE as int);
        }
        let s3 = (
            fx_add_bounded(self.theta1, fx_mul(a2, dt2), DOUBLE_LIMIT),
            fx_add_bounded(self.omega1, fx_mul(b2, dt2), DOUBLE_LIMIT),
            fx_add_bounded(self.theta2, fx_mul(c2, dt2), DOUBLE_LIMIT),
            fx_add_bounded(self.omega2, fx_mul(d2, dt2), DOUBLE_LIMIT),
        );
        let (q0, q1, q2, q3) = match s3 {
            (Some(x0), Some(x1), Some(x2), Some(x3)) => (x0, x1, x2, x3),
            _ => {
                return Err(NumericalError::Overflow);
            },
        };
        let (a3, b3, c3, d3) = dp_deriv(l, m, q0, q1, q2, q3);
        proof {
            lemma_fmul_mag(b3@, dt@, DP_F4_BOUND as int, SCALE as int);
            lemma_fmul_mag(d3@, dt@, DP_F4_BOUND as int, SCALE as int);
            lemma_fmul_mag(a3@, dt@, DOUBLE_LIMIT as int, SCALE as int);
            lemma_fmul_mag(c3@, dt@, DOUBLE_LIMIT as int, SCALE as int);
        }
        let s4 = (
            fx_add_bounded(self.theta1, fx_mul(a3, dt), DOUBLE_LIMIT),
            fx_add_bounded(self.omega1, fx_mul(b3, dt), DOUBLE_LIMIT),
            fx_add_bounded(self.theta2, fx_mul(c3, dt), DOUBLE_LIMIT),
            fx_add_bounded(self.omega2, fx_mul(d3, dt), DOUBLE_LIMIT),
        );
        let (r0, r1, r2, r3) = match s4 {
            (Some(x0), Some(x1), Some(x2), Some(x3)) => (x0, x1, x2, x3),
            _ => {
                return Err(NumericalError::Overflow);
            },
        };
        let (a4, b4, c4, d4) = dp_deriv(l, m, r0, r1, r2, r3);
        let n0 = dp_combine(self.theta1, a1, a2, a3, a4, dt);
        let n1 = dp_combine(self.omega1, b1, b2, b3, b4, dt);
        let n2 = dp_combine(self.theta2, c1, c2, c3, c4, dt);
        let n3 = dp_combine(self.omega2, d1, d2, d3, d4, dt);
        match (n0, n1, n2, n3) {
            (Some(t1), Some(o1), Some(t2), Some(o2)) => {
                self.phase = Phase::Stepping;
                self.time = tn;
                self.theta1 = t1;
                self.omega1 = o1;
                self.theta2 = t2;
                self.omega2 = o2;
                Ok(())
            },
            _ => Err(NumericalError::Overflow),
        }
    }

    /// The four derivative components at an explicit state, for callers
    /// that integrate the system themselves.
    pub fn derivative(&self, th1: Fx, om1: Fx, th2: Fx, om2: Fx) -> (r: (Fx, Fx, Fx, Fx))
        requires
            self.inv(),
            self.phase != Phase::Uninitialized,
            dp_in_bounds((th1@, om1@, th2@, om2@)),
        ensures
            (r.0@, r.1@, r.2@, r.3@) == dp_deriv_s(
                self.length@,
                self.mass@,
                (th1@, om1@, th2@, om2@),
            ),
    {
        dp_deriv(self.length, self.mass, th1, om1, th2, om2)
    }

    /// The elapsed simulation time.
    pub fn time(&self) -> (t: Fx)
        ensures
            t == self.time,
    {
        self.time
    }

    /// The model's display name.
    pub fn label(&self) -> &'static str {
        "Double pendulum"
    }
}

impl Parametrized for DoublePendulumModel {
    open spec fn params_view(&self) -> Seq<Param> {
        self.params.params@
    }

    open spec fn same_but_params(&self, other: &Self) -> bool {
        self.phase == other.phase && self.time == other.time && self.dtime == other.dtime
            && self.length == other.length && self.mass == other.mass && self.theta1
            == other.theta1 && self.theta2 == other.theta2 && self.omega1 == other.omega1
            && self.omega2 == other.omega2
    }

    fn copy_params_from(&mut self, other: &ParamList) {
        self.params.copy_from(other);
    }

    fn get_params(&self) -> (r: ParamList) {
        self.params.duplicate()
    }
}

impl PendulumModel for DoublePendulumModel {
    open spec fn wf(&self) -> bool {
        self.inv()
    }

    open spec fn spec_time(&self) -> int {
        self.time@
    }

    open spec fn spec_phase(&self) -> Phase {
        self.phase
    }

    fn label(&self) -> &'static str {
        "Double pendulum"
    }

    fn time(&self) -> (t: Fx) {
        self.time
    }

    fn restart(&mut self) -> (r: Result<(), NumericalError>) {
        self.restart()
    }

    fn step(&mut self) -> (r: Result<(), NumericalError>) {
        self.step()
    }
}

impl ParametrizedModel for DoublePendulumModel {

}

} // verus!
