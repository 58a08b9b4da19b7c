//! The elastic pendulum: a weight on a spring, with the spring stretch and
//! the swing angle advanced together by the semi-implicit Euler rule.
use crate::elementary::{cos_s, cos_fx, sin_s, sin_fx, TRIG_CLAMP};
use crate::fixed::{
    fdiv_s, fmul_s, fx_add, fx_add_bounded, fx_div, fx_mul, fx_neg, fx_sub, iabs,
    lemma_fdiv_mag, lemma_fmul_mag, Fx, SCALE,
};
use crate::params::{Param, ParamList, Parametrized};
use crate::pendulum_model::{ParametrizedModel, PendulumModel, Phase};
use crate::simple_pendulum::{lemma_key_lookup, to_rad_s, RAD_PER_DEG, THETA0_MAX};
use crate::NumericalError;
use vstd::prelude::*;

verus! {

/// Magnitude bound every angle, stretch, velocity and elapsed time of this
/// model respects.
pub const ELASTIC_LIMIT: i64 = 4398046511104;

/// Least spring length during a step; below it the angular equation would
/// divide by a vanishing arm.
pub const ARM_MIN: i64 = 67108864;

/// Least rest length of the spring: one sixty-fourth.
pub const ELASTIC_LENGTH_MIN: i64 = 67108864;

/// Greatest rest length of the spring: sixty-four.
pub const ELASTIC_LENGTH_MAX: i64 = 274877906944;

/// Greatest initial stretch magnitude: sixty-four.
pub const X0_MAX: i64 = 274877906944;

/// Greatest gravitational acceleration: sixty-four.
pub const ELASTIC_GRAVITY_MAX: i64 = 274877906944;

/// Model of an elastic pendulum; the weight's mass is one and the spring
/// constant thirty, as the parameter screens fix them.
pub struct ElasticPendulumModel {
    /// The editable parameters: initial angle, rest length, initial
    /// stretch, gravity, time delta.
    pub params: ParamList,
    /// Where the model stands in its life cycle.
    pub phase: Phase,
    /// Elapsed simulation time.
    pub time: Fx,
    /// Time delta of one step.
    pub dtime: Fx,
    /// Rest length of the spring.
    pub length: Fx,
    /// Mass of the weight: one.
    pub mass: Fx,
    /// Spring constant: thirty.
    pub k: Fx,
    /// Angle from the vertical, in radians.
    pub theta: Fx,
    /// Angular velocity.
    pub theta_v: Fx,
    /// Angular acceleration.
    pub theta_a: Fx,
    /// Spring stretch beyond the rest length.
    pub x: Fx,
    /// Stretch velocity.
    pub x_v: Fx,
    /// Stretch acceleration.
    pub x_a: Fx,
    /// Gravitational acceleration.
    pub g: Fx,
}

/// The parameter values lie in the ranges the model accepts.
pub open spec fn elastic_params_ok(th0: int, l: int, x0: int, g: int, dt: int) -> bool {
    &&& iabs(th0) <= THETA0_MAX as int
    &&& ELASTIC_LENGTH_MIN as int <= l <= ELASTIC_LENGTH_MAX as int
    &&& iabs(x0) <= X0_MAX as int
    &&& 0 <= g <= ELASTIC_GRAVITY_MAX as int
    &&& 1 <= dt <= SCALE as int
}

/// The parameter list holds all five keys the model reads.
pub open spec fn elastic_keys_present(p: ParamList) -> bool {
    &&& p.has_key("theta0"@)
    &&& p.has_key("L"@)
    &&& p.has_key("x0"@)
    &&& p.has_key("g"@)
    &&& p.has_key("dtime"@)
}

/// Raw length of the swinging arm: rest length plus stretch.
pub open spec fn elastic_arm_s(m: ElasticPendulumModel) -> int {
    m.length@ + m.x@
}

/// Raw stretch acceleration:
/// `arm * theta_v^2 - k x / mass + g cos(theta)`.
pub open spec fn elastic_xa_s(m: ElasticPendulumModel) -> int {
    fmul_s(elastic_arm_s(m), fmul_s(m.theta_v@, m.theta_v@)) - fdiv_s(
        fmul_s(m.k@, m.x@),
        m.mass@,
    ) + fmul_s(m.g@, cos_s(m.theta@))
}

/// Raw angular acceleration:
/// `-(g sin(theta) + 2 x_v theta_v) / arm`.
pub open spec fn elastic_ta_s(m: ElasticPendulumModel) -> int {
    -fdiv_s(
        fmul_s(m.g@, sin_s(m.theta@)) + 2 * fmul_s(m.x_v@, m.theta_v@),
        elastic_arm_s(m),
    )
}

/// Raw stretch velocity after one step.
pub open spec fn elastic_xv_next(m: ElasticPendulumModel) -> int {
    m.x_v@ + fmul_s(elastic_xa_s(m), m.dtime@)
}

/// Raw stretch after one step: the new velocity applies.
pub open spec fn elastic_x_next(m: ElasticPendulumModel) -> int {
    m.x@ + fmul_s(elastic_xv_next(m), m.dtime@)
}

/// Raw angular velocity after one step.
pub open spec fn elastic_tv_next(m: ElasticPendulumModel) -> int {
    m.theta_v@ + fmul_s(elastic_ta_s(m), m.dtime@)
}

/// Raw angle after one step: the new velocity applies.
pub open spec fn elastic_th_next(m: ElasticPendulumModel) -> int {
    m.theta@ + fmul_s(elastic_tv_next(m), m.dtime@)
}

/// The arm stays long enough to divide by and the values one step computes
/// stay within the state bound.
pub open spec fn elastic_step_fits(m: ElasticPendulumModel) -> bool {
    &&& elastic_arm_s(m) >= ARM_MIN as int
    &&& iabs(m.time@ + m.dtime@) <= ELASTIC_LIMIT as int
    &&& iabs(elastic_xv_next(m)) <= ELASTIC_LIMIT as int
    &&& iabs(elastic_x_next(m)) <= ELASTIC_LIMIT as int
    &&& iabs(elastic_tv_next(m)) <= ELASTIC_LIMIT as int
    &&& iabs(elastic_th_next(m)) <= ELASTIC_LIMIT as int
}

impl ElasticPendulumModel {
    /// The model's invariant: unique parameter keys, the fixed mass and
    /// spring constant, and, once restarted, state and derived constants
    /// within their ranges.
    pub open spec fn inv(self) -> bool {
        &&& self.params.wf()
        &&& self.mass@ == SCALE as int
        &&& self.k@ == 30 * (SCALE as int)
        &&& self.phase != Phase::Uninitialized ==> {
            &&& ELASTIC_LENGTH_MIN as int <= self.length@ <= ELASTIC_LENGTH_MAX as int
            &&& 0 <= self.g@ <= ELASTIC_GRAVITY_MAX as int
            &&& 1 <= self.dtime@ <= SCALE as int
            &&& iabs(self.theta@) <= ELASTIC_LIMIT as int
            &&& iabs(self.theta_v@) <= ELASTIC_LIMIT as int
            &&& iabs(self.x@) <= ELASTIC_LIMIT as int
            &&& iabs(self.x_v@) <= ELASTIC_LIMIT as int
            &&& 0 <= self.time@ <= ELASTIC_LIMIT as int
        }
    }

    /// A model with the default parameters: an initial angle of 45
    /// degrees, unit rest length, no initial stretch, standard gravity, a
    /// time delta of a twentieth.
    pub fn new() -> (r: ElasticPendulumModel)
        ensures
            r.inv(),
            r.phase == Phase::Uninitialized,
            r.params.params@.len() == 5,
            r.params.has_key("theta0"@) && r.params.value_of("theta0"@)@ == 45 * (
            SCALE as int),
            r.params.has_key("L"@) && r.params.value_of("L"@)@ == SCALE as int,
            r.params.has_key("x0"@) && r.params.value_of("x0"@)@ == 0,
            r.params.has_key("g"@) && r.params.value_of("g"@)@ == fdiv_s(981, 100),
            r.params.has_key("dtime"@) && r.params.value_of("dtime"@)@ == fdiv_s(1, 20),
            r.params.key_at(0) == "theta0"@ && r.params.key_at(1) == "L"@
                && r.params.key_at(2) == "x0"@ && r.params.key_at(3) == "g"@
                && r.params.key_at(4) == "dtime"@,
            r.time@ == 0,
            r.theta@ == 0 && r.theta_v@ == 0 && r.theta_a@ == 0,
            r.x@ == 0 && r.x_v@ == 0 && r.x_a@ == 0,
            r.dtime@ == fdiv_s(1, 20),
            r.length@ == SCALE as int,
            r.mass@ == SCALE as int && r.k@ == 30 * (SCALE as int),
            r.g@ == fdiv_s(981, 100),
    {
        let mut params = ParamList::new();
        proof {
            reveal_strlit("theta0");
            reveal_strlit("L");
            reveal_strlit("x0");
            reveal_strlit("g");
            reveal_strlit("dtime");
            assert("theta0"@.len() == 6 && "L"@.len() == 1 && "x0"@.len() == 2 && "g"@.len()
                == 1 && "dtime"@.len() == 5);
            assert("L"@[0] == 'L' && "g"@[0] == 'g');
            assert("theta0"@ != "L"@ && "theta0"@ != "x0"@ && "theta0"@ != "g"@ && "theta0"@
                != "dtime"@);
            assert("L"@ != "x0"@ && "L"@ != "g"@ && "L"@ != "dtime"@);
            assert("x0"@ != "g"@ && "x0"@ != "dtime"@ && "g"@ != "dtime"@);
        }
        params.push("theta0", "theta(0)", Fx::from_int(45), "Initial pendulum angle");
        params.push("L", "L", Fx::one(), "Spring rest length");
        params.push("x0", "x(0)", Fx::zero(), "Initial spring stretch");
        params.push("g", "g", Fx::from_ratio(981, 100), "Gravitational constant");
        params.push("dtime", "dT", Fx::from_ratio(1, 20), "Time step delta");
        let m = ElasticPendulumModel {
            params,
            phase: Phase::Uninitialized,
            time: Fx::zero(),
            dtime: Fx::from_ratio(1, 20),
            length: Fx::one(),
            mass: Fx::one(),
            k: Fx::from_int(30),
            theta: Fx::zero(),
            theta_v: Fx::zero(),
            theta_a: Fx::zero(),
            x: Fx::zero(),
            x_v: Fx::zero(),
            x_a: Fx::zero(),
            g: Fx::from_ratio(981, 100),
        };
        proof {
            lemma_key_lookup(m.params, 0);
            lemma_key_lookup(m.params, 1);
            lemma_key_lookup(m.params, 2);
            lemma_key_lookup(m.params, 3);
            lemma_key_lookup(m.params, 4);
        }
        m
    }

    /// Derive angle, stretch, constants and time delta from the current
    /// parameters; velocities, accelerations and time start at zero.
    pub fn restart(&mut self) -> (r: Result<(), NumericalError>)
        requires
            old(self).inv(),
        ensures
            final(self).inv(),
            match r {
                Ok(()) => {
                    &&& elastic_keys_present(old(self).params)
                    &&& elastic_params_ok(
                        old(self).params.value_of("theta0"@)@,
                        old(self).params.value_of("L"@)@,
                        old(self).params.value_of("x0"@)@,
                        old(self).params.value_of("g"@)@,
                        old(self).params.value_of("dtime"@)@,
                    )
                    &&& final(self).phase == Phase::Ready
                    &&& final(self).params == old(self).params
                    &&& final(self).time@ == 0
                    &&& final(self).theta_v@ == 0
                    &&& final(self).theta_a@ == 0
                    &&& final(self).x_v@ == 0
                    &&& final(self).x_a@ == 0
                    &&& final(self).theta@ == to_rad_s(
                        old(self).params.value_of("theta0"@)@,
                    )
                    &&& final(self).x == old(self).params.value_of("x0"@)
                    &&& final(self).length == old(self).params.value_of("L"@)
                    &&& final(self).g == old(self).params.value_of("g"@)
                    &&& final(self).dtime == old(self).params.value_of("dtime"@)
                },
                Err(e) => {
                    &&& *final(self) == *old(self)
                    &&& (e == NumericalError::ParameterNotFound && !elastic_keys_present(
                        old(self).params,
                    )) || (e == NumericalError::InvalidParameterValue
                        && elastic_keys_present(old(self).params) && !elastic_params_ok(
                        old(self).params.value_of("theta0"@)@,
                        old(self).params.value_of("L"@)@,
                        old(self).params.value_of("x0"@)@,
                        old(self).params.value_of("g"@)@,
                        old(self).params.value_of("dtime"@)@,
                    ))
                },
            },
    {
        let th0 = match self.params.get_by_key(&("theta0".to_owned())) {
            Ok(v) => v,
            Err(e) => {
                return Err(e);
            },
        };
        let l = match self.params.get_by_key(&("L".to_owned())) {
            Ok(v) => v,
            Err(e) => {
                return Err(e);
            },
        };
        let x0 = match self.params.get_by_key(&("x0".to_owned())) {
            Ok(v) => v,
            Err(e) => {
                return Err(e);
            },
        };
        let g = match self.params.get_by_key(&("g".to_owned())) {
            Ok(v) => v,
            Err(e) => {
                return Err(e);
            },
        };
        let dt = match self.params.get_by_key(&("dtime".to_owned())) {
            Ok(v) => v,
            Err(e) => {
                return Err(e);
            },
        };
        if th0.raw > THETA0_MAX || th0.raw < -THETA0_MAX || l.raw < ELASTIC_LENGTH_MIN
            || l.raw > ELASTIC_LENGTH_MAX || x0.raw > X0_MAX || x0.raw < -X0_MAX || g.raw < 0
            || g.raw > ELASTIC_GRAVITY_MAX || dt.raw < 1 || dt.raw > SCALE {
            return Err(NumericalError::InvalidParameterValue);
        }
        proof {
            lemma_fmul_mag(th0@, RAD_PER_DEG as int, THETA0_MAX as int, RAD_PER_DEG as int);
        }
        self.phase = Phase::Ready;
        self.time = Fx::zero();
        self.dtime = dt;
        self.length = l;
        self.theta = fx_mul(th0, Fx { raw: RAD_PER_DEG });
        self.theta_v = Fx::zero();
        self.theta_a = Fx::zero();
        self.x = x0;
        self.x_v = Fx::zero();
        self.x_a = Fx::zero();
        self.g = g;
        Ok(())
    }

    /// Advance stretch and angle by one time delta: both accelerations
    /// from the current state, velocities from the accelerations, then
    /// stretch and angle from the new velocities.
    pub fn step(&mut self) -> (r: Result<(), NumericalError>)
        requires
            old(self).inv(),
            old(self).phase != Phase::Uninitialized,
        ensures
            final(self).inv(),
            match r {
                Ok(()) => {
                    &&& elastic_step_fits(*old(self))
                    &&& final(self).phase == Phase::Stepping
                    &&& final(self).time@ == old(self).time@ + old(self).dtime@
                    &&& final(self).x_a@ == elastic_xa_s(*old(self))
                    &&& final(self).theta_a@ == elastic_ta_s(*old(self))
                    &&& final(self).x_v@ == elastic_xv_next(*old(self))
                    &&& final(self).x@ == elastic_x_next(*old(self))
                    &&& final(self).theta_v@ == elastic_tv_next(*old(self))
                    &&& final(self).theta@ == elastic_th_next(*old(self))
                    &&& final(self).params == old(self).params
                    &&& final(self).length == old(self).length
                    &&& final(self).g == old(self).g
                    &&& final(self).dtime == old(self).dtime
                },
                Err(e) => {
                    &&& e == NumericalError::Overflow
                    &&& *final(self) == *old(self)
                    &&& !elastic_step_fits(*old(self))
                },
            },
    {
        let arm: i64 = self.length.raw + self.x.raw;
        if arm < ARM_MIN {
            return Err(NumericalError::Overflow);
        }
        let armf = Fx { raw: arm };
        proof {
            lemma_fmul_mag(
                self.theta_v@,
                self.theta_v@,
                ELASTIC_LIMIT as int,
                ELASTIC_LIMIT as int,
            );
            lemma_fmul_mag(armf@, fmul_s(self.theta_v@, self.theta_v@), 4672924418048,
                4503599627370496);
            lemma_fmul_mag(self.k@, self.x@, 30 * (SCALE as int), ELASTIC_LIMIT as int);
            lemma_fdiv_mag(
                fmul_s(self.k@, self.x@),
                self.mass@,
                131941395333120,
                SCALE as int,
            );
            lemma_fmul_mag(
                self.g@,
                cos_s(self.theta@),
                ELASTIC_GRAVITY_MAX as int,
                TRIG_CLAMP as int,
            );
            lemma_fmul_mag(
                self.g@,
                sin_s(self.theta@),
                ELASTIC_GRAVITY_MAX as int,
                TRIG_CLAMP as int,
            );
            lemma_fmul_mag(self.x_v@, self.theta_v@, ELASTIC_LIMIT as int, ELASTIC_LIMIT as int);
        }
        let tv2 = fx_mul(self.theta_v, self.theta_v);
        let t1 = fx_mul(armf, tv2);
        let t2 = fx_div(fx_mul(self.k, self.x), self.mass);
        let t3 = fx_mul(self.g, cos_fx(self.theta));
        let xa = fx_add(fx_sub(t1, t2), t3);
        let gs = fx_mul(self.g, sin_fx(self.theta));
        let xt = fx_mul(self.x_v, self.theta_v);
        let num = Fx { raw: gs.raw + 2 * xt.raw };
        proof {
            lemma_fdiv_mag(num@, armf@, 9282183804943360, ARM_MIN as int);
        }
        let ta = fx_neg(fx_div(num, armf));
        proof {
            lemma_fmul_mag(xa@, self.dtime@, iabs(xa@), SCALE as int);
            lemma_fmul_mag(ta@, self.dtime@, iabs(ta@), SCALE as int);
        }
        let dxv = fx_mul(xa, self.dtime);
        let dtv = fx_mul(ta, self.dtime);
        let time2 = fx_add_bounded(self.time, self.dtime, ELASTIC_LIMIT);
        let xv2 = fx_add_bounded(self.x_v, dxv, ELASTIC_LIMIT);
        let tv2n = fx_add_bounded(self.theta_v, dtv, ELASTIC_LIMIT);
        match (time2, xv2, tv2n) {
            (Some(tn), Some(xv), Some(tv)) => {
                proof {
                    lemma_fmul_mag(xv@, self.dtime@, ELASTIC_LIMIT as int, SCALE as int);
                    lemma_fmul_mag(tv@, self.dtime@, ELASTIC_LIMIT as int, SCALE as int);
                }
                let dx = fx_mul(xv, self.dtime);
                let dth = fx_mul(tv, self.dtime);
                let x2 = fx_add_bounded(self.x, dx, ELASTIC_LIMIT);
                let th2 = fx_add_bounded(self.theta, dth, ELASTIC_LIMIT);
                match (x2, th2) {
                    (Some(xn), Some(thn)) => {
                        self.phase = Phase::Stepping;
                        self.time = tn;
                        self.x_a = xa;
                        self.theta_a = ta;
                        self.x_v = xv;
                        self.theta_v = tv;
                        self.x = xn;
                        self.theta = thn;
                        Ok(())
                    },
                    _ => Err(NumericalError::Overflow),
                }
            },
            _ => Err(NumericalError::Overflow),
        }
    }

    /// The elapsed simulation time.
    pub fn time(&self) -> (t: Fx)
        ensures
            t == self.time,
    {
        self.time
    }

    /// The model's display name.
    pub fn label(&self) -> &'static str {
        "Elastic Pendulum"
    }
}

impl Parametrized for ElasticPendulumModel {
    open spec fn params_view(&self) -> Seq<Param> {
        self.params.params@
    }

    open spec fn same_but_params(&self, other: &Self) -> bool {
        self.phase == other.phase && self.time == other.time && self.dtime == other.dtime
            && self.length == other.length && self.mass == other.mass && self.k == other.k
            && self.theta == other.theta && self.theta_v == other.theta_v && self.theta_a
            == other.theta_a && self.x == other.x && self.x_v == other.x_v && self.x_a
            == other.x_a && self.g == other.g
    }

    fn copy_params_from(&mut self, other: &ParamList) {
        self.params.copy_from(other);
    }

    fn get_params(&self) -> (r: ParamList) {
        self.params.duplicate()
    }
}

impl PendulumModel for ElasticPendulumModel {
    open spec fn wf(&self) -> bool {
        self.inv()
    }

    open spec fn spec_time(&self) -> int {
        self.time@
    }

    open spec fn spec_phase(&self) -> Phase {
        self.phase
    }

    fn label(&self) -> &'static str {
        "Elastic Pendulum"
    }

    fn time(&self) -> (t: Fx) {
        self.time
    }

    fn restart(&mut self) -> (r: Result<(), NumericalError>) {
        self.restart()
    }

    fn step(&mut self) -> (r: Result<(), NumericalError>) {
        self.step()
    }
}

impl ParametrizedModel for ElasticPendulumModel {

}

} // verus!
