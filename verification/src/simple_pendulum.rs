//! The simple pendulum: one angle, advanced by the semi-implicit Euler
//! rule — acceleration from the current angle, velocity from that
//! acceleration, then the angle from the new velocity.
use crate::elementary::{sin_s, sin_fx, TRIG_CLAMP};
use crate::fixed::{
    fdiv_s, fmul_s, fx_add_bounded, fx_div, fx_mul, fx_neg, iabs, lemma_fdiv_mag,
    lemma_fmul_mag, Fx, SCALE,
};
use crate::params::{Param, ParamList, Parametrized};
use crate::pendulum_model::{ParametrizedModel, PendulumModel, Phase};
use crate::NumericalError;
use vstd::prelude::*;

verus! {

/// Magnitude bound every angle, velocity and elapsed time respects.
pub const STATE_LIMIT: i64 = 8796093022208;

/// Magnitude bound the angular acceleration respects.
pub const ACCEL_LIMIT: i64 = 35184372088832;

/// Largest initial-angle magnitude, in degrees: a hundred turns.
pub const THETA0_MAX: i64 = 154618822656000;

/// Least pendulum length: one sixty-fourth.
pub const LENGTH_MIN: i64 = 67108864;

/// Greatest pendulum length: sixty-four.
pub const LENGTH_MAX: i64 = 274877906944;

/// Greatest gravitational acceleration: sixty-four.
pub const GRAVITY_MAX: i64 = 274877906944;

/// One degree in raw radians.
pub const RAD_PER_DEG: i64 = 74961320;

/// Raw radians of a raw degree count.
pub open spec fn to_rad_s(d: int) -> int {
    fmul_s(d, RAD_PER_DEG as int)
}

/// Model of a simple pendulum.
pub struct SimplePendulumModel {
    /// The editable parameters: initial angle, length, gravity, time delta.
    pub params: ParamList,
    /// Where the model stands in its life cycle.
    pub phase: Phase,
    /// Elapsed simulation time.
    pub time: Fx,
    /// Time delta of one step.
    pub dtime: Fx,
    /// Angle from the vertical, in radians.
    pub theta: Fx,
    /// Angular velocity.
    pub theta_v: Fx,
    /// Angular acceleration.
    pub theta_a: Fx,
    /// Pendulum length.
    pub length: Fx,
    /// Gravitational acceleration.
    pub g: Fx,
}

/// The parameter values lie in the ranges the model accepts.
pub open spec fn simple_params_ok(th0: int, l: int, g: int, dt: int) -> bool {
    &&& iabs(th0) <= THETA0_MAX as int
    &&& LENGTH_MIN as int <= l <= LENGTH_MAX as int
    &&& 0 <= g <= GRAVITY_MAX as int
    &&& 1 <= dt <= SCALE as int
}

/// The parameter list holds all four keys the model reads.
pub open spec fn simple_keys_present(p: ParamList) -> bool {
    &&& p.has_key("theta0"@)
    &&& p.has_key("L"@)
    &&& p.has_key("g"@)
    &&& p.has_key("dtime"@)
}

/// Raw angular acceleration: `-g sin(theta) / length`.
pub open spec fn simple_accel_s(m: SimplePendulumModel) -> int {
    -fdiv_s(fmul_s(m.g@, sin_s(m.theta@)), m.length@)
}

/// Raw angular velocity after one step.
pub open spec fn simple_tv_next(m: SimplePendulumModel) -> int {
    m.theta_v@ + fmul_s(simple_accel_s(m), m.dtime@)
}

/// Raw angle after one step: the new velocity applies to the old angle.
pub open spec fn simple_th_next(m: SimplePendulumModel) -> int {
    m.theta@ + fmul_s(simple_tv_next(m), m.dtime@)
}

/// The values one step computes all stay within the state bound.
pub open spec fn simple_step_fits(m: SimplePendulumModel) -> bool {
    &&& iabs(m.time@ + m.dtime@) <= STATE_LIMIT as int
    &&& iabs(simple_tv_next(m)) <= STATE_LIMIT as int
    &&& iabs(simple_th_next(m)) <= STATE_LIMIT as int
}

impl SimplePendulumModel {
    /// The model's invariant: unique parameter keys and, once restarted,
    /// state and derived constants within their ranges.
    pub open spec fn inv(self) -> bool {
        &&& self.params.wf()
        &&& self.phase != Phase::Uninitialized ==> {
            &&& LENGTH_MIN as int <= self.length@ <= LENGTH_MAX as int
            &&& 0 <= self.g@ <= GRAVITY_MAX as int
            &&& 1 <= self.dtime@ <= SCALE as int
            &&& iabs(self.theta@) <= STATE_LIMIT as int
            &&& iabs(self.theta_v@) <= STATE_LIMIT as int
            &&& iabs(self.theta_a@) <= ACCEL_LIMIT as int
            &&& 0 <= self.time@ <= STATE_LIMIT as int
        }
    }

    /// A model with the default parameters: an initial angle of 45
    /// degrees, unit length, standard gravity, a time delta of a
    /// twentieth.
    pub fn new() -> (r: SimplePendulumModel)
        ensures
            r.inv(),
            r.phase == Phase::Uninitialized,
            r.params.params@.len() == 4,
            r.params.has_key("theta0"@) && r.params.value_of("theta0"@)@ == 45 * (
            SCALE as int),
            r.params.has_key("L"@) && r.params.value_of("L"@)@ == SCALE as int,
            r.params.has_key("g"@) && r.params.value_of("g"@)@ == fdiv_s(981, 100),
            r.params.has_key("dtime"@) && r.params.value_of("dtime"@)@ == fdiv_s(1, 20),
            r.params.key_at(0) == "theta0"@ && r.params.key_at(1) == "L"@
                && r.params.key_at(2) == "g"@ && r.params.key_at(3) == "dtime"@,
            r.time@ == 0,
            r.theta@ == 0 && r.theta_v@ == 0 && r.theta_a@ == 0,
            r.dtime@ == fdiv_s(1, 20),
            r.length@ == SCALE as int,
            r.g@ == fdiv_s(981, 100),
    {
        let mut params = ParamList::new();
        proof {
            reveal_strlit("theta0");
            reveal_strlit("L");
            reveal_strlit("g");
            reveal_strlit("dtime");
            assert("theta0"@.len() == 6 && "L"@.len() == 1 && "g"@.len() == 1 && "dtime"@.len()
                == 5);
            assert("L"@[0] == 'L' && "g"@[0] == 'g');
            assert("theta0"@ != "L"@ && "theta0"@ != "g"@ && "theta0"@ != "dtime"@);
            assert("L"@ != "g"@ && "L"@ != "dtime"@ && "g"@ != "dtime"@);
        }
        params.push("theta0", "theta(0)", Fx::from_int(45), "Initial pendulum angle");
        params.push("L", "L", Fx::one(), "Pendulum length");
        params.push("g", "g", Fx::from_ratio(981, 100), "Gravitational constant");
        params.push("dtime", "dT", Fx::from_ratio(1, 20), "Time step delta");
        let m = SimplePendulumModel {
            params,
            phase: Phase::Uninitialized,
            time: Fx::zero(),
            dtime: Fx::from_ratio(1, 20),
            theta: Fx::zero(),
            theta_v: Fx::zero(),
            theta_a: Fx::zero(),
            length: Fx::one(),
            g: Fx::from_ratio(981, 100),
        };
        proof {
            assert(m.params.key_at(0) == "theta0"@);
            assert(m.params.key_at(1) == "L"@);
            assert(m.params.key_at(2) == "g"@);
            assert(m.params.key_at(3) == "dtime"@);
            lemma_key_lookup(m.params, 0);
            lemma_key_lookup(m.params, 1);
            lemma_key_lookup(m.params, 2);
            lemma_key_lookup(m.params, 3);
        }
        m
    }

    /// Derive angle, constants and time delta from the current parameters;
    /// velocity, acceleration and time start at zero.
    pub fn restart(&mut self) -> (r: Result<(), NumericalError>)
        requires
            old(self).inv(),
        ensures
            final(self).inv(),
            match r {
                Ok(()) => {
                    &&& simple_keys_present(old(self).params)
                    &&& simple_params_ok(
                        old(self).params.value_of("theta0"@)@,
                        old(self).params.value_of("L"@)@,
                        old(self).params.value_of("g"@)@,
                        old(self).params.value_of("dtime"@)@,
                    )
                    &&& final(self).phase == Phase::Ready
                    &&& final(self).params == old(self).params
                    &&& final(self).time@ == 0
                    &&& final(self).theta_v@ == 0
                    &&& final(self).theta_a@ == 0
                    &&& final(self).theta@ == to_rad_s(
                        old(self).params.value_of("theta0"@)@,
                    )
                    &&& final(self).length == old(self).params.value_of("L"@)
                    &&& final(self).g == old(self).params.value_of("g"@)
                    &&& final(self).dtime == old(self).params.value_of("dtime"@)
                },
                Err(e) => {
                    &&& *final(self) == *old(self)
                    &&& (e == NumericalError::ParameterNotFound && !simple_keys_present(
                        old(self).params,
                    )) || (e == NumericalError::InvalidParameterValue
                        && simple_keys_present(old(self).params) && !simple_params_ok(
                        old(self).params.value_of("theta0"@)@,
                        old(self).params.value_of("L"@)@,
                        old(self).params.value_of("g"@)@,
                        old(self).params.value_of("dtime"@)@,
                    ))
                },
            },
    {
        let th0 = match self.params.get_by_key(&("theta0".to_owned())) {
            Ok(v) => v,
            Err(e) => {
                return Err(e);
            },
        };
        let l = match self.params.get_by_key(&("L".to_owned())) {
            Ok(v) => v,
            Err(e) => {
                return Err(e);
            },
        };
        let g = match self.params.get_by_key(&("g".to_owned())) {
            Ok(v) => v,
            Err(e) => {
                return Err(e);
            },
        };
        let dt = match self.params.get_by_key(&("dtime".to_owned())) {
            Ok(v) => v,
            Err(e) => {
                return Err(e);
            },
        };
        if th0.raw > THETA0_MAX || th0.raw < -THETA0_MAX || l.raw < LENGTH_MIN || l.raw
            > LENGTH_MAX || g.raw < 0 || g.raw > GRAVITY_MAX || dt.raw < 1 || dt.raw > SCALE {
            return Err(NumericalError::InvalidParameterValue);
        }
        proof {
            lemma_fmul_mag(th0@, RAD_PER_DEG as int, THETA0_MAX as int, RAD_PER_DEG as int);
        }
        self.phase = Phase::Ready;
        self.time = Fx::zero();
        self.dtime = dt;
        self.theta = fx_mul(th0, Fx { raw: RAD_PER_DEG });
        self.theta_v = Fx::zero();
        self.theta_a = Fx::zero();
        self.length = l;
        self.g = g;
        Ok(())
    }

    /// Advance the state by one time delta: acceleration from the current
    /// angle, velocity from the acceleration, angle from the new velocity.
    pub fn step(&mut self) -> (r: Result<(), NumericalError>)
        requires
            old(self).inv(),
            old(self).phase != Phase::Uninitialized,
        ensures
            final(self).inv(),
            match r {
                Ok(()) => {
                    &&& simple_step_fits(*old(self))
                    &&& final(self).phase == Phase::Stepping
                    &&& final(self).time@ == old(self).time@ + old(self).dtime@
                    &&& final(self).theta_a@ == simple_accel_s(*old(self))
                    &&& final(self).theta_v@ == simple_tv_next(*old(self))
                    &&& final(self).theta@ == simple_th_next(*old(self))
                    &&& final(self).params == old(self).params
                    &&& final(self).length == old(self).length
                    &&& final(self).g == old(self).g
                    &&& final(self).dtime == old(self).dtime
                },
                Err(e) => {
                    &&& e == NumericalError::Overflow
                    &&& *final(self) == *old(self)
                    &&& !simple_step_fits(*old(self))
                },
            },
    {
        let t2 = fx_add_bounded(self.time, self.dtime, STATE_LIMIT);
        proof {
            lemma_fmul_mag(self.g@, sin_s(self.theta@), GRAVITY_MAX as int, TRIG_CLAMP as int);
            lemma_fdiv_mag(
                fmul_s(self.g@, sin_s(self.theta@)),
                self.length@,
                274877907968,
                LENGTH_MIN as int,
            );
        }
        let sth = sin_fx(self.theta);
        let num = fx_mul(self.g, sth);
        let ta = fx_neg(fx_div(num, self.length));
        proof {
            lemma_fmul_mag(ta@, self.dtime@, 17592186109952, SCALE as int);
        }
        let dv = fx_mul(ta, self.dtime);
        let tv2 = fx_add_bounded(self.theta_v, dv, STATE_LIMIT);
        match (t2, tv2) {
            (Some(tn), Some(tv)) => {
                proof {
                    lemma_fmul_mag(tv@, self.dtime@, STATE_LIMIT as int, SCALE as int);
                }
                let dth = fx_mul(tv, self.dtime);
                match fx_add_bounded(self.theta, dth, STATE_LIMIT) {
                    Some(th) => {
                        self.phase = Phase::Stepping;
                        self.time = tn;
                        self.theta_a = ta;
                        self.theta_v = tv;
                        self.theta = th;
                        Ok(())
                    },
                    None => Err(NumericalError::Overflow),
                }
            },
            _ => Err(NumericalError::Overflow),
        }
    }

    /// The elapsed simulation time.
    pub fn time(&self) -> (t: Fx)
        ensures
            t == self.time,
    {
        self.time
    }

    /// The model's display name.
    pub fn label(&self) -> &'static str {
        "Simple Pendulum"
    }
}

/// In a list with distinct keys, the looked-up index of the key at `i` is
/// `i` itself, so the looked-up value is the entry's value.
pub proof fn lemma_key_lookup(p: ParamList, i: int)
    requires
        p.wf(),
        0 <= i < p.params@.len(),
    ensures
        p.has_key(p.key_at(i)),
        p.value_of(p.key_at(i)) == p.params@[i].value,
{
    assert(p.has_key(p.key_at(i)));
    let w = p.index_of(p.key_at(i));
    assert(0 <= w < p.params@.len() && p.key_at(w) == p.key_at(i));
    if w < i {
        assert(p.key_at(w) != p.key_at(i));
    }
    if i < w {
        assert(p.key_at(i) != p.key_at(w));
    }
}

impl Parametrized for SimplePendulumModel {
    open spec fn params_view(&self) -> Seq<Param> {
        self.params.params@
    }

    open spec fn same_but_params(&self, other: &Self) -> bool {
        self.phase == other.phase && self.time == other.time && self.dtime == other.dtime
            && self.theta == other.theta && self.theta_v == other.theta_v && self.theta_a
            == other.theta_a && self.length == other.length && self.g == other.g
    }

    fn copy_params_from(&mut self, other: &ParamList) {
        self.params.copy_from(other);
    }

    fn get_params(&self) -> (r: ParamList) {
        self.params.duplicate()
    }
}

impl PendulumModel for SimplePendulumModel {
    open spec fn wf(&self) -> bool {
        self.inv()
    }

    open spec fn spec_time(&self) -> int {
        self.time@
    }

    open spec fn spec_phase(&self) -> Phase {
        self.phase
    }

    fn label(&self) -> &'static str {
        "Simple Pendulum"
    }

    fn time(&self) -> (t: Fx) {
        self.time
    }

    fn restart(&mut self) -> (r: Result<(), NumericalError>) {
        self.restart()
    }

    fn step(&mut self) -> (r: Result<(), NumericalError>) {
        self.step()
    }
}

impl ParametrizedModel for SimplePendulumModel {

}

} // verus!
