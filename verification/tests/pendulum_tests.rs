//! The pendulum models: the default-parameter scenario, energy behaviour
//! of the Euler rule at small angles, the closed-form coupled modes, and
//! the accuracy gap between Runge-Kutta and Euler stepping.
use simcore::coupled_pendulums::CoupledPendulumsModel;
use simcore::double_pendulum::DoublePendulumModel;
use simcore::elastic_pendulum::ElasticPendulumModel;
use simcore::fixed::Fx;
use simcore::params::{ParamList, Parametrized};
use simcore::simple_pendulum::SimplePendulumModel;
use simcore::NumericalError;

fn fx(v: f64) -> Fx {
    Fx::from_raw((v * 4294967296.0).round() as i64)
}

fn fl(v: Fx) -> f64 {
    v.raw as f64 / 4294967296.0
}

#[test]
fn simple_pendulum_default_first_step() {
    let mut m = SimplePendulumModel::new();
    m.restart().unwrap();
    assert!((fl(m.theta) - 0.785398).abs() < 1e-5);
    assert_eq!(m.theta_v.raw, 0);
    m.step().unwrap();
    let tv = -9.81 * 0.785398f64.sin() / 1.0 * 0.05;
    let th = 0.785398 + tv * 0.05;
    assert!((fl(m.theta_v) - tv).abs() < 1e-5, "theta_v {}", fl(m.theta_v));
    assert!((fl(m.theta) - th).abs() < 1e-5, "theta {}", fl(m.theta));
    assert!((fl(m.time()) - 0.05).abs() < 1e-8);
}

#[test]
fn simple_pendulum_small_angle_energy_drift_is_small() {
    let mut m = SimplePendulumModel::new();
    m.params.set(0, fx(3.0));
    m.params.set(3, fx(0.01));
    m.restart().unwrap();
    let energy = |m: &SimplePendulumModel| {
        let l = fl(m.length);
        let g = fl(m.g);
        0.5 * l * l * fl(m.theta_v) * fl(m.theta_v) + g * l * (1.0 - fl(m.theta).cos())
    };
    let e0 = energy(&m);
    let mut max_drift = 0.0f64;
    for _ in 0..2000 {
        m.step().unwrap();
        let e = energy(&m);
        max_drift = max_drift.max((e - e0).abs());
    }
    assert!(max_drift < 1e-3, "drift {max_drift}");
    assert!(max_drift > 0.0, "the Euler rule does drift");
}

#[test]
fn restart_rejects_missing_and_invalid_parameters() {
    let mut m = SimplePendulumModel::new();
    let mut incomplete = ParamList::new();
    incomplete.push("theta0", "t", fx(45.0), "");
    m.copy_params_from(&incomplete);
    assert_eq!(m.restart().unwrap_err(), NumericalError::ParameterNotFound);
    let mut m2 = SimplePendulumModel::new();
    m2.params.set(1, fx(0.0));
    assert_eq!(
        m2.restart().unwrap_err(),
        NumericalError::InvalidParameterValue
    );
}

#[test]
fn get_params_round_trips() {
    let m = SimplePendulumModel::new();
    let p = m.get_params();
    assert_eq!(p.len(), 4);
    assert_eq!(p.get_by_key(&"g".to_owned()).unwrap(), Fx::from_ratio(981, 100));
    let mut m2 = SimplePendulumModel::new();
    m2.copy_params_from(&p);
    assert!(m2.restart().is_ok());
}

#[test]
fn elastic_pendulum_first_step_accelerations() {
    let mut m = ElasticPendulumModel::new();
    m.restart().unwrap();
    m.step().unwrap();
    let th0 = 45.0f64.to_radians();
    let xa = 9.81 * th0.cos();
    let ta = -9.81 * th0.sin() / 1.0;
    assert!((fl(m.x_a) - xa).abs() < 1e-5, "x_a {}", fl(m.x_a));
    assert!((fl(m.theta_a) - ta).abs() < 1e-5, "theta_a {}", fl(m.theta_a));
}

#[test]
fn elastic_pendulum_oscillates_and_stays_finite() {
    let mut m = ElasticPendulumModel::new();
    m.restart().unwrap();
    let mut min_x = f64::MAX;
    let mut max_x = f64::MIN;
    for _ in 0..200 {
        m.step().unwrap();
        min_x = min_x.min(fl(m.x));
        max_x = max_x.max(fl(m.x));
    }
    assert!(max_x > 0.1 && min_x < 0.4, "spring must stretch and recoil");
    assert!(max_x < 2.0 && min_x > -2.0);
}

#[test]
fn coupled_pendulums_follow_the_in_phase_mode() {
    let mut m = CoupledPendulumsModel::new();
    m.restart().unwrap();
    let a = fl(m.theta1) + fl(m.theta2);
    let om1 = fl(m.omega1);
    assert!((om1 - (9.81f64 / 1.0).sqrt()).abs() < 1e-6);
    for _ in 0..50 {
        m.step().unwrap();
        let want = a * (om1 * fl(m.time())).cos();
        let got = fl(m.theta1) + fl(m.theta2);
        assert!((got - want).abs() < 1e-6, "{got} vs {want}");
    }
}

#[test]
fn coupled_pendulums_equal_angles_swing_together() {
    let mut m = CoupledPendulumsModel::new();
    m.params.set(0, fx(20.0));
    m.params.set(1, fx(20.0));
    m.restart().unwrap();
    for _ in 0..40 {
        m.step().unwrap();
        assert!((fl(m.theta1) - fl(m.theta2)).abs() < 1e-7);
    }
}

#[test]
fn double_pendulum_rk4_beats_euler_at_small_angles() {
    let dt = 0.05f64;
    let steps = 40usize;
    let mut rk = DoublePendulumModel::new();
    rk.params.set(0, fx(2.0));
    rk.params.set(1, fx(2.0));
    rk.params.set(3, fx(0.02));
    rk.params.set(4, fx(dt));
    rk.restart().unwrap();

    let mut fine = DoublePendulumModel::new();
    fine.params.set(0, fx(2.0));
    fine.params.set(1, fx(2.0));
    fine.params.set(3, fx(0.02));
    fine.params.set(4, fx(dt / 100.0));
    fine.restart().unwrap();

    let mut eu = DoublePendulumModel::new();
    eu.params.set(0, fx(2.0));
    eu.params.set(1, fx(2.0));
    eu.params.set(3, fx(0.02));
    eu.params.set(4, fx(dt));
    eu.restart().unwrap();
    let mut est = (eu.theta1, eu.omega1, eu.theta2, eu.omega2);

    for _ in 0..steps {
        rk.step().unwrap();
        let k = eu.derivative(est.0, est.1, est.2, est.3);
        est = (
            fx(fl(est.0) + fl(k.0) * dt),
            fx(fl(est.1) + fl(k.1) * dt),
            fx(fl(est.2) + fl(k.2) * dt),
            fx(fl(est.3) + fl(k.3) * dt),
        );
    }
    for _ in 0..steps * 100 {
        fine.step().unwrap();
    }
    let rk_err = (fl(rk.theta1) - fl(fine.theta1)).abs();
    let eu_err = (fl(est.0) - fl(fine.theta1)).abs();
    assert!(rk_err < 1e-4, "rk4 error {rk_err}");
    assert!(eu_err > rk_err * 10.0, "rk4 {rk_err} vs euler {eu_err}");
}

#[test]
fn double_pendulum_first_step_matches_reference_equations() {
    fn deriv(st: [f64; 4], l: f64, m: f64) -> [f64; 4] {
        let d = st[2] - st[0];
        let f2 = (m * d.sin() * (l * st[3] * st[3] + st[2].sin())
            + m * (2.0 * d).sin() * st[1] * st[1] / 2.0
            - st[0].sin())
            / (1.0 + m * d.sin() * d.sin());
        let f4 = -(st[2].sin() + d.sin() * st[1] * st[1] + d.cos() * f2) / l;
        [st[1], f2, st[3], f4]
    }
    let l = 1.0f64;
    let mass = 1.0f64;
    let dt = 0.05f64;
    let st = [
        (30.0f64).to_radians(),
        0.0,
        (45.0f64).to_radians(),
        0.0,
    ];
    let k1 = deriv(st, l, mass);
    let mut s2 = [0.0f64; 4];
    let mut s3 = [0.0f64; 4];
    let mut s4 = [0.0f64; 4];
    for i in 0..4 {
        s2[i] = st[i] + k1[i] * dt / 2.0;
    }
    let k2 = deriv(s2, l, mass);
    for i in 0..4 {
        s3[i] = st[i] + k2[i] * dt / 2.0;
    }
    let k3 = deriv(s3, l, mass);
    for i in 0..4 {
        s4[i] = st[i] + k3[i] * dt;
    }
    let k4 = deriv(s4, l, mass);
    let mut want = [0.0f64; 4];
    for i in 0..4 {
        want[i] = st[i] + (k1[i] + 2.0 * (k2[i] + k3[i]) + k4[i]) * dt / 6.0;
    }
    let mut m = DoublePendulumModel::new();
    m.restart().unwrap();
    m.step().unwrap();
    assert!((fl(m.theta1) - want[0]).abs() < 1e-5, "theta1 {}", fl(m.theta1));
    assert!((fl(m.omega1) - want[1]).abs() < 1e-5, "omega1 {}", fl(m.omega1));
    assert!((fl(m.theta2) - want[2]).abs() < 1e-5, "theta2 {}", fl(m.theta2));
    assert!((fl(m.omega2) - want[3]).abs() < 1e-5, "omega2 {}", fl(m.omega2));
}

#[test]
fn runaway_state_reports_overflow() {
    let mut m = SimplePendulumModel::new();
    m.params.set(0, fx(36000.0));
    m.params.set(1, fx(1.0 / 64.0));
    m.params.set(2, fx(64.0));
    m.params.set(3, fx(1.0));
    m.restart().unwrap();
    let mut hit = false;
    for _ in 0..50 {
        match m.step() {
            Ok(()) => {},
            Err(e) => {
                assert_eq!(e, NumericalError::Overflow);
                hit = true;
                break;
            },
        }
    }
    assert!(hit, "the runaway velocity must leave the representable range");
}

#[test]
fn step_before_restart_then_after() {
    let mut m = DoublePendulumModel::new();
    m.restart().unwrap();
    assert_eq!(m.time.raw, 0);
    m.step().unwrap();
    m.step().unwrap();
    assert!((fl(m.time) - 0.1).abs() < 1e-8);
}
