//! The pipe wave model: grid layout after a reset and one hand-computed
//! characteristics step on a three-cell sealed pipe.
use simcore::fixed::Fx;
use simcore::pipe_model::{boundary_open, InitialShape, PipeModel};
use simcore::NumericalError;

fn fx(v: f64) -> Fx {
    Fx::from_raw((v * 4294967296.0).round() as i64)
}

fn fl(v: Fx) -> f64 {
    v.raw as f64 / 4294967296.0
}

#[test]
fn reset_lays_out_the_grid() {
    let mut m = PipeModel::new(fx(1.0), 4);
    m.reset().unwrap();
    assert_eq!(m.x.len(), 5);
    assert_eq!(m.x2.len(), 4);
    assert_eq!(m.u1.len(), 4);
    assert_eq!(m.p1.len(), 4);
    for i in 0..5 {
        assert!((fl(m.x[i]) - 0.25 * i as f64).abs() < 1e-6);
    }
    for i in 0..4 {
        assert!((fl(m.x2[i]) - (0.25 * i as f64 + 0.125)).abs() < 1e-6);
        assert_eq!(m.u1[i].raw, 0, "flat velocity profile");
    }
    assert!((fl(m.h) - 0.25).abs() < 1e-6);
    assert!((fl(m.tau) - 0.025).abs() < 1e-6);
}

#[test]
fn initial_profiles_fill_the_cells() {
    let mut m = PipeModel::new(fx(1.0), 3);
    m.set_initial_p(InitialShape::LeftHigh);
    m.set_initial_u(InitialShape::StepDown);
    m.reset().unwrap();
    assert!((fl(m.p1[0]) - 1.0).abs() < 1e-9);
    assert_eq!(m.p1[1].raw, 0);
    assert_eq!(m.p1[2].raw, 0);
    assert!((fl(m.u1[0]) - 1.0).abs() < 1e-9);
    assert!((fl(m.u1[1]) - 1.0).abs() < 1e-9);
    assert!((fl(m.u1[2]) + 1.0).abs() < 1e-9);
}

#[test]
fn one_step_on_a_sealed_pipe_matches_hand_computation() {
    let mut m = PipeModel::new(fx(1.0), 3);
    m.a = fx(1.0);
    m.rho = fx(1.0);
    m.sigma = fx(0.1);
    m.set_initial_u(InitialShape::Flat);
    m.set_initial_p(InitialShape::LeftHigh);
    m.reset().unwrap();
    m.step().unwrap();
    let want_u = [0.0f64, 0.5, 0.0, 0.0];
    let want_p = [1.0f64, 0.5, 0.0, 0.0];
    for i in 0..4 {
        assert!((fl(m.u[i]) - want_u[i]).abs() < 1e-6, "u[{i}] = {}", fl(m.u[i]));
        assert!((fl(m.p[i]) - want_p[i]).abs() < 1e-6, "p[{i}] = {}", fl(m.p[i]));
    }
    let want_u1 = [0.05f64, 0.05, 0.0];
    let want_p1 = [0.95f64, 0.05, 0.0];
    for i in 0..3 {
        assert!((fl(m.u1[i]) - want_u1[i]).abs() < 1e-6, "u1[{i}] = {}", fl(m.u1[i]));
        assert!((fl(m.p1[i]) - want_p1[i]).abs() < 1e-6, "p1[{i}] = {}", fl(m.p1[i]));
    }
    assert!((fl(m.time) - 0.1 / 3.0).abs() < 1e-6);
}

#[test]
fn waves_stay_bounded_over_many_steps() {
    let mut m = PipeModel::new(fx(1.0), 50);
    m.set_initial_p(InitialShape::MiddleHigh);
    m.reset().unwrap();
    for _ in 0..200 {
        m.step().unwrap();
        for i in 0..50 {
            assert!(fl(m.p1[i]).abs() < 4.0);
            assert!(fl(m.u1[i]).abs() < 4.0);
        }
    }
}

#[test]
fn open_tip_holds_the_pressure_at_zero() {
    let mut m = PipeModel::new(fx(1.0), 10);
    m.br = boundary_open();
    m.set_initial_p(InitialShape::LeftHigh);
    m.reset().unwrap();
    for _ in 0..40 {
        m.step().unwrap();
        assert_eq!(m.p[10].raw, 0, "an open tip carries no pressure");
        assert_eq!(m.u[0].raw, 0, "a sealed tip carries no velocity");
    }
}

#[test]
fn out_of_range_coefficients_are_rejected() {
    let mut m = PipeModel::new(fx(1.0), 3);
    m.sigma = fx(2.0);
    assert_eq!(m.reset().unwrap_err(), NumericalError::InvalidParameterValue);
    m.sigma = fx(0.1);
    assert!(m.reset().is_ok());
}
