//! The wave model: Fourier decomposition of the built-in surfaces, the
//! dispersion relation, the grid layout, and the points' motion in time.
use simcore::fixed::Fx;
use simcore::surface_functions::SurfaceKind;
use simcore::wave_model::WaveModel;
use simcore::NumericalError;

fn fx(v: f64) -> Fx {
    Fx::from_raw((v * 4294967296.0).round() as i64)
}

fn fl(v: Fx) -> f64 {
    v.raw as f64 / 4294967296.0
}

const PI: f64 = 3.14159265358979;

#[test]
fn reset_builds_the_decomposition_and_grid() {
    let mut m = WaveModel::make_model();
    m.reset().unwrap();
    assert_eq!(m.particles.len(), 50);
    assert_eq!(m.points.len(), 30 * 15);
    assert!((fl(m.particles[0].k) - PI).abs() < 1e-6);
    assert!((fl(m.particles[4].k) - 5.0 * PI).abs() < 1e-6);
    for i in 0..50 {
        let k = fl(m.particles[i].k);
        let want_s2 = 9.81 * k * (k * 0.3).tanh();
        assert!(
            (fl(m.particles[i].sigma2) - want_s2).abs() < 1e-3 * (1.0 + want_s2),
            "sigma2 of harmonic {i}"
        );
        let s = fl(m.particles[i].sigma);
        assert!((s * s - want_s2).abs() < 1e-3 * (1.0 + want_s2));
    }
}

#[test]
fn linear_surface_fourier_coefficients() {
    let mut m = WaveModel::make_model();
    m.reset().unwrap();
    let want_a0 = -0.4 / (PI * PI);
    assert!((fl(m.particles[0].a) - want_a0).abs() < 1e-3, "{}", fl(m.particles[0].a));
    assert!(fl(m.particles[1].a).abs() < 1e-3, "even harmonics vanish");
    let want_a2 = -0.4 / (9.0 * PI * PI);
    assert!((fl(m.particles[2].a) - want_a2).abs() < 1e-3);
}

#[test]
fn sine_surface_fourier_coefficients() {
    let mut m = WaveModel::make_model();
    m.set_surface_func(SurfaceKind::Sine);
    m.reset().unwrap();
    let want_a0 = 0.2 * 4.0 / (3.0 * PI);
    assert!((fl(m.particles[0].a) - want_a0).abs() < 1e-3, "{}", fl(m.particles[0].a));
    assert!(fl(m.particles[1].a).abs() < 1e-3, "orthogonal harmonic vanishes");
}

#[test]
fn grid_rest_positions_are_evenly_spaced() {
    let mut m = WaveModel::make_model();
    m.reset().unwrap();
    let dx = 1.0 / 29.0;
    let dz = 0.3 / 14.0;
    for idx in 0..(30 * 15) {
        let i = idx / 15;
        let j = idx % 15;
        let p = m.points[idx];
        assert!((fl(p.x0) - dx * i as f64).abs() < 1e-6);
        assert!((fl(p.z0) + dz * j as f64).abs() < 1e-6);
        assert!((fl(p.x) - fl(p.x0)).abs() < 0.5, "displacement stays modest");
        assert!((fl(p.z) - fl(p.z0)).abs() < 0.5);
    }
}

#[test]
fn stepping_moves_the_surface() {
    let mut m = WaveModel::make_model();
    m.reset().unwrap();
    let x_before: Vec<f64> = m.points.iter().map(|p| fl(p.x)).collect();
    for _ in 0..10 {
        m.step().unwrap();
    }
    assert!((fl(m.time) - 0.1).abs() < 1e-6);
    assert_eq!(m.frame, 10);
    let mut moved = 0usize;
    for (idx, p) in m.points.iter().enumerate() {
        if (fl(p.x) - x_before[idx]).abs() > 1e-6 {
            moved += 1;
        }
        assert!((fl(p.x) - fl(p.x0)).abs() < 0.5);
    }
    assert!(moved > 100, "most points move, {moved} did");
}

#[test]
fn out_of_range_amplitude_is_rejected() {
    let mut m = WaveModel::make_model();
    m.epsilon = fx(2.0);
    assert_eq!(m.reset().unwrap_err(), NumericalError::InvalidParameterValue);
    m.epsilon = fx(0.1);
    assert!(m.reset().is_ok());
}
