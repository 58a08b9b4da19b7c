//! Simpson quadrature: exactness on cubic polynomials, the defining
//! property of the composite rule.
use simcore::fixed::Fx;
use simcore::quadrature::{integrate, Integrand};

fn fx(v: f64) -> Fx {
    Fx::from_raw((v * 4294967296.0).round() as i64)
}

fn fl(v: Fx) -> f64 {
    v.raw as f64 / 4294967296.0
}

fn poly(c3: f64, c2: f64, c1: f64, c0: f64) -> Integrand {
    Integrand::Poly3 { c3: fx(c3), c2: fx(c2), c1: fx(c1), c0: fx(c0) }
}

fn exact_cubic(c3: f64, c2: f64, c1: f64, c0: f64, a: f64, b: f64) -> f64 {
    let anti = |x: f64| c3 * x.powi(4) / 4.0 + c2 * x.powi(3) / 3.0 + c1 * x * x / 2.0 + c0 * x;
    anti(b) - anti(a)
}

#[test]
fn cube_over_unit_interval_single_division() {
    let r = integrate(fx(0.0), fx(1.0), 1, &poly(1.0, 0.0, 0.0, 0.0)).unwrap();
    assert!((fl(r) - 0.25).abs() < 1e-4, "got {}", fl(r));
}

#[test]
fn cubics_are_exact_for_any_division_count() {
    for &divs in &[1u32, 2, 3, 7, 50, 1000] {
        let r = integrate(fx(0.0), fx(1.0), divs, &poly(2.5, -1.0, 3.0, 0.5)).unwrap();
        let want = exact_cubic(2.5, -1.0, 3.0, 0.5, 0.0, 1.0);
        assert!((fl(r) - want).abs() < 1e-4, "divs {divs}: {} vs {want}", fl(r));
    }
}

#[test]
fn cubic_over_shifted_interval() {
    let r = integrate(fx(-2.0), fx(3.0), 25, &poly(-0.75, 2.0, -1.0, 4.0)).unwrap();
    let want = exact_cubic(-0.75, 2.0, -1.0, 4.0, -2.0, 3.0);
    assert!((fl(r) - want).abs() < 1e-3, "{} vs {want}", fl(r));
}

#[test]
fn constant_integrand() {
    let r = integrate(fx(0.0), fx(2.0), 4, &poly(0.0, 0.0, 0.0, 1.5)).unwrap();
    assert!((fl(r) - 3.0).abs() < 1e-5);
}

#[test]
fn empty_interval_integrates_to_zero() {
    let r = integrate(fx(1.0), fx(1.0), 3, &poly(1.0, 1.0, 1.0, 1.0)).unwrap();
    assert_eq!(r.raw, 0);
}
