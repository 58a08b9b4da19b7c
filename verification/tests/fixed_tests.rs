//! The fixed-point scalar and the elementary functions, checked against
//! ordinary floating-point references.
use simcore::elementary::{cos_fx, exp_fx, ln_fx, sin_fx};
use simcore::fixed::{fx_add, fx_div, fx_mul, fx_sqrt, fx_sub, Fx, SCALE};

fn fx(v: f64) -> Fx {
    Fx::from_raw((v * 4294967296.0).round() as i64)
}

fn fl(v: Fx) -> f64 {
    v.raw as f64 / 4294967296.0
}

#[test]
fn arithmetic_matches_reals() {
    let a = fx(2.75);
    let b = fx(-1.5);
    assert!((fl(fx_add(a, b)) - 1.25).abs() < 1e-9);
    assert!((fl(fx_sub(a, b)) - 4.25).abs() < 1e-9);
    assert!((fl(fx_mul(a, b)) + 4.125).abs() < 1e-9);
    assert!((fl(fx_div(a, b)) + 2.75 / 1.5).abs() < 1e-9);
}

#[test]
fn from_ratio_rounds_toward_zero() {
    let v = Fx::from_ratio(981, 100);
    assert!((fl(v) - 9.81).abs() < 1e-9);
    let w = Fx::from_ratio(1, 20);
    assert!((fl(w) - 0.05).abs() < 1e-9);
}

#[test]
fn square_root_is_accurate() {
    for &v in &[0.25f64, 0.5, 1.0, 2.0, 9.81, 1000.0] {
        let r = fx_sqrt(fx(v));
        assert!((fl(r) - v.sqrt()).abs() < 1e-8, "sqrt({v})");
    }
    assert_eq!(fx_sqrt(Fx { raw: 0 }).raw, 0);
    assert_eq!(fx_sqrt(Fx { raw: SCALE }).raw, SCALE);
}

#[test]
fn sine_and_cosine_are_accurate() {
    let mut x = -10.0f64;
    while x <= 10.0 {
        assert!((fl(sin_fx(fx(x))) - x.sin()).abs() < 1e-7, "sin({x})");
        assert!((fl(cos_fx(fx(x))) - x.cos()).abs() < 1e-7, "cos({x})");
        x += 0.37;
    }
}

#[test]
fn logarithm_is_accurate() {
    for &v in &[1e-6f64, 0.01, 0.5, 1.0, 2.0, 9.81, 12345.678] {
        let want = fl(fx(v)).ln();
        assert!((fl(ln_fx(fx(v))) - want).abs() < 1e-7, "ln({v})");
    }
}

#[test]
fn exponential_is_accurate() {
    let mut x = -20.0f64;
    while x <= 19.0 {
        let want = x.exp();
        let got = fl(exp_fx(fx(x)));
        assert!(
            (got - want).abs() < 1e-6 + want * 1e-8,
            "exp({x}): {got} vs {want}"
        );
        x += 1.3;
    }
}
