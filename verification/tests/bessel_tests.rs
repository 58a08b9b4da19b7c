//! The two computations of the second-kind Bessel function must agree, and
//! both must sit close to the literature values.
use simcore::bessel::{j0, y0_by_integration, y0_by_series};
use simcore::fixed::Fx;

fn fx(v: f64) -> Fx {
    Fx::from_raw((v * 4294967296.0).round() as i64)
}

fn fl(v: Fx) -> f64 {
    v.raw as f64 / 4294967296.0
}

#[test]
fn integration_and_series_agree_across_the_range() {
    for &x in &[0.5f64, 1.0, 2.0, 3.5, 5.0, 7.5, 10.0] {
        let a = fl(y0_by_integration(fx(x)).unwrap());
        let b = fl(y0_by_series(fx(x)).unwrap());
        assert!((a - b).abs() < 1e-4, "x = {x}: {a} vs {b}");
    }
}

#[test]
fn first_kind_matches_reference_values() {
    let cases = [(0.5f64, 0.938469807240813f64), (1.0, 0.765197686557967), (
        2.0,
        0.223890779141236,
    ), (5.0, -0.177596771314338)];
    for &(x, want) in &cases {
        let got = fl(j0(fx(x)).unwrap());
        assert!((got - want).abs() < 1e-4, "j0({x}): {got} vs {want}");
    }
}

#[test]
fn second_kind_matches_reference_values() {
    let cases = [(0.5f64, -0.444518733262063f64), (1.0, 0.088256964215677), (
        2.0,
        0.510375672649745,
    ), (5.0, -0.308517625249034)];
    for &(x, want) in &cases {
        let got = fl(y0_by_series(fx(x)).unwrap());
        assert!((got - want).abs() < 1e-3, "y0({x}): {got} vs {want}");
    }
}
