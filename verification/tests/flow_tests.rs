//! The flow functions and their inversion: round trips for every function,
//! both branches of the two-branched ones, and the typed failures.
use simcore::fixed::Fx;
use simcore::flow::{evaluate, FlowFunctionId};
use simcore::inverse::{invert, lambda_q, lambda_tau};
use simcore::roots::find_root;
use simcore::NumericalError;

fn fx(v: f64) -> Fx {
    Fx::from_raw((v * 4294967296.0).round() as i64)
}

fn fl(v: Fx) -> f64 {
    v.raw as f64 / 4294967296.0
}

#[test]
fn single_branch_round_trips() {
    for &(f, lam) in &[
        (FlowFunctionId::Tau, 1.0f64),
        (FlowFunctionId::Pi, 1.0),
        (FlowFunctionId::Eps, 1.0),
        (FlowFunctionId::Y, 1.0),
        (FlowFunctionId::Tau, 1.7),
        (FlowFunctionId::Pi, 0.4),
        (FlowFunctionId::Eps, 2.0),
    ] {
        let v = evaluate(f, fx(lam));
        let inv = invert(f, v).unwrap();
        assert!(
            (fl(inv.primary) - lam).abs() < 1e-4,
            "{f:?} at {lam}: got {}",
            fl(inv.primary)
        );
        assert!(inv.secondary.is_none());
        assert!(inv.converged);
    }
}

#[test]
fn two_branch_round_trips() {
    let v = evaluate(FlowFunctionId::Q, fx(0.7));
    let inv = invert(FlowFunctionId::Q, v).unwrap();
    assert!((fl(inv.primary) - 0.7).abs() < 1e-4);
    let vh = evaluate(FlowFunctionId::Q, fx(1.8));
    let invh = invert(FlowFunctionId::Q, vh).unwrap();
    assert!((fl(invh.secondary.unwrap()) - 1.8).abs() < 1e-4);
    let p = evaluate(FlowFunctionId::Phi, fx(0.6));
    let ip = invert(FlowFunctionId::Phi, p).unwrap();
    assert!((fl(ip.primary) - 0.6).abs() < 1e-4);
    let ph = evaluate(FlowFunctionId::Phi, fx(1.7));
    let iph = invert(FlowFunctionId::Phi, ph).unwrap();
    assert!((fl(iph.secondary.unwrap()) - 1.7).abs() < 1e-4);
}

#[test]
fn both_branches_solve_the_equation() {
    let inv = lambda_q(fx(0.6)).unwrap();
    let lo = inv.primary;
    let hi = inv.secondary.unwrap();
    assert!(inv.converged);
    assert!(fl(hi) - fl(lo) > 0.5, "branches must be distinct");
    assert!((fl(evaluate(FlowFunctionId::Q, lo)) - 0.6).abs() < 1e-6);
    assert!((fl(evaluate(FlowFunctionId::Q, hi)) - 0.6).abs() < 1e-6);
}

#[test]
fn branch_count_per_function() {
    for &(f, v) in &[
        (FlowFunctionId::Tau, 0.8f64),
        (FlowFunctionId::Pi, 0.5),
        (FlowFunctionId::Eps, 0.6),
        (FlowFunctionId::Y, 1.2),
    ] {
        assert!(invert(f, fx(v)).unwrap().secondary.is_none(), "{f:?}");
    }
    assert!(invert(FlowFunctionId::Q, fx(0.5)).unwrap().secondary.is_some());
    assert!(invert(FlowFunctionId::Phi, fx(1.4)).unwrap().secondary.is_some());
}

#[test]
fn known_flow_values() {
    assert!((fl(evaluate(FlowFunctionId::Tau, fx(1.0))) - 5.0 / 6.0).abs() < 1e-6);
    let pi1 = (5.0f64 / 6.0).powf(3.5);
    assert!((fl(evaluate(FlowFunctionId::Pi, fx(1.0))) - pi1).abs() < 1e-6);
    assert!((fl(evaluate(FlowFunctionId::Q, fx(1.0))) - 1.0).abs() < 1e-6);
    let phi06 = 1.0 / 0.36 + 2.0 * 0.6f64.ln();
    assert!((fl(evaluate(FlowFunctionId::Phi, fx(0.6))) - phi06).abs() < 1e-6);
}

#[test]
fn temperature_ratio_above_one_is_rejected() {
    assert_eq!(
        lambda_tau(fx(1.5)).unwrap_err(),
        NumericalError::InvalidParameterValue
    );
    assert_eq!(
        invert(FlowFunctionId::Pi, fx(0.0)).unwrap_err(),
        NumericalError::InvalidParameterValue
    );
    assert_eq!(
        invert(FlowFunctionId::Eps, fx(-0.5)).unwrap_err(),
        NumericalError::InvalidParameterValue
    );
}

#[test]
fn vanishing_derivative_is_reported() {
    let v = evaluate(FlowFunctionId::Q, fx(0.9));
    let r = find_root(FlowFunctionId::Q, v, fx(1.0), 10000, fx(1e-6));
    assert_eq!(r.unwrap_err(), NumericalError::SingularDerivative);
}

#[test]
fn divergence_is_reported() {
    let r = find_root(FlowFunctionId::Q, fx(100.0), fx(0.5), 10000, fx(1e-6));
    assert_eq!(r.unwrap_err(), NumericalError::NumericalNonConvergence);
}

#[test]
fn exhausted_budget_is_flagged_not_hidden() {
    let v = evaluate(FlowFunctionId::Q, fx(0.7));
    let r = find_root(FlowFunctionId::Q, v, fx(0.5), 2, fx(1e-12)).unwrap();
    assert!(!r.converged);
}
