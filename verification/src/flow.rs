//! Dimensionless compressible-flow functions of the velocity coefficient
//! lambda, for a ratio of specific heats of 7/5: the temperature ratio tau,
//! pressure ratio pi, density ratio eps, mass-flow density q, the impulse
//! function phi and the flow function y, with the derivatives the inverse
//! solver needs.  With that ratio the exponents are halves of integers, so
//! every power is a product of squares and one square root.
use crate::elementary::{ln_fx, ln_s};
use crate::fixed::{
    fdiv_s, fmul_s, fx_div, fx_mul, fx_sqrt, fsqrt_s, iabs, lemma_fdiv_mag,
    lemma_fmul_mag, lemma_fmul_nonneg, lemma_isqrt_mag, lemma_tdiv_mag, lemma_tdiv_sign, tdiv,
    tdiv_i128, Fx, SCALE,
};
use vstd::prelude::*;

verus! {

/// Least velocity coefficient the flow functions accept: one sixteenth.
pub const LAMBDA_LO: i64 = 268435456;

/// Greatest velocity coefficient the flow functions accept, just inside the
/// physical limit where the temperature ratio reaches zero.
pub const LAMBDA_HI: i64 = 10468982784;

/// Magnitude bound of every flow-function value on the accepted domain.
pub const FLOW_BOUND: i64 = 4398046511104;

/// Least temperature ratio on the accepted domain.
pub const TAU_MIN: i64 = 41943040;

/// The six flow functions, chosen by name.
#[derive(Clone, Copy, PartialEq, Eq, Structural, Debug)]
pub enum FlowFunctionId {
    /// Temperature ratio.
    Tau,
    /// Pressure ratio.
    Pi,
    /// Density ratio.
    Eps,
    /// Mass-flow density.
    Q,
    /// Impulse function.
    Phi,
    /// Flow function, the ratio of `q` to `pi`.
    Y,
}

/// Raw temperature ratio: `1 - lambda^2 / 6`.
pub open spec fn tau_s(x: int) -> int {
    SCALE as int - tdiv(fmul_s(x, x), 6)
}

/// Raw `t^(3/2)`.
pub open spec fn pow15_s(t: int) -> int {
    fmul_s(t, fsqrt_s(t))
}

/// Raw `t^(5/2)`.
pub open spec fn pow25_s(t: int) -> int {
    fmul_s(fmul_s(t, t), fsqrt_s(t))
}

/// Raw `t^(7/2)`.
pub open spec fn pow35_s(t: int) -> int {
    fmul_s(fmul_s(t, fmul_s(t, t)), fsqrt_s(t))
}

/// Raw value of the constant `(6/5)^(5/2)` that normalises `q`.
pub open spec fn cq_s() -> int {
    pow25_s(tdiv(6 * (SCALE as int), 5))
}

/// Raw density ratio: `tau^(5/2)`.
pub open spec fn eps_s(x: int) -> int {
    pow25_s(tau_s(x))
}

/// Raw pressure ratio: `tau^(7/2)`.
pub open spec fn pi_s(x: int) -> int {
    pow35_s(tau_s(x))
}

/// Raw mass-flow density: `eps * lambda * (6/5)^(5/2)`.
pub open spec fn q_s(x: int) -> int {
    fmul_s(fmul_s(eps_s(x), x), cq_s())
}

/// Raw impulse function: `1 / lambda^2 + 2 ln lambda`.
pub open spec fn phi_s(x: int) -> int {
    fdiv_s(SCALE as int, fmul_s(x, x)) + 2 * ln_s(x)
}

/// Raw flow function: `q / pi`, zero where the pressure ratio has rounded
/// down to the last few raw units.
pub open spec fn y_s(x: int) -> int {
    if pi_s(x) < 64 {
        0
    } else {
        fdiv_s(q_s(x), pi_s(x))
    }
}

/// Raw derivative of `q`: `(1 - lambda^2) * (6/5)^(5/2) * tau^(3/2)`.
pub open spec fn dq_s(x: int) -> int {
    fmul_s(fmul_s(SCALE as int - fmul_s(x, x), cq_s()), pow15_s(tau_s(x)))
}

/// Raw derivative of `phi`: `2 (1 - 1 / lambda^2) / lambda`.
pub open spec fn dphi_s(x: int) -> int {
    fdiv_s(2 * (SCALE as int - fdiv_s(SCALE as int, fmul_s(x, x))), x)
}

/// Raw derivative of `y`: `(6/5)^(5/2) * (1 + lambda^2 / 3) / tau`.
pub open spec fn dy_s(x: int) -> int {
    fmul_s(cq_s(), fdiv_s(SCALE as int + tdiv(fmul_s(x, x), 3), tau_s(x)))
}

/// Raw value of the flow function chosen by `f`.
pub open spec fn flow_eval_s(f: FlowFunctionId, x: int) -> int {
    match f {
        FlowFunctionId::Tau => tau_s(x),
        FlowFunctionId::Pi => pi_s(x),
        FlowFunctionId::Eps => eps_s(x),
        FlowFunctionId::Q => q_s(x),
        FlowFunctionId::Phi => phi_s(x),
        FlowFunctionId::Y => y_s(x),
    }
}

/// Raw derivative of the flow function chosen by `f`; only the three that
/// the iterative inverse solver handles have one.
pub open spec fn flow_deriv_s(f: FlowFunctionId, x: int) -> int {
    match f {
        FlowFunctionId::Q => dq_s(x),
        FlowFunctionId::Phi => dphi_s(x),
        FlowFunctionId::Y => dy_s(x),
        _ => 0,
    }
}

/// The velocity coefficient lies in the accepted domain.
pub open spec fn lambda_in_domain(x: int) -> bool {
    LAMBDA_LO as int <= x <= LAMBDA_HI as int
}

/// Temperature ratio, bounded away from zero on the accepted domain.
pub fn tau(lambda: Fx) -> (r: Fx)
    requires
        lambda_in_domain(lambda@),
    ensures
        r@ == tau_s(lambda@),
        TAU_MIN as int <= r@ <= SCALE as int,
{
    proof {
        lemma_fmul_mag(lambda@, lambda@, LAMBDA_HI as int, LAMBDA_HI as int);
        lemma_fmul_nonneg(lambda@, lambda@);
        lemma_tdiv_mag(fmul_s(lambda@, lambda@), 6, 25518145536, 6);
        lemma_tdiv_sign(fmul_s(lambda@, lambda@), 6);
    }
    let x2 = fx_mul(lambda, lambda);
    let h: i64 = tdiv_i128(x2.raw as i128, 6) as i64;
    Fx { raw: SCALE - h }
}

/// `t^(3/2)` for `t` in `[0, 1]`.
fn pow15(t: Fx) -> (r: Fx)
    requires
        0 <= t@ <= SCALE as int,
    ensures
        r@ == pow15_s(t@),
        0 <= r@ <= SCALE as int,
{
    proof {
        lemma_isqrt_mag(t@ * (SCALE as int), SCALE as int);
        assert(t@ * (SCALE as int) < (SCALE as int + 1) * (SCALE as int + 1))
            by (nonlinear_arith)
            requires
                0 <= t@ <= SCALE as int,
        ;
        lemma_fmul_mag(t@, fsqrt_s(t@), SCALE as int, SCALE as int);
        lemma_fmul_nonneg(t@, fsqrt_s(t@));
    }
    let s = fx_sqrt(t);
    fx_mul(t, s)
}

/// `t^(5/2)` for `t` in `[0, 1]`.
fn pow25(t: Fx) -> (r: Fx)
    requires
        0 <= t@ <= SCALE as int,
    ensures
        r@ == pow25_s(t@),
        0 <= r@ <= SCALE as int,
{
    proof {
        lemma_isqrt_mag(t@ * (SCALE as int), SCALE as int);
        assert(t@ * (SCALE as int) < (SCALE as int + 1) * (SCALE as int + 1))
            by (nonlinear_arith)
            requires
                0 <= t@ <= SCALE as int,
        ;
        lemma_fmul_mag(t@, t@, SCALE as int, SCALE as int);
        lemma_fmul_nonneg(t@, t@);
        lemma_fmul_mag(fmul_s(t@, t@), fsqrt_s(t@), SCALE as int, SCALE as int);
        lemma_fmul_nonneg(fmul_s(t@, t@), fsqrt_s(t@));
    }
    let s = fx_sqrt(t);
    let t2 = fx_mul(t, t);
    fx_mul(t2, s)
}

/// `t^(7/2)` for `t` in `[0, 1]`.
fn pow35(t: Fx) -> (r: Fx)
    requires
        0 <= t@ <= SCALE as int,
    ensures
        r@ == pow35_s(t@),
        0 <= r@ <= SCALE as int,
{
    proof {
        lemma_isqrt_mag(t@ * (SCALE as int), SCALE as int);
        assert(t@ * (SCALE as int) < (SCALE as int + 1) * (SCALE as int + 1))
            by (nonlinear_arith)
            requires
                0 <= t@ <= SCALE as int,
        ;
        lemma_fmul_mag(t@, t@, SCALE as int, SCALE as int);
        lemma_fmul_nonneg(t@, t@);
        lemma_fmul_mag(t@, fmul_s(t@, t@), SCALE as int, SCALE as int);
        lemma_fmul_nonneg(t@, fmul_s(t@, t@));
        lemma_fmul_mag(
            fmul_s(t@, fmul_s(t@, t@)),
            fsqrt_s(t@),
            SCALE as int,
            SCALE as int,
        );
        lemma_fmul_nonneg(fmul_s(t@, fmul_s(t@, t@)), fsqrt_s(t@));
    }
    let s = fx_sqrt(t);
    let t2 = fx_mul(t, t);
    let t3 = fx_mul(t, t2);
    fx_mul(t3, s)
}

/// The constant `(6/5)^(5/2)`.
fn cq() -> (r: Fx)
    ensures
        r@ == cq_s(),
        0 <= r@ <= 2 * (SCALE as int),
{
    let c = Fx { raw: 5153960755 };
    proof {
        assert(tdiv(6 * (SCALE as int), 5) == 5153960755);
        lemma_isqrt_mag(c@ * (SCALE as int), 6 * (SCALE as int) / 5 + 1);
        assert(c@ * (SCALE as int) < (6 * (SCALE as int) / 5 + 2) * (6 * (SCALE as int) / 5
            + 2)) by (nonlinear_arith)
            requires
                c@ == 5153960755,
                SCALE == 4294967296,
        ;
        lemma_fmul_mag(c@, c@, 5153960755, 5153960755);
        lemma_fmul_nonneg(c@, c@);
        lemma_fmul_mag(fmul_s(c@, c@), fsqrt_s(c@), 6184752906, 5153960757);
        lemma_fmul_nonneg(fmul_s(c@, c@), fsqrt_s(c@));
    }
    let s = fx_sqrt(c);
    let c2 = fx_mul(c, c);
    fx_mul(c2, s)
}

/// Density ratio.
pub fn eps(lambda: Fx) -> (r: Fx)
    requires
        lambda_in_domain(lambda@),
    ensures
        r@ == eps_s(lambda@),
        0 <= r@ <= SCALE as int,
{
    let t = tau(lambda);
    pow25(t)
}

/// Pressure ratio.
pub fn pi(lambda: Fx) -> (r: Fx)
    requires
        lambda_in_domain(lambda@),
    ensures
        r@ == pi_s(lambda@),
        0 <= r@ <= SCALE as int,
{
    let t = tau(lambda);
    pow35(t)
}

/// Mass-flow density.
pub fn q(lambda: Fx) -> (r: Fx)
    requires
        lambda_in_domain(lambda@),
    ensures
        r@ == q_s(lambda@),
        iabs(r@) <= 20937965568,
{
    let e = eps(lambda);
    proof {
        lemma_fmul_mag(e@, lambda@, SCALE as int, LAMBDA_HI as int);
        lemma_fmul_nonneg(e@, lambda@);
    }
    let t1 = fx_mul(e, lambda);
    let c = cq();
    proof {
        lemma_fmul_mag(t1@, c@, LAMBDA_HI as int, 2 * (SCALE as int));
    }
    fx_mul(t1, c)
}

/// Impulse function.
pub fn phi(lambda: Fx) -> (r: Fx)
    requires
        lambda_in_domain(lambda@),
    ensures
        r@ == phi_s(lambda@),
        iabs(r@) <= FLOW_BOUND as int,
{
    proof {
        lemma_fmul_mag(lambda@, lambda@, LAMBDA_HI as int, LAMBDA_HI as int);
        assert(lambda@ * lambda@ >= (LAMBDA_LO as int) * (LAMBDA_LO as int))
            by (nonlinear_arith)
            requires
                lambda@ >= LAMBDA_LO as int,
                LAMBDA_LO == 268435456,
        ;
        vstd::arithmetic::div_mod::lemma_div_is_ordered(
            (LAMBDA_LO as int) * (LAMBDA_LO as int),
            lambda@ * lambda@,
            SCALE as int,
        );
        lemma_fdiv_mag(SCALE as int, fmul_s(lambda@, lambda@), SCALE as int, 16777216);
        lemma_tdiv_sign(SCALE as int * (SCALE as int), fmul_s(lambda@, lambda@));
    }
    let x2 = fx_mul(lambda, lambda);
    let inv = fx_div(Fx { raw: SCALE }, x2);
    let l = ln_fx(lambda);
    Fx { raw: inv.raw + 2 * l.raw }
}

/// Flow function `y = q / pi`.
pub fn y(lambda: Fx) -> (r: Fx)
    requires
        lambda_in_domain(lambda@),
    ensures
        r@ == y_s(lambda@),
        iabs(r@) <= i64::MAX as int,
{
    let qv = q(lambda);
    let pv = pi(lambda);
    if pv.raw < 64 {
        Fx { raw: 0 }
    } else {
        proof {
            lemma_fdiv_mag(qv@, pv@, 20937965568, 64);
        }
        fx_div(qv, pv)
    }
}

/// Derivative of the mass-flow density.
pub fn dq(lambda: Fx) -> (r: Fx)
    requires
        lambda_in_domain(lambda@),
    ensures
        r@ == dq_s(lambda@),
        iabs(r@) <= 120259084288,
{
    proof {
        lemma_fmul_mag(lambda@, lambda@, LAMBDA_HI as int, LAMBDA_HI as int);
        lemma_fmul_nonneg(lambda@, lambda@);
    }
    let x2 = fx_mul(lambda, lambda);
    let a = Fx { raw: SCALE - x2.raw };
    let c = cq();
    proof {
        lemma_fmul_mag(a@, c@, 29813112832, 2 * (SCALE as int));
    }
    let b = fx_mul(a, c);
    let t = tau(lambda);
    let p = pow15(t);
    proof {
        lemma_fmul_mag(b@, p@, 59626225664, SCALE as int);
    }
    fx_mul(b, p)
}

/// Derivative of the impulse function.
pub fn dphi(lambda: Fx) -> (r: Fx)
    requires
        lambda_in_domain(lambda@),
    ensures
        r@ == dphi_s(lambda@),
        iabs(r@) <= 72057594037927936,
{
    proof {
        lemma_fmul_mag(lambda@, lambda@, LAMBDA_HI as int, LAMBDA_HI as int);
        assert(lambda@ * lambda@ >= (LAMBDA_LO as int) * (LAMBDA_LO as int))
            by (nonlinear_arith)
            requires
                lambda@ >= LAMBDA_LO as int,
                LAMBDA_LO == 268435456,
        ;
        vstd::arithmetic::div_mod::lemma_div_is_ordered(
            (LAMBDA_LO as int) * (LAMBDA_LO as int),
            lambda@ * lambda@,
            SCALE as int,
        );
        lemma_fdiv_mag(SCALE as int, fmul_s(lambda@, lambda@), SCALE as int, 16777216);
        lemma_tdiv_sign(SCALE as int * (SCALE as int), fmul_s(lambda@, lambda@));
    }
    let x2 = fx_mul(lambda, lambda);
    let inv = fx_div(Fx { raw: SCALE }, x2);
    let a = Fx { raw: 2 * (SCALE - inv.raw) };
    proof {
        lemma_fdiv_mag(a@, lambda@, 2207613190144, LAMBDA_LO as int);
    }
    fx_div(a, lambda)
}

/// Derivative of the flow function `y`.
pub fn dy(lambda: Fx) -> (r: Fx)
    requires
        lambda_in_domain(lambda@),
    ensures
        r@ == dy_s(lambda@),
        iabs(r@) <= 5277655813324,
{
    proof {
        lemma_fmul_mag(lambda@, lambda@, LAMBDA_HI as int, LAMBDA_HI as int);
        lemma_fmul_nonneg(lambda@, lambda@);
        lemma_tdiv_mag(fmul_s(lambda@, lambda@), 3, 25518145536, 3);
        lemma_tdiv_sign(fmul_s(lambda@, lambda@), 3);
    }
    let x2 = fx_mul(lambda, lambda);
    let h: i64 = tdiv_i128(x2.raw as i128, 3) as i64;
    let num = Fx { raw: SCALE + h };
    let t = tau(lambda);
    proof {
        lemma_fdiv_mag(num@, t@, 12801015808, TAU_MIN as int);
    }
    let r1 = fx_div(num, t);
    let c = cq();
    proof {
        lemma_fmul_mag(c@, r1@, 2 * (SCALE as int), 1310824036352);
    }
    fx_mul(c, r1)
}

/// Evaluate the flow function chosen by `f`.
pub fn evaluate(f: FlowFunctionId, lambda: Fx) -> (r: Fx)
    requires
        lambda_in_domain(lambda@),
    ensures
        r@ == flow_eval_s(f, lambda@),
        iabs(r@) <= i64::MAX as int,
{
    match f {
        FlowFunctionId::Tau => tau(lambda),
        FlowFunctionId::Pi => pi(lambda),
        FlowFunctionId::Eps => eps(lambda),
        FlowFunctionId::Q => q(lambda),
        FlowFunctionId::Phi => phi(lambda),
        FlowFunctionId::Y => y(lambda),
    }
}

} // verus!
