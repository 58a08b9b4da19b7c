//! Inversion of the flow functions: recover the velocity coefficient lambda
//! from a function value.  The temperature, pressure and density ratios
//! invert in closed form; the mass-flow density and the impulse function
//! have two physical branches and are solved twice by Newton-Raphson from
//! starting points on either side of their turning point; the flow function
//! `y` has one branch.
use crate::elementary::{exp_fx, exp_s, ln_fx, ln_s, EXP_MAX_ARG, LN_BOUND};
use crate::fixed::{
    fmul_s, fsqrt_s, fx_mul, fx_sqrt, iabs, lemma_fmul_mag, tdiv, Fx, SCALE,
};
use crate::flow::FlowFunctionId;
use crate::roots::{
    find_root, newton_iter_s, NEWTON_MAX_ITER, NEWTON_TOL_RAW, TARGET_BOUND,
};
use crate::NumericalError;
use vstd::prelude::*;

verus! {

/// Newton starting point for the branch below the turning point: one half.
pub const BRANCH_LOW_START: i64 = 2147483648;

/// Newton starting point for the branch above the turning point: three
/// halves.
pub const BRANCH_HIGH_START: i64 = 6442450944;

/// Newton starting point for the single-branch flow function `y`: one.
pub const Y_START: i64 = 4294967296;

/// The outcome of inverting a flow function: a primary coefficient, a
/// second branch for the functions that have one, and whether every solved
/// branch met the solver's tolerance.
#[derive(Clone, Copy, PartialEq, Eq, Debug)]
pub struct FlowInversion {
    /// The branch below the turning point, or the only branch.
    pub primary: Fx,
    /// The branch above the turning point, for the two-branched functions.
    pub secondary: Option<Fx>,
    /// Whether every solved branch converged; closed forms always do.
    pub converged: bool,
}

/// Raw closed-form inverse of the temperature ratio:
/// `lambda = sqrt(6 (1 - tau))`.
pub open spec fn lambda_tau_s(v: int) -> int {
    fsqrt_s(6 * (SCALE as int - v))
}

/// Raw temperature ratio recovered from a pressure ratio: `pi^(2/7)`.
pub open spec fn tau_of_pi_s(v: int) -> int {
    exp_s(fmul_s(ln_s(v), tdiv(2 * (SCALE as int), 7)))
}

/// Raw temperature ratio recovered from a density ratio: `eps^(2/5)`.
pub open spec fn tau_of_eps_s(v: int) -> int {
    exp_s(fmul_s(ln_s(v), tdiv(2 * (SCALE as int), 5)))
}

/// Invert the temperature ratio in closed form.  Rejects a ratio above one,
/// whose inverse would be imaginary.
pub fn lambda_tau(value: Fx) -> (r: Result<FlowInversion, NumericalError>)
    requires
        iabs(value@) <= TARGET_BOUND as int,
    ensures
        match r {
            Ok(inv) => value@ <= SCALE as int && inv.primary@ == lambda_tau_s(value@)
                && inv.secondary is None && inv.converged,
            Err(e) => e == NumericalError::InvalidParameterValue && value@ > SCALE as int,
        },
{
    if value.raw > SCALE {
        return Err(NumericalError::InvalidParameterValue);
    }
    let root = fx_sqrt(Fx { raw: 6 * (SCALE - value.raw) });
    Ok(FlowInversion { primary: root, secondary: None, converged: true })
}

/// Invert the pressure ratio in closed form through its recovered
/// temperature ratio.  Rejects ratios outside `(0, 1]` and a recovered
/// ratio that rounded above one.
pub fn lambda_pi(value: Fx) -> (r: Result<FlowInversion, NumericalError>)
    requires
        iabs(value@) <= TARGET_BOUND as int,
    ensures
        match r {
            Ok(inv) => 1 <= value@ <= SCALE as int && tau_of_pi_s(value@) <= SCALE as int
                && inv.primary@ == lambda_tau_s(tau_of_pi_s(value@)) && inv.secondary is None
                && inv.converged,
            Err(e) => e == NumericalError::InvalidParameterValue && (value@ < 1 || value@
                > SCALE as int || tau_of_pi_s(value@) > SCALE as int),
        },
{
    if value.raw < 1 || value.raw > SCALE {
        return Err(NumericalError::InvalidParameterValue);
    }
    let l = ln_fx(value);
    proof {
        assert(8589934592int / 7int == 1227133513int);
        assert(tdiv(2 * (SCALE as int), 7) == 1227133513);
        lemma_fmul_mag(l@, 1227133513, LN_BOUND as int, 1227133513);
    }
    let arg = fx_mul(l, Fx { raw: 1227133513 });
    let t = exp_fx(arg);
    if t.raw > SCALE {
        return Err(NumericalError::InvalidParameterValue);
    }
    let root = fx_sqrt(Fx { raw: 6 * (SCALE - t.raw) });
    Ok(FlowInversion { primary: root, secondary: None, converged: true })
}

/// Invert the density ratio in closed form through its recovered
/// temperature ratio.  Rejects ratios outside `(0, 1]` and a recovered
/// ratio that rounded above one.
pub fn lambda_eps(value: Fx) -> (r: Result<FlowInversion, NumericalError>)
    requires
        iabs(value@) <= TARGET_BOUND as int,
    ensures
        match r {
            Ok(inv) => 1 <= value@ <= SCALE as int && tau_of_eps_s(value@) <= SCALE as int
                && inv.primary@ == lambda_tau_s(tau_of_eps_s(value@)) && inv.secondary is None
                && inv.converged,
            Err(e) => e == NumericalError::InvalidParameterValue && (value@ < 1 || value@
                > SCALE as int || fmul_s(ln_s(value@), tdiv(2 * (SCALE as int), 5))
                > EXP_MAX_ARG as int || tau_of_eps_s(value@) > SCALE as int),
        },
{
    if value.raw < 1 || value.raw > SCALE {
        return Err(NumericalError::InvalidParameterValue);
    }
    let l = ln_fx(value);
    proof {
        assert(8589934592int / 5int == 1717986918int);
        assert(tdiv(2 * (SCALE as int), 5) == 1717986918);
        lemma_fmul_mag(l@, 1717986918, LN_BOUND as int, 1717986918);
    }
    let arg = fx_mul(l, Fx { raw: 1717986918 });
    if arg.raw > EXP_MAX_ARG {
        return Err(NumericalError::InvalidParameterValue);
    }
    let t = exp_fx(arg);
    if t.raw > SCALE {
        return Err(NumericalError::InvalidParameterValue);
    }
    let root = fx_sqrt(Fx { raw: 6 * (SCALE - t.raw) });
    Ok(FlowInversion { primary: root, secondary: None, converged: true })
}

/// Invert the mass-flow density: both branches, solved from the two
/// starting points astride the turning point at one.
pub fn lambda_q(value: Fx) -> (r: Result<FlowInversion, NumericalError>)
    requires
        iabs(value@) <= TARGET_BOUND as int,
    ensures
        inversion_two_branch(FlowFunctionId::Q, value@, r),
{
    two_branch(FlowFunctionId::Q, value)
}

/// Invert the impulse function: both branches, solved from the two starting
/// points astride the turning point at one.
pub fn lambda_phi(value: Fx) -> (r: Result<FlowInversion, NumericalError>)
    requires
        iabs(value@) <= TARGET_BOUND as int,
    ensures
        inversion_two_branch(FlowFunctionId::Phi, value@, r),
{
    two_branch(FlowFunctionId::Phi, value)
}

/// Invert the flow function `y`: a single branch, solved from one.
pub fn lambda_y(value: Fx) -> (r: Result<FlowInversion, NumericalError>)
    requires
        iabs(value@) <= TARGET_BOUND as int,
    ensures
        inversion_one_branch(r, value@),
{
    match find_root(
        FlowFunctionId::Y,
        value,
        Fx { raw: Y_START },
        NEWTON_MAX_ITER,
        Fx { raw: NEWTON_TOL_RAW },
    ) {
        Ok(rr) => Ok(
            FlowInversion { primary: rr.value, secondary: None, converged: rr.converged },
        ),
        Err(e) => Err(e),
    }
}

/// What inverting the single-branch flow function `y` yields: the Newton
/// outcome from its starting point, with no second branch.
pub open spec fn inversion_one_branch(
    r: Result<FlowInversion, NumericalError>,
    v: int,
) -> bool {
    match r {
        Ok(inv) => newton_iter_s(
            FlowFunctionId::Y,
            v,
            NEWTON_TOL_RAW as int,
            Y_START as int,
            NEWTON_MAX_ITER as nat,
        ) == Ok::<(int, bool), NumericalError>((inv.primary@, inv.converged))
            && inv.secondary is None,
        Err(e) => newton_iter_s(
            FlowFunctionId::Y,
            v,
            NEWTON_TOL_RAW as int,
            Y_START as int,
            NEWTON_MAX_ITER as nat,
        ) == Err::<(int, bool), NumericalError>(e),
    }
}

/// What inverting a two-branched function yields: the two Newton outcomes
/// from the low and high starting points; the second branch is always
/// present on success, and the whole inversion converged exactly when both
/// branches did.
pub open spec fn inversion_two_branch(
    f: FlowFunctionId,
    v: int,
    r: Result<FlowInversion, NumericalError>,
) -> bool {
    let low = newton_iter_s(
        f,
        v,
        NEWTON_TOL_RAW as int,
        BRANCH_LOW_START as int,
        NEWTON_MAX_ITER as nat,
    );
    let high = newton_iter_s(
        f,
        v,
        NEWTON_TOL_RAW as int,
        BRANCH_HIGH_START as int,
        NEWTON_MAX_ITER as nat,
    );
    match r {
        Ok(inv) => (low matches Ok(p) && (high matches Ok(s) && inv.primary@ == p.0 && (
        inv.secondary matches Some(sv) && sv@ == s.0 && inv.converged == (p.1 && s.1)))),
        Err(e) => low == Err::<(int, bool), NumericalError>(e) || (low is Ok && high
            == Err::<(int, bool), NumericalError>(e)),
    }
}

/// Solve both branches of a two-branched flow function.
fn two_branch(f: FlowFunctionId, value: Fx) -> (r: Result<FlowInversion, NumericalError>)
    requires
        f == FlowFunctionId::Q || f == FlowFunctionId::Phi,
        iabs(value@) <= TARGET_BOUND as int,
    ensures
        inversion_two_branch(f, value@, r),
{
    let low = match find_root(
        f,
        value,
        Fx { raw: BRANCH_LOW_START },
        NEWTON_MAX_ITER,
        Fx { raw: NEWTON_TOL_RAW },
    ) {
        Ok(rr) => rr,
        Err(e) => {
            return Err(e);
        },
    };
    let high = match find_root(
        f,
        value,
        Fx { raw: BRANCH_HIGH_START },
        NEWTON_MAX_ITER,
        Fx { raw: NEWTON_TOL_RAW },
    ) {
        Ok(rr) => rr,
        Err(e) => {
            return Err(e);
        },
    };
    Ok(
        FlowInversion {
            primary: low.value,
            secondary: Some(high.value),
            converged: low.converged && high.converged,
        },
    )
}

/// Invert the flow function chosen by `f`.  The two-branched functions `q`
/// and `phi` yield a second coefficient; the others yield one.
pub fn invert(f: FlowFunctionId, value: Fx) -> (r: Result<FlowInversion, NumericalError>)
    requires
        iabs(value@) <= TARGET_BOUND as int,
    ensures
        r matches Ok(inv) ==> (inv.secondary is Some <==> (f == FlowFunctionId::Q || f
            == FlowFunctionId::Phi)),
        match f {
            FlowFunctionId::Tau => (r matches Ok(inv) ==> value@ <= SCALE as int
                && inv.primary@ == lambda_tau_s(value@) && inv.converged) && (r matches Err(e)
                ==> e == NumericalError::InvalidParameterValue && value@ > SCALE as int),
            FlowFunctionId::Pi => (r matches Ok(inv) ==> inv.primary@ == lambda_tau_s(
                tau_of_pi_s(value@),
            ) && inv.converged) && (r matches Err(e) ==> e
                == NumericalError::InvalidParameterValue),
            FlowFunctionId::Eps => (r matches Ok(inv) ==> inv.primary@ == lambda_tau_s(
                tau_of_eps_s(value@),
            ) && inv.converged) && (r matches Err(e) ==> e
                == NumericalError::InvalidParameterValue),
            FlowFunctionId::Q => inversion_two_branch(f, value@, r),
            FlowFunctionId::Phi => inversion_two_branch(f, value@, r),
            FlowFunctionId::Y => inversion_one_branch(r, value@),
        },
{
    match f {
        FlowFunctionId::Tau => lambda_tau(value),
        FlowFunctionId::Pi => lambda_pi(value),
        FlowFunctionId::Eps => lambda_eps(value),
        FlowFunctionId::Q => lambda_q(value),
        FlowFunctionId::Phi => lambda_phi(value),
        FlowFunctionId::Y => lambda_y(value),
    }
}

} // verus!
