//! Newton-Raphson root finding for the flow functions that have no closed
//! inverse.  The iteration is pinned down step by step; exceeding the
//! iteration budget is reported through a convergence flag rather than
//! silently, and a vanishing derivative or an iterate that leaves the solved
//! domain is a typed error.
use crate::fixed::{fdiv_s, iabs, lemma_mul_mag, tdiv_i128, Fx, SCALE};
use crate::flow::{
    dphi, dq, dy, evaluate, flow_deriv_s, flow_eval_s, lambda_in_domain, FlowFunctionId,
};
use crate::NumericalError;
use vstd::prelude::*;

verus! {

/// A derivative magnitude below this is treated as singular: about a
/// quarter of a thousandth.
pub const DERIV_EPS_RAW: i64 = 1048576;

/// Default step tolerance of the solver: about a millionth.
pub const NEWTON_TOL_RAW: i64 = 4295;

/// Default iteration budget of the solver.
pub const NEWTON_MAX_ITER: u32 = 10000;

/// Largest target magnitude the solver accepts.
pub const TARGET_BOUND: i64 = 4398046511104;

/// A root estimate together with whether the step tolerance was met within
/// the iteration budget.
#[derive(Clone, Copy, PartialEq, Eq, Structural, Debug)]
pub struct RootResult {
    /// The final iterate.
    pub value: Fx,
    /// Whether the last step's magnitude dropped below the tolerance.
    pub converged: bool,
}

/// The flow function is one of the three the iterative solver handles.
pub open spec fn solvable(f: FlowFunctionId) -> bool {
    f == FlowFunctionId::Q || f == FlowFunctionId::Phi || f == FlowFunctionId::Y
}

/// The Newton iteration from `x`, with `fuel` steps left: an exhausted
/// budget yields the estimate unconverged; a near-zero derivative is
/// singular; an iterate outside the domain is divergence; a step below the
/// tolerance yields the new iterate converged.
pub open spec fn newton_iter_s(
    f: FlowFunctionId,
    target: int,
    tol: int,
    x: int,
    fuel: nat,
) -> Result<(int, bool), NumericalError>
    decreases fuel,
{
    if fuel == 0 {
        Ok((x, false))
    } else {
        let d = flow_deriv_s(f, x);
        if iabs(d) < DERIV_EPS_RAW as int {
            Err(NumericalError::SingularDerivative)
        } else {
            let x2 = x - fdiv_s(flow_eval_s(f, x) - target, d);
            if !lambda_in_domain(x2) {
                Err(NumericalError::NumericalNonConvergence)
            } else if iabs(x2 - x) < tol {
                Ok((x2, true))
            } else {
                newton_iter_s(f, target, tol, x2, (fuel - 1) as nat)
            }
        }
    }
}

/// Evaluate the derivative of a solvable flow function.
fn deriv_eval(f: FlowFunctionId, x: Fx) -> (r: Fx)
    requires
        solvable(f),
        lambda_in_domain(x@),
    ensures
        r@ == flow_deriv_s(f, x@),
        iabs(r@) <= 72057594037927936,
{
    match f {
        FlowFunctionId::Q => dq(x),
        FlowFunctionId::Phi => dphi(x),
        FlowFunctionId::Y => dy(x),
        _ => Fx { raw: 0 },
    }
}

/// Solve `f(lambda) = target` by Newton-Raphson from `start`, taking at
/// most `max_iter` steps and stopping once a step's magnitude drops below
/// `tolerance`.  The result is exactly what the iteration specification
/// yields: the estimate with its convergence flag, or the error the
/// iteration ran into.
pub fn find_root(
    f: FlowFunctionId,
    target: Fx,
    start: Fx,
    max_iter: u32,
    tolerance: Fx,
) -> (r: Result<RootResult, NumericalError>)
    requires
        solvable(f),
        lambda_in_domain(start@),
        iabs(target@) <= TARGET_BOUND as int,
        tolerance@ >= 0,
    ensures
        match r {
            Ok(rr) => newton_iter_s(f, target@, tolerance@, start@, max_iter as nat)
                == Ok::<(int, bool), NumericalError>((rr.value@, rr.converged))
                && lambda_in_domain(rr.value@),
            Err(e) => newton_iter_s(f, target@, tolerance@, start@, max_iter as nat)
                == Err::<(int, bool), NumericalError>(e) && (e
                == NumericalError::SingularDerivative || e
                == NumericalError::NumericalNonConvergence),
        },
{
    let mut x = start;
    let mut i: u32 = 0;
    let ghost goal = newton_iter_s(f, target@, tolerance@, start@, max_iter as nat);
    while i < max_iter
        invariant
            0 <= i <= max_iter,
            solvable(f),
            lambda_in_domain(x@),
            iabs(target@) <= TARGET_BOUND as int,
            tolerance@ >= 0,
            newton_iter_s(f, target@, tolerance@, x@, (max_iter - i) as nat) == goal,
            goal == newton_iter_s(f, target@, tolerance@, start@, max_iter as nat),
        decreases max_iter - i,
    {
        let d = deriv_eval(f, x);
        let dabs: i64 = if d.raw < 0 {
            -d.raw
        } else {
            d.raw
        };
        if dabs < DERIV_EPS_RAW {
            return Err(NumericalError::SingularDerivative);
        }
        let fv = evaluate(f, x);
        let n: i128 = (fv.raw as i128) - (target.raw as i128);
        proof {
            lemma_mul_mag(n as int, SCALE as int, 0x20000000000000000, SCALE as int);
        }
        let step: i128 = tdiv_i128(n * (SCALE as i128), d.raw as i128);
        let x2: i128 = (x.raw as i128) - step;
        if x2 < LAMBDA_LO_128 || x2 > LAMBDA_HI_128 {
            return Err(NumericalError::NumericalNonConvergence);
        }
        let x2n = Fx { raw: x2 as i64 };
        let diff: i64 = if x2n.raw >= x.raw {
            x2n.raw - x.raw
        } else {
            x.raw - x2n.raw
        };
        if diff < tolerance.raw {
            return Ok(RootResult { value: x2n, converged: true });
        }
        x = x2n;
        i = i + 1;
    }
    Ok(RootResult { value: x, converged: false })
}

/// The solver's domain bounds, widened for the intermediate comparison.
const LAMBDA_LO_128: i128 = 268435456;

/// The solver's upper domain bound, widened for the intermediate comparison.
const LAMBDA_HI_128: i128 = 10468982784;

} // verus!
