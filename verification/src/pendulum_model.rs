//! The life cycle shared by every pendulum model: a model is built with
//! default parameters, `restart` derives its state from the current
//! parameters, and `step` advances that state by one time delta.
use crate::fixed::Fx;
use crate::params::Parametrized;
use crate::NumericalError;
use vstd::prelude::*;

verus! {

/// Where a model stands in its life cycle.
#[derive(Clone, Copy, PartialEq, Eq, Structural, Debug)]
pub enum Phase {
    /// Built, not yet restarted: stepping is not allowed yet.
    Uninitialized,
    /// Restarted: state derived from the parameters, no step taken.
    Ready,
    /// At least one step taken since the last restart.
    Stepping,
}

/// A simulated pendulum: restartable from its parameters, stepped one time
/// delta at a time.  There is no terminal phase; a model steps until its
/// parameters are reapplied.
pub trait PendulumModel: Sized {
    /// The model's state is internally consistent: parameters valid and
    /// state fields within the representable ranges the model keeps.
    spec fn wf(&self) -> bool;

    /// The elapsed simulation time, as a raw fixed-point value.
    spec fn spec_time(&self) -> int;

    /// Where the model stands in its life cycle.
    spec fn spec_phase(&self) -> Phase;

    /// A short display name.
    fn label(&self) -> &'static str;

    /// The elapsed simulation time.
    fn time(&self) -> (t: Fx)
        requires
            self.wf(),
        ensures
            t@ == self.spec_time(),
    ;

    /// Derive the state from the current parameters and move to `Ready`.
    /// Fails with `ParameterNotFound` when a key the model needs is gone,
    /// and with `InvalidParameterValue` when a value lies outside the
    /// model's accepted range; the model is then left as it was.
    fn restart(&mut self) -> (r: Result<(), NumericalError>)
        requires
            old(self).wf(),
        ensures
            final(self).wf(),
            r is Ok ==> final(self).spec_phase() == Phase::Ready && final(self).spec_time()
                == 0,
            r is Err ==> *final(self) == *old(self),
    ;

    /// Advance the state by one time delta and move to `Stepping`.  Fails
    /// with `Overflow` when a new value would leave the representable
    /// range; the model is then left as it was.
    fn step(&mut self) -> (r: Result<(), NumericalError>)
        requires
            old(self).wf(),
            old(self).spec_phase() != Phase::Uninitialized,
        ensures
            final(self).wf(),
            r is Ok ==> final(self).spec_phase() == Phase::Stepping,
            r is Err ==> *final(self) == *old(self),
    ;
}

/// A pendulum model whose parameter list can be exchanged with the outside.
pub trait ParametrizedModel: PendulumModel + Parametrized {

}

} // verus!
