use vstd::prelude::*;
use crate::scalar::Sign;

verus! {

/// Why a solve could not start or could not produce spins.
#[derive(Clone, Copy, Debug, PartialEq, Eq, Structural)]
pub enum SolveError {
    /// The outer time step is not strictly positive.
    NonPositiveTimeStep,
    /// The number of sub-steps per outer step is zero.
    ZeroSubSteps,
    /// The number of outer steps is zero.
    ZeroIterations,
    /// The oscillator at `index` ended exactly at the origin.
    UndecidedOscillator { index: usize },
}

/// The configuration of one solve.
///
/// `alpha_0` and `alpha_1` are the linear and cubic coefficients of each
/// oscillator's local potential; every outer step of length `time_step` is
/// split into `sub_step_count` sub-steps, and the run makes `iteration_count`
/// outer steps.
#[derive(Clone, Copy, Debug)]
pub struct SbParameters<T> {
    pub alpha_0: T,
    pub alpha_1: T,
    pub time_step: T,
    pub sub_step_count: u32,
    pub iteration_count: u32,
}

/// The configuration error, if any, for a time step of the given sign and the
/// given counts. The time step is checked first, then the sub-step count, then
/// the iteration count.
pub open spec fn parameter_error(time_step_sign: Sign, sub_step_count: u32, iteration_count: u32) -> Option<SolveError> {
    if time_step_sign != Sign::Positive {
        Some(SolveError::NonPositiveTimeStep)
    } else if sub_step_count == 0 {
        Some(SolveError::ZeroSubSteps)
    } else if iteration_count == 0 {
        Some(SolveError::ZeroIterations)
    } else {
        None
    }
}

/// Checks a configuration, given the sign of its time step.
pub fn check_parameters(time_step_sign: Sign, sub_step_count: u32, iteration_count: u32) -> (r: Result<(), SolveError>)
    ensures
        r is Ok <==> parameter_error(time_step_sign, sub_step_count, iteration_count) is None,
        r matches Err(e) ==> parameter_error(time_step_sign, sub_step_count, iteration_count) == Some(e),
{
    if time_step_sign != Sign::Positive {
        Err(SolveError::NonPositiveTimeStep)
    } else if sub_step_count == 0 {
        Err(SolveError::ZeroSubSteps)
    } else if iteration_count == 0 {
        Err(SolveError::ZeroIterations)
    } else {
        Ok(())
    }
}

} // verus!
