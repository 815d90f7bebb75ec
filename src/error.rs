//! Failures of the integrator.
use vstd::prelude::*;

verus! {

/// Why an operation of the integrator did not complete.
#[derive(Clone, Copy, PartialEq, Eq, Structural, Debug)]
pub enum MilneError {
    /// Fewer than four samples were available for a step.
    InsufficientHistory,
    /// Fewer than five samples were available for halving the step size.
    InsufficientHistoryForRefinement,
    /// A value left the representable range, the derivative could not be
    /// evaluated, or a step size could not be halved exactly.
    NumericInstability,
    /// A step stayed out of tolerance after the step size was halved, and
    /// the run was asked to stop on that.
    ToleranceExceededUnrecovered,
    /// Seed samples were not evenly spaced at a positive step size.
    IrregularHistory,
}

} // verus!
