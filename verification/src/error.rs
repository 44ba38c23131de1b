//! The failures that scheduling and optimization report.

use crate::review_log::LogParseError;
use vstd::prelude::*;

verus! {

/// A failure reported by the memory model, by the kinds that the model
/// tells apart.
#[derive(Debug, Clone, Copy, PartialEq, Eq, Structural)]
pub enum EngineFailure {
    /// The reviews are too few to start a fit from.
    NotEnoughData,
    /// The fit was stopped before it came to an end.
    Interrupted,
    /// The parameters are of the wrong number or not finite.
    InvalidParameters,
    /// No best retention target was found.
    OptimalNotFound,
    /// A card's state or a training item cannot be worked on.
    InvalidInput,
    /// The size of the deck is not one the model can simulate.
    InvalidDeckSize,
}

/// Why the memory model cannot work with what it was given.
#[derive(Debug, Clone, Copy, PartialEq, Eq, Structural)]
pub enum ConfigurationFault {
    /// A parameter is not a finite number.
    NonFiniteParameter,
    /// The memory model refused the parameters or the state.
    Engine(EngineFailure),
    /// The memory model answered with an outcome that is not well formed.
    IllFormedOutcome,
}

/// Why a parameter fit gave no usable parameters.
#[derive(Debug, Clone, Copy, PartialEq, Eq, Structural)]
pub enum OptimizationFault {
    /// The memory model gave up.
    Engine(EngineFailure),
    /// A card of the training set was only ever reviewed on the day of its
    /// first review, which the fit cannot work on.
    NoLongTermReview,
    /// The fit came back with a coefficient that is not a finite number.
    NonFiniteCoefficient,
}

/// Every failure of this crate's operations.
#[derive(Debug, Clone, PartialEq, Eq)]
pub enum SrsError {
    /// The retention target does not lie strictly between zero and one.
    InvalidRetention,
    /// The memory model cannot work with the parameters or the state.
    ModelConfiguration(ConfigurationFault),
    /// A line of the review log is not a review record.
    LogParse(LogParseError),
    /// The parameter fit failed.
    Optimization(OptimizationFault),
}

} // verus!
