//! Scheduling rules for spaced repetition: which memory state and retention
//! target are handed to the memory model, which of its four outcomes a rating
//! selects, and how a review log becomes the training set for its parameters.
//!
//! The memory model itself computes on real numbers and is not part of this
//! crate. Its inputs are prepared here and its outcomes are taken from here
//! on; real numbers pass through as their binary32 encodings.
//!
//! Scheduling a card takes three steps. [`scheduling_request`] checks the
//! retention target and the parameters and says what the model is to be
//! asked. The caller asks the model. [`srs_get_next_states`] then makes the
//! preview of all four ratings out of the model's answer, and
//! [`srs_schedule_review`] the schedule for one rating.
//!
//! Optimizing the parameters takes three steps as well. [`srs_optimize`]
//! reads the review log and says whether the built-in parameters stand or
//! what the fit is to be run on. The caller runs the fit.
//! [`fitted_parameters`] then takes the fit's answer.

pub mod binary32;
pub mod card;
pub mod error;
pub mod json;
pub mod lines;
pub mod optimize;
pub mod review_log;
pub mod schedule;
pub mod training;

pub use card::{build_memory_state, CardSrsData, MemoryState, NextStatesPreview, ScheduleResult};
pub use error::{ConfigurationFault, EngineFailure, OptimizationFault, SrsError};
pub use optimize::{
    fitted_parameters, plan_optimization, srs_optimize, FitRequest, OptimizationPlan,
};
pub use review_log::{parse_review_log, LineFault, LogParseError, ReviewLogEntry};
pub use schedule::{scheduling_request, srs_get_next_states, srs_schedule_review, SchedulingRequest};
pub use training::{build_train_set, Review, TrainingItem};
