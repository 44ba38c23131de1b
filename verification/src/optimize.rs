//! Parameter optimization around the memory model: what a review log gives
//! the fit to work on, and what is made of the fit's answer.

use crate::binary32::{all_finite, are_all_finite};
use crate::error::{EngineFailure, OptimizationFault, SrsError};
use crate::lines::lines_of;
use crate::review_log::{
    entry_records, log_fault, log_records, parse_review_log, ReviewLogEntry, ReviewRecord,
};
use crate::training::{
    all_long_term, are_all_long_term, build_train_set, history_of, item_views,
    lemma_lone_review_trains_nothing, lemma_nothing_to_train, train_set, well_shaped,
    TrainingItem,
};
use vstd::prelude::*;

verus! {

/// What the parameter fit is asked.
#[derive(Debug, Clone, PartialEq, Eq)]
pub struct FitRequest {
    /// One item for each card to train on. In a request that
    /// [`plan_optimization`] makes, every item holds at least two reviews
    /// with ratings from 1 to 4, the first of them without an interval
    /// before it and one of the others a day or more after the one before
    /// it.
    pub train_set: Vec<TrainingItem>,
    /// Whether reviews on the day of the previous review are modelled by a
    /// component of their own.
    pub enable_short_term: bool,
}

/// What to do with a review log.
#[derive(Debug, Clone, PartialEq, Eq)]
pub enum OptimizationPlan {
    /// The log trains nothing: the built-in parameters stand.
    UseDefaults,
    /// Fit the parameters, starting from the built-in ones.
    Fit(FitRequest),
}

/// What a log's records call for: the built-in parameters where the
/// training set is empty; a fit on the whole training set, with the
/// short-term component switched on, where every card of it was reviewed on
/// a later day at least once; and an optimization error where some card of
/// it never was.
pub open spec fn planned(r: Result<OptimizationPlan, SrsError>, records: Seq<ReviewRecord>)
    -> bool {
    let sequences = train_set(records);
    match r {
        Ok(OptimizationPlan::UseDefaults) => sequences.len() == 0,
        Ok(OptimizationPlan::Fit(request)) => {
            &&& sequences.len() > 0
            &&& all_long_term(sequences)
            &&& item_views(request.train_set@) == sequences
            &&& request.enable_short_term
        },
        Err(e) => {
            &&& sequences.len() > 0
            &&& !all_long_term(sequences)
            &&& e == SrsError::Optimization(OptimizationFault::NoLongTermReview)
        },
    }
}

/// Two plans made for the same records ask for the same thing.
pub proof fn lemma_plans_agree(
    one: Result<OptimizationPlan, SrsError>,
    other: Result<OptimizationPlan, SrsError>,
    records: Seq<ReviewRecord>,
)
    requires
        planned(one, records),
        planned(other, records),
    ensures
        match (one, other) {
            (Ok(OptimizationPlan::UseDefaults), Ok(OptimizationPlan::UseDefaults)) => true,
            (Ok(OptimizationPlan::Fit(first)), Ok(OptimizationPlan::Fit(second))) => {
                &&& item_views(first.train_set@) == item_views(second.train_set@)
                &&& first.enable_short_term == second.enable_short_term
            },
            (Err(first), Err(second)) => first == second,
            _ => false,
        },
{
}

/// A log in which no card was reviewed twice keeps the built-in parameters;
/// so does the empty log.
pub proof fn lemma_single_reviews_keep_defaults(
    r: Result<OptimizationPlan, SrsError>,
    records: Seq<ReviewRecord>,
)
    requires
        planned(r, records),
        forall|card: Seq<char>| history_of(records, card).len() <= 1,
    ensures
        r == Ok::<OptimizationPlan, SrsError>(OptimizationPlan::UseDefaults),
{
    lemma_nothing_to_train(records);
}

/// A single review of a card that the log does not know, put anywhere into
/// the log, does not change what the log calls for.
pub proof fn lemma_lone_review_keeps_plan(
    r: Result<OptimizationPlan, SrsError>,
    records: Seq<ReviewRecord>,
    at: int,
    lone: ReviewRecord,
)
    requires
        0 <= at <= records.len(),
        history_of(records, lone.card_id).len() == 0,
        planned(r, records),
    ensures
        planned(r, records.insert(at, lone)),
{
    lemma_lone_review_trains_nothing(records, at, lone);
}

/// A text without any record, such as the empty text, has an empty log.
pub proof fn lemma_empty_text()
    ensures
        log_fault(lines_of(Seq::<char>::empty())).is_none(),
        log_records(lines_of(Seq::<char>::empty())).len() == 0,
        train_set(log_records(lines_of(Seq::<char>::empty()))).len() == 0,
{
    let lines = lines_of(Seq::<char>::empty());
    assert(log_fault(lines.drop_last()).is_none());
    assert(log_records(lines.drop_last()).len() == 0);
    lemma_nothing_to_train(Seq::<ReviewRecord>::empty());
}

/// Decides what a log calls for.
///
/// The built-in parameters stand where no card was reviewed twice. Else the
/// parameters are to be fitted to the whole training set, which the fit can
/// only do where every card of it was reviewed on a later day at least
/// once; where some card never was, the optimization fails here and the fit
/// is not run.
pub fn plan_optimization(entries: &Vec<ReviewLogEntry>) -> (r: Result<OptimizationPlan, SrsError>)
    ensures
        planned(r, entry_records(entries@)),
        r matches Ok(OptimizationPlan::Fit(request)) ==> forall|i: int|
            0 <= i < request.train_set.len() ==> well_shaped(#[trigger] request.train_set[i]@),
{
    let train_set = build_train_set(entries);
    if train_set.len() == 0 {
        Ok(OptimizationPlan::UseDefaults)
    } else if are_all_long_term(&train_set) {
        Ok(OptimizationPlan::Fit(FitRequest { train_set, enable_short_term: true }))
    } else {
        Err(SrsError::Optimization(OptimizationFault::NoLongTermReview))
    }
}

/// Reads a review log, one JSON record per line, and decides what it calls
/// for.
///
/// A line that is neither blank nor a record fails the whole operation with
/// an error that names the first such line, and nothing is planned. A log
/// without such a line is planned as [`plan_optimization`] says.
pub fn srs_optimize(review_log_jsonl: &str) -> (r: Result<OptimizationPlan, SrsError>)
    ensures
        match log_fault(lines_of(review_log_jsonl@)) {
            Some((number, fault)) => r matches Err(SrsError::LogParse(e)) && e.line == number
                && e.fault == fault,
            None => planned(r, log_records(lines_of(review_log_jsonl@))),
        },
        r matches Ok(OptimizationPlan::Fit(request)) ==> forall|i: int|
            0 <= i < request.train_set.len() ==> well_shaped(#[trigger] request.train_set[i]@),
{
    match parse_review_log(review_log_jsonl) {
        Ok(entries) => plan_optimization(&entries),
        Err(fault) => Err(SrsError::LogParse(fault)),
    }
}

/// The parameters made of a fit's answer.
pub open spec fn parameters_of(outcome: Result<Vec<u32>, EngineFailure>) -> Result<
    Vec<u32>,
    SrsError,
> {
    match outcome {
        Ok(coefficients) => if all_finite(coefficients@) {
            Ok(coefficients)
        } else {
            Err(SrsError::Optimization(OptimizationFault::NonFiniteCoefficient))
        },
        Err(failure) => Err(SrsError::Optimization(OptimizationFault::Engine(failure))),
    }
}

/// Takes the answer of a fit: the fitted parameters are handed on when all
/// of them are finite numbers, and every other answer is an optimization
/// error.
pub fn fitted_parameters(outcome: Result<Vec<u32>, EngineFailure>) -> (r: Result<
    Vec<u32>,
    SrsError,
>)
    ensures
        r == parameters_of(outcome),
{
    match outcome {
        Ok(coefficients) => if are_all_finite(&coefficients) {
            Ok(coefficients)
        } else {
            Err(SrsError::Optimization(OptimizationFault::NonFiniteCoefficient))
        },
        Err(failure) => Err(SrsError::Optimization(OptimizationFault::Engine(failure))),
    }
}

} // verus!
