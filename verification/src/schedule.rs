//! The two scheduling operations around the memory model: what the model is
//! asked, and what is made of its answer.

use crate::binary32::{
    all_finite, are_all_finite, in_open_unit_interval, is_in_open_unit_interval,
    lemma_nine_tenths, NINE_TENTHS,
};
use crate::card::{
    build_memory_state, memory_of, CardSrsData, MemoryState, NextStatesPreview, ScheduleResult,
};
use crate::error::{ConfigurationFault, EngineFailure, SrsError};
use vstd::prelude::*;

verus! {

/// What the memory model is asked for one card.
#[derive(Debug, Clone, PartialEq, Eq)]
pub struct SchedulingRequest {
    /// The model's parameters; `None` stands for the built-in ones.
    pub parameters: Option<Vec<u32>>,
    /// The card's memory state; `None` for a new card.
    pub memory: Option<MemoryState>,
    /// The recall probability that the next interval aims at.
    pub desired_retention: u32,
    /// Days since the card's last review.
    pub elapsed_days: u32,
}

/// The retention target of a request: the one asked for, or nine tenths.
pub open spec fn retention_of(desired_retention: Option<u32>) -> u32 {
    match desired_retention {
        Some(retention) => retention,
        None => NINE_TENTHS,
    }
}

/// The parameters hold a value that is not a finite number.
pub open spec fn has_non_finite(parameters: Option<Vec<u32>>) -> bool {
    match parameters {
        Some(values) => !all_finite(values@),
        None => false,
    }
}

/// The question that a card, a retention target and parameters lead to, or
/// the error that keeps it from being asked.
pub open spec fn request_for(
    card: CardSrsData,
    desired_retention: Option<u32>,
    parameters: Option<Vec<u32>>,
) -> Result<SchedulingRequest, SrsError> {
    if !in_open_unit_interval(retention_of(desired_retention)) {
        Err(SrsError::InvalidRetention)
    } else if has_non_finite(parameters) {
        Err(SrsError::ModelConfiguration(ConfigurationFault::NonFiniteParameter))
    } else {
        Ok(
            SchedulingRequest {
                parameters,
                memory: memory_of(card),
                desired_retention: retention_of(desired_retention),
                elapsed_days: card.elapsed_days,
            },
        )
    }
}

/// Prepares the question put to the memory model.
///
/// The retention target must lie strictly between zero and one, and every
/// parameter must be a finite number; a request that fails either test is
/// refused here and the model is not asked. How many parameters there have
/// to be is for the model to judge.
pub fn scheduling_request(
    card: &CardSrsData,
    desired_retention: Option<u32>,
    parameters: Option<Vec<u32>>,
) -> (r: Result<SchedulingRequest, SrsError>)
    ensures
        r == request_for(*card, desired_retention, parameters),
        r.is_ok() <==> in_open_unit_interval(retention_of(desired_retention)) && !has_non_finite(
            parameters,
        ),
        desired_retention.is_none() && parameters.is_none() ==> r.is_ok(),
        r matches Ok(request) ==> (card.is_new() ==> request.memory.is_none()),
{
    let retention = match desired_retention {
        Some(retention) => retention,
        None => NINE_TENTHS,
    };
    proof {
        lemma_nine_tenths();
    }
    if !is_in_open_unit_interval(retention) {
        return Err(SrsError::InvalidRetention);
    }
    let finite = match &parameters {
        Some(values) => are_all_finite(values),
        None => true,
    };
    if !finite {
        return Err(SrsError::ModelConfiguration(ConfigurationFault::NonFiniteParameter));
    }
    Ok(
        SchedulingRequest {
            parameters,
            memory: build_memory_state(card),
            desired_retention: retention,
            elapsed_days: card.elapsed_days,
        },
    )
}

/// The preview made of the model's answer: the four outcomes where the
/// model gave them and they are well formed, and else a configuration error.
pub open spec fn preview_of(outcome: Result<NextStatesPreview, EngineFailure>) -> Result<
    NextStatesPreview,
    SrsError,
> {
    match outcome {
        Ok(states) => if states.well_formed() {
            Ok(states)
        } else {
            Err(SrsError::ModelConfiguration(ConfigurationFault::IllFormedOutcome))
        },
        Err(failure) => Err(SrsError::ModelConfiguration(ConfigurationFault::Engine(failure))),
    }
}

/// The schedule made of the model's answer for one rating: rating 1 selects
/// again, 2 hard, 4 easy, and every other rating good.
pub open spec fn schedule_of(outcome: Result<NextStatesPreview, EngineFailure>, rating: u8)
    -> Result<ScheduleResult, SrsError> {
    match preview_of(outcome) {
        Ok(states) => Ok(states.outcome_for(rating)),
        Err(error) => Err(error),
    }
}

/// The outcomes of all four ratings, from the model's answer to a
/// [`SchedulingRequest`].
///
/// The outcomes are handed on where each of them is well formed. An answer
/// with an outcome that is not, and a failure of the model, are reported as
/// configuration errors.
pub fn srs_get_next_states(outcome: Result<NextStatesPreview, EngineFailure>) -> (r: Result<
    NextStatesPreview,
    SrsError,
>)
    ensures
        r == preview_of(outcome),
        r matches Ok(states) ==> states.well_formed(),
{
    match outcome {
        Ok(states) => if states.is_well_formed() {
            Ok(states)
        } else {
            Err(SrsError::ModelConfiguration(ConfigurationFault::IllFormedOutcome))
        },
        Err(failure) => Err(SrsError::ModelConfiguration(ConfigurationFault::Engine(failure))),
    }
}

/// The outcome of one rating, from the model's answer to a
/// [`SchedulingRequest`]: rating 1 selects again, 2 hard, 4 easy, and every
/// other rating good. It fails where [`srs_get_next_states`] fails.
pub fn srs_schedule_review(outcome: Result<NextStatesPreview, EngineFailure>, rating: u8) -> (r:
    Result<ScheduleResult, SrsError>)
    ensures
        r == schedule_of(outcome, rating),
        r matches Ok(chosen) ==> chosen.well_formed(),
{
    match srs_get_next_states(outcome) {
        Ok(states) => Ok(states.select(rating)),
        Err(error) => Err(error),
    }
}

/// Scheduling one rating gives what the preview shows for that rating, and
/// fails exactly when the preview fails, with the same error.
pub proof fn lemma_schedule_agrees_with_preview(
    outcome: Result<NextStatesPreview, EngineFailure>,
    rating: u8,
)
    ensures
        match (schedule_of(outcome, rating), preview_of(outcome)) {
            (Ok(one), Ok(all)) => {
                &&& one == all.outcome_for(rating)
                &&& rating == 1 ==> one == all.again
                &&& rating == 2 ==> one == all.hard
                &&& rating == 3 ==> one == all.good
                &&& rating == 4 ==> one == all.easy
            },
            (Err(one), Err(all)) => one == all,
            _ => false,
        },
{
}

/// The preview of a card, with the memory model taken as a function of the
/// question it is asked.
pub open spec fn preview_with(
    model: spec_fn(SchedulingRequest) -> Result<NextStatesPreview, EngineFailure>,
    card: CardSrsData,
    desired_retention: Option<u32>,
    parameters: Option<Vec<u32>>,
) -> Result<NextStatesPreview, SrsError> {
    match request_for(card, desired_retention, parameters) {
        Ok(request) => preview_of(model(request)),
        Err(error) => Err(error),
    }
}

/// The schedule of a card for one rating, with the memory model taken as a
/// function of the question it is asked.
pub open spec fn schedule_with(
    model: spec_fn(SchedulingRequest) -> Result<NextStatesPreview, EngineFailure>,
    card: CardSrsData,
    rating: u8,
    desired_retention: Option<u32>,
    parameters: Option<Vec<u32>>,
) -> Result<ScheduleResult, SrsError> {
    match request_for(card, desired_retention, parameters) {
        Ok(request) => schedule_of(model(request), rating),
        Err(error) => Err(error),
    }
}

/// For the same card, retention target and parameters, and whatever the
/// memory model answers to a question, the schedule for a rating is what the
/// preview holds for that rating, and the two fail together with the same
/// error.
pub proof fn lemma_single_and_batch_paths_agree(
    model: spec_fn(SchedulingRequest) -> Result<NextStatesPreview, EngineFailure>,
    card: CardSrsData,
    rating: u8,
    desired_retention: Option<u32>,
    parameters: Option<Vec<u32>>,
)
    ensures
        schedule_with(model, card, rating, desired_retention, parameters) == match preview_with(
            model,
            card,
            desired_retention,
            parameters,
        ) {
            Ok(all) => Ok::<ScheduleResult, SrsError>(all.outcome_for(rating)),
            Err(error) => Err(error),
        },
{
}

/// The question asked for a new card holds no memory state, whatever the
/// rating that is scheduled afterwards.
pub proof fn lemma_new_card_is_asked_without_memory(
    card: CardSrsData,
    desired_retention: Option<u32>,
    parameters: Option<Vec<u32>>,
)
    requires
        card.is_new(),
    ensures
        request_for(card, desired_retention, parameters) matches Ok(request)
            ==> request.memory.is_none(),
{
}

} // verus!
