//! What is kept for a card between reviews, and what the memory model
//! proposes for its next review. Every real number is held as its binary32
//! encoding (see [`crate::binary32`]).

use crate::binary32::{
    is_finite, is_finite_bits, is_not_below_zero, is_positive, not_below_zero, positive,
};
use vstd::prelude::*;

verus! {

/// The scheduling data stored with a card.
#[derive(Debug, Clone, Copy, PartialEq, Eq)]
pub struct CardSrsData {
    /// Days until recall falls to the reference level; absent for a card
    /// that was never scheduled.
    pub stability: Option<u32>,
    /// How hard the card is; absent together with the stability.
    pub difficulty: Option<u32>,
    /// Days since the card's last review, 0 for a new card.
    pub elapsed_days: u32,
}

/// The memory state of a card that has been reviewed.
#[derive(Debug, Clone, Copy, PartialEq, Eq, Structural)]
pub struct MemoryState {
    pub stability: u32,
    pub difficulty: u32,
}

/// The outcome of one rating: the new memory state and the days until the
/// next review.
#[derive(Debug, Clone, Copy, PartialEq, Eq, Structural)]
pub struct ScheduleResult {
    pub stability: u32,
    pub difficulty: u32,
    pub interval: u32,
}

/// The outcomes of the four ratings.
#[derive(Debug, Clone, Copy, PartialEq, Eq, Structural)]
pub struct NextStatesPreview {
    pub again: ScheduleResult,
    pub hard: ScheduleResult,
    pub good: ScheduleResult,
    pub easy: ScheduleResult,
}

impl CardSrsData {
    /// Stability and difficulty are both present or both absent.
    pub open spec fn well_formed(&self) -> bool {
        self.stability.is_some() == self.difficulty.is_some()
    }

    /// The card was never scheduled.
    pub open spec fn is_new(&self) -> bool {
        self.stability.is_none() && self.difficulty.is_none()
    }
}

/// The memory state that a card's data amounts to: one is formed only where
/// both stability and difficulty are present.
pub open spec fn memory_of(data: CardSrsData) -> Option<MemoryState> {
    match (data.stability, data.difficulty) {
        (Some(stability), Some(difficulty)) => Some(MemoryState { stability, difficulty }),
        _ => None,
    }
}

/// Forms the memory state handed to the memory model. A new card has none,
/// so that the model starts it from its initial state whatever the rating.
pub fn build_memory_state(data: &CardSrsData) -> (r: Option<MemoryState>)
    ensures
        r == memory_of(*data),
        data.is_new() ==> r.is_none(),
        data.well_formed() ==> (r.is_none() <==> data.is_new()),
{
    match (data.stability, data.difficulty) {
        (Some(stability), Some(difficulty)) => Some(MemoryState { stability, difficulty }),
        _ => None,
    }
}

impl ScheduleResult {
    /// The stability is greater than zero, the difficulty is a finite number
    /// and the interval is not below zero.
    pub open spec fn well_formed(&self) -> bool {
        &&& positive(self.stability)
        &&& is_finite(self.difficulty)
        &&& not_below_zero(self.interval)
    }

    /// Whether the outcome is well formed.
    pub fn is_well_formed(&self) -> (r: bool)
        ensures
            r == self.well_formed(),
    {
        is_positive(self.stability) && is_finite_bits(self.difficulty) && is_not_below_zero(
            self.interval,
        )
    }
}

impl NextStatesPreview {
    /// Each of the four outcomes is well formed.
    pub open spec fn well_formed(&self) -> bool {
        &&& self.again.well_formed()
        &&& self.hard.well_formed()
        &&& self.good.well_formed()
        &&& self.easy.well_formed()
    }

    /// Whether each of the four outcomes is well formed.
    pub fn is_well_formed(&self) -> (r: bool)
        ensures
            r == self.well_formed(),
    {
        self.again.is_well_formed() && self.hard.is_well_formed() && self.good.is_well_formed()
            && self.easy.is_well_formed()
    }

    /// The outcome that a rating selects: 1 is again, 2 hard, 4 easy, and
    /// every other rating counts as good.
    pub open spec fn outcome_for(self, rating: u8) -> ScheduleResult {
        if rating == 1 {
            self.again
        } else if rating == 2 {
            self.hard
        } else if rating == 4 {
            self.easy
        } else {
            self.good
        }
    }

    /// Picks the outcome of a rating.
    pub fn select(&self, rating: u8) -> (r: ScheduleResult)
        ensures
            r == self.outcome_for(rating),
    {
        match rating {
            1 => self.again,
            2 => self.hard,
            4 => self.easy,
            _ => self.good,
        }
    }
}

} // verus!
