//! Letter statuses and the rule that merges a new verdict into what is known.

use vstd::prelude::*;

verus! {

/// What one guess says about a letter, or what the game knows about it so far.
#[derive(Debug, PartialEq, Eq, Copy, Clone, Structural)]
pub enum CharStatus {
    /// The letter does not occur in the secret word (or not as often as it was guessed).
    NotInWord,
    /// The letter occurs in the secret word, at another position.
    WrongPosition,
    /// The letter stands at this position of the secret word.
    RightPosition,
    /// The letter has not been part of any guess yet.
    NotUsed,
}

/// A letter together with its status.
#[derive(Debug, PartialEq, Eq, Copy, Clone, Structural)]
pub struct CharAndStatus(pub char, pub CharStatus);

impl CharStatus {
    /// How informative a status is:
    /// `NotUsed < NotInWord < WrongPosition < RightPosition`.
    pub open spec fn rank(self) -> nat {
        match self {
            CharStatus::NotUsed => 0,
            CharStatus::NotInWord => 1,
            CharStatus::WrongPosition => 2,
            CharStatus::RightPosition => 3,
        }
    }

    /// Whether a status can be the verdict of a guess: every status but `NotUsed`.
    pub open spec fn is_verdict(self) -> bool {
        self != CharStatus::NotUsed
    }

    /// The status of a letter after `verdict` has been learned about it:
    /// `RightPosition` if either is, else `WrongPosition` if either is, else the verdict.
    pub open spec fn merged_with(self, verdict: CharStatus) -> CharStatus {
        if self == CharStatus::RightPosition || verdict == CharStatus::RightPosition {
            CharStatus::RightPosition
        } else if self == CharStatus::WrongPosition || verdict == CharStatus::WrongPosition {
            CharStatus::WrongPosition
        } else {
            verdict
        }
    }

    /// Merges the verdict of a guess into the status known so far.
    pub fn merge(self, verdict: CharStatus) -> (merged: CharStatus)
        ensures
            merged == self.merged_with(verdict),
    {
        match (self, verdict) {
            (CharStatus::NotUsed, s) => s,
            (CharStatus::RightPosition, _) => CharStatus::RightPosition,
            (_, CharStatus::RightPosition) => CharStatus::RightPosition,
            (CharStatus::WrongPosition, _) => CharStatus::WrongPosition,
            (_, s) => s,
        }
    }

    /// Merging a verdict yields the more informative of the two statuses, so
    /// what is known about a letter never becomes less informative.
    pub proof fn lemma_merge_is_max(self, verdict: CharStatus)
        requires
            verdict.is_verdict(),
        ensures
            self.merged_with(verdict).rank() == if self.rank() >= verdict.rank() {
                self.rank()
            } else {
                verdict.rank()
            },
            self.merged_with(verdict).rank() >= self.rank(),
            self.merged_with(verdict).is_verdict(),
    {
    }
}

} // verus!
