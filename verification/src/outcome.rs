//! Decisions about one file: the outcome reported, and why an answer was held back as uncertain.

use vstd::prelude::*;

verus! {

/// What an assessment decided.
#[derive(Clone, Copy, Debug, PartialEq, Eq, Structural, PartialOrd, Ord, Hash)]
pub enum Outcome {
    Match,
    NoMatch,
    Uncertain,
}

/// Why an outcome is uncertain.
#[derive(Clone, Copy, Debug, PartialEq, Eq, Structural, Hash)]
pub enum Uncertainty {
    /// The model itself chose `uncertain`.
    InsufficientContext,
    /// The model chose an answer with confidence below the threshold.
    LowConfidence,
}

pub open spec fn outcome_name(o: Outcome) -> Seq<char> {
    match o {
        Outcome::Match => "match"@,
        Outcome::NoMatch => "no_match"@,
        Outcome::Uncertain => "uncertain"@,
    }
}

pub open spec fn uncertainty_name(u: Uncertainty) -> Seq<char> {
    match u {
        Uncertainty::InsufficientContext => "insufficient_context"@,
        Uncertainty::LowConfidence => "low_confidence"@,
    }
}

impl Outcome {
    /// The outcome's name in output and on the wire.
    pub fn name(self) -> (n: &'static str)
        ensures
            n@ == outcome_name(self),
    {
        match self {
            Outcome::Match => "match",
            Outcome::NoMatch => "no_match",
            Outcome::Uncertain => "uncertain",
        }
    }
}

impl Uncertainty {
    /// The reason's name in output.
    pub fn name(self) -> (n: &'static str)
        ensures
            n@ == uncertainty_name(self),
    {
        match self {
            Uncertainty::InsufficientContext => "insufficient_context",
            Uncertainty::LowConfidence => "low_confidence",
        }
    }
}

/// The reason an answer is held back: the model chose `uncertain`, or its confidence is below the threshold.
pub open spec fn reason_for(choice: Outcome, below_threshold: bool) -> Option<Uncertainty> {
    if choice == Outcome::Uncertain {
        Some(Uncertainty::InsufficientContext)
    } else if below_threshold {
        Some(Uncertainty::LowConfidence)
    } else {
        None
    }
}

/// The outcome reported for a model's choice: uncertain whenever there is a reason to hold it back, else the
/// choice itself. Returns the outcome and the reason.
pub fn decide_outcome(choice: Outcome, below_threshold: bool) -> (r: (Outcome, Option<Uncertainty>))
    ensures
        r.1 == reason_for(choice, below_threshold),
        r.0 == (if r.1 is Some {
            Outcome::Uncertain
        } else {
            choice
        }),
{
    let reason = if choice == Outcome::Uncertain {
        Some(Uncertainty::InsufficientContext)
    } else if below_threshold {
        Some(Uncertainty::LowConfidence)
    } else {
        None
    };
    let outcome = if reason.is_some() {
        Outcome::Uncertain
    } else {
        choice
    };
    (outcome, reason)
}

/// Uncertainty cannot become a confident match: a reported match needs a chosen match with confidence at
/// the threshold; a chosen `uncertain` is always reported uncertain for lack of context; and any answer below
/// the threshold is reported uncertain for low confidence unless the model chose `uncertain` itself.
pub proof fn uncertainty_is_never_confident(choice: Outcome, below_threshold: bool)
    ensures
        ({
            let reason = reason_for(choice, below_threshold);
            let outcome = if reason is Some {
                Outcome::Uncertain
            } else {
                choice
            };
            &&& outcome == Outcome::Match ==> choice == Outcome::Match && !below_threshold
            &&& outcome == Outcome::NoMatch ==> choice == Outcome::NoMatch && !below_threshold
            &&& choice == Outcome::Uncertain ==> outcome == Outcome::Uncertain && reason == Some(
                Uncertainty::InsufficientContext,
            )
            &&& below_threshold && choice != Outcome::Uncertain ==> outcome == Outcome::Uncertain
                && reason == Some(Uncertainty::LowConfidence)
            &&& (outcome == Outcome::Uncertain) == (reason is Some)
        }),
{
}

} // verus!
