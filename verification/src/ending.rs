//! How a run ends, and what it tells the shell then.

use vstd::prelude::*;

use crate::http::{ThreatError, ThreatErrorView};

verus! {

/// How a run ends.
#[derive(Debug, Clone, Copy, PartialEq, Eq, Structural)]
pub enum Ending {
    Done,
    /// A lookup failed, or the report could not be written.
    Failed,
    NoKey,
    UnsupportedOs,
    /// The quota is used up.
    RateLimited,
    /// There are findings on which the run is to fail.
    ThresholdMet,
}

/// The exit code of an ending.
pub open spec fn code_of(e: Ending) -> u8 {
    match e {
        Ending::Done => 0,
        Ending::Failed => 1,
        Ending::NoKey => 2,
        Ending::UnsupportedOs => 3,
        Ending::RateLimited => 4,
        Ending::ThresholdMet => 5,
    }
}

impl Ending {
    /// The exit code.
    pub fn code(self) -> (r: u8)
        ensures
            r == code_of(self),
    {
        match self {
            Ending::Done => 0,
            Ending::Failed => 1,
            Ending::NoKey => 2,
            Ending::UnsupportedOs => 3,
            Ending::RateLimited => 4,
            Ending::ThresholdMet => 5,
        }
    }
}

/// How a run ends whose lookups failed.
pub open spec fn ending_for(e: ThreatErrorView) -> Ending {
    match e {
        ThreatErrorView::RateLimitExceeded(_) => Ending::RateLimited,
        _ => Ending::Failed,
    }
}

/// How a run ends whose lookups failed.
pub fn failed_ending(e: &ThreatError) -> (r: Ending)
    ensures
        r == ending_for(e.deep_view()),
{
    match e {
        ThreatError::RateLimitExceeded(_) => Ending::RateLimited,
        _ => Ending::Failed,
    }
}

/// How a run ends whose report was written.
pub open spec fn ending_after(threshold_met: bool) -> Ending {
    if threshold_met {
        Ending::ThresholdMet
    } else {
        Ending::Done
    }
}

/// How a run ends whose report was written.
pub fn reported_ending(threshold_met: bool) -> (r: Ending)
    ensures
        r == ending_after(threshold_met),
{
    if threshold_met {
        Ending::ThresholdMet
    } else {
        Ending::Done
    }
}

/// Endings that differ have codes that differ, and only a run that is done ends with zero.
pub proof fn codes_tell_endings_apart(a: Ending, b: Ending)
    ensures
        code_of(a) == code_of(b) ==> a == b,
        code_of(a) == 0 <==> a is Done,
{
}

} // verus!
