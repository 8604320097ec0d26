//! The dispatcher's decisions: what a run does after extraction and the
//! throttle check, and how per-channel delivery reports become run outcomes.
//!
//! The concurrent fan-out itself is outside work; every channel hands its
//! delivery report back, and the collection step here guarantees one
//! outcome per channel, with failures captured as data rather than allowed
//! to disturb the siblings.
use vstd::prelude::*;

verus! {

/// The per-channel result of a run.
pub enum RunOutcome {
    /// The channel delivered its payload.
    Sent,
    /// Delivery was skipped (dry-run, or the throttle refused).
    Suppressed,
    /// The channel's delivery failed, with the transport's reason.
    Failed(String),
}

/// What one channel's delivery step reported back.
pub enum DeliveryReport {
    /// Dry-run: delivery was never attempted.
    Skipped,
    /// The transport accepted the payload.
    Delivered,
    /// The transport failed, with its reason.
    DeliveryFailed(String),
}

/// What a run does once the matches are counted and the throttle has spoken.
#[derive(PartialEq, Eq, Structural, Clone, Copy, Debug)]
pub enum RunAction {
    /// No matches: the terminal no-op state; nothing else happens.
    NoMatches,
    /// The throttle refused: no channel is attempted.
    ThrottledSkip,
    /// Fan the match-set out to every configured channel.
    Notify,
}

/// The dispatcher's decision: an empty match-set ends the run, a refused
/// throttle suppresses every channel, and otherwise every channel is invoked.
pub open spec fn spec_plan_run(match_count: nat, throttle_permitted: bool) -> RunAction {
    if match_count == 0 {
        RunAction::NoMatches
    } else if !throttle_permitted {
        RunAction::ThrottledSkip
    } else {
        RunAction::Notify
    }
}

/// Decides what the run does.  The throttle is consulted by the caller exactly
/// once, before any channel is invoked.
pub fn plan_run(match_count: usize, throttle_permitted: bool) -> (a: RunAction)
    ensures
        a == spec_plan_run(match_count as nat, throttle_permitted),
{
    if match_count == 0 {
        RunAction::NoMatches
    } else if !throttle_permitted {
        RunAction::ThrottledSkip
    } else {
        RunAction::Notify
    }
}

/// `o` is the outcome that `r` maps to: a skipped delivery is reported
/// `Suppressed`, an accepted one `Sent`, and a failed one `Failed` with the
/// same reason.
pub open spec fn outcome_matches(r: DeliveryReport, o: RunOutcome) -> bool {
    match r {
        DeliveryReport::Skipped => o is Suppressed,
        DeliveryReport::Delivered => o is Sent,
        DeliveryReport::DeliveryFailed(m) => o matches RunOutcome::Failed(e) && e@ == m@,
    }
}

/// Maps one delivery report to its outcome.
pub fn outcome_of(report: &DeliveryReport) -> (o: RunOutcome)
    ensures
        outcome_matches(*report, o),
{
    match report {
        DeliveryReport::Skipped => RunOutcome::Suppressed,
        DeliveryReport::Delivered => RunOutcome::Sent,
        DeliveryReport::DeliveryFailed(m) => RunOutcome::Failed(m.clone()),
    }
}

/// Collects the reports of all channels into one outcome per channel:
/// every channel yields exactly one outcome, in channel order, and one
/// channel's failure never drops or disturbs a sibling's outcome.
pub fn collect_outcomes(reports: &Vec<DeliveryReport>) -> (outs: Vec<RunOutcome>)
    ensures
        outs@.len() == reports@.len(),
        forall|i: int|
            0 <= i < reports@.len() ==> outcome_matches(reports@[i], #[trigger] outs@[i]),
{
    let mut outs: Vec<RunOutcome> = Vec::new();
    let mut k: usize = 0;
    while k < reports.len()
        invariant
            0 <= k <= reports.len(),
            outs@.len() == k,
            forall|i: int| 0 <= i < k ==> outcome_matches(reports@[i], #[trigger] outs@[i]),
        decreases reports.len() - k,
    {
        let o = outcome_of(&reports[k]);
        outs.push(o);
        k += 1;
    }
    outs
}

} // verus!
