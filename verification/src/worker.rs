//! The cooperative-cancellation race protocol of the generation worker.
//!
//! A unit of work `W` runs concurrently with a poller `P` that wakes at a
//! short fixed interval and checks two advisory abort flags: the task's
//! own flag and the process-wide one. The host loop races the two and
//! adopts whichever resolves first; the decisions taken at every step of
//! that protocol are the functions of this module, checked for every
//! combination of flags and work results.
//!
//! When the worker resolves the race it must deposit a successful result
//! into the task's one-shot channel *before* flipping the task status to
//! Completed, so that an observer of the terminal status can always
//! retrieve a ready result.

use crate::ai::types::AIError;
use crate::ai::types::AIResponse;
use crate::ai::types::TaskStatus;
use vstd::prelude::*;
use vstd::string::StringExecFns;

verus! {

/// What one wake of the poller decides, given the two abort flags.
#[derive(Debug, Clone, Copy, PartialEq, Eq, Structural)]
pub struct PollDecision {
    /// Resolve the race immediately with the Cancelled outcome.
    pub cancel_now: bool,
    /// The normalized value of the task-local flag: once the global flag
    /// is seen, the local flag is raised too, so later checks stay cheap
    /// and consistent.
    pub local_flag: bool,
}

/// The decision of one poller wake: cancel as soon as either flag is
/// set, and normalize the local flag to the disjunction of both.
pub open spec fn spec_poll(local_abort: bool, global_abort: bool) -> PollDecision {
    PollDecision {
        cancel_now: local_abort || global_abort,
        local_flag: local_abort || global_abort,
    }
}

/// One wake of the poller: check both advisory flags.
pub fn poll_abort(local_abort: bool, global_abort: bool) -> (r: PollDecision)
    ensures
        r == spec_poll(local_abort, global_abort),
{
    let cancel = local_abort || global_abort;
    PollDecision { cancel_now: cancel, local_flag: cancel }
}

/// The distinguished cancellation outcome that the poller manufactures;
/// it never produces an error of its own.
pub fn cancellation_error() -> (r: AIError)
    ensures
        r matches AIError::Cancelled(m) && m@ == "Operation aborted by user"@,
{
    AIError::Cancelled(String::from_str("Operation aborted by user"))
}

/// The pre-flight check before the race starts: work whose local abort
/// flag is already set is cancelled without being started.
pub fn abort_precheck(local_abort: bool) -> (r: Option<AIError>)
    ensures
        r is Some <==> local_abort,
        local_abort ==> (r matches Some(AIError::Cancelled(m)) && m@
            == "Operation aborted by user"@),
{
    if local_abort {
        Some(cancellation_error())
    } else {
        None
    }
}

/// Which of the two raced activities resolved first.
#[derive(Debug)]
pub enum RaceWinner {
    /// The unit of work finished, with its own result.
    Work(Result<AIResponse, AIError>),
    /// The poller observed an abort flag first; the work is abandoned
    /// and its eventual result discarded.
    Poller,
}

/// Whether the race delivers a success: only a work win whose result is
/// Ok, with the local abort flag still clear on the re-check right after
/// the race resolved.
pub open spec fn spec_race_ok(winner: RaceWinner, local_abort_now: bool) -> bool {
    winner matches RaceWinner::Work(Ok(_)) && !local_abort_now
}

/// Whether the race delivers the distinguished Cancelled outcome: a
/// poller win, a success downgraded by the re-check, or the work's own
/// cancellation error.
pub open spec fn spec_race_cancelled(winner: RaceWinner, local_abort_now: bool) -> bool {
    match winner {
        RaceWinner::Poller => true,
        RaceWinner::Work(w) => match w {
            Ok(_) => local_abort_now,
            Err(e) => e is Cancelled,
        },
    }
}

/// Resolve the race: `winner` is whichever activity finished first and
/// `local_abort_now` is the local abort flag re-read immediately after
/// the race resolved.
///
/// A win by the poller is Cancelled whatever the work would have
/// produced. A successful work result is delivered only when the local
/// abort flag is still clear on the re-check: a success that raced with
/// a just-set flag is downgraded to Cancelled rather than delivered,
/// respecting the caller's cancellation intent over salvaging finished
/// work. A domain error from the work passes through unchanged.
pub fn resolve_race(winner: RaceWinner, local_abort_now: bool) -> (r: Result<AIResponse, AIError>)
    ensures
        (r is Ok) == spec_race_ok(winner, local_abort_now),
        (r matches Err(e) && e is Cancelled) == spec_race_cancelled(winner, local_abort_now),
        winner is Poller ==> (r matches Err(e) && e matches AIError::Cancelled(m) && m@
            == "Operation aborted by user"@),
        winner matches RaceWinner::Work(Ok(resp)) ==> (local_abort_now || r == Ok::<
            AIResponse,
            AIError,
        >(resp)),
        winner matches RaceWinner::Work(Ok(_)) ==> (!local_abort_now || (r matches Err(e)
            && e matches AIError::Cancelled(m) && m@
            == "Operation aborted after generation completed"@)),
        winner matches RaceWinner::Work(Err(e)) ==> r == Err::<AIResponse, AIError>(e),
{
    match winner {
        RaceWinner::Poller => Err(cancellation_error()),
        RaceWinner::Work(w) => match w {
            Ok(resp) => {
                if local_abort_now {
                    Err(
                        AIError::Cancelled(
                            String::from_str("Operation aborted after generation completed"),
                        ),
                    )
                } else {
                    Ok(resp)
                }
            },
            Err(e) => Err(e),
        },
    }
}

/// The overall outcome of one dispatched unit of work, as the worker
/// sees it after the race and the surrounding timeout.
#[derive(Debug)]
pub enum GenerationOutcome {
    /// The race resolved, successfully or with an error.
    Finished(Result<AIResponse, AIError>),
    /// The fixed timeout branch won the race.
    TimedOut,
}

/// The terminal status the registry records for an outcome: success
/// completes the task, the distinguished cancellation outcome cancels
/// it, and every other error — a timeout included — fails it, so that
/// Cancelled is always distinguishable from Failed.
pub open spec fn spec_status_for(outcome: GenerationOutcome) -> TaskStatus {
    match outcome {
        GenerationOutcome::Finished(Ok(_)) => TaskStatus::Completed,
        GenerationOutcome::Finished(Err(e)) => if e is Cancelled {
            TaskStatus::Cancelled
        } else {
            TaskStatus::Failed
        },
        GenerationOutcome::TimedOut => TaskStatus::Failed,
    }
}

/// Classify an outcome into the terminal status to record.
pub fn status_for_outcome(outcome: &GenerationOutcome) -> (s: TaskStatus)
    ensures
        s == spec_status_for(*outcome),
        s.spec_is_terminal(),
{
    match outcome {
        GenerationOutcome::Finished(Ok(_)) => TaskStatus::Completed,
        GenerationOutcome::Finished(Err(e)) => {
            if e.is_cancelled() {
                TaskStatus::Cancelled
            } else {
                TaskStatus::Failed
            }
        },
        GenerationOutcome::TimedOut => TaskStatus::Failed,
    }
}

/// The content to deposit into the task's one-shot result channel:
/// exactly a successful outcome's generated text, and nothing otherwise
/// — a late or cancelled result is discarded, never delivered.
pub fn response_content(outcome: GenerationOutcome) -> (r: Option<String>)
    ensures
        match outcome {
            GenerationOutcome::Finished(Ok(resp)) => r == Some(resp.content),
            _ => r is None,
        },
{
    match outcome {
        GenerationOutcome::Finished(Ok(resp)) => Some(resp.content),
        _ => None,
    }
}

/// However the unit of work would have resolved, a race the poller won
/// is Cancelled — never a success — and a race the work won is
/// delivered successfully only when no abort had been observed by the
/// re-check.
pub proof fn lemma_observed_abort_never_completes(
    w: Result<AIResponse, AIError>,
    local_abort_now: bool,
)
    ensures
        spec_race_cancelled(RaceWinner::Poller, local_abort_now),
        !spec_race_ok(RaceWinner::Poller, local_abort_now),
        spec_race_ok(RaceWinner::Work(w), local_abort_now) ==> !local_abort_now && w is Ok,
        local_abort_now ==> !spec_race_ok(RaceWinner::Work(w), local_abort_now),
{
}

/// A global abort set before the race starts is observed by the very
/// first poller wake, whatever the task-local flag holds: the race
/// resolves Cancelled within one poll interval.
pub proof fn lemma_global_abort_cancels_first_poll(local_abort: bool)
    ensures
        spec_poll(local_abort, true).cancel_now,
        spec_poll(local_abort, true).local_flag,
{
}

/// End to end: any race result that meets the resolution rule is
/// classified Cancelled — never Completed — when the poller won or an
/// abort was observed at the re-check, Completed exactly on an
/// undisturbed success, and Failed on a timeout.
pub proof fn lemma_status_classification(
    winner: RaceWinner,
    local_abort_now: bool,
    r: Result<AIResponse, AIError>,
)
    requires
        (r is Ok) == spec_race_ok(winner, local_abort_now),
        (r matches Err(e) && e is Cancelled) == spec_race_cancelled(winner, local_abort_now),
    ensures
        winner is Poller ==> spec_status_for(GenerationOutcome::Finished(r))
            == TaskStatus::Cancelled,
        winner matches RaceWinner::Work(Ok(_)) && local_abort_now ==> spec_status_for(
            GenerationOutcome::Finished(r),
        ) == TaskStatus::Cancelled,
        spec_status_for(GenerationOutcome::Finished(r)) == TaskStatus::Completed <==> spec_race_ok(
            winner,
            local_abort_now,
        ),
        spec_status_for(GenerationOutcome::TimedOut) == TaskStatus::Failed,
{
}

} // verus!
