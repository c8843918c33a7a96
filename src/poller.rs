use vstd::prelude::*;

use crate::client::SonarQubeError;
use crate::text::{owned, same_str};
use crate::types::{AnalysisResponse, AnalysisTask};

verus! {

pub const SUCCESS: &'static str = "SUCCESS";
pub const FAILED: &'static str = "FAILED";
pub const CANCELED: &'static str = "CANCELED";

/// Message of the failure reported for a canceled analysis.
pub const CANCELED_MESSAGE: &'static str = "Analysis was canceled";

/// What the waiting loop observed.
pub enum PollEvent {
    /// Time since the wait began, in milliseconds, checked before each fetch.
    Elapsed(u128),
    /// The result of one fetch of the task status.
    Fetched(Result<AnalysisResponse, SonarQubeError>),
}

/// What the waiting loop does next.
pub enum PollAction {
    /// Fetch the task status now.
    Fetch,
    /// Sleep for the poll interval, then check the deadline again.
    Retry,
    /// Stop waiting with this result.
    Finish(Result<AnalysisTask, SonarQubeError>),
}

/// Whether a task status ends the wait.
pub open spec fn is_terminal(status: Seq<char>) -> bool {
    status == SUCCESS@ || status == FAILED@ || status == CANCELED@
}

/// Whether a fetch result lets the wait go on: a failed fetch, or a task in
/// a status that does not end the wait.
pub open spec fn keeps_waiting(fetched: Result<AnalysisResponse, SonarQubeError>) -> bool {
    match fetched {
        Ok(resp) => !is_terminal(resp.task.status@),
        Err(_) => true,
    }
}

/// The message of a failed task: its error message, or empty.
pub open spec fn failure_message(task: AnalysisTask) -> Seq<char> {
    match task.error_message {
        Some(m) => m@,
        None => Seq::empty(),
    }
}

/// Decides what the waiting loop does after an event: past the deadline it
/// stops with `Timeout`; a failed fetch or a non-terminal status is retried;
/// `SUCCESS` returns the task; `FAILED` fails with the task's error message
/// (empty where it has none); `CANCELED` fails with a fixed message.
pub fn next_action(timeout_ms: u128, event: PollEvent) -> (r: PollAction)
    ensures
        event matches PollEvent::Elapsed(e) ==> (if e > timeout_ms {
            r matches PollAction::Finish(Err(SonarQubeError::Timeout))
        } else {
            r is Fetch
        }),
        event matches PollEvent::Fetched(f) ==> (keeps_waiting(f) <==> r is Retry),
        event matches PollEvent::Fetched(Ok(resp)) ==> {
            let task = resp.task;
            &&& task.status@ == SUCCESS@ ==> (r matches PollAction::Finish(Ok(t)) && t == task)
            &&& task.status@ == FAILED@ ==> (r matches PollAction::Finish(Err(SonarQubeError::Analysis(m)))
                && m@ == failure_message(task))
            &&& task.status@ == CANCELED@ ==> (r matches PollAction::Finish(
                Err(SonarQubeError::Analysis(m)),
            ) && m@ == CANCELED_MESSAGE@)
        },
{
    proof {
        reveal_strlit("SUCCESS");
        reveal_strlit("FAILED");
        reveal_strlit("CANCELED");
        assert(SUCCESS@.len() != FAILED@.len() && SUCCESS@.len() != CANCELED@.len()
            && FAILED@.len() != CANCELED@.len());
    }
    match event {
        PollEvent::Elapsed(e) => {
            if e > timeout_ms {
                PollAction::Finish(Err(SonarQubeError::Timeout))
            } else {
                PollAction::Fetch
            }
        },
        PollEvent::Fetched(Err(_)) => PollAction::Retry,
        PollEvent::Fetched(Ok(resp)) => {
            let task = resp.task;
            if same_str(task.status.as_str(), SUCCESS) {
                PollAction::Finish(Ok(task))
            } else if same_str(task.status.as_str(), FAILED) {
                let message = match task.error_message {
                    Some(m) => m,
                    None => String::new(),
                };
                PollAction::Finish(Err(SonarQubeError::Analysis(message)))
            } else if same_str(task.status.as_str(), CANCELED) {
                PollAction::Finish(Err(SonarQubeError::Analysis(owned(CANCELED_MESSAGE))))
            } else {
                PollAction::Retry
            }
        },
    }
}

/// Where a wait ends, for the rounds it goes through: each round is the
/// elapsed time checked against the deadline and the fetch made after it.
/// `Some((k, true))`: at the deadline check of round `k`; `Some((k, false))`:
/// on the fetch of round `k`; `None`: not within these rounds.
pub open spec fn wait_end(timeout_ms: u128, rounds: Seq<(u128, Result<AnalysisResponse, SonarQubeError>)>) -> Option<
    (int, bool),
>
    decreases rounds.len(),
{
    if rounds.len() == 0 {
        None
    } else if rounds[0].0 > timeout_ms {
        Some((0, true))
    } else if !keeps_waiting(rounds[0].1) {
        Some((0, false))
    } else {
        match wait_end(timeout_ms, rounds.drop_first()) {
            Some((k, d)) => Some((k + 1, d)),
            None => None,
        }
    }
}

/// A wait whose fetches never reach a terminal status before the deadline
/// passes ends at the deadline check, where `next_action` fails with
/// `Timeout` rather than an analysis failure.
pub proof fn law_wait_times_out(
    timeout_ms: u128,
    rounds: Seq<(u128, Result<AnalysisResponse, SonarQubeError>)>,
    j: int,
)
    requires
        0 <= j < rounds.len(),
        rounds[j].0 > timeout_ms,
        forall|k: int| 0 <= k < j ==> #[trigger] rounds[k].0 <= timeout_ms && keeps_waiting(rounds[k].1),
    ensures
        wait_end(timeout_ms, rounds) == Some((j, true)),
    decreases j,
{
    if j > 0 {
        assert(rounds[0].0 <= timeout_ms && keeps_waiting(rounds[0].1));
        assert forall|k: int| 0 <= k < j - 1 implies #[trigger] rounds.drop_first()[k].0 <= timeout_ms
            && keeps_waiting(rounds.drop_first()[k].1) by {
            assert(rounds.drop_first()[k] == rounds[k + 1]);
        }
        law_wait_times_out(timeout_ms, rounds.drop_first(), j - 1);
    }
}

} // verus!
