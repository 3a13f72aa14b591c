//! The run-once protocol: a script function keyed by an id runs only when the
//! cache says its work is still pending, and the cache is marked only after
//! the function succeeded.
//!
//! The caller performs each action (ask the cache, run the function, mark the
//! cache) and hands back what came of it; an error in any of them ends the
//! run with that error.

use vstd::prelude::*;

verus! {

/// Where a run stands.
#[derive(PartialEq, Eq, Structural, Clone, Copy)]
pub enum OncePhase {
    /// Nothing was done yet.
    Start,
    /// The cache was asked whether the work is pending.
    Testing,
    /// The script function is running.
    Running,
    /// The function returned `result`; the cache is being marked.
    Marking { result: bool },
    /// The run returned `result`.
    Finished { result: bool },
}

/// What came of the last action.
#[derive(PartialEq, Eq, Structural, Clone, Copy)]
pub enum OnceEvent {
    /// The run is started.
    Begin,
    /// The cache answered: the work is `pending`, or done already.
    Tested { pending: bool },
    /// The script function returned `result`.
    Ran { result: bool },
    /// The cache was marked.
    Marked,
}

/// What to do next.
#[derive(PartialEq, Eq, Structural, Clone, Copy)]
pub enum OnceAction {
    /// Ask the cache whether the work is pending.
    Test,
    /// Run the script function.
    Run,
    /// Mark the work as done in the cache.
    Mark,
    /// Return `result` to the script.
    Return { result: bool },
}

/// The next phase and action after `event` in phase `phase`; `None` when the
/// event does not belong to that phase.
pub open spec fn once_next(phase: OncePhase, event: OnceEvent) -> Option<(OncePhase, OnceAction)> {
    match (phase, event) {
        (OncePhase::Start, OnceEvent::Begin) => Some((OncePhase::Testing, OnceAction::Test)),
        (OncePhase::Testing, OnceEvent::Tested { pending }) => if pending {
            Some((OncePhase::Running, OnceAction::Run))
        } else {
            Some((OncePhase::Finished { result: false }, OnceAction::Return { result: false }))
        },
        (OncePhase::Running, OnceEvent::Ran { result }) => Some(
            (OncePhase::Marking { result }, OnceAction::Mark),
        ),
        (OncePhase::Marking { result }, OnceEvent::Marked) => Some(
            (OncePhase::Finished { result }, OnceAction::Return { result }),
        ),
        _ => None,
    }
}

/// One step of a run (see `once_next`).
pub fn once_step(phase: OncePhase, event: OnceEvent) -> (r: Option<(OncePhase, OnceAction)>)
    ensures
        r == once_next(phase, event),
{
    match (phase, event) {
        (OncePhase::Start, OnceEvent::Begin) => Some((OncePhase::Testing, OnceAction::Test)),
        (OncePhase::Testing, OnceEvent::Tested { pending }) => if pending {
            Some((OncePhase::Running, OnceAction::Run))
        } else {
            Some((OncePhase::Finished { result: false }, OnceAction::Return { result: false }))
        },
        (OncePhase::Running, OnceEvent::Ran { result }) => Some(
            (OncePhase::Marking { result }, OnceAction::Mark),
        ),
        (OncePhase::Marking { result }, OnceEvent::Marked) => Some(
            (OncePhase::Finished { result }, OnceAction::Return { result }),
        ),
        _ => None,
    }
}

/// The function runs only right after the cache said the work is pending.
pub proof fn lemma_runs_only_when_pending(phase: OncePhase, event: OnceEvent)
    ensures
        once_next(phase, event) matches Some((_, OnceAction::Run)) ==> phase == OncePhase::Testing
            && event == (OnceEvent::Tested { pending: true }),
{
}

/// The cache is marked only right after the function returned.
pub proof fn lemma_marks_only_after_run(phase: OncePhase, event: OnceEvent)
    ensures
        once_next(phase, event) matches Some((_, OnceAction::Mark)) ==> phase == OncePhase::Running
            && event is Ran,
{
}

/// A run returns `false` when the work was done already, and otherwise what
/// the function returned, once the cache is marked.
pub proof fn lemma_return_value(phase: OncePhase, event: OnceEvent, result: bool)
    ensures
        once_next(phase, event) matches Some((_, OnceAction::Return { result: r })) && r == result
            ==> (phase == OncePhase::Testing && event == (OnceEvent::Tested { pending: false })
            && !result) || (phase == (OncePhase::Marking { result }) && event == OnceEvent::Marked),
{
}

/// A finished run takes no further step: the function runs at most once.
pub proof fn lemma_finished_is_final(result: bool, event: OnceEvent)
    ensures
        once_next(OncePhase::Finished { result }, event) is None,
{
}

/// A run whose cache reports pending work runs the function, marks the cache
/// and then returns exactly the value the function returned, whatever it is.
pub proof fn lemma_pending_run_returns_function_result(result: bool)
    ensures
        once_next(OncePhase::Start, OnceEvent::Begin) == Some((OncePhase::Testing, OnceAction::Test)),
        once_next(OncePhase::Testing, OnceEvent::Tested { pending: true }) == Some(
            (OncePhase::Running, OnceAction::Run),
        ),
        once_next(OncePhase::Running, OnceEvent::Ran { result }) == Some(
            (OncePhase::Marking { result }, OnceAction::Mark),
        ),
        once_next(OncePhase::Marking { result }, OnceEvent::Marked) == Some(
            (OncePhase::Finished { result }, OnceAction::Return { result }),
        ),
{
}

/// A run whose cache reports the work done returns `false` at once, without
/// running the function or marking the cache.
pub proof fn lemma_done_run_returns_false()
    ensures
        once_next(OncePhase::Testing, OnceEvent::Tested { pending: false }) == Some(
            (OncePhase::Finished { result: false }, OnceAction::Return { result: false }),
        ),
{
}

/// The value a finished run returns is the one its phase recorded: whatever
/// step produces `Return { result }` moves to `Finished { result }`, and a
/// step into `Marking` records exactly what the function returned.
pub proof fn lemma_result_carried_through(phase: OncePhase, event: OnceEvent)
    ensures
        once_next(phase, event) matches Some((next, OnceAction::Return { result })) ==> next
            == (OncePhase::Finished { result }),
        once_next(phase, event) matches Some((OncePhase::Marking { result }, _)) ==> event
            == (OnceEvent::Ran { result }),
{
}

} // verus!
