//! The worker's poll loop as a state machine: it asks for tasks while the
//! coordinator has some, then waits before asking again, and stops when
//! shutdown is asked for. The caller performs each action and reports back.
use vstd::prelude::*;
use crate::worker::is_exit_requested;

verus! {

/// How long the worker waits after the coordinator had no task for it.
pub const BACKOFF_MS: u64 = 5000;

/// How often the worker checks for shutdown while it waits.
pub const TICK_MS: u64 = 20;

#[derive(Debug, Clone, Copy, PartialEq, Eq, Structural)]
pub enum PollState {
    /// Asking for tasks, one after the other.
    Asking,
    /// Waiting after a request that gave no task; `waited_ms` so far.
    Waiting { waited_ms: u64 },
}

#[derive(Debug, Clone, Copy, PartialEq, Eq, Structural)]
pub enum PollEvent {
    /// The request failed, or its reply was not a task.
    NoTask,
    /// A claimed task was run.
    TaskDone,
    /// Time passed while waiting.
    Slept { ms: u64 },
}

#[derive(Debug, Clone, Copy, PartialEq, Eq, Structural)]
pub enum PollAction {
    /// Post the capabilities and run the task that comes back, if any.
    Ask,
    /// Sleep this long, then report it.
    Sleep { ms: u64 },
    /// Stop the worker.
    Exit,
}

/// The first action: ask, unless shutdown was already asked for.
pub fn poll_start(exit_counter: u8) -> (r: (PollState, PollAction))
    ensures
        r.0 == PollState::Asking,
        exit_counter >= 1 ==> r.1 == PollAction::Exit,
        exit_counter == 0 ==> r.1 == PollAction::Ask,
{
    if is_exit_requested(exit_counter) {
        (PollState::Asking, PollAction::Exit)
    } else {
        (PollState::Asking, PollAction::Ask)
    }
}

/// The next state and action after `event` in state `state`.
pub fn poll_step(state: PollState, event: PollEvent, exit_counter: u8) -> (r: (PollState, PollAction))
    ensures
        exit_counter >= 1 ==> r == (state, PollAction::Exit),
        exit_counter == 0 ==> match event {
            PollEvent::TaskDone => r == (PollState::Asking, PollAction::Ask),
            PollEvent::NoTask => r == (PollState::Waiting { waited_ms: 0 }, PollAction::Sleep {
                ms: TICK_MS,
            }),
            PollEvent::Slept { ms } => match state {
                PollState::Asking => r == (PollState::Asking, PollAction::Ask),
                PollState::Waiting { waited_ms } => if waited_ms + ms >= BACKOFF_MS {
                    r == (PollState::Asking, PollAction::Ask)
                } else {
                    r == (PollState::Waiting { waited_ms: (waited_ms + ms) as u64 }, PollAction::Sleep {
                        ms: TICK_MS,
                    })
                },
            },
        },
{
    if is_exit_requested(exit_counter) {
        return (state, PollAction::Exit);
    }
    match event {
        PollEvent::TaskDone => (PollState::Asking, PollAction::Ask),
        PollEvent::NoTask => (PollState::Waiting { waited_ms: 0 }, PollAction::Sleep { ms: TICK_MS }),
        PollEvent::Slept { ms } => match state {
            PollState::Asking => (PollState::Asking, PollAction::Ask),
            PollState::Waiting { waited_ms } => {
                if ms >= BACKOFF_MS || waited_ms >= BACKOFF_MS - ms {
                    (PollState::Asking, PollAction::Ask)
                } else {
                    (PollState::Waiting { waited_ms: waited_ms + ms }, PollAction::Sleep { ms: TICK_MS })
                }
            },
        },
    }
}

} // verus!
