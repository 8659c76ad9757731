//! Ending an idle process.

use vstd::prelude::*;
use crate::config::AppConfig;
use crate::state::{elapsed, State};

verus! {

/// The time between two looks at the clock, in milliseconds.
pub const POLL_INTERVAL_MS: u64 = 60000;

/// What the watcher does after a look at the clock.
#[derive(Clone, Copy, Debug, PartialEq, Eq, Structural)]
pub enum TerminatorAction {
    /// End the process.
    Exit,
    /// Look again after `ms` milliseconds.
    Sleep { ms: u64 },
}

/// The watcher that ends a process which has been idle for `idle_ms`.
#[derive(Clone, Copy, Debug, PartialEq, Eq, Structural)]
pub struct Terminator {
    pub idle_ms: u64,
}

/// Whether a process in state `state` has been idle for `idle_ms` at `now`:
/// neither a client request nor a background transfer is more recent.
pub open spec fn is_idle(state: State, now: u64, idle_ms: u64) -> bool {
    elapsed(now, state.last_user_facing_request) >= idle_ms && elapsed(
        now,
        state.last_background_upload,
    ) >= idle_ms
}

/// The watcher for `config`, where it sets an idle time.
pub fn start_terminator(config: &AppConfig) -> (r: Option<Terminator>)
    ensures
        r == match config.idle_time_terminate {
            Some(idle_ms) => Some(Terminator { idle_ms }),
            None => None,
        },
{
    match config.idle_time_terminate {
        Some(idle_ms) => Some(Terminator { idle_ms }),
        None => None,
    }
}

impl Terminator {
    /// What to do at `now`: exit when the process has been idle for the
    /// configured time, else look again after the poll interval.
    pub fn poll(&self, state: &State, now: u64) -> (r: TerminatorAction)
        ensures
            r == if is_idle(*state, now, self.idle_ms) {
                TerminatorAction::Exit
            } else {
                TerminatorAction::Sleep { ms: POLL_INTERVAL_MS }
            },
    {
        if state.since_user_request(now) < self.idle_ms || state.since_background_upload(now)
            < self.idle_ms {
            TerminatorAction::Sleep { ms: POLL_INTERVAL_MS }
        } else {
            TerminatorAction::Exit
        }
    }
}

} // verus!
