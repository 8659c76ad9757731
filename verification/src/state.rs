//! When the proxy last served a client and when it last replicated an entry.

use vstd::prelude::*;

verus! {

/// The two moments of last activity, in milliseconds of one monotonic clock.
#[derive(Clone, Copy, Debug, PartialEq, Eq, Structural)]
pub struct State {
    pub last_user_facing_request: u64,
    pub last_background_upload: u64,
}

/// The time from `then` to `now`, or zero where `then` is not in the past.
pub open spec fn elapsed(now: u64, then: u64) -> u64 {
    if now >= then {
        (now - then) as u64
    } else {
        0
    }
}

impl State {
    /// The state of a process that starts at `now`.
    pub fn new(now: u64) -> (r: State)
        ensures
            r == (State { last_user_facing_request: now, last_background_upload: now }),
    {
        State { last_user_facing_request: now, last_background_upload: now }
    }

    /// Records a client request at `now`.
    pub fn user_request(&mut self, now: u64)
        ensures
            *final(self) == (State { last_user_facing_request: now, ..*old(self) }),
    {
        self.last_user_facing_request = now;
    }

    /// Records the end of a background transfer at `now`.
    pub fn background_upload(&mut self, now: u64)
        ensures
            *final(self) == (State { last_background_upload: now, ..*old(self) }),
    {
        self.last_background_upload = now;
    }

    /// The time since the last client request.
    pub fn since_user_request(&self, now: u64) -> (r: u64)
        ensures
            r == elapsed(now, self.last_user_facing_request),
    {
        if now >= self.last_user_facing_request {
            now - self.last_user_facing_request
        } else {
            0
        }
    }

    /// The time since the last background transfer ended.
    pub fn since_background_upload(&self, now: u64) -> (r: u64)
        ensures
            r == elapsed(now, self.last_background_upload),
    {
        if now >= self.last_background_upload {
            now - self.last_background_upload
        } else {
            0
        }
    }
}

} // verus!
