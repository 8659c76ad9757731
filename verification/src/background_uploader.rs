//! The worker that replicates stored entries to the upstreams, one at a time.
//!
//! The program owns the transfers and the clock.  After each event it asks
//! the worker what to do next, and does it.

use vstd::prelude::*;
use vstd::string::*;
use crate::client::Retry;
use crate::process_action_cache::{is_cas_entry, is_cas_key};
use crate::state::{elapsed, State};

verus! {

/// While a client request is younger than this, nothing is taken from the
/// queue.  In milliseconds.
pub const QUIET_WINDOW_MS: u64 = 10000;

/// The wait before the worker looks at the clock again, in milliseconds.
pub const RECHECK_MS: u64 = 5000;

/// One entry to replicate: where to, from which file, and under which cache
/// key it is held.
#[derive(Debug)]
pub struct UploadRequest {
    pub uri: String,
    pub path: String,
    pub file_name: String,
}

/// An [`UploadRequest`] as three texts.
pub struct UploadRequestView {
    pub uri: Seq<char>,
    pub path: Seq<char>,
    pub file_name: Seq<char>,
}

impl View for UploadRequest {
    type V = UploadRequestView;

    open spec fn view(&self) -> UploadRequestView {
        UploadRequestView { uri: self.uri@, path: self.path@, file_name: self.file_name@ }
    }
}

/// The requests of a list, as texts.
pub open spec fn request_views(s: Seq<UploadRequest>) -> Seq<UploadRequestView> {
    Seq::new(s.len(), |i: int| s[i]@)
}

/// What the worker does next.
#[derive(Debug)]
pub enum UploaderAction {
    /// A transfer is under way: come back when it has ended.
    Wait,
    /// A client was served a moment ago: come back after `ms` milliseconds.
    Sleep { ms: u64 },
    /// Nothing is queued: come back when something is.
    Idle,
    /// Nothing is queued and nothing will be: stop.
    Terminate,
    /// This request left the queue: decide whether to replicate it.
    Examine { request: UploadRequest },
}

/// The worker: the queue, oldest request first, whether a transfer is under
/// way and whether the queue was closed.
#[derive(Debug)]
pub struct Uploader {
    pub queue: Vec<UploadRequest>,
    pub active: bool,
    pub closed: bool,
    pub maximum_upload_size: u64,
}

/// Whether a request for the entry `file_name` is to be replicated, judged
/// when it leaves the queue: a content-addressed entry needs its marker, and
/// every entry needs a source file of at most `maximum_upload_size` bytes.
pub open spec fn eligible(
    file_name: Seq<char>,
    gate_present: bool,
    file_size: Option<u64>,
    maximum_upload_size: u64,
) -> bool {
    &&& (is_cas_key(file_name) ==> gate_present)
    &&& file_size.is_some()
    &&& file_size.unwrap() <= maximum_upload_size
}

/// Whether a client was served so shortly before `now` that the worker
/// leaves the queue alone.
pub open spec fn in_quiet_window(clock: State, now: u64) -> bool {
    elapsed(now, clock.last_user_facing_request) < QUIET_WINDOW_MS
}

impl Uploader {
    /// The queue as texts.
    pub open spec fn pending(&self) -> Seq<UploadRequestView> {
        request_views(self.queue@)
    }

    /// A worker with an empty queue.
    pub fn new(maximum_upload_size: u64) -> (r: Uploader)
        ensures
            r.pending() == Seq::<UploadRequestView>::empty(),
            !r.active,
            !r.closed,
            r.maximum_upload_size == maximum_upload_size,
    {
        let r = Uploader { queue: Vec::new(), active: false, closed: false, maximum_upload_size };
        assert(r.pending() =~= Seq::<UploadRequestView>::empty());
        r
    }

    /// Queues `request` behind the others.  A closed queue takes nothing and
    /// hands the request back.
    pub fn upload(&mut self, request: UploadRequest) -> (r: Result<(), UploadRequest>)
        ensures
            final(self).active == old(self).active,
            final(self).closed == old(self).closed,
            final(self).maximum_upload_size == old(self).maximum_upload_size,
            match r {
                Ok(_) => !old(self).closed && final(self).pending() == old(self).pending().push(
                    request@,
                ),
                Err(back) => old(self).closed && back == request && final(self).pending() == old(self).pending(),
            },
    {
        if self.closed {
            Err(request)
        } else {
            let ghost v = request@;
            self.queue.push(request);
            assert(self.pending() =~= old(self).pending().push(v));
            Ok(())
        }
    }

    /// Closes the queue: what is queued is still worked off.
    pub fn close(&mut self)
        ensures
            final(self).closed,
            final(self).active == old(self).active,
            final(self).maximum_upload_size == old(self).maximum_upload_size,
            final(self).pending() == old(self).pending(),
    {
        self.closed = true;
    }

    /// What to do next at the moment `now`.  `transfer_ended` says whether
    /// the transfer that was under way, if any, has ended.
    ///
    /// While a transfer runs the worker waits.  A transfer that ended is
    /// recorded in `clock` as background activity at `now`.  Then, while the
    /// last client request is younger than the quiet window, the worker
    /// sleeps and takes nothing from the queue.  Else the oldest request
    /// leaves the queue to be examined; an empty queue ends the worker when
    /// it is closed.
    pub fn poll(&mut self, clock: &mut State, now: u64, transfer_ended: bool) -> (r: UploaderAction)
        ensures
            final(self).closed == old(self).closed,
            final(self).maximum_upload_size == old(self).maximum_upload_size,
            final(self).active == (old(self).active && !transfer_ended),
            *final(clock) == if old(self).active && transfer_ended {
                State { last_background_upload: now, ..*old(clock) }
            } else {
                *old(clock)
            },
            match r {
                UploaderAction::Wait => old(self).active && !transfer_ended && final(self).pending()
                    == old(self).pending(),
                UploaderAction::Sleep { ms } => !(old(self).active && !transfer_ended)
                    && in_quiet_window(*old(clock), now) && ms == RECHECK_MS && final(self).pending() == old(self).pending(),
                UploaderAction::Idle => !(old(self).active && !transfer_ended) && !in_quiet_window(
                    *old(clock),
                    now,
                ) && old(self).pending().len() == 0 && !old(self).closed && final(self).pending()
                    == old(self).pending(),
                UploaderAction::Terminate => !(old(self).active && !transfer_ended)
                    && !in_quiet_window(*old(clock), now) && old(self).pending().len() == 0 && old(self).closed && final(self).pending() == old(self).pending(),
                UploaderAction::Examine { request } => !(old(self).active && !transfer_ended)
                    && !in_quiet_window(*old(clock), now) && old(self).pending().len() > 0
                    && request@ == old(self).pending()[0] && final(self).pending() == old(self).pending().drop_first(),
            },
    {
        if self.active {
            if !transfer_ended {
                return UploaderAction::Wait;
            }
            clock.background_upload(now);
        }
        self.active = false;
        if clock.since_user_request(now) < QUIET_WINDOW_MS {
            return UploaderAction::Sleep { ms: RECHECK_MS };
        }
        if self.queue.len() == 0 {
            if self.closed {
                return UploaderAction::Terminate;
            }
            return UploaderAction::Idle;
        }
        let request = self.queue.remove(0);
        proof {
            assert(self.pending() =~= old(self).pending().drop_first());
            assert(old(self).pending()[0] == old(self).queue@[0]@);
        }
        UploaderAction::Examine { request }
    }

    /// Whether `request`, which just left the queue, is to be replicated.
    /// `gate_present` says whether the marker of its entry exists now, and
    /// `file_size` is the size of its source file now, `None` where the file
    /// cannot be read.
    pub fn should_upload(
        &self,
        request: &UploadRequest,
        gate_present: bool,
        file_size: Option<u64>,
    ) -> (r: bool)
        ensures
            r == eligible(request.file_name@, gate_present, file_size, self.maximum_upload_size),
    {
        let gated = if is_cas_entry(request.file_name.as_str()) {
            gate_present
        } else {
            true
        };
        match file_size {
            Some(n) => gated && n <= self.maximum_upload_size,
            None => false,
        }
    }

    /// Records that a transfer begins.  Only one runs at a time.
    pub fn begin_transfer(&mut self)
        requires
            !old(self).active,
        ensures
            final(self).active,
            final(self).closed == old(self).closed,
            final(self).maximum_upload_size == old(self).maximum_upload_size,
            final(self).pending() == old(self).pending(),
    {
        self.active = true;
    }
}

/// The retry budget of the existence check that precedes a transfer.
pub fn head_retry() -> (r: Retry)
    ensures
        r == (Retry { tries: 10, sleep_ms: 500, multiplier: 4 }),
{
    Retry::new(10, 500, 4)
}

/// Whether the entry has to be sent, given what the existence check at the
/// destination reported: an entry that is there already is not sent again.
pub fn run_upload_file(reported_size: Option<u64>) -> (send: bool)
    ensures
        send == reported_size.is_none(),
{
    reported_size.is_none()
}

} // verus!
