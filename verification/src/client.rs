//! Retrying with growing waits, and what a response to an existence check
//! tells.
//!
//! The worker that talks to an upstream makes an attempt, reports how it went
//! and is told what to do next: return, give up, or wait and try again.

use vstd::prelude::*;
use vstd::string::*;
use vstd::arithmetic::power::{lemma0_pow, lemma_pow0, lemma_pow1, lemma_pow_positive, pow};
use crate::text::{decimal_u64, parse_decimal};

verus! {

/// The time that one attempt may take, in milliseconds.
pub const ATTEMPT_TIMEOUT_MS: u64 = 5000;

/// The time that a body may stay silent between two chunks, in milliseconds.
pub const CHUNK_TIMEOUT_MS: u64 = 3000;

/// What is left of a retry budget: the tries left after the attempt under
/// way, the wait before the next try, and the factor by which the wait grows.
#[derive(Clone, Copy, Debug, PartialEq, Eq, Structural)]
pub struct Retry {
    pub tries: i32,
    pub sleep_ms: u64,
    pub multiplier: u32,
}

/// What follows an attempt.
#[derive(Clone, Copy, Debug, PartialEq, Eq, Structural)]
pub enum NextStep {
    /// The attempt succeeded: hand its result on.
    Return,
    /// The attempt failed and no try is left: hand its failure on.
    GiveUp,
    /// The attempt failed: wait `sleep_ms`, then try again with `next`.
    RetryAfter { sleep_ms: u64, next: Retry },
}

impl Retry {
    /// The budget after one more failure.
    pub open spec fn after_failure(self) -> Retry {
        Retry {
            tries: (self.tries - 1) as i32,
            sleep_ms: (self.sleep_ms * self.multiplier) as u64,
            multiplier: self.multiplier,
        }
    }

    /// What follows an attempt made with this budget.
    pub open spec fn step(self, succeeded: bool) -> NextStep {
        if succeeded {
            NextStep::Return
        } else if self.tries > 0 {
            NextStep::RetryAfter { sleep_ms: self.sleep_ms, next: self.after_failure() }
        } else {
            NextStep::GiveUp
        }
    }

    /// The wait before try number `j + 1`, counted from the budget `self`.
    pub open spec fn backoff(self, j: nat) -> int {
        self.sleep_ms * pow(self.multiplier as int, j)
    }

    /// The sum of the waits before the first `k` retries.
    pub open spec fn slept_before(self, k: nat) -> int
        decreases k,
    {
        if k == 0 {
            0
        } else {
            self.slept_before((k - 1) as nat) + self.backoff((k - 1) as nat)
        }
    }

    /// The budget after `k` failures in a row.
    pub open spec fn after_failures(self, k: nat) -> Retry {
        Retry {
            tries: (self.tries - k) as i32,
            sleep_ms: self.backoff(k) as u64,
            multiplier: self.multiplier,
        }
    }

    /// A budget of `tries` retries that waits `sleep_ms` first.
    pub fn new(tries: i32, sleep_ms: u64, multiplier: u32) -> (r: Retry)
        ensures
            r == (Retry { tries, sleep_ms, multiplier }),
    {
        Retry { tries, sleep_ms, multiplier }
    }

    /// What follows an attempt that succeeded or failed.
    pub fn next_step(&self, succeeded: bool) -> (r: NextStep)
        requires
            !succeeded && self.tries > 0 ==> self.sleep_ms * self.multiplier <= u64::MAX,
        ensures
            r == self.step(succeeded),
    {
        if succeeded {
            NextStep::Return
        } else if self.tries > 0 {
            NextStep::RetryAfter {
                sleep_ms: self.sleep_ms,
                next: Retry {
                    tries: self.tries - 1,
                    sleep_ms: self.sleep_ms * (self.multiplier as u64),
                    multiplier: self.multiplier,
                },
            }
        } else {
            NextStep::GiveUp
        }
    }

    /// What follows an attempt, for every budget: `None` where the next wait
    /// would not fit in 64 bits.
    pub fn checked_next_step(&self, succeeded: bool) -> (r: Option<NextStep>)
        ensures
            r == if !succeeded && self.tries > 0 && self.sleep_ms * self.multiplier > u64::MAX {
                None
            } else {
                Some(self.step(succeeded))
            },
    {
        if !succeeded && self.tries > 0 {
            match self.sleep_ms.checked_mul(self.multiplier as u64) {
                Some(_) => Some(self.next_step(succeeded)),
                None => None,
            }
        } else {
            Some(self.next_step(succeeded))
        }
    }
}

/// After `j` failures in a row, one more failure is answered by a wait of
/// `sleep_ms * multiplier^j` and leaves the budget of `j + 1` failures, as
/// long as a try is left and the waits fit in 64 bits.
pub proof fn lemma_failure_schedule(r: Retry, j: nat)
    requires
        j < r.tries,
        r.backoff(j) <= u64::MAX,
        r.backoff(j + 1) <= u64::MAX,
    ensures
        r.after_failures(j).step(false) == (NextStep::RetryAfter {
            sleep_ms: r.backoff(j) as u64,
            next: r.after_failures(j + 1),
        }),
        r.after_failures(0) == r,
{
    let m = r.multiplier as int;
    lemma_pow0(m);
    assert(pow(m, j + 1) == m * pow(m, j)) by {
        reveal(pow);
    }
    assert(r.backoff(j) * m == r.backoff(j + 1)) by (nonlinear_arith)
        requires
            r.backoff(j) == r.sleep_ms * pow(m, j),
            r.backoff(j + 1) == r.sleep_ms * pow(m, j + 1),
            pow(m, j + 1) == m * pow(m, j),
    ;
    assert(r.backoff(0) == r.sleep_ms) by (nonlinear_arith)
        requires
            r.backoff(0) == r.sleep_ms * pow(m, 0),
            pow(m, 0) == 1,
    ;
    assert(pow(m, j) >= 0) by {
        if m > 0 {
            lemma_pow_positive(m, j);
        } else if j > 0 {
            lemma0_pow(j);
        }
    }
    assert(r.backoff(j) >= 0) by (nonlinear_arith)
        requires
            r.backoff(j) == r.sleep_ms * pow(m, j),
            pow(m, j) >= 0,
            r.sleep_ms >= 0,
    ;
}

/// After two failures the waits handed out add up to
/// `sleep_ms + sleep_ms * multiplier`.
pub proof fn lemma_two_failures_sleep(r: Retry)
    ensures
        r.slept_before(2) == r.sleep_ms + r.sleep_ms * r.multiplier,
{
    let m = r.multiplier as int;
    lemma_pow0(m);
    lemma_pow1(m);
    assert(r.slept_before(2) == r.slept_before(1) + r.backoff(1));
    assert(r.slept_before(1) == r.slept_before(0) + r.backoff(0));
    assert(r.backoff(0) == r.sleep_ms) by (nonlinear_arith)
        requires
            r.backoff(0) == r.sleep_ms * pow(m, 0),
            pow(m, 0) == 1,
    ;
}

/// How a run of attempts ends.
#[derive(Clone, Copy, Debug, PartialEq, Eq, Structural)]
pub enum RunEnd {
    /// An attempt succeeded.
    Returned,
    /// An attempt failed with no try left.
    GaveUp,
    /// Every attempt so far failed and a try is left.
    Unfinished,
}

/// `k` failures.
pub open spec fn failures(k: nat) -> Seq<bool> {
    Seq::new(k, |i: int| false)
}

impl Retry {
    /// How a run ends in which the attempts go as `outcomes` says, one after
    /// the other, and how long it waited in all.
    pub open spec fn run(self, outcomes: Seq<bool>) -> (RunEnd, int)
        decreases outcomes.len(),
    {
        if outcomes.len() == 0 {
            (RunEnd::Unfinished, 0)
        } else {
            match self.step(outcomes[0]) {
                NextStep::Return => (RunEnd::Returned, 0),
                NextStep::GiveUp => (RunEnd::GaveUp, 0),
                NextStep::RetryAfter { sleep_ms, next } => {
                    let rest = next.run(outcomes.drop_first());
                    (rest.0, sleep_ms + rest.1)
                },
            }
        }
    }
}

/// The waits of the budget after one failure are those of the budget before
/// it, one place on.
proof fn lemma_backoff_shifts(r: Retry, j: nat)
    requires
        r.sleep_ms * r.multiplier <= u64::MAX,
    ensures
        r.after_failure().backoff(j) == r.backoff(j + 1),
{
    let m = r.multiplier as int;
    assert(pow(m, j + 1) == m * pow(m, j)) by {
        reveal(pow);
    }
    assert((r.sleep_ms * m) * pow(m, j) == r.sleep_ms * (m * pow(m, j))) by (nonlinear_arith);
}

proof fn lemma_slept_shifts(r: Retry, k: nat)
    requires
        r.sleep_ms * r.multiplier <= u64::MAX,
        k > 0,
    ensures
        r.slept_before(k) == r.sleep_ms + r.after_failure().slept_before((k - 1) as nat),
    decreases k,
{
    let m = r.multiplier as int;
    lemma_pow0(m);
    assert(r.backoff(0) == r.sleep_ms) by (nonlinear_arith)
        requires
            r.backoff(0) == r.sleep_ms * pow(m, 0),
            pow(m, 0) == 1,
    ;
    let next = r.after_failure();
    assert(r.slept_before(k) == r.slept_before((k - 1) as nat) + r.backoff((k - 1) as nat));
    if k > 1 {
        lemma_slept_shifts(r, (k - 1) as nat);
        lemma_backoff_shifts(r, (k - 2) as nat);
        assert(next.slept_before((k - 1) as nat) == next.slept_before((k - 2) as nat)
            + next.backoff((k - 2) as nat));
    } else {
        assert(r.slept_before(0) == 0);
        assert(next.slept_before(0) == 0);
    }
}

/// A run of `k` failures and then a success returns, as long as the budget
/// holds `k` tries, and has then waited `sleep_ms * multiplier^j` before the
/// retry number `j + 1`: the sum of the first `k` waits in all.
pub proof fn lemma_success_after_failures(r: Retry, k: nat)
    requires
        k <= r.tries,
        forall|j: nat| j <= k ==> r.backoff(j) <= u64::MAX,
    ensures
        r.run(failures(k).push(true)) == (RunEnd::Returned, r.slept_before(k)),
    decreases k,
{
    let outcomes = failures(k).push(true);
    if k > 0 {
        let next = r.after_failure();
        let m = r.multiplier as int;
        lemma_pow1(m);
        assert(r.backoff(1) == r.sleep_ms * m);
        assert(r.backoff(1) <= u64::MAX);
        assert forall|j: nat| j <= k - 1 implies next.backoff(j) <= u64::MAX by {
            lemma_backoff_shifts(r, j);
            assert(r.backoff(j + 1) <= u64::MAX);
        }
        lemma_success_after_failures(next, (k - 1) as nat);
        assert(outcomes.drop_first() =~= failures((k - 1) as nat).push(true));
        lemma_slept_shifts(r, k);
    }
}

/// The size that an answer to an existence check reports: the decimal value
/// of its `Content-Length` header, where the status is 200 and the header is
/// there and is a numeral.
pub open spec fn reported_size(status: u16, content_length: Option<Seq<char>>) -> Option<u64> {
    if status != 200 {
        None
    } else {
        match content_length {
            Some(text) => decimal_u64(text),
            None => None,
        }
    }
}

/// The size of the object that an answer to an existence check reports, or
/// `None` where it reports none.
pub fn head_result(status: u16, content_length: Option<&str>) -> (r: Option<u64>)
    ensures
        r == reported_size(
            status,
            match content_length {
                Some(t) => Some(t@),
                None => None,
            },
        ),
{
    if status != 200 {
        return None;
    }
    match content_length {
        Some(text) => parse_decimal(text),
        None => None,
    }
}

/// How one attempt at an existence check ended.
#[derive(Debug)]
pub enum HeadAttempt {
    /// An answer arrived in time.
    Answered { status: u16, content_length: Option<String> },
    /// The request failed or took longer than an attempt may.
    Failed { error: String },
}

/// What follows an attempt at an existence check.
#[derive(Debug)]
pub enum HeadStep {
    /// The check ended: `size` is what the answer reported.
    Done { size: Option<u64> },
    /// The check failed for good.
    Fail { error: String },
    /// Wait `sleep_ms` milliseconds, then try again with the budget `next`.
    RetryAfter { sleep_ms: u64, next: Retry },
}

/// What follows an attempt at an existence check made with the budget
/// `retry`: any answer ends the check, a failure is retried while a try is
/// left.
pub fn connect_for_head(retry: &Retry, attempt: HeadAttempt) -> (r: HeadStep)
    requires
        attempt is Failed && retry.tries > 0 ==> retry.sleep_ms * retry.multiplier <= u64::MAX,
    ensures
        match attempt {
            HeadAttempt::Answered { status, content_length } => r == (HeadStep::Done {
                size: reported_size(
                    status,
                    match content_length {
                        Some(t) => Some(t@),
                        None => None,
                    },
                ),
            }),
            HeadAttempt::Failed { error } => if retry.tries > 0 {
                r == (HeadStep::RetryAfter {
                    sleep_ms: retry.sleep_ms,
                    next: retry.after_failure(),
                })
            } else {
                r == (HeadStep::Fail { error })
            },
        },
{
    match attempt {
        HeadAttempt::Answered { status, content_length } => {
            let size = match &content_length {
                Some(t) => head_result(status, Some(t.as_str())),
                None => head_result(status, None),
            };
            HeadStep::Done { size }
        },
        HeadAttempt::Failed { error } => match retry.next_step(false) {
            NextStep::RetryAfter { sleep_ms, next } => HeadStep::RetryAfter { sleep_ms, next },
            _ => HeadStep::Fail { error },
        },
    }
}

/// What follows an attempt to get a response.
#[derive(Debug)]
pub enum FileStep {
    /// A response arrived: hand it on, whatever its status.
    Respond,
    /// The request failed for good.
    Fail { error: String },
    /// Wait `sleep_ms` milliseconds, then try again with the budget `next`.
    RetryAfter { sleep_ms: u64, next: Retry },
}

/// What follows an attempt to get a response, made with the budget `retry`.
/// `failure` is `None` where a response arrived in time, and else says what
/// went wrong: such an attempt is retried while a try is left.
pub fn connect_for_file(retry: &Retry, failure: Option<String>) -> (r: FileStep)
    requires
        failure.is_some() && retry.tries > 0 ==> retry.sleep_ms * retry.multiplier <= u64::MAX,
    ensures
        match failure {
            None => r is Respond,
            Some(error) => if retry.tries > 0 {
                r == (FileStep::RetryAfter {
                    sleep_ms: retry.sleep_ms,
                    next: retry.after_failure(),
                })
            } else {
                r == (FileStep::Fail { error })
            },
        },
{
    match failure {
        None => FileStep::Respond,
        Some(error) => match retry.next_step(false) {
            NextStep::RetryAfter { sleep_ms, next } => FileStep::RetryAfter { sleep_ms, next },
            _ => FileStep::Fail { error },
        },
    }
}

/// Why a streamed body ended early.
#[derive(Debug)]
pub enum BodyStreamerError {
    /// No chunk came within the time that a body may stay silent.
    TimeoutError,
    /// The transport failed, as `0` says.
    HyperError(String),
}

impl BodyStreamerError {
    /// The failure in words.
    pub fn description(&self) -> (r: String)
        ensures
            r@ == match self {
                BodyStreamerError::TimeoutError => "Timeout making request"@,
                BodyStreamerError::HyperError(e) => e@,
            },
    {
        match self {
            BodyStreamerError::TimeoutError => String::from_str("Timeout making request"),
            BodyStreamerError::HyperError(e) => e.clone(),
        }
    }
}

/// The moment by which the chunk after one that came at `now` is due.
pub open spec fn chunk_due(now: u64) -> u64 {
    if now + CHUNK_TIMEOUT_MS <= u64::MAX {
        (now + CHUNK_TIMEOUT_MS) as u64
    } else {
        u64::MAX
    }
}

/// The watchdog of a streamed body: the moment by which the next chunk is
/// due, in milliseconds of a monotonic clock.
#[derive(Clone, Copy, Debug, PartialEq, Eq, Structural)]
pub struct BodyStreamer {
    pub deadline: u64,
}

/// What the watchdog says at a look at the body.
#[derive(Clone, Copy, Debug, PartialEq, Eq, Structural)]
pub enum StreamStep {
    /// The chunk came in time: hand it on.
    Chunk,
    /// No chunk yet: look again when one comes, at `until` at the latest.
    Wait { until: u64 },
    /// The deadline has passed: the stream fails.
    TimedOut,
}

impl BodyStreamer {
    /// The watchdog of a body whose stream begins at `now`.
    pub fn new(now: u64) -> (r: BodyStreamer)
        ensures
            r.deadline == chunk_due(now),
    {
        BodyStreamer { deadline: now.saturating_add(CHUNK_TIMEOUT_MS) }
    }

    /// What to do at `now`, where `chunk_ready` says whether the body has a
    /// chunk to give.  Once the deadline has passed the stream fails.  Before
    /// that a chunk is handed on and moves the deadline, and without one the
    /// deadline stays.
    pub fn poll(&mut self, now: u64, chunk_ready: bool) -> (r: StreamStep)
        ensures
            r == if now >= old(self).deadline {
                StreamStep::TimedOut
            } else if chunk_ready {
                StreamStep::Chunk
            } else {
                StreamStep::Wait { until: old(self).deadline }
            },
            final(self).deadline == if now < old(self).deadline && chunk_ready {
                chunk_due(now)
            } else {
                old(self).deadline
            },
    {
        if now >= self.deadline {
            StreamStep::TimedOut
        } else if chunk_ready {
            self.deadline = now.saturating_add(CHUNK_TIMEOUT_MS);
            StreamStep::Chunk
        } else {
            StreamStep::Wait { until: self.deadline }
        }
    }
}

} // verus!
