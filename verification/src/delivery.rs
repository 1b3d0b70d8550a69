//! Per-subscriber delivery tasks and the retry/backoff policy of the
//! delivery worker.

use vstd::prelude::*;

verus! {

/// A task is retried at most this many times before it is dead-lettered.
pub const RETRY_CEILING: u32 = 5;

/// Delay before the first retry, in seconds.
pub const BACKOFF_BASE_SECONDS: u64 = 10;

/// Upper bound on the retry delay, in seconds.
pub const BACKOFF_CAP_SECONDS: u64 = 3600;

/// Outcome of one call of the email transport for one task, as classified
/// by the transport adapter: retryable failures (server errors, timeouts)
/// against fatal ones (client errors such as a malformed recipient).
#[derive(Clone, Copy, PartialEq, Eq, Structural, Debug)]
pub enum SendOutcome {
    Success,
    TransientFailure,
    FatalFailure,
}

/// One pending delivery: newsletter issue `issue_id` is still owed to
/// `subscriber_email`. The pair (issue_id, subscriber_email) identifies the
/// task; the queue never holds two tasks with the same pair.
pub struct DeliveryTask {
    pub issue_id: u64,
    pub subscriber_email: String,
    /// How many times delivery has already failed transiently.
    pub n_retries: u32,
    /// The task may be picked up only once the clock reaches this instant
    /// (seconds).
    pub execute_after: u64,
}

/// Mathematical image of a [`DeliveryTask`].
pub struct TaskView {
    pub issue_id: int,
    pub subscriber_email: Seq<char>,
    pub n_retries: int,
    pub execute_after: int,
}

impl View for DeliveryTask {
    type V = TaskView;

    open spec fn view(&self) -> TaskView {
        TaskView {
            issue_id: self.issue_id as int,
            subscriber_email: self.subscriber_email@,
            n_retries: self.n_retries as int,
            execute_after: self.execute_after as int,
        }
    }
}

/// Exponential backoff with a cap: the wait before the first retry is
/// `BACKOFF_BASE_SECONDS`, each further retry doubles it, and no wait
/// exceeds `BACKOFF_CAP_SECONDS`.
pub open spec fn spec_backoff_seconds(n: nat) -> int
    decreases n,
{
    if n <= 1 {
        BACKOFF_BASE_SECONDS as int
    } else {
        let doubled = 2 * spec_backoff_seconds((n - 1) as nat);
        if doubled <= BACKOFF_CAP_SECONDS {
            doubled
        } else {
            BACKOFF_CAP_SECONDS as int
        }
    }
}

/// Seconds to wait before the `n`-th retry: exponential in `n`, capped.
pub fn backoff_seconds(n: u32) -> (r: u64)
    ensures
        r == spec_backoff_seconds(n as nat),
        BACKOFF_BASE_SECONDS <= r <= BACKOFF_CAP_SECONDS,
{
    let mut delay: u64 = BACKOFF_BASE_SECONDS;
    let mut i: u32 = 1;
    while i < n
        invariant
            1 <= i,
            n >= 1 ==> i <= n,
            n <= 1 ==> i == 1,
            delay == spec_backoff_seconds(i as nat),
            BACKOFF_BASE_SECONDS <= delay <= BACKOFF_CAP_SECONDS,
        decreases n - i,
    {
        if delay <= BACKOFF_CAP_SECONDS / 2 {
            delay = 2 * delay;
            if delay > BACKOFF_CAP_SECONDS {
                delay = BACKOFF_CAP_SECONDS;
            }
        } else {
            delay = BACKOFF_CAP_SECONDS;
        }
        i = i + 1;
    }
    delay
}

} // verus!

verus! {

/// How the transport adapter classifies an HTTP reply from the email API:
/// a success status delivers, a client error is fatal (retrying a malformed
/// request cannot help), and everything else — server errors in particular —
/// is worth retrying.
pub fn classify_status(status: u16) -> (r: SendOutcome)
    ensures
        200 <= status <= 299 ==> r is Success,
        400 <= status <= 499 ==> r is FatalFailure,
        !(200 <= status <= 299) && !(400 <= status <= 499) ==> r is TransientFailure,
{
    if 200 <= status && status <= 299 {
        SendOutcome::Success
    } else if 400 <= status && status <= 499 {
        SendOutcome::FatalFailure
    } else {
        SendOutcome::TransientFailure
    }
}

} // verus!
