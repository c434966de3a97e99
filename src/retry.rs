//! Retry and pacing decisions for requests to the upstream catalog.
//!
//! The caller sleeps `pace_ms` before every attempt, performs the attempt,
//! and hands its outcome to [`RetryState::record`], which says whether to back
//! off and try again, or what the fetch as a whole returns.
use vstd::prelude::*;

verus! {

/// Attempts after the first one that a transient failure may trigger.
pub const MAX_RETRIES: u32 = 3;

/// Fixed pause before every attempt, the first one included.
pub const RPS_DELAY_MS: u64 = 250;

/// Back-off before the first retry; it doubles for each later retry.
pub const INITIAL_BACKOFF_MS: u64 = 300;

/// Timing and attempt limits of a fetch.
#[derive(Clone, Copy, Debug, PartialEq, Eq, Structural)]
pub struct RetryPolicy {
    pub pace_ms: u64,
    pub max_retries: u32,
    pub initial_backoff_ms: u64,
}

/// What one attempt came back with.
#[derive(Clone, Debug, PartialEq, Eq)]
pub enum AttemptOutcome {
    /// The server answered with this HTTP status code.
    Status(u16),
    /// The request never got an answer (refused, timed out, name lookup failed).
    Transport(String),
    /// The request could not be rebuilt for sending; nothing was sent.
    Unclonable,
}

/// The last failure seen by a fetch that ran out of attempts.
#[derive(Clone, Debug, PartialEq, Eq)]
pub enum LastFailure {
    Status(u16),
    Transport(String),
}

/// Why a fetch failed for good.
#[derive(Clone, Debug, PartialEq, Eq)]
pub enum FetchError {
    /// The request could not be rebuilt, so it was not sent.
    Unclonable,
    /// The server answered with a status that is not worth retrying.
    Rejected(u16),
    /// Every allowed attempt failed transiently; `attempts` were made.
    Exhausted { attempts: u32, last: LastFailure },
    /// The response body could not be read or decoded.
    Malformed(String),
}

/// What the caller does after an attempt.
#[derive(Clone, Debug, PartialEq, Eq)]
pub enum Decision {
    /// Sleep this long, then pace and attempt again.
    Retry { wait_ms: u64 },
    /// The fetch succeeded with this status.
    Succeed(u16),
    /// The fetch failed for good.
    Fail(FetchError),
}

/// Progress of one logical fetch.
#[derive(Clone, Copy, Debug, PartialEq, Eq, Structural)]
pub struct RetryState {
    /// Attempts whose outcome has been recorded.
    pub attempts: u32,
    /// Back-off to apply before the next retry.
    pub backoff_ms: u64,
}

pub open spec fn is_success_status(status: u16) -> bool {
    200 <= status && status <= 299
}

/// 429 (too many requests) and every 5xx are transient.
pub open spec fn is_transient_status(status: u16) -> bool {
    status == 429 || (500 <= status && status <= 599)
}

pub open spec fn saturating_double(d: u64) -> u64 {
    if d > u64::MAX / 2 {
        u64::MAX
    } else {
        (2 * d) as u64
    }
}

/// Back-off before retry number `k` (counted from zero).
pub open spec fn backoff_spec(initial: u64, k: nat) -> u64
    decreases k,
{
    if k == 0 {
        initial
    } else {
        saturating_double(backoff_spec(initial, (k - 1) as nat))
    }
}

/// The state of a fetch after `k` transient failures.
pub open spec fn state_after(policy: RetryPolicy, k: nat) -> RetryState {
    RetryState { attempts: k as u32, backoff_ms: backoff_spec(policy.initial_backoff_ms, k) }
}

/// What follows a transient failure, `last`, in `state`.
pub open spec fn transient_step(policy: RetryPolicy, state: RetryState, last: LastFailure) -> (
    Decision,
    RetryState,
) {
    if state.attempts < policy.max_retries {
        (
            Decision::Retry { wait_ms: state.backoff_ms },
            RetryState {
                attempts: (state.attempts + 1) as u32,
                backoff_ms: saturating_double(state.backoff_ms),
            },
        )
    } else {
        (
            Decision::Fail(FetchError::Exhausted { attempts: (state.attempts + 1) as u32, last }),
            state,
        )
    }
}

/// The decision taken on `outcome` in `state`, and the state that follows.
pub open spec fn decide_spec(policy: RetryPolicy, state: RetryState, outcome: AttemptOutcome) -> (
    Decision,
    RetryState,
) {
    match outcome {
        AttemptOutcome::Unclonable => (Decision::Fail(FetchError::Unclonable), state),
        AttemptOutcome::Status(s) => if is_success_status(s) {
            (Decision::Succeed(s), state)
        } else if !is_transient_status(s) {
            (Decision::Fail(FetchError::Rejected(s)), state)
        } else {
            transient_step(policy, state, LastFailure::Status(s))
        },
        AttemptOutcome::Transport(e) => transient_step(policy, state, LastFailure::Transport(e)),
    }
}

impl RetryPolicy {
    /// The attempt count `max_retries + 1` fits the counter.
    pub open spec fn wf(&self) -> bool {
        self.max_retries < u32::MAX
    }

    /// The policy used towards the catalog: 250 ms pacing, 3 retries,
    /// back-off from 300 ms.
    pub fn standard() -> (r: RetryPolicy)
        ensures
            r.pace_ms == RPS_DELAY_MS,
            r.max_retries == MAX_RETRIES,
            r.initial_backoff_ms == INITIAL_BACKOFF_MS,
            r.wf(),
    {
        RetryPolicy {
            pace_ms: RPS_DELAY_MS,
            max_retries: MAX_RETRIES,
            initial_backoff_ms: INITIAL_BACKOFF_MS,
        }
    }

    /// At most this many attempts are made for one fetch.
    pub fn attempt_cap(&self) -> (r: u64)
        ensures
            r == self.max_retries + 1,
    {
        self.max_retries as u64 + 1
    }
}

/// Whether an HTTP status means success (2xx).
pub fn is_success(status: u16) -> (r: bool)
    ensures
        r == is_success_status(status),
{
    200 <= status && status <= 299
}

/// Whether an HTTP status is transient: 429 or any 5xx.
pub fn is_transient_failure(status: u16) -> (r: bool)
    ensures
        r == is_transient_status(status),
{
    status == 429 || (500 <= status && status <= 599)
}

fn double_saturating(d: u64) -> (r: u64)
    ensures
        r == saturating_double(d),
{
    if d > u64::MAX / 2 {
        u64::MAX
    } else {
        2 * d
    }
}

impl RetryState {
    /// The state of a fetch before its first attempt.
    pub fn start(policy: &RetryPolicy) -> (r: RetryState)
        ensures
            r == state_after(*policy, 0),
    {
        RetryState { attempts: 0, backoff_ms: policy.initial_backoff_ms }
    }

    /// Records the outcome of the attempt just made and decides what follows.
    ///
    /// Success (2xx) ends the fetch; so does a status other than 429 or 5xx,
    /// as a rejection, and a request that could not be rebuilt. A transient
    /// failure (429, 5xx, transport error) is retried after the current
    /// back-off, which then doubles, while fewer than `max_retries + 1`
    /// attempts have been made; after that the fetch is exhausted and the
    /// error names the last failure.
    pub fn record(&mut self, policy: &RetryPolicy, outcome: AttemptOutcome) -> (d: Decision)
        requires
            policy.wf(),
            old(self).attempts <= policy.max_retries,
        ensures
            (d, *final(self)) == decide_spec(*policy, *old(self), outcome),
            final(self).attempts <= policy.max_retries,
    {
        match outcome {
            AttemptOutcome::Unclonable => Decision::Fail(FetchError::Unclonable),
            AttemptOutcome::Status(s) => {
                if is_success(s) {
                    Decision::Succeed(s)
                } else if !is_transient_failure(s) {
                    Decision::Fail(FetchError::Rejected(s))
                } else {
                    self.after_transient(policy, LastFailure::Status(s))
                }
            },
            AttemptOutcome::Transport(e) => self.after_transient(policy, LastFailure::Transport(e)),
        }
    }

    fn after_transient(&mut self, policy: &RetryPolicy, last: LastFailure) -> (d: Decision)
        requires
            policy.wf(),
            old(self).attempts <= policy.max_retries,
        ensures
            (d, *final(self)) == transient_step(*policy, *old(self), last),
    {
        if self.attempts < policy.max_retries {
            let wait_ms = self.backoff_ms;
            self.attempts = self.attempts + 1;
            self.backoff_ms = double_saturating(self.backoff_ms);
            Decision::Retry { wait_ms }
        } else {
            Decision::Fail(FetchError::Exhausted { attempts: self.attempts + 1, last })
        }
    }
}

proof fn lemma_saturation_persists(initial: u64, j: nat, k: nat)
    requires
        j <= k,
        backoff_spec(initial, j) == u64::MAX,
    ensures
        backoff_spec(initial, k) == u64::MAX,
    decreases k - j,
{
    if j < k {
        lemma_saturation_persists(initial, j, (k - 1) as nat);
    }
}

/// A fetch whose every attempt fails with the same transient status is
/// attempted exactly `max_retries + 1` times: each of the first `max_retries`
/// attempts leads to a retry after the current back-off, each back-off is
/// twice the one before and so strictly longer, and the last attempt ends the
/// fetch with an exhausted error that names that status.
pub proof fn lemma_transient_failures_are_bounded(policy: RetryPolicy, status: u16)
    requires
        policy.wf(),
        is_transient_status(status),
        policy.initial_backoff_ms > 0,
        backoff_spec(policy.initial_backoff_ms, policy.max_retries as nat) < u64::MAX,
    ensures
        forall|k: nat|
            k < policy.max_retries ==> decide_spec(
                policy,
                #[trigger] state_after(policy, k),
                AttemptOutcome::Status(status),
            ) == (
                Decision::Retry { wait_ms: backoff_spec(policy.initial_backoff_ms, k) },
                state_after(policy, k + 1),
            ),
        decide_spec(
            policy,
            state_after(policy, policy.max_retries as nat),
            AttemptOutcome::Status(status),
        ).0 == Decision::Fail(
            FetchError::Exhausted {
                attempts: (policy.max_retries + 1) as u32,
                last: LastFailure::Status(status),
            },
        ),
        forall|k: nat|
            k < policy.max_retries ==> #[trigger] backoff_spec(policy.initial_backoff_ms, k + 1)
                == 2 * backoff_spec(policy.initial_backoff_ms, k) && backoff_spec(
                policy.initial_backoff_ms,
                k,
            ) < backoff_spec(policy.initial_backoff_ms, k + 1),
{
    let initial = policy.initial_backoff_ms;
    let m = policy.max_retries as nat;
    assert forall|k: nat| k < m implies #[trigger] backoff_spec(initial, k + 1) == 2
        * backoff_spec(initial, k) && backoff_spec(initial, k) < backoff_spec(initial, k + 1) by {
        if backoff_spec(initial, k) > u64::MAX / 2 {
            assert(backoff_spec(initial, k + 1) == u64::MAX);
            lemma_saturation_persists(initial, k + 1, m);
        }
        lemma_positive(initial, k);
    }
}

proof fn lemma_positive(initial: u64, k: nat)
    requires
        initial > 0,
    ensures
        backoff_spec(initial, k) > 0,
    decreases k,
{
    if k > 0 {
        lemma_positive(initial, (k - 1) as nat);
    }
}

} // verus!
