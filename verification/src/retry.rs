//! Retry policy for market-data HTTP requests.
//!
//! The caller sends the request, classifies what came back, and asks
//! [`next_retry_step`] what to do: hand the body back, wait and send again,
//! or give up. Rate limiting (429) and server errors (5xx) are retried with
//! exponential backoff; transport errors are retried too; any other status
//! fails at once.

use vstd::prelude::*;

verus! {

/// Retries allowed after the first attempt.
pub const MAX_ATTEMPTS: u32 = 6;

/// What one request produced.
#[derive(Clone, Copy, Debug, PartialEq, Eq, Structural)]
pub enum RequestOutcome {
    /// A response with this HTTP status code.
    Status(u16),
    /// The request did not produce a response.
    TransportError,
}

/// What the caller does next.
#[derive(Clone, Copy, Debug, PartialEq, Eq, Structural)]
pub enum RetryAction {
    /// The response succeeded: hand its body back.
    Succeed,
    /// Sleep this many milliseconds, then send the request again.
    RetryAfter(u64),
    /// Sleep this many milliseconds, then fail: the retries are used up.
    FailAfter(u64),
    /// Fail with the response's status and body: it is not retried.
    Reject,
    /// Fail with the transport error: the retries are used up.
    GiveUp,
}

/// A 2xx status.
pub open spec fn is_success(code: u16) -> bool {
    200 <= code <= 299
}

/// A status that is retried: 429 Too Many Requests or a 5xx server error.
pub open spec fn is_retryable(code: u16) -> bool {
    code == 429 || (500 <= code <= 599)
}

pub open spec fn pow2(e: nat) -> nat
    decreases e,
{
    if e == 0 { 1 } else { 2 * pow2((e - 1) as nat) }
}

/// The backoff before the next try: 250 ms doubled per attempt, up to 32 times 250 ms.
pub open spec fn spec_backoff_ms(attempt: u32) -> nat {
    pow2(if attempt < 5 { attempt as nat } else { 5 }) * 250
}

/// The step after `outcome` at `attempt`: the action and the new attempt count.
pub open spec fn spec_retry_step(attempt: u32, outcome: RequestOutcome) -> (RetryAction, u32) {
    match outcome {
        RequestOutcome::Status(code) => if is_success(code) {
            (RetryAction::Succeed, attempt)
        } else if is_retryable(code) {
            let ms: u64 = if spec_backoff_ms(attempt) < 10_000 { spec_backoff_ms(attempt) as u64 } else { 10_000 };
            if attempt + 1 > MAX_ATTEMPTS {
                (RetryAction::FailAfter(ms), (attempt + 1) as u32)
            } else {
                (RetryAction::RetryAfter(ms), (attempt + 1) as u32)
            }
        } else {
            (RetryAction::Reject, attempt)
        },
        RequestOutcome::TransportError => if attempt >= MAX_ATTEMPTS {
            (RetryAction::GiveUp, attempt)
        } else {
            (RetryAction::RetryAfter(spec_backoff_ms(attempt) as u64), (attempt + 1) as u32)
        },
    }
}

/// Decides what follows `outcome` on attempt number `attempt` (0 for the first send).
///
/// Success ends the loop. A 429 or 5xx sleeps `min(250 * 2^min(attempt, 5), 10000)` ms
/// and then retries, or fails when this was the last allowed retry. A transport
/// error fails once `attempt` reached the limit, else sleeps `250 * 2^min(attempt, 5)`
/// ms and retries. Any other status fails at once. Returns the new attempt count.
pub fn next_retry_step(attempt: u32, outcome: RequestOutcome) -> (step: (RetryAction, u32))
    requires
        attempt <= MAX_ATTEMPTS,
    ensures
        step == spec_retry_step(attempt, outcome),
{
    let e: u32 = if attempt < 5 { attempt } else { 5 };
    let mut p: u64 = 1;
    let mut k: u32 = 0;
    while k < e
        invariant
            k <= e <= 5,
            p == pow2(k as nat),
        decreases e - k,
    {
        assert(pow2((k + 1) as nat) == 2 * pow2(k as nat));
        assert(pow2(k as nat) <= 16) by {
            assert(pow2(0) == 1);
            assert(pow2(1) == 2);
            assert(pow2(2) == 4);
            assert(pow2(3) == 8);
            assert(pow2(4) == 16);
        }
        p = p * 2;
        k = k + 1;
    }
    assert(p <= 32) by {
        assert(pow2(0) == 1);
        assert(pow2(1) == 2);
        assert(pow2(2) == 4);
        assert(pow2(3) == 8);
        assert(pow2(4) == 16);
        assert(pow2(5) == 32);
    }
    let backoff: u64 = p * 250;
    match outcome {
        RequestOutcome::Status(code) => {
            if 200 <= code && code <= 299 {
                (RetryAction::Succeed, attempt)
            } else if code == 429 || (500 <= code && code <= 599) {
                let ms: u64 = if backoff < 10_000 { backoff } else { 10_000 };
                if attempt + 1 > MAX_ATTEMPTS {
                    (RetryAction::FailAfter(ms), attempt + 1)
                } else {
                    (RetryAction::RetryAfter(ms), attempt + 1)
                }
            } else {
                (RetryAction::Reject, attempt)
            }
        },
        RequestOutcome::TransportError => {
            if attempt >= MAX_ATTEMPTS {
                (RetryAction::GiveUp, attempt)
            } else {
                (RetryAction::RetryAfter(backoff), attempt + 1)
            }
        },
    }
}

/// Whether the action sends the request again.
pub open spec fn continues(a: RetryAction) -> bool {
    a is RetryAfter
}

/// Runs the policy over the outcomes of successive sends, from attempt 0.
/// Returns the actions taken and the attempt count after them; stops at the
/// first action that does not send again.
pub open spec fn spec_run(attempt: u32, outcomes: Seq<RequestOutcome>) -> Seq<RetryAction>
    decreases outcomes.len(),
{
    if outcomes.len() == 0 || attempt > MAX_ATTEMPTS {
        Seq::empty()
    } else {
        let (a, next) = spec_retry_step(attempt, outcomes[0]);
        if continues(a) {
            seq![a] + spec_run(next, outcomes.drop_first())
        } else {
            seq![a]
        }
    }
}

/// Every wait is at most 10 seconds, every retry raises the attempt count by one,
/// and the attempt count never passes the limit while the loop goes on.
pub proof fn lemma_retry_step_bounds(attempt: u32, outcome: RequestOutcome)
    requires
        attempt <= MAX_ATTEMPTS,
    ensures
        spec_retry_step(attempt, outcome).0 matches RetryAction::RetryAfter(ms) ==> ms <= 10_000
            && spec_retry_step(attempt, outcome).1 == attempt + 1
            && spec_retry_step(attempt, outcome).1 <= MAX_ATTEMPTS,
        spec_retry_step(attempt, outcome).0 matches RetryAction::FailAfter(ms) ==> ms <= 10_000,
{
    assert(pow2(0) == 1);
    assert(pow2(1) == 2);
    assert(pow2(2) == 4);
    assert(pow2(3) == 8);
    assert(pow2(4) == 16);
    assert(pow2(5) == 32);
}

/// A request is sent at most `MAX_ATTEMPTS + 1` times: whatever the responses,
/// the policy stops within that many outcomes, and the last action it takes
/// then is not a retry.
pub proof fn lemma_retry_terminates(attempt: u32, outcomes: Seq<RequestOutcome>)
    requires
        attempt <= MAX_ATTEMPTS,
        outcomes.len() >= MAX_ATTEMPTS + 1 - attempt,
    ensures
        spec_run(attempt, outcomes).len() <= MAX_ATTEMPTS + 1 - attempt,
        spec_run(attempt, outcomes).len() >= 1,
        !continues(spec_run(attempt, outcomes).last()),
    decreases MAX_ATTEMPTS + 1 - attempt,
{
    let (a, next) = spec_retry_step(attempt, outcomes[0]);
    lemma_retry_step_bounds(attempt, outcomes[0]);
    if continues(a) {
        lemma_retry_terminates(next, outcomes.drop_first());
        let rest = spec_run(next, outcomes.drop_first());
        assert(spec_run(attempt, outcomes) == seq![a] + rest);
        assert((seq![a] + rest).last() == rest.last());
    } else {
        assert(spec_run(attempt, outcomes) == seq![a]);
    }
}

} // verus!
