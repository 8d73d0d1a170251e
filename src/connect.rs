use vstd::prelude::*;

verus! {

/// How often, and how far apart, the connector tries to open the endpoint.
pub struct RetryPolicy {
    /// Retries after the first attempt; `max_retries + 1` attempts in all.
    pub max_retries: u32,
    /// Fixed wait between two attempts, in milliseconds.
    pub retry_delay_ms: u64,
}

/// What the connector does after a failed open.
#[derive(PartialEq, Eq, Structural, Debug, Clone, Copy)]
pub enum AfterFailure {
    /// Wait `delay_ms`, then make attempt `next_attempt` (counted from 0).
    RetryAfter { delay_ms: u64, next_attempt: u32 },
    /// Every attempt failed; `attempts` were made.
    GiveUp { attempts: u64 },
}

/// Steps taken on `fails` failed opens in a row, starting at attempt `attempt`;
/// the steps stop at the first give-up.
pub open spec fn failure_trace(policy: RetryPolicy, attempt: nat, fails: nat) -> Seq<AfterFailure>
    decreases fails,
{
    if fails == 0 {
        Seq::empty()
    } else {
        let step = policy.after_failure_spec(attempt);
        match step {
            AfterFailure::RetryAfter { next_attempt, .. } => seq![step] + failure_trace(
                policy,
                next_attempt as nat,
                (fails - 1) as nat,
            ),
            AfterFailure::GiveUp { .. } => seq![step],
        }
    }
}

impl RetryPolicy {
    pub fn new(max_retries: u32, retry_delay_ms: u64) -> (r: Self)
        ensures
            r.max_retries == max_retries,
            r.retry_delay_ms == retry_delay_ms,
    {
        RetryPolicy { max_retries, retry_delay_ms }
    }

    /// The decision after attempt `attempt` failed: retry after the fixed delay
    /// while retries remain, else give up having made `max_retries + 1` attempts.
    pub open spec fn after_failure_spec(self, attempt: nat) -> AfterFailure {
        if attempt < self.max_retries {
            AfterFailure::RetryAfter { delay_ms: self.retry_delay_ms, next_attempt: (attempt + 1) as u32 }
        } else {
            AfterFailure::GiveUp { attempts: (self.max_retries + 1) as u64 }
        }
    }

    /// Decides what follows the failure of attempt `attempt` (counted from 0).
    pub fn after_failure(&self, attempt: u32) -> (r: AfterFailure)
        requires
            attempt <= self.max_retries,
        ensures
            r == self.after_failure_spec(attempt as nat),
    {
        if attempt < self.max_retries {
            AfterFailure::RetryAfter { delay_ms: self.retry_delay_ms, next_attempt: attempt + 1 }
        } else {
            AfterFailure::GiveUp { attempts: self.max_retries as u64 + 1 }
        }
    }
}

proof fn lemma_trace_from(policy: RetryPolicy, attempt: nat)
    requires
        attempt <= policy.max_retries,
    ensures
        ({
            let t = failure_trace(policy, attempt, (policy.max_retries + 1 - attempt) as nat);
            &&& t.len() == policy.max_retries + 1 - attempt
            &&& forall|i: int|
                0 <= i < policy.max_retries - attempt ==> #[trigger] t[i]
                    == (AfterFailure::RetryAfter {
                    delay_ms: policy.retry_delay_ms,
                    next_attempt: (attempt + i + 1) as u32,
                })
            &&& t.last() == (AfterFailure::GiveUp { attempts: (policy.max_retries + 1) as u64 })
        }),
    decreases policy.max_retries - attempt,
{
    let fails = (policy.max_retries + 1 - attempt) as nat;
    let t = failure_trace(policy, attempt, fails);
    if attempt < policy.max_retries {
        lemma_trace_from(policy, attempt + 1);
        let rest = failure_trace(policy, attempt + 1, (fails - 1) as nat);
        assert(((attempt + 1) as u32) as nat == attempt + 1);
        assert(t == seq![policy.after_failure_spec(attempt)] + rest);
        assert forall|i: int| 0 <= i < policy.max_retries - attempt implies #[trigger] t[i]
            == (AfterFailure::RetryAfter {
            delay_ms: policy.retry_delay_ms,
            next_attempt: (attempt + i + 1) as u32,
        }) by {
            if i > 0 {
                assert(t[i] == rest[i - 1]);
            }
        }
    } else {
        assert(t == seq![policy.after_failure_spec(attempt)]);
    }
}

/// Against an endpoint that never opens, the connector makes exactly
/// `max_retries + 1` attempts: it waits the fixed delay after each of the first
/// `max_retries` failures, gives up after the last one reporting that count, and
/// tries nothing further whatever happens after.
pub proof fn lemma_attempts_are_bounded(policy: RetryPolicy, fails: nat)
    requires
        fails > policy.max_retries,
    ensures
        failure_trace(policy, 0, fails).len() == policy.max_retries + 1,
        forall|i: int|
            0 <= i < policy.max_retries ==> #[trigger] failure_trace(policy, 0, fails)[i]
                == (AfterFailure::RetryAfter {
                delay_ms: policy.retry_delay_ms,
                next_attempt: (i + 1) as u32,
            }),
        failure_trace(policy, 0, fails).last() == (AfterFailure::GiveUp {
            attempts: (policy.max_retries + 1) as u64,
        }),
{
    lemma_trace_from(policy, 0);
    lemma_trace_independent_of_extra_fails(policy, 0, fails);
}

proof fn lemma_trace_independent_of_extra_fails(policy: RetryPolicy, attempt: nat, fails: nat)
    requires
        attempt <= policy.max_retries,
        fails >= policy.max_retries + 1 - attempt,
    ensures
        failure_trace(policy, attempt, fails) == failure_trace(
            policy,
            attempt,
            (policy.max_retries + 1 - attempt) as nat,
        ),
    decreases policy.max_retries - attempt,
{
    if attempt < policy.max_retries {
        lemma_trace_independent_of_extra_fails(policy, attempt + 1, (fails - 1) as nat);
        assert(((attempt + 1) as u32) as nat == attempt + 1);
    }
}

/// When the endpoint opens after `k` failures, with `k` within the retries,
/// the connector has waited exactly `k` times, each for the fixed delay, and
/// the successful attempt is attempt `k`.
pub proof fn lemma_delays_before_success(policy: RetryPolicy, k: nat)
    requires
        k <= policy.max_retries,
    ensures
        failure_trace(policy, 0, k).len() == k,
        forall|i: int|
            0 <= i < k ==> #[trigger] failure_trace(policy, 0, k)[i] == (AfterFailure::RetryAfter {
                delay_ms: policy.retry_delay_ms,
                next_attempt: (i + 1) as u32,
            }),
{
    lemma_trace_prefix(policy, 0, k);
}

proof fn lemma_trace_prefix(policy: RetryPolicy, attempt: nat, k: nat)
    requires
        attempt + k <= policy.max_retries,
    ensures
        failure_trace(policy, attempt, k).len() == k,
        forall|i: int|
            0 <= i < k ==> #[trigger] failure_trace(policy, attempt, k)[i]
                == (AfterFailure::RetryAfter {
                delay_ms: policy.retry_delay_ms,
                next_attempt: (attempt + i + 1) as u32,
            }),
    decreases k,
{
    if k > 0 {
        lemma_trace_prefix(policy, attempt + 1, (k - 1) as nat);
        assert(((attempt + 1) as u32) as nat == attempt + 1);
        let t = failure_trace(policy, attempt, k);
        let rest = failure_trace(policy, attempt + 1, (k - 1) as nat);
        assert(t == seq![policy.after_failure_spec(attempt)] + rest);
        assert forall|i: int| 0 <= i < k implies #[trigger] t[i] == (AfterFailure::RetryAfter {
            delay_ms: policy.retry_delay_ms,
            next_attempt: (attempt + i + 1) as u32,
        }) by {
            if i > 0 {
                assert(t[i] == rest[i - 1]);
            }
        }
    }
}

} // verus!
