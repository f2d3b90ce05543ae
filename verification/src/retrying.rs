//! What a sender does when a message could not be enqueued at once, as dictated by the
//! configured retrying strategy.

use vstd::prelude::*;

verus! {

/// The retrying strategies a connection may be configured with.
#[derive(PartialEq, Eq, Debug, Clone, Copy)]
pub enum RetryingStrategies {
    /// Give up at once, without asking to drop the connection.
    DoNotRetry,
    /// Give up at once and ask to drop the connection.
    EndCommunications,
    /// Retry up to the given number of times, with exponential backoff and jitter.
    RetryWithBackoffUpTo(u8),
    /// Retry, yielding between attempts, for up to the given number of milliseconds.
    RetryYieldingForUpToMillis(u8),
    /// Deprecated: retry, spinning, for up to the given number of milliseconds.
    RetrySpinningForUpToMillis(u8),
}

/// How a failed first attempt is followed up.
#[derive(PartialEq, Eq, Debug, Clone, Copy)]
pub enum RetryPlan {
    /// Report the failure now; `abort` tells whether the connection should be dropped.
    Fail { abort: bool },
    /// Attempt again up to `re_attempts` more times, backing off exponentially with jitter.
    BackoffRetries { re_attempts: u8 },
    /// Attempt again, yielding in between, until `millis` milliseconds have passed.
    YieldUntilTimeout { millis: u64 },
}

/// The strategy is one that the senders still honor: it has a follow-up plan.
pub open spec fn is_supported(strategy: RetryingStrategies) -> bool {
    !(strategy is RetrySpinningForUpToMillis)
}

/// The follow-up of a failed first attempt, for each strategy; the deprecated spinning
/// strategy has none (the senders refuse it).
pub open spec fn spec_retry_plan(strategy: RetryingStrategies) -> Option<RetryPlan> {
    match strategy {
        RetryingStrategies::DoNotRetry => Some(RetryPlan::Fail { abort: false }),
        RetryingStrategies::EndCommunications => Some(RetryPlan::Fail { abort: true }),
        RetryingStrategies::RetryWithBackoffUpTo(attempts) => Some(RetryPlan::BackoffRetries { re_attempts: attempts }),
        RetryingStrategies::RetryYieldingForUpToMillis(millis) => Some(RetryPlan::YieldUntilTimeout { millis: millis as u64 }),
        RetryingStrategies::RetrySpinningForUpToMillis(_) => None,
    }
}

/// Tells how a send (or slot reservation) that failed at its first attempt is followed up.
pub fn retry_plan(strategy: RetryingStrategies) -> (plan: RetryPlan)
    requires
        is_supported(strategy),
    ensures
        spec_retry_plan(strategy) == Some(plan),
{
    match strategy {
        RetryingStrategies::DoNotRetry => RetryPlan::Fail { abort: false },
        RetryingStrategies::EndCommunications => RetryPlan::Fail { abort: true },
        RetryingStrategies::RetryWithBackoffUpTo(attempts) => RetryPlan::BackoffRetries { re_attempts: attempts },
        RetryingStrategies::RetryYieldingForUpToMillis(millis) => RetryPlan::YieldUntilTimeout { millis: millis as u64 },
        RetryingStrategies::RetrySpinningForUpToMillis(_) => vstd::pervasive::unreached(),
    }
}

/// Whether the connection should be dropped once a send failed for good under `plan`:
/// retrying strategies that exhausted their attempts always ask for it.
pub open spec fn spec_abort_after_failure(plan: RetryPlan) -> bool {
    match plan {
        RetryPlan::Fail { abort } => abort,
        _ => true,
    }
}

/// Tells whether the connection should be dropped once a send failed for good under `plan`.
pub fn abort_after_failure(plan: RetryPlan) -> (abort: bool)
    ensures
        abort == spec_abort_after_failure(plan),
{
    match plan {
        RetryPlan::Fail { abort } => abort,
        RetryPlan::BackoffRetries { .. } => true,
        RetryPlan::YieldUntilTimeout { .. } => true,
    }
}

/// Only `DoNotRetry` reports a failed send without asking to drop the connection.
pub proof fn lemma_only_do_not_retry_keeps_connection(strategy: RetryingStrategies)
    requires
        is_supported(strategy),
    ensures
        spec_abort_after_failure(spec_retry_plan(strategy)->Some_0) <==> strategy != RetryingStrategies::DoNotRetry,
{
}

/// Every strategy keeps what it was configured with: backoff strategies keep their attempt
/// count and yielding strategies their time budget, whatever their value; the strategies
/// without retries fail at once, asking to drop the connection only for `EndCommunications`.
pub proof fn lemma_retry_plan_keeps_configuration(n: u8)
    ensures
        spec_retry_plan(RetryingStrategies::RetryWithBackoffUpTo(n)) == Some(RetryPlan::BackoffRetries { re_attempts: n }),
        spec_retry_plan(RetryingStrategies::RetryYieldingForUpToMillis(n)) == Some(
            RetryPlan::YieldUntilTimeout { millis: n as u64 },
        ),
        spec_retry_plan(RetryingStrategies::DoNotRetry) == Some(RetryPlan::Fail { abort: false }),
        spec_retry_plan(RetryingStrategies::EndCommunications) == Some(RetryPlan::Fail { abort: true }),
        spec_retry_plan(RetryingStrategies::RetrySpinningForUpToMillis(n)) is None,
{
}

} // verus!
