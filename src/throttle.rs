use vstd::prelude::*;

verus! {

/// Least time between two validations, in milliseconds.
pub const MIN_VALIDATION_GAP_MS: u64 = 500;

/// A validation requested at `now` is due when at least the minimum gap has
/// passed since `last`; a clock that reads earlier than `last` counts as no
/// time passed.
pub open spec fn validation_due(last: u64, now: u64) -> bool {
    now >= last && now - last >= MIN_VALIDATION_GAP_MS
}

/// Bounds how often documents are validated during a burst of edits. One
/// clock serves the whole session; times are milliseconds on a monotonic
/// clock that the caller reads.
pub struct Throttle {
    last_validated_ms: u64,
}

impl View for Throttle {
    type V = u64;

    /// When the last validation completed.
    closed spec fn view(&self) -> u64 {
        self.last_validated_ms
    }
}

impl Throttle {
    /// A throttle that counts the session's start as the last validation.
    pub fn new(now_ms: u64) -> (r: Throttle)
        ensures
            r@ == now_ms,
    {
        Throttle { last_validated_ms: now_ms }
    }

    /// Whether a validation requested at `now_ms` should run.
    pub fn should_validate(&self, now_ms: u64) -> (r: bool)
        ensures
            r == validation_due(self@, now_ms),
    {
        now_ms >= self.last_validated_ms && now_ms - self.last_validated_ms
            >= MIN_VALIDATION_GAP_MS
    }

    /// Records that a validation completed at `now_ms`.
    pub fn record(&mut self, now_ms: u64)
        ensures
            final(self)@ == now_ms,
    {
        self.last_validated_ms = now_ms;
    }
}

/// After a validation that completed at `done`, a request at `next` (no
/// earlier) runs exactly when it comes at least the minimum gap later:
/// requests closer together than that cause one compiler invocation, requests
/// spaced further apart one each.
pub proof fn lemma_throttle_spacing(t: Throttle, done: u64, next: u64)
    requires
        t@ == done,
        done <= next,
    ensures
        validation_due(t@, next) <==> next - done >= MIN_VALIDATION_GAP_MS,
{
}

} // verus!
