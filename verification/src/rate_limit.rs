//! Sliding-window rate limiting of actor operations.
//!
//! A `QuotaTracker` counts the operations an actor performed inside the
//! window that started at `window_start`.  Once `window_seconds` have passed
//! since that start, the next check opens a fresh window at the current time
//! and the quota is replenished.

use vstd::prelude::*;

verus! {

/// Operations allowed per window by the default configuration.
pub const DEFAULT_MAX_OPERATIONS: u32 = 100;

/// Operations allowed per window by the strict configuration.
pub const STRICT_MAX_OPERATIONS: u32 = 10;

/// Operations allowed per window by the permissive configuration.
pub const PERMISSIVE_MAX_OPERATIONS: u32 = 1000;

/// Window length, in seconds, of every predefined configuration.
pub const DEFAULT_WINDOW_SECONDS: u64 = 3600;

/// How many operations an actor may perform inside one window.
#[derive(Clone, Copy, Debug, PartialEq, Eq)]
pub struct RateLimitConfig {
    pub max_operations: u32,
    pub window_seconds: u64,
}

impl Default for RateLimitConfig {
    /// The default configuration: 100 operations per hour.
    fn default() -> (config: Self)
        ensures
            config.max_operations == DEFAULT_MAX_OPERATIONS,
            config.window_seconds == DEFAULT_WINDOW_SECONDS,
    {
        RateLimitConfig { max_operations: DEFAULT_MAX_OPERATIONS, window_seconds: DEFAULT_WINDOW_SECONDS }
    }
}

impl RateLimitConfig {
    /// A tight configuration for sensitive operations.
    pub fn strict() -> (config: Self)
        ensures
            config.max_operations == STRICT_MAX_OPERATIONS,
            config.window_seconds == DEFAULT_WINDOW_SECONDS,
    {
        RateLimitConfig { max_operations: STRICT_MAX_OPERATIONS, window_seconds: DEFAULT_WINDOW_SECONDS }
    }

    /// A loose configuration for high-volume actors.
    pub fn permissive() -> (config: Self)
        ensures
            config.max_operations == PERMISSIVE_MAX_OPERATIONS,
            config.window_seconds == DEFAULT_WINDOW_SECONDS,
    {
        RateLimitConfig {
            max_operations: PERMISSIVE_MAX_OPERATIONS,
            window_seconds: DEFAULT_WINDOW_SECONDS,
        }
    }
}

/// The reason a rate-limited operation was refused.
#[derive(Clone, Copy, Debug, PartialEq, Eq)]
pub enum RateLimitError {
    /// The actor's quota for the current window is used up.
    RateLimitExceeded,
}

/// Per-actor record of the current window and the operations counted in it.
#[derive(Clone, Copy, Debug, PartialEq, Eq)]
pub struct QuotaTracker {
    pub operations_count: u32,
    pub window_start: u64,
}

impl QuotaTracker {
    /// The window of this tracker is over at time `now`.
    pub open spec fn window_expired(self, now: u64, config: RateLimitConfig) -> bool {
        now >= self.window_start + config.window_seconds
    }

    /// The tracker from which a check at `now` counts: a fresh, empty window
    /// opened at `now` once the current one is over, this tracker otherwise.
    pub open spec fn current_window(self, now: u64, config: RateLimitConfig) -> QuotaTracker {
        if self.window_expired(now, config) {
            QuotaTracker { operations_count: 0, window_start: now }
        } else {
            self
        }
    }

    /// The tracker after `ops` operations at time `now`, or `None` when they do
    /// not fit in the quota of the current window.
    pub open spec fn after_operations(self, now: u64, config: RateLimitConfig, ops: u32) -> Option<
        QuotaTracker,
    > {
        let base = self.current_window(now, config);
        if base.operations_count + ops <= config.max_operations {
            Some(
                QuotaTracker {
                    operations_count: (base.operations_count + ops) as u32,
                    window_start: base.window_start,
                },
            )
        } else {
            None
        }
    }

    /// The quota left in the current window.
    pub open spec fn spec_remaining_quota(self, config: RateLimitConfig) -> int {
        if self.operations_count <= config.max_operations {
            config.max_operations - self.operations_count
        } else {
            0
        }
    }

    /// The seconds left before the window is over at time `now`.
    pub open spec fn spec_window_time_remaining(self, now: u64, config: RateLimitConfig) -> int {
        if now <= self.window_start {
            config.window_seconds as int
        } else if self.window_expired(now, config) {
            0
        } else {
            self.window_start + config.window_seconds - now
        }
    }

    /// A tracker whose first window opens at `now`, with no operation counted.
    pub fn new(now: u64) -> (tracker: Self)
        ensures
            tracker.operations_count == 0,
            tracker.window_start == now,
    {
        QuotaTracker { operations_count: 0, window_start: now }
    }

    fn window_over(&self, now: u64, config: &RateLimitConfig) -> (over: bool)
        ensures
            over == self.window_expired(now, *config),
    {
        now >= self.window_start && now - self.window_start >= config.window_seconds
    }

    /// Counts `ops` operations at time `now`.  When the window is over, a fresh
    /// one opens at `now` first.  The operations are refused, and the tracker
    /// left as it was, when they do not fit in the quota of that window.
    pub fn check_and_update(&mut self, now: u64, config: &RateLimitConfig, ops: u32) -> (result:
        Result<(), RateLimitError>)
        ensures
            match old(self).after_operations(now, *config, ops) {
                Some(next) => result is Ok && *final(self) == next,
                None => result == Err::<(), RateLimitError>(RateLimitError::RateLimitExceeded)
                    && *final(self) == *old(self),
            },
            result is Ok ==> final(self).operations_count <= config.max_operations,
            old(self).operations_count <= config.max_operations
                ==> final(self).operations_count <= config.max_operations,
    {
        let (count, start) = if self.window_over(now, config) {
            (0u32, now)
        } else {
            (self.operations_count, self.window_start)
        };
        if ops > config.max_operations || count > config.max_operations - ops {
            return Err(RateLimitError::RateLimitExceeded);
        }
        self.operations_count = count + ops;
        self.window_start = start;
        Ok(())
    }

    /// The number of operations still allowed in the current window.
    pub fn remaining_quota(&self, config: &RateLimitConfig) -> (remaining: u32)
        ensures
            remaining == self.spec_remaining_quota(*config),
            self.operations_count <= config.max_operations ==> remaining + self.operations_count
                == config.max_operations,
    {
        if self.operations_count <= config.max_operations {
            config.max_operations - self.operations_count
        } else {
            0
        }
    }

    /// The seconds left at time `now` before the current window is over.
    pub fn window_time_remaining(&self, now: u64, config: &RateLimitConfig) -> (remaining: u64)
        ensures
            remaining == self.spec_window_time_remaining(now, *config),
    {
        if now <= self.window_start {
            config.window_seconds
        } else {
            let elapsed = now - self.window_start;
            if elapsed >= config.window_seconds {
                0
            } else {
                config.window_seconds - elapsed
            }
        }
    }
}

/// Replenishment: once the window is over, any batch of operations that fits in
/// the full quota is accepted, and it opens a new window at the current time
/// that counts exactly that batch.
pub proof fn lemma_quota_replenished_after_window(
    tracker: QuotaTracker,
    now: u64,
    config: RateLimitConfig,
    ops: u32,
)
    requires
        tracker.window_expired(now, config),
        ops <= config.max_operations,
    ensures
        tracker.after_operations(now, config, ops) == Some(
            QuotaTracker { operations_count: ops, window_start: now },
        ),
{
}

/// No replenishment inside the window: before the window is over, operations
/// beyond the quota left are refused, whatever the time.
pub proof fn lemma_quota_blocked_inside_window(
    tracker: QuotaTracker,
    now: u64,
    config: RateLimitConfig,
    ops: u32,
)
    requires
        !tracker.window_expired(now, config),
        tracker.operations_count + ops > config.max_operations,
    ensures
        tracker.after_operations(now, config, ops) is None,
{
}

/// A batch of zero operations is never refused by a tracker within its quota,
/// and it never consumes quota.
pub proof fn lemma_zero_operations_always_fit(tracker: QuotaTracker, now: u64, config: RateLimitConfig)
    requires
        tracker.operations_count <= config.max_operations,
    ensures
        tracker.after_operations(now, config, 0) == Some(tracker.current_window(now, config)),
{
}

/// Accepted operations are counted exactly: with a window of positive length, a
/// tracker that accepts `a` and then `b` operations at the same time ends as if
/// it had accepted both batches at once.
pub proof fn lemma_operations_accumulate(
    tracker: QuotaTracker,
    now: u64,
    config: RateLimitConfig,
    a: u32,
    b: u32,
)
    requires
        config.window_seconds > 0,
        tracker.after_operations(now, config, a) is Some,
        tracker.after_operations(now, config, a).unwrap().after_operations(now, config, b) is Some,
        a + b <= u32::MAX,
    ensures
        tracker.after_operations(now, config, a).unwrap().after_operations(now, config, b)
            == tracker.after_operations(now, config, (a + b) as u32),
{
}

/// Inside a window that has begun, the elapsed time and the time remaining
/// add up to the window length.
pub proof fn lemma_window_time_partition(tracker: QuotaTracker, now: u64, config: RateLimitConfig)
    requires
        tracker.window_start <= now,
        !tracker.window_expired(now, config),
    ensures
        tracker.spec_window_time_remaining(now, config) + (now - tracker.window_start)
            == config.window_seconds,
{
}

} // verus!
