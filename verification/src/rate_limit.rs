use vstd::prelude::*;

use crate::config::{SecurityConfig, MAX_TIMESTAMP_MS, WINDOW_MS};

verus! {

/// Per-identity rate-limit state: attempts observed in the current window,
/// when that window began, when the identity was last seen (used by the
/// eviction sweep), and, if the limit was tripped, until when requests from
/// the identity are rejected.
#[derive(Clone, Copy, Debug)]
pub struct RateLimitEntry {
    /// Attempts observed in the current window; at least 1 once the entry exists.
    pub count: u64,
    /// Timestamp (ms) at which the current counting window began.
    pub window_start: u64,
    /// Timestamp (ms) of the most recent attempt.
    pub last_seen: u64,
    /// When present and in the future, the identity is blocked until then.
    pub blocked_until: Option<u64>,
}

/// Whether the entry blocks requests at time `now`.
pub open spec fn blocked_at(e: RateLimitEntry, now: u64) -> bool {
    match e.blocked_until {
        Some(b) => now < b,
        None => false,
    }
}

/// Whether the entry carries a block that has already elapsed at `now`.
pub open spec fn block_expired(e: RateLimitEntry, now: u64) -> bool {
    match e.blocked_until {
        Some(b) => now >= b,
        None => false,
    }
}

/// Whether the entry's counting window is over at `now`.
pub open spec fn window_expired(e: RateLimitEntry, now: u64) -> bool {
    now > e.window_start + WINDOW_MS
}

/// Well-formedness of an entry under a given configuration: the count is at
/// least one and never more than one past the threshold, timestamps are
/// bounded, a block always ends exactly one block duration after the attempt
/// that tripped it, and an unblocked entry is within the threshold.
pub open spec fn entry_wf(e: RateLimitEntry, cfg: SecurityConfig) -> bool {
    &&& 1 <= e.count <= cfg.rate_limit_per_minute + 1
    &&& e.window_start <= MAX_TIMESTAMP_MS
    &&& e.last_seen <= MAX_TIMESTAMP_MS
    &&& (match e.blocked_until {
        Some(b) => b == e.last_seen + cfg.block_ms(),
        None => e.count <= cfg.rate_limit_per_minute,
    })
}

/// The entry that starts a fresh window at `now`.
pub open spec fn fresh_entry(now: u64) -> RateLimitEntry {
    RateLimitEntry { count: 1, window_start: now, last_seen: now, blocked_until: None }
}

/// The counter state after the attempt at `now` is counted, before the
/// threshold test: a missing entry, an elapsed block, or an elapsed window
/// each begin a fresh window; otherwise the count advances within the window.
pub open spec fn counted_entry(prev: Option<RateLimitEntry>, now: u64) -> RateLimitEntry {
    match prev {
        None => fresh_entry(now),
        Some(e) => {
            if block_expired(e, now) || window_expired(e, now) {
                fresh_entry(now)
            } else {
                RateLimitEntry {
                    count: (e.count + 1) as u64,
                    window_start: e.window_start,
                    last_seen: now,
                    blocked_until: None,
                }
            }
        },
    }
}

/// Whether the attempt at `now` pushes the count strictly above the threshold.
pub open spec fn step_blocks(prev: Option<RateLimitEntry>, now: u64, cfg: SecurityConfig) -> bool {
    counted_entry(prev, now).count > cfg.rate_limit_per_minute
}

/// The entry after the attempt at `now`: counted, and blocked for one block
/// duration if the count now exceeds the threshold.
pub open spec fn stepped_entry(prev: Option<RateLimitEntry>, now: u64, cfg: SecurityConfig) -> RateLimitEntry {
    let c = counted_entry(prev, now);
    if c.count > cfg.rate_limit_per_minute {
        RateLimitEntry { blocked_until: Some((now + cfg.block_ms()) as u64), ..c }
    } else {
        c
    }
}

/// Whether the sweep keeps the entry: it was seen within the last
/// `retention_ms` milliseconds (the sweep uses twice the block duration).
pub open spec fn spec_live_at(e: RateLimitEntry, now: u64, retention_ms: u64) -> bool {
    now <= e.last_seen + retention_ms
}

impl RateLimitEntry {
    /// Whether the sweep keeps this entry at time `now`.
    pub fn live_at(&self, now: u64, retention_ms: u64) -> (r: bool)
        ensures
            r == spec_live_at(*self, now, retention_ms),
    {
        if self.last_seen >= now {
            true
        } else {
            now - self.last_seen <= retention_ms
        }
    }
}

/// The entry an identity holds after its attempts at the given instants, in
/// order, each counted and put to the threshold test; no entry before the
/// first.
pub open spec fn stepped_n(times: Seq<u64>, cfg: SecurityConfig) -> Option<RateLimitEntry>
    decreases times.len(),
{
    if times.len() == 0 {
        None
    } else {
        Some(stepped_entry(stepped_n(times.drop_last(), cfg), times.last(), cfg))
    }
}

/// Requests within one window never trip the limiter while their number
/// stays within the threshold: starting from no entry, the n-th of n such
/// requests (n at most the threshold) is allowed, none ever blocks, and the
/// entry afterwards counts exactly n attempts in the window that the first
/// request began.
pub proof fn lemma_within_window_allowed(times: Seq<u64>, cfg: SecurityConfig)
    requires
        cfg.valid(),
        1 <= times.len() <= cfg.rate_limit_per_minute,
        forall|k: int| 0 <= k < times.len() ==> #[trigger] times[k] <= MAX_TIMESTAMP_MS,
        forall|k: int| 0 <= k < times.len() ==> #[trigger] times[k] <= times[0] + WINDOW_MS,
    ensures
        ({
            let e = stepped_n(times, cfg);
            e matches Some(en) && en.count == times.len() && en.window_start == times[0]
                && en.blocked_until is None
        }),
        forall|k: int|
            0 <= k < times.len() ==> !#[trigger] step_blocks(
                stepped_n(times.take(k), cfg),
                times[k],
                cfg,
            ),
    decreases times.len(),
{
    if times.len() == 1 {
        assert(times.take(0).len() == 0);
        assert(times.take(1int) =~= times);
    } else {
        let prefix = times.drop_last();
        assert(prefix[0] == times[0]);
        lemma_within_window_allowed(prefix, cfg);
        assert forall|k: int|
            0 <= k < times.len() implies !#[trigger] step_blocks(
            stepped_n(times.take(k), cfg),
            times[k],
            cfg,
        ) by {
            if k < times.len() - 1 {
                assert(times.take(k) =~= prefix.take(k));
                assert(prefix[k] == times[k]);
            } else {
                assert(times.take(k) =~= prefix);
            }
        }
    }
}

/// The first request that pushes the count strictly above the threshold is
/// the one that blocks: after a full window's worth of allowed requests, one
/// more inside the same window is counted, trips a new block, and the block
/// ends one block duration after it.
pub proof fn lemma_block_when_window_exceeded(times: Seq<u64>, cfg: SecurityConfig)
    requires
        cfg.valid(),
        times.len() == cfg.rate_limit_per_minute + 1,
        forall|k: int| 0 <= k < times.len() ==> #[trigger] times[k] <= MAX_TIMESTAMP_MS,
        forall|k: int| 0 <= k < times.len() ==> #[trigger] times[k] <= times[0] + WINDOW_MS,
    ensures
        step_blocks(stepped_n(times.drop_last(), cfg), times.last(), cfg),
        ({
            let e = stepped_n(times, cfg);
            e matches Some(en) && en.count == cfg.rate_limit_per_minute + 1 && en.blocked_until
                == Some((times.last() + cfg.block_ms()) as u64)
        }),
{
    let prefix = times.drop_last();
    assert(prefix[0] == times[0]);
    lemma_within_window_allowed(prefix, cfg);
}

/// Counts the attempt at `now` against `prev` and applies the threshold test;
/// returns the updated entry and whether this attempt tripped a new block.
pub(crate) fn step_entry(prev: Option<RateLimitEntry>, now: u64, cfg: &SecurityConfig) -> (r: (
    RateLimitEntry,
    bool,
))
    requires
        cfg.valid(),
        now <= MAX_TIMESTAMP_MS,
        prev matches Some(e) ==> entry_wf(e, *cfg) && !blocked_at(e, now),
    ensures
        r.0 == stepped_entry(prev, now, *cfg),
        r.1 == step_blocks(prev, now, *cfg),
        entry_wf(r.0, *cfg),
{
    let counted: RateLimitEntry = match prev {
        None => RateLimitEntry { count: 1, window_start: now, last_seen: now, blocked_until: None },
        Some(e) => {
            let expired_block: bool = match e.blocked_until {
                Some(b) => now >= b,
                None => false,
            };
            if expired_block || now > e.window_start + WINDOW_MS {
                RateLimitEntry { count: 1, window_start: now, last_seen: now, blocked_until: None }
            } else {
                RateLimitEntry {
                    count: e.count + 1,
                    window_start: e.window_start,
                    last_seen: now,
                    blocked_until: None,
                }
            }
        },
    };
    if counted.count > cfg.rate_limit_per_minute as u64 {
        let blocked = RateLimitEntry {
            count: counted.count,
            window_start: counted.window_start,
            last_seen: counted.last_seen,
            blocked_until: Some(now + cfg.block_duration_ms()),
        };
        (blocked, true)
    } else {
        (counted, false)
    }
}

} // verus!
