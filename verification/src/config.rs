use vstd::prelude::*;

use crate::errors::SecurityError;

verus! {

/// Length of one counting window, in milliseconds (ten minutes).
pub const WINDOW_MS: u64 = 600_000;

/// Milliseconds in one minute.
pub const MS_PER_MINUTE: u64 = 60_000;

/// Milliseconds in one day.
pub const MS_PER_DAY: u64 = 86_400_000;

/// Largest accepted block duration, in minutes.
pub const MAX_BLOCK_DURATION_MINUTES: u64 = 1_000_000;

/// Largest accepted audit retention, in days (a century).
pub const MAX_RETENTION_DAYS: u64 = 36_500;

/// Largest timestamp the service works with, in milliseconds since an epoch.
/// Far beyond any wall clock; keeps every sum of a timestamp and a configured
/// duration well inside `u64`.
pub const MAX_TIMESTAMP_MS: u64 = 100_000_000_000_000;

/// Tunable policy of the service: how many attempts one identity may make per
/// window, how long it stays blocked once it trips the limit, which audit
/// events are written, and how long audit records are retained.
#[derive(Clone, Copy, Debug)]
pub struct SecurityConfig {
    /// Max attempts per window before blocking.
    pub rate_limit_per_minute: u32,
    /// How long an identity stays blocked once it trips the limit (minutes).
    pub block_duration_minutes: u64,
    /// Master switch for all audit writes.
    pub enable_logging: bool,
    /// Whether successful attempts are written to the audit trail.
    pub log_successful_attempts: bool,
    /// Max age of an audit record before the sweep deletes it (days).
    pub retention_days: u64,
}

/// The stock configuration, as a mathematical value.
pub open spec fn spec_default_config() -> SecurityConfig {
    SecurityConfig {
        rate_limit_per_minute: 30,
        block_duration_minutes: 15,
        enable_logging: true,
        log_successful_attempts: true,
        retention_days: 30,
    }
}

impl SecurityConfig {
    /// A configuration is valid when the threshold and both durations are
    /// at least one, and the durations are small enough that no timestamp
    /// arithmetic can overflow.
    pub open spec fn valid(self) -> bool {
        &&& 1 <= self.rate_limit_per_minute
        &&& 1 <= self.block_duration_minutes <= MAX_BLOCK_DURATION_MINUTES
        &&& 1 <= self.retention_days <= MAX_RETENTION_DAYS
    }

    /// The block duration in milliseconds.
    pub open spec fn block_ms(self) -> int {
        self.block_duration_minutes * MS_PER_MINUTE
    }

    /// The audit retention window in milliseconds.
    pub open spec fn retention_ms(self) -> int {
        self.retention_days * MS_PER_DAY
    }

    /// Checks the configuration once, at startup; an invalid threshold or
    /// duration is a `Configuration` error, never discovered at call time.
    pub fn validate(self) -> (r: Result<SecurityConfig, SecurityError>)
        ensures
            self.valid() ==> (r matches Ok(c) && c == self),
            !self.valid() ==> (r matches Err(e) && e is Configuration),
    {
        if self.rate_limit_per_minute < 1 {
            Err(SecurityError::Configuration {
                message: String::from_str("rate limit threshold must be at least 1"),
            })
        } else if self.block_duration_minutes < 1
            || self.block_duration_minutes > MAX_BLOCK_DURATION_MINUTES {
            Err(SecurityError::Configuration {
                message: String::from_str("block duration out of range"),
            })
        } else if self.retention_days < 1 || self.retention_days > MAX_RETENTION_DAYS {
            Err(SecurityError::Configuration {
                message: String::from_str("retention out of range"),
            })
        } else {
            Ok(self)
        }
    }

    /// The block duration in milliseconds, as a machine word.
    pub fn block_duration_ms(&self) -> (r: u64)
        requires
            self.valid(),
        ensures
            r == self.block_ms(),
    {
        self.block_duration_minutes * MS_PER_MINUTE
    }

    /// The audit retention window in milliseconds, as a machine word.
    pub fn retention_duration_ms(&self) -> (r: u64)
        requires
            self.valid(),
        ensures
            r == self.retention_ms(),
    {
        self.retention_days * MS_PER_DAY
    }
}

impl Default for SecurityConfig {
    /// The stock policy: 30 attempts per window, 15-minute blocks, full
    /// logging, 30-day audit retention.
    fn default() -> (c: Self)
        ensures
            c == spec_default_config(),
            c.rate_limit_per_minute == 30,
            c.block_duration_minutes == 15,
            c.enable_logging,
            c.log_successful_attempts,
            c.retention_days == 30,
            c.valid(),
    {
        SecurityConfig {
            rate_limit_per_minute: 30,
            block_duration_minutes: 15,
            enable_logging: true,
            log_successful_attempts: true,
            retention_days: 30,
        }
    }
}

} // verus!
