//! Access gating and abuse mitigation: an in-memory rate limiter with
//! temporary blocking, a durable audit trail of access attempts that derives
//! per-identity timing deltas, and a periodic eviction sweep that bounds both
//! the table's memory and the trail's storage.
//!
//! The heart is `security::SecurityService`, which owns the concurrent
//! rate-limit table (`rate_limit`, `table`), the policy (`config`), and the
//! audit trail (`audit`).  Around it stand the access-code validator
//! (`codes`), the per-request context and user-agent sanitizer (`context`),
//! the logging filter (`access_log`), and the listing helpers (`pagination`).
//! HTTP, persistence engines and other transports are outside collaborators:
//! they resolve identities, carry timestamps in, and mirror the trail out.

pub mod access_log;
pub mod audit;
pub mod auth;
pub mod clock;
pub mod codes;
pub mod config;
pub mod context;
pub mod errors;
pub mod pagination;
pub mod rate_limit;
pub mod security;
pub mod seqs;
pub mod table;
pub mod text;
