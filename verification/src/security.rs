use vstd::prelude::*;

use crate::audit::{
    derived_count, keep_pred, record_fields_ok, spec_prior, trail_wf, AuditRecord, AuditTrail,
};
use crate::clock::{clamp_timestamp, now_millis};
use crate::config::{spec_default_config, SecurityConfig, MAX_TIMESTAMP_MS};
use crate::errors::SecurityError;
use crate::rate_limit::{
    blocked_at, entry_wf, fresh_entry, spec_live_at, step_blocks, step_entry, stepped_entry,
    window_expired, RateLimitEntry,
};
use crate::table::{table_get, table_insert, table_model, table_new, table_retain_live};
use dashmap::DashMap;

verus! {

/// What one rate-limit check does to the table: an identity whose block is
/// still running is rejected without any write; otherwise its entry is
/// stepped, and the call reports whether this very attempt tripped the block.
pub open spec fn spec_check(
    m: Map<Seq<char>, RateLimitEntry>,
    id: Seq<char>,
    now: u64,
    cfg: SecurityConfig,
) -> (Map<Seq<char>, RateLimitEntry>, bool, bool) {
    if m.dom().contains(id) && blocked_at(m[id], now) {
        (m, false, false)
    } else {
        let prev = if m.dom().contains(id) {
            Some(m[id])
        } else {
            None
        };
        let blocked = step_blocks(prev, now, cfg);
        (m.insert(id, stepped_entry(prev, now, cfg)), !blocked, blocked)
    }
}

/// Whether an attempt with the given outcome is written to the audit trail:
/// logging must be on, and successful attempts may be suppressed separately;
/// failures are always recorded while logging is on.
pub open spec fn spec_should_record(cfg: SecurityConfig, success: bool) -> bool {
    cfg.enable_logging && !(success && !cfg.log_successful_attempts)
}

/// What a gated request comes to: it proceeds to the domain logic, or it is
/// answered with a uniform "too many requests" signal that carries no detail
/// about remaining time or thresholds.
#[derive(Clone, Copy, Debug, PartialEq, Eq, Structural)]
pub enum GateOutcome {
    /// The request may proceed.
    Proceed,
    /// The identity is rate limited; reject uniformly.
    TooManyRequests,
}

/// The access-gating service: a concurrent in-memory rate-limit table keyed
/// by client identity, the policy it runs under, and the durable audit trail
/// of access attempts.
pub struct SecurityService {
    /// The rate-limit table: per-identity counters and block state.
    pub table: DashMap<String, RateLimitEntry>,
    /// The policy the service was started with.
    pub config: SecurityConfig,
    /// The durable audit trail of access attempts.
    pub audit: AuditTrail,
}

impl SecurityService {
    /// The rate-limit table's contents.
    pub closed spec fn table_view(self) -> Map<Seq<char>, RateLimitEntry> {
        table_model(self.table)
    }

    /// The audit trail's records, oldest first.
    pub closed spec fn audit_view(self) -> Seq<AuditRecord> {
        self.audit@
    }

    /// Well-formedness: the policy is valid, every table entry is
    /// well-formed under it, and the trail's insert times are monotone.
    pub open spec fn wf(self) -> bool {
        &&& self.config.valid()
        &&& forall|k: Seq<char>| #[trigger]
            self.table_view().dom().contains(k) ==> entry_wf(self.table_view()[k], self.config)
        &&& trail_wf(self.audit_view())
    }

    /// Starts the service with the given policy, or the stock one; an invalid
    /// threshold or duration is rejected here, at startup.
    pub fn new(config: Option<SecurityConfig>) -> (r: Result<SecurityService, SecurityError>)
        ensures
            ({
                let cfg = match config {
                    Some(c) => c,
                    None => spec_default_config(),
                };
                &&& cfg.valid() ==> (r matches Ok(s) && s.wf() && s.config == cfg
                    && s.table_view() =~= Map::empty() && s.audit_view() =~= Seq::empty())
                &&& !cfg.valid() ==> (r matches Err(e) && e is Configuration)
            }),
    {
        let cfg = match config {
            Some(c) => c,
            None => SecurityConfig::default(),
        };
        match cfg.validate() {
            Ok(valid_cfg) => Ok(
                SecurityService {
                    table: table_new(),
                    config: valid_cfg,
                    audit: AuditTrail::new(),
                },
            ),
            Err(e) => Err(e),
        }
    }

    /// One rate-limit check for the identity, at the given instant: returns
    /// whether the request may proceed, and whether this very call tripped a
    /// new block.  An identity whose block is still running is rejected with
    /// no write at all.
    pub fn check_rate_limit_at(&mut self, ip: &str, _access_code: &str, now_ms: u64) -> (r: (
        bool,
        bool,
    ))
        requires
            old(self).wf(),
            now_ms <= MAX_TIMESTAMP_MS,
        ensures
            final(self).wf(),
            final(self).config == old(self).config,
            final(self).audit_view() == old(self).audit_view(),
            ({
                let (m2, allowed, newly) = spec_check(
                    old(self).table_view(),
                    ip@,
                    now_ms,
                    old(self).config,
                );
                final(self).table_view() == m2 && r.0 == allowed && r.1 == newly
            }),
    {
        let existing = table_get(&self.table, ip);
        if let Some(e) = existing {
            if let Some(b) = e.blocked_until {
                if now_ms < b {
                    return (false, false);
                }
            }
        }
        let stepped = step_entry(existing, now_ms, &self.config);
        table_insert(&mut self.table, ip, stepped.0);
        proof {
            assert forall|k: Seq<char>| #[trigger]
                self.table_view().dom().contains(k) implies entry_wf(
                self.table_view()[k],
                self.config,
            ) by {
                if k != ip@ {
                    assert(self.table_view()[k] == old(self).table_view()[k]);
                }
            }
        }
        (!stepped.1, stepped.1)
    }

    /// Writes one audit record for the attempt, at the given instant, unless
    /// the policy suppresses it.  The record derives its sequence count and
    /// timing delta from the identity's most recent prior record.  A write
    /// never fails here and never touches the rate-limit table.
    pub fn log_access_attempt_at(
        &mut self,
        ip: Option<&str>,
        user_agent: Option<String>,
        access_code: &str,
        action: &str,
        success: bool,
        now_ms: u64,
    ) -> (r: Result<(), SecurityError>)
        requires
            old(self).wf(),
            now_ms <= MAX_TIMESTAMP_MS,
        ensures
            r is Ok,
            final(self).wf(),
            final(self).config == old(self).config,
            final(self).table_view() == old(self).table_view(),
            !spec_should_record(old(self).config, success) ==> final(self).audit_view() == old(
                self,
            ).audit_view(),
            spec_should_record(old(self).config, success) ==> ({
                let trail = old(self).audit_view();
                &&& final(self).audit_view().len() == trail.len() + 1
                &&& final(self).audit_view().drop_last() =~= trail
                &&& record_fields_ok(
                    final(self).audit_view().last(),
                    trail,
                    ip.deep_view(),
                    user_agent.deep_view(),
                    access_code@,
                    action@,
                    success,
                    now_ms,
                )
            }),
    {
        if !self.config.enable_logging {
            return Ok(());
        }
        if success && !self.config.log_successful_attempts {
            return Ok(());
        }
        self.audit.append(ip, user_agent, access_code, action, success, now_ms);
        proof {
            assert forall|k: Seq<char>| #[trigger]
                self.table_view().dom().contains(k) implies entry_wf(
                self.table_view()[k],
                self.config,
            ) by {
                assert(old(self).table_view().dom().contains(k));
            }
        }
        Ok(())
    }

    /// Writes one audit record for the attempt, at the wall clock's instant,
    /// unless the policy suppresses it.  A logging failure is never the
    /// caller's failure: the result is always success, and the rate-limit
    /// table is never touched.
    pub fn log_access_attempt(
        &mut self,
        ip: Option<&str>,
        user_agent: Option<String>,
        access_code: &str,
        action: &str,
        success: bool,
    ) -> (r: Result<(), SecurityError>)
        requires
            old(self).wf(),
        ensures
            r is Ok,
            final(self).wf(),
            final(self).config == old(self).config,
            final(self).table_view() == old(self).table_view(),
            !spec_should_record(old(self).config, success) ==> final(self).audit_view() == old(
                self,
            ).audit_view(),
            spec_should_record(old(self).config, success) ==> ({
                let trail = old(self).audit_view();
                let rec = final(self).audit_view().last();
                &&& final(self).audit_view().len() == trail.len() + 1
                &&& final(self).audit_view().drop_last() =~= trail
                &&& rec.success == success
                &&& rec.access_code@ == access_code@
                &&& rec.action@ == action@
                &&& rec.ip_address.deep_view() == ip.deep_view()
                &&& rec.user_agent.deep_view() == user_agent.deep_view()
                &&& rec.count == derived_count(spec_prior(trail, ip.deep_view()))
            }),
    {
        let now_ms = clamp_timestamp(now_millis());
        self.log_access_attempt_at(ip, user_agent, access_code, action, success, now_ms)
    }

    /// One eviction sweep, at the given instant: deletes audit records
    /// strictly older than the configured retention, and drops table entries
    /// not seen for twice the block duration — long enough that an entry
    /// whose block is still running is never dropped mid-block.
    pub fn cleanup_old_entries_at(&mut self, now_ms: u64) -> (r: Result<(), SecurityError>)
        requires
            old(self).wf(),
        ensures
            r is Ok,
            final(self).wf(),
            final(self).config == old(self).config,
            final(self).audit_view() =~= old(self).audit_view().filter(
                keep_pred(now_ms, (old(self).config.retention_ms()) as u64),
            ),
            ({
                let cache_ms = (2 * old(self).config.block_ms()) as u64;
                &&& forall|k: Seq<char>| #![auto]
                    final(self).table_view().dom().contains(k) <==> (old(
                        self,
                    ).table_view().dom().contains(k) && spec_live_at(
                        old(self).table_view()[k],
                        now_ms,
                        cache_ms,
                    ))
                &&& forall|k: Seq<char>| #![auto]
                    final(self).table_view().dom().contains(k) ==> final(self).table_view()[k]
                        == old(self).table_view()[k]
            }),
    {
        let retention = self.config.retention_duration_ms();
        self.audit.purge_older_than(now_ms, retention);
        let cache_retention = 2 * self.config.block_duration_ms();
        table_retain_live(&mut self.table, now_ms, cache_retention);
        proof {
            assert forall|k: Seq<char>| #[trigger]
                self.table_view().dom().contains(k) implies entry_wf(
                self.table_view()[k],
                self.config,
            ) by {
                assert(old(self).table_view().dom().contains(k));
                assert(self.table_view()[k] == old(self).table_view()[k]);
            }
        }
        Ok(())
    }

    /// One eviction sweep, at the wall clock's instant.  A sweep never fails
    /// and never invents entries: the policy and well-formedness survive it.
    pub fn cleanup_old_entries(&mut self) -> (r: Result<(), SecurityError>)
        requires
            old(self).wf(),
        ensures
            r is Ok,
            final(self).wf(),
            final(self).config == old(self).config,
    {
        let now_ms = clamp_timestamp(now_millis());
        self.cleanup_old_entries_at(now_ms)
    }

    /// The identity's current table entry, if one exists.
    pub fn rate_limit_entry(&self, ip: &str) -> (r: Option<RateLimitEntry>)
        ensures
            r == if self.table_view().dom().contains(ip@) {
                Some(self.table_view()[ip@])
            } else {
                None::<RateLimitEntry>
            },
    {
        table_get(&self.table, ip)
    }

    /// The audit trail's records, oldest first.
    pub fn audit_records(&self) -> (r: &Vec<AuditRecord>)
        ensures
            r@ == self.audit_view(),
    {
        self.audit.records()
    }

    /// One rate-limit check for the identity, at the wall clock's instant.
    /// The table stays well-formed whatever the clock returned; at most one
    /// of the two results is set, and a tripped block implies rejection.
    pub fn check_rate_limit(&mut self, ip: &str, access_code: &str) -> (r: (bool, bool))
        requires
            old(self).wf(),
        ensures
            final(self).wf(),
            final(self).config == old(self).config,
            final(self).audit_view() == old(self).audit_view(),
            r.1 ==> !r.0,
            forall|k: Seq<char>| #![auto]
                k != ip@ ==> (final(self).table_view().dom().contains(k) <==> old(
                    self,
                ).table_view().dom().contains(k)),
            forall|k: Seq<char>| #![auto]
                k != ip@ && old(self).table_view().dom().contains(k) ==> final(self).table_view()[k]
                    == old(self).table_view()[k],
    {
        let now_ms = clamp_timestamp(now_millis());
        self.check_rate_limit_at(ip, access_code, now_ms)
    }

    /// Gates one inbound request, at the given instant: consults the limiter
    /// under the request's key, and audits only the transition into blocking
    /// — a request from an already blocked identity is rejected without any
    /// write, so a sustained attack cannot grow the trail or the table.
    pub fn gate_request(
        &mut self,
        ip: &str,
        user_agent: Option<String>,
        rate_limit_key: &str,
        now_ms: u64,
    ) -> (g: GateOutcome)
        requires
            old(self).wf(),
            now_ms <= MAX_TIMESTAMP_MS,
        ensures
            final(self).wf(),
            final(self).config == old(self).config,
            ({
                let (m2, allowed, newly) = spec_check(
                    old(self).table_view(),
                    ip@,
                    now_ms,
                    old(self).config,
                );
                &&& final(self).table_view() == m2
                &&& (g is Proceed <==> allowed)
                &&& (newly && old(self).config.enable_logging) ==> ({
                    let trail = old(self).audit_view();
                    &&& final(self).audit_view().len() == trail.len() + 1
                    &&& final(self).audit_view().drop_last() =~= trail
                    &&& record_fields_ok(
                        final(self).audit_view().last(),
                        trail,
                        Some(ip@),
                        user_agent.deep_view(),
                        rate_limit_key@,
                        "rate_limited_blocked"@,
                        false,
                        now_ms,
                    )
                })
                &&& !(newly && old(self).config.enable_logging) ==> final(self).audit_view()
                    == old(self).audit_view()
            }),
    {
        let checked = self.check_rate_limit_at(ip, rate_limit_key, now_ms);
        if checked.0 {
            GateOutcome::Proceed
        } else {
            if checked.1 {
                let _ = self.log_access_attempt_at(
                    Some(ip),
                    user_agent,
                    rate_limit_key,
                    "rate_limited_blocked",
                    false,
                    now_ms,
                );
            }
            GateOutcome::TooManyRequests
        }
    }
}

/// Requests at or below the threshold pass: for an identity that is absent,
/// or unblocked in a current window with fewer counted attempts than the
/// threshold, the check allows the request, trips nothing, and only advances
/// the identity's count by one.
pub proof fn lemma_allow_under_threshold(
    m: Map<Seq<char>, RateLimitEntry>,
    id: Seq<char>,
    now: u64,
    cfg: SecurityConfig,
)
    requires
        cfg.valid(),
        now <= MAX_TIMESTAMP_MS,
        m.dom().contains(id) ==> ({
            let e = m[id];
            &&& entry_wf(e, cfg)
            &&& e.blocked_until is None
            &&& !window_expired(e, now)
            &&& e.count < cfg.rate_limit_per_minute
        }),
    ensures
        ({
            let (m2, allowed, newly) = spec_check(m, id, now, cfg);
            &&& allowed
            &&& !newly
            &&& m2.dom().contains(id)
            &&& m2[id].count == if m.dom().contains(id) {
                m[id].count + 1
            } else {
                1
            }
            &&& m2[id].blocked_until is None
        }),
{
}

/// The attempt that pushes the count strictly above the threshold is
/// rejected, trips the block, and sets it to end one block duration later.
pub proof fn lemma_block_on_exceed(
    m: Map<Seq<char>, RateLimitEntry>,
    id: Seq<char>,
    now: u64,
    cfg: SecurityConfig,
)
    requires
        cfg.valid(),
        now <= MAX_TIMESTAMP_MS,
        m.dom().contains(id),
        entry_wf(m[id], cfg),
        m[id].blocked_until is None,
        !window_expired(m[id], now),
        m[id].count == cfg.rate_limit_per_minute,
    ensures
        ({
            let (m2, allowed, newly) = spec_check(m, id, now, cfg);
            &&& !allowed
            &&& newly
            &&& m2[id].count == m[id].count + 1
            &&& m2[id].blocked_until == Some((now + cfg.block_ms()) as u64)
        }),
{
}

/// While a block is running, every further request from the identity is
/// rejected, trips nothing, and writes nothing: the count does not move and
/// the table is left exactly as it was.
pub proof fn lemma_blocked_requests_rejected(
    m: Map<Seq<char>, RateLimitEntry>,
    id: Seq<char>,
    now: u64,
    cfg: SecurityConfig,
)
    requires
        m.dom().contains(id),
        blocked_at(m[id], now),
    ensures
        spec_check(m, id, now, cfg) == (m, false, false),
{
}

/// Blocking is not sticky: once the block has elapsed, the identity's next
/// request starts a fresh window — allowed, with the count reset to 1 and the
/// block cleared.
pub proof fn lemma_fresh_window_after_block(
    m: Map<Seq<char>, RateLimitEntry>,
    id: Seq<char>,
    now: u64,
    cfg: SecurityConfig,
)
    requires
        cfg.valid(),
        now <= MAX_TIMESTAMP_MS,
        m.dom().contains(id),
        entry_wf(m[id], cfg),
        m[id].blocked_until matches Some(b) && now >= b,
    ensures
        ({
            let (m2, allowed, newly) = spec_check(m, id, now, cfg);
            &&& allowed
            &&& !newly
            &&& m2[id] == fresh_entry(now)
        }),
{
}

/// Distinct identities are independent: a check for one identity never
/// touches any other identity's entry, and its own outcome and new entry
/// depend only on its own prior entry, whatever the rest of the table holds.
pub proof fn lemma_identity_independence(
    m1: Map<Seq<char>, RateLimitEntry>,
    m2: Map<Seq<char>, RateLimitEntry>,
    id: Seq<char>,
    other: Seq<char>,
    now: u64,
    cfg: SecurityConfig,
)
    requires
        other != id,
        m1.dom().contains(id) <==> m2.dom().contains(id),
        m1.dom().contains(id) ==> m1[id] == m2[id],
    ensures
        spec_check(m1, id, now, cfg).1 == spec_check(m2, id, now, cfg).1,
        spec_check(m1, id, now, cfg).2 == spec_check(m2, id, now, cfg).2,
        spec_check(m1, id, now, cfg).0.dom().contains(id) <==> spec_check(
            m2,
            id,
            now,
            cfg,
        ).0.dom().contains(id),
        spec_check(m1, id, now, cfg).0.dom().contains(id) ==> spec_check(m1, id, now, cfg).0[id]
            == spec_check(m2, id, now, cfg).0[id],
        spec_check(m1, id, now, cfg).0.dom().contains(other) <==> m1.dom().contains(other),
        m1.dom().contains(other) ==> spec_check(m1, id, now, cfg).0[other] == m1[other],
{
}

/// A still-blocked entry is never evicted by the sweep: a running block ends
/// one block duration after the attempt that tripped it, and the sweep keeps
/// everything seen within twice the block duration.
pub proof fn lemma_blocked_entry_survives_sweep(e: RateLimitEntry, now: u64, cfg: SecurityConfig)
    requires
        cfg.valid(),
        entry_wf(e, cfg),
        blocked_at(e, now),
    ensures
        spec_live_at(e, now, (2 * cfg.block_ms()) as u64),
{
}

} // verus!
