use vstd::prelude::*;

use crate::config::MAX_TIMESTAMP_MS;
use crate::seqs::{lemma_filter_empty, lemma_filter_step};
use crate::text::str_eq;

verus! {

/// One durable, append-only record of an access attempt.  `count` is the
/// 1-based sequence number derived from the identity's most recent prior
/// record at write time, and `last_delta_access` the milliseconds since that
/// record; both are never corrected retroactively.
#[derive(Debug)]
pub struct AuditRecord {
    /// Unique identifier, generated at write time.
    pub id: String,
    /// What was asked for: an access code or a request key.
    pub access_code: String,
    /// The client identity the record belongs to, when one was known.
    pub ip_address: Option<String>,
    /// The client's user agent, when one was supplied.
    pub user_agent: Option<String>,
    /// 1-based count of records for this identity, derived at write time.
    pub count: u64,
    /// Milliseconds since the identity's previous record; absent on its first.
    pub last_delta_access: Option<u64>,
    /// What was done: a method tag or a synthetic action name.
    pub action: String,
    /// Outcome of the attempt.
    pub success: bool,
    /// Insert time (ms); non-decreasing along the trail.
    pub created_at: u64,
}

/// Whether the record belongs to the given identity.
pub open spec fn has_ip(r: AuditRecord, ip: Seq<char>) -> bool {
    match r.ip_address {
        Some(s) => s@ == ip,
        None => false,
    }
}

/// The most recent record for the identity, scanning from the newest end.
pub open spec fn latest_for(records: Seq<AuditRecord>, ip: Seq<char>) -> Option<AuditRecord>
    decreases records.len(),
{
    if records.len() == 0 {
        None
    } else if has_ip(records.last(), ip) {
        Some(records.last())
    } else {
        latest_for(records.drop_last(), ip)
    }
}

/// The sequence count of a new record: one more than the prior record's
/// count, saturating at the type's limit, or 1 when there is no prior record.
pub open spec fn derived_count(prior: Option<AuditRecord>) -> u64 {
    match prior {
        None => 1,
        Some(p) => if p.count == u64::MAX {
            u64::MAX
        } else {
            (p.count + 1) as u64
        },
    }
}

/// The timing delta of a new record written at `now`: milliseconds since the
/// prior record, or absent when there is none.
pub open spec fn derived_delta(prior: Option<AuditRecord>, now: u64) -> Option<u64> {
    match prior {
        None => None,
        Some(p) => Some((now - p.created_at) as u64),
    }
}

/// Well-formedness of a trail: insert times are non-decreasing and bounded.
pub open spec fn trail_wf(records: Seq<AuditRecord>) -> bool {
    &&& forall|i: int, j: int|
        #![trigger records[i].created_at, records[j].created_at]
        0 <= i <= j < records.len() ==> records[i].created_at <= records[j].created_at
    &&& forall|i: int| 0 <= i < records.len() ==> #[trigger] records[i].created_at <= MAX_TIMESTAMP_MS
}

/// The insert time actually used for a write asked for at `now`: never before
/// the newest record already on the trail, so insert times stay monotone even
/// if the clock steps backwards.
pub open spec fn effective_time(records: Seq<AuditRecord>, now: u64) -> u64 {
    if records.len() > 0 && records.last().created_at > now {
        records.last().created_at
    } else {
        now
    }
}

/// The prior record a write consults: the identity's most recent record, or
/// nothing when the identity is unknown.
pub open spec fn spec_prior(records: Seq<AuditRecord>, ip: Option<Seq<char>>) -> Option<AuditRecord> {
    match ip {
        Some(s) => latest_for(records, s),
        None => None,
    }
}

/// What a record appended to `records` at `now` must hold, field by field.
pub open spec fn record_fields_ok(
    rec: AuditRecord,
    records: Seq<AuditRecord>,
    ip: Option<Seq<char>>,
    user_agent: Option<Seq<char>>,
    access_code: Seq<char>,
    action: Seq<char>,
    success: bool,
    now: u64,
) -> bool {
    let t = effective_time(records, now);
    let prior = spec_prior(records, ip);
    &&& rec.created_at == t
    &&& rec.success == success
    &&& rec.access_code@ == access_code
    &&& rec.action@ == action
    &&& rec.ip_address.deep_view() == ip
    &&& rec.user_agent.deep_view() == user_agent
    &&& rec.count == derived_count(prior)
    &&& rec.last_delta_access == derived_delta(prior, t)
    &&& rec.id@.len() == 36
}

/// Whether the sweep keeps a record at `now` under the given retention: only
/// records strictly older than the retention window are deleted.
pub open spec fn keep_record(r: AuditRecord, now: u64, retention_ms: u64) -> bool {
    r.created_at + retention_ms >= now
}

/// The sweep's retention test as a predicate on records.
pub open spec fn keep_pred(now: u64, retention_ms: u64) -> spec_fn(AuditRecord) -> bool {
    |r: AuditRecord| keep_record(r, now, retention_ms)
}

/// Removing one record keeps a trail well-formed.
proof fn lemma_wf_remove(s: Seq<AuditRecord>, i: int)
    requires
        trail_wf(s),
        0 <= i < s.len(),
    ensures
        trail_wf(s.remove(i)),
{
    s.remove_ensures(i);
    let t = s.remove(i);
    assert forall|a: int, b: int| 0 <= a <= b < t.len() implies t[a].created_at
        <= t[b].created_at by {
        let a0 = if a < i { a } else { a + 1 };
        let b0 = if b < i { b } else { b + 1 };
        assert(t[a] == s[a0]);
        assert(t[b] == s[b0]);
    }
    assert forall|a: int| 0 <= a < t.len() implies t[a].created_at <= MAX_TIMESTAMP_MS by {
        let a0 = if a < i { a } else { a + 1 };
        assert(t[a] == s[a0]);
    }
}

/// Relies on `uuid::Uuid::new_v4` and its hyphenated display form: a fresh
/// random identifier, thirty-six characters long.
#[verifier::external_body]
fn fresh_record_id() -> (r: String)
    ensures
        r@.len() == 36,
{
    uuid::Uuid::new_v4().to_string()
}

/// The most recent record for the identity stays at most as old as the
/// newest record of a well-formed trail.
pub proof fn lemma_latest_bounded(records: Seq<AuditRecord>, ip: Seq<char>)
    requires
        trail_wf(records),
    ensures
        latest_for(records, ip) matches Some(p) ==> records.len() > 0 && p.created_at
            <= records.last().created_at,
    decreases records.len(),
{
    if records.len() == 0 {
    } else if has_ip(records.last(), ip) {
    } else {
        let prefix = records.drop_last();
        assert(trail_wf(prefix)) by {
            assert(forall|i: int| 0 <= i < prefix.len() ==> prefix[i] == records[i]);
        }
        lemma_latest_bounded(prefix, ip);
        if prefix.len() > 0 {
            assert(prefix.last() == records[records.len() - 2]);
        }
    }
}

/// The durable audit trail: an append-only sequence of records, newest last.
pub struct AuditTrail {
    records: Vec<AuditRecord>,
}

impl View for AuditTrail {
    type V = Seq<AuditRecord>;

    closed spec fn view(&self) -> Seq<AuditRecord> {
        self.records@
    }
}

impl AuditTrail {
    /// Well-formedness of the trail.
    pub open spec fn wf(self) -> bool {
        trail_wf(self@)
    }

    /// An empty trail.
    pub fn new() -> (t: AuditTrail)
        ensures
            t@ =~= Seq::<AuditRecord>::empty(),
            t.wf(),
    {
        AuditTrail { records: Vec::new() }
    }

    /// The records of the trail, oldest first.
    pub fn records(&self) -> (r: &Vec<AuditRecord>)
        ensures
            r@ == self@,
    {
        &self.records
    }

    /// The insert time and sequence count of the identity's most recent
    /// record, found by scanning from the newest end.
    fn find_latest(&self, ip: &str) -> (r: Option<(u64, u64)>)
        ensures
            r == match latest_for(self@, ip@) {
                Some(p) => Some((p.created_at, p.count)),
                None => None::<(u64, u64)>,
            },
    {
        let mut i: usize = self.records.len();
        assert(self@.take(i as int) =~= self@);
        while i > 0
            invariant
                i <= self.records.len(),
                latest_for(self@, ip@) == latest_for(self@.take(i as int), ip@),
            decreases i,
        {
            let idx = i - 1;
            let found: bool = match &self.records[idx].ip_address {
                Some(s) => str_eq(s.as_str(), ip),
                None => false,
            };
            if found {
                assert(self@.take(i as int).last() == self@[idx as int]);
                return Some((self.records[idx].created_at, self.records[idx].count));
            }
            proof {
                assert(self@.take(i as int).last() == self@[idx as int]);
                assert(self@.take(i as int).drop_last() =~= self@.take(idx as int));
            }
            i = idx;
        }
        assert(self@.take(0).len() == 0);
        None
    }

    /// Appends one record for the attempt, deriving the sequence count and
    /// timing delta from the identity's most recent prior record.
    pub fn append(
        &mut self,
        ip: Option<&str>,
        user_agent: Option<String>,
        access_code: &str,
        action: &str,
        success: bool,
        now: u64,
    )
        requires
            old(self).wf(),
            now <= MAX_TIMESTAMP_MS,
        ensures
            final(self).wf(),
            final(self)@.len() == old(self)@.len() + 1,
            final(self)@.drop_last() =~= old(self)@,
            record_fields_ok(
                final(self)@.last(),
                old(self)@,
                ip.deep_view(),
                user_agent.deep_view(),
                access_code@,
                action@,
                success,
                now,
            ),
    {
        let n = self.records.len();
        let now_eff: u64 = if n > 0 {
            let lc = self.records[n - 1].created_at;
            if lc > now {
                lc
            } else {
                now
            }
        } else {
            now
        };
        let (delta, count): (Option<u64>, u64) = match ip {
            Some(ip_str) => {
                proof {
                    lemma_latest_bounded(self@, ip_str@);
                }
                match self.find_latest(ip_str) {
                    Some((p_created, p_count)) => {
                        let d = now_eff - p_created;
                        let c = if p_count == u64::MAX {
                            u64::MAX
                        } else {
                            p_count + 1
                        };
                        (Some(d), c)
                    },
                    None => (None, 1),
                }
            },
            None => (None, 1),
        };
        let rec = AuditRecord {
            id: fresh_record_id(),
            access_code: access_code.to_owned(),
            ip_address: match ip {
                Some(s) => Some(s.to_owned()),
                None => None,
            },
            user_agent,
            count,
            last_delta_access: delta,
            action: action.to_owned(),
            success,
            created_at: now_eff,
        };
        let ghost grec = rec;
        self.records.push(rec);
        proof {
            assert(self@.drop_last() =~= old(self)@);
            assert(self@.last() == grec);
            assert(trail_wf(self@)) by {
                assert(forall|i: int| 0 <= i < old(self)@.len() ==> self@[i] == old(self)@[i]);
            }
        }
    }

    /// Deletes every record strictly older than the retention window ending
    /// at `now`, and leaves the newer ones untouched, in order.
    pub fn purge_older_than(&mut self, now: u64, retention_ms: u64)
        requires
            old(self).wf(),
        ensures
            final(self).wf(),
            final(self)@ =~= old(self)@.filter(keep_pred(now, retention_ms)),
    {
        let ghost orig = self@;
        let ghost pred = keep_pred(now, retention_ms);
        let mut i: usize = 0;
        let ghost mut j: int = 0;
        proof {
            assert(orig.take(0).filter(pred) =~= Seq::<AuditRecord>::empty()) by {
                lemma_filter_empty(orig.take(0), pred);
                assert(orig.take(0).len() == 0);
            }
            assert(self@ =~= orig.take(0).filter(pred) + orig.skip(0));
        }
        while i < self.records.len()
            invariant
                trail_wf(orig),
                trail_wf(self@),
                0 <= j <= orig.len(),
                i as int == orig.take(j).filter(pred).len(),
                self@ =~= orig.take(j).filter(pred) + orig.skip(j),
                pred == keep_pred(now, retention_ms),
            decreases orig.len() - j,
        {
            proof {
                assert(self@.len() == i + orig.len() - j);
                assert(orig.skip(j).len() > 0);
                assert(self@[i as int] == orig.skip(j)[0]);
                assert(orig.skip(j)[0] == orig[j]);
            }
            let keep: bool = if now <= retention_ms {
                true
            } else {
                self.records[i].created_at >= now - retention_ms
            };
            assert(keep == pred(orig[j]));
            proof {
                assert(orig.take(j + 1).drop_last() =~= orig.take(j));
                assert(orig.take(j + 1).last() == orig[j]);
                lemma_filter_step(orig.take(j + 1), pred);
            }
            if keep {
                i += 1;
                proof {
                    assert(self@ =~= orig.take(j + 1).filter(pred) + orig.skip(j + 1)) by {
                        assert(orig.take(j + 1).filter(pred) =~= orig.take(j).filter(pred).push(
                            orig[j],
                        ));
                        assert(forall|k: int|
                            0 <= k < orig.skip(j).len() - 1 ==> #[trigger] orig.skip(j)[k + 1] == orig.skip(
                                j + 1,
                            )[k]);
                    }
                    j = j + 1;
                }
            } else {
                let ghost before = self@;
                self.records.remove(i);
                proof {
                    lemma_wf_remove(before, i as int);
                    before.remove_ensures(i as int);
                    assert(self@ =~= orig.take(j + 1).filter(pred) + orig.skip(j + 1)) by {
                        assert(orig.take(j + 1).filter(pred) =~= orig.take(j).filter(pred));
                        assert(forall|k: int|
                            0 <= k < orig.skip(j).len() - 1 ==> #[trigger] orig.skip(j)[k + 1] == orig.skip(
                                j + 1,
                            )[k]);
                    }
                    j = j + 1;
                }
            }
        }
        proof {
            assert(orig.skip(j).len() == 0);
            assert(j == orig.len());
            assert(orig.take(j) =~= orig);
        }
    }
}

/// A record for an identity, once appended, is that identity's most recent
/// record.
pub proof fn lemma_latest_after_push(records: Seq<AuditRecord>, rec: AuditRecord, ip: Seq<char>)
    requires
        has_ip(rec, ip),
    ensures
        latest_for(records.push(rec), ip) == Some(rec),
{
    assert(records.push(rec).last() == rec);
}

/// An identity's first-ever record derives no timing delta and sequence
/// count 1; a second record for the same identity, written at `now2`, derives
/// exactly the elapsed milliseconds (never negative) and sequence count 2.
pub proof fn lemma_first_and_second_record(
    records: Seq<AuditRecord>,
    r1: AuditRecord,
    ip: Seq<char>,
    now2: u64,
)
    requires
        latest_for(records, ip) is None,
        has_ip(r1, ip),
        r1.count == 1,
        r1.created_at <= now2,
    ensures
        derived_count(spec_prior(records, Some(ip))) == 1,
        derived_delta(spec_prior(records, Some(ip)), now2) is None,
        latest_for(records.push(r1), ip) == Some(r1),
        derived_count(spec_prior(records.push(r1), Some(ip))) == 2,
        derived_delta(spec_prior(records.push(r1), Some(ip)), now2) == Some(
            (now2 - r1.created_at) as u64,
        ),
{
    assert(records.push(r1).last() == r1);
}

} // verus!
