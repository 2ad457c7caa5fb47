use vstd::prelude::*;

use crate::rate_limit::{spec_live_at, RateLimitEntry};
use dashmap::DashMap;

verus! {

/// Declares dashmap's concurrent map so that it can stand in signatures and
/// fields; Verus sees values of it as opaque.
#[verifier::external_type_specification]
#[verifier::external_body]
#[verifier::reject_recursive_types(K)]
#[verifier::reject_recursive_types(V)]
#[verifier::reject_recursive_types(S)]
pub struct ExDashMap<K, V, S>(DashMap<K, V, S>);

/// What the rate-limit table holds: its key-to-entry contents as a map from
/// the key's characters to the stored entry.
pub uninterp spec fn table_model(m: DashMap<String, RateLimitEntry>) -> Map<Seq<char>, RateLimitEntry>;

/// Relies on `DashMap::new`: the fresh map is empty.
#[verifier::external_body]
pub(crate) fn table_new() -> (made: DashMap<String, RateLimitEntry>)
    ensures
        table_model(made) =~= Map::empty(),
{
    DashMap::new()
}

/// Relies on `DashMap::get`: returns the value stored under the key, if any.
#[verifier::external_body]
pub(crate) fn table_get(m: &DashMap<String, RateLimitEntry>, key: &str) -> (r: Option<
    RateLimitEntry,
>)
    ensures
        r == if table_model(*m).dom().contains(key@) {
            Some(table_model(*m)[key@])
        } else {
            None::<RateLimitEntry>
        },
{
    m.get(key).map(|e| *e.value())
}

/// Relies on `DashMap::insert`: stores the value under the key, replacing any
/// previous value; no other key is touched.
#[verifier::external_body]
pub(crate) fn table_insert(m: &mut DashMap<String, RateLimitEntry>, key: &str, value: RateLimitEntry)
    ensures
        table_model(*final(m)) == table_model(*old(m)).insert(key@, value),
{
    m.insert(key.to_string(), value);
}

/// Relies on `DashMap::retain`: keeps exactly the entries for which the
/// closure returns true, and leaves kept values unchanged.  The closure here
/// calls the verified liveness test `RateLimitEntry::live_at`.
#[verifier::external_body]
pub(crate) fn table_retain_live(m: &mut DashMap<String, RateLimitEntry>, now: u64, retention_ms: u64)
    ensures
        forall|k: Seq<char>| #![auto]
            table_model(*final(m)).dom().contains(k) <==> (table_model(*old(m)).dom().contains(k)
                && spec_live_at(table_model(*old(m))[k], now, retention_ms)),
        forall|k: Seq<char>| #![auto]
            table_model(*final(m)).dom().contains(k) ==> table_model(*final(m))[k] == table_model(
                *old(m),
            )[k],
{
    m.retain(|_, e| e.live_at(now, retention_ms));
}

} // verus!
