//! The single-slot zone-id cache: one persisted (domain, zone id,
//! timestamp) record with a 24-hour time-to-live. Reading and writing
//! the file itself happens outside the library; here live the record,
//! the rule that decides whether a stored entry may be used, and the
//! construction of a fresh entry.

use vstd::prelude::*;

verus! {

/// Seconds a cached zone id stays usable.
pub const CACHE_TTL_SECS: u64 = 24 * 60 * 60;

/// The persisted cache record.
#[derive(Debug, Clone)]
pub struct ZoneIdCache {
    pub zone_id: String,
    pub domain: String,
    pub cached_at: u64,
}

/// A stored entry answers a lookup only when it is for exactly the
/// requested domain, was written no later than `now`, and is at most
/// `CACHE_TTL_SECS` old. A timestamp in the future counts as a miss.
pub open spec fn cache_entry_usable(entry: ZoneIdCache, domain: Seq<char>, now: u64) -> bool {
    &&& entry.domain@ == domain
    &&& entry.cached_at <= now
    &&& now - entry.cached_at <= CACHE_TTL_SECS
}

/// Well-known location of the persisted cache record.
pub fn get_cache_path() -> (r: String)
    ensures
        r@ == "/tmp/myddns_zone_id_cache.toml"@,
{
    let r = String::from_str("/tmp/myddns_zone_id_cache.toml");
    r
}

/// The cached zone id exactly when the entry is usable for `domain`
/// at time `now`; a silent miss otherwise.
pub fn cache_lookup(entry: &ZoneIdCache, domain: &str, now: u64) -> (r: Option<String>)
    ensures
        cache_entry_usable(*entry, domain@, now) ==> (r matches Some(z) && z == entry.zone_id),
        !cache_entry_usable(*entry, domain@, now) ==> r is None,
{
    if entry.domain == domain.to_owned() {
        if entry.cached_at <= now && now - entry.cached_at <= CACHE_TTL_SECS {
            Some(entry.zone_id.clone())
        } else {
            None
        }
    } else {
        None
    }
}

/// A fresh entry binding `zone_id` to `domain` at time `now`; it is
/// usable for that domain immediately.
pub fn make_cache_entry(zone_id: &str, domain: &str, now: u64) -> (e: ZoneIdCache)
    ensures
        e.zone_id@ == zone_id@,
        e.domain@ == domain@,
        e.cached_at == now,
        cache_entry_usable(e, domain@, now),
{
    ZoneIdCache { zone_id: zone_id.to_owned(), domain: domain.to_owned(), cached_at: now }
}

} // verus!
