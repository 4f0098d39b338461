//! Station lists cached on disk for a limited time.

use vstd::prelude::*;
use crate::api::models::Station;
use crate::text::{string_from_str, string_append_str};

verus! {

/// A cached station list and when it was stored.
#[derive(Debug)]
pub struct CachedStations {
    pub stations: Vec<Station>,
    /// When the list was stored, in nanoseconds since the Unix epoch.
    pub cached_at: i128,
    pub cache_key: String,
}

/// Decides which cached lists are still valid, and where they are kept.
pub struct CacheManager {
    cache_dir: String,
    cache_duration_secs: u64,
}

/// A list cached at `cached_at` is still valid at `now` when it is not from
/// the future and less than `duration_secs` seconds old.
pub open spec fn is_fresh(cached_at: i128, now: i128, duration_secs: u64) -> bool {
    cached_at <= now && now - cached_at < duration_secs as int * crate::clock::NANOS_PER_SEC
}

impl CacheManager {
    /// A manager for the cache directory `cache_dir`, keeping lists for
    /// `cache_duration_secs` seconds.
    pub fn new(cache_dir: String, cache_duration_secs: u64) -> (m: CacheManager)
        ensures
            m.dir() == cache_dir@,
            m.duration() == cache_duration_secs,
    {
        CacheManager { cache_dir, cache_duration_secs }
    }

    /// The cache directory.
    pub closed spec fn dir(&self) -> Seq<char> {
        self.cache_dir@
    }

    /// How long lists stay valid, in seconds.
    pub closed spec fn duration(&self) -> u64 {
        self.cache_duration_secs
    }

    /// The cache directory.
    pub fn cache_dir(&self) -> (d: &String)
        ensures
            d@ == self.dir(),
    {
        &self.cache_dir
    }

    /// The name of the file holding the list stored under `cache_key`.
    pub fn file_name(&self, cache_key: &str) -> (f: String)
        ensures
            f@ == cache_key@ + ".json"@,
    {
        let mut f = string_from_str(cache_key);
        string_append_str(&mut f, ".json");
        f
    }

    /// The record that stores `stations` under `cache_key` at time `now`.
    pub fn entry_at(&self, cache_key: &str, stations: Vec<Station>, now: i128) -> (c: CachedStations)
        ensures
            c.stations == stations,
            c.cached_at == now,
            c.cache_key@ == cache_key@,
    {
        CachedStations { stations, cached_at: now, cache_key: string_from_str(cache_key) }
    }

    /// The record that stores `stations` under `cache_key`, stamped with the
    /// current time.
    pub fn entry(&self, cache_key: &str, stations: Vec<Station>) -> (c: CachedStations)
        ensures
            c.stations == stations,
            c.cache_key@ == cache_key@,
    {
        let now = crate::clock::now_nanos();
        self.entry_at(cache_key, stations, now)
    }

    /// Whether a list cached at `cached_at` is still valid at `now`.
    pub fn is_fresh_at(&self, cached_at: i128, now: i128) -> (b: bool)
        ensures
            b == is_fresh(cached_at, now, self.duration()),
    {
        if cached_at > now {
            return false;
        }
        let limit: i128 = self.cache_duration_secs as i128 * crate::clock::NANOS_PER_SEC;
        if now >= 0 && cached_at < 0 && now > i128::MAX + cached_at {
            return false;
        }
        now - cached_at < limit
    }

    /// The stations of a cached list read back from disk, if it is still valid at `now`.
    pub fn lookup_at(&self, cached: CachedStations, now: i128) -> (r: Option<Vec<Station>>)
        ensures
            is_fresh(cached.cached_at, now, self.duration()) ==> r == Some(cached.stations),
            !is_fresh(cached.cached_at, now, self.duration()) ==> r is None,
    {
        if self.is_fresh_at(cached.cached_at, now) {
            Some(cached.stations)
        } else {
            None
        }
    }

    /// The stations of a cached list read back from disk, if it is still valid now.
    pub fn lookup(&self, cached: CachedStations) -> (r: Option<Vec<Station>>)
        ensures
            r is Some ==> r == Some(cached.stations),
            exists|now: i128|
                (#[trigger] is_fresh(cached.cached_at, now, self.duration())) == (r is Some),
    {
        let now = crate::clock::now_nanos();
        self.lookup_at(cached, now)
    }
}

/// A list stored at some moment is valid at every later moment within the
/// cache duration, so reading it back then gives the stored stations; later
/// reads find it expired.
pub proof fn law_cached_list_valid_for_duration(cached_at: i128, now: i128, duration_secs: u64)
    requires
        cached_at <= now,
    ensures
        now - cached_at < duration_secs as int * crate::clock::NANOS_PER_SEC ==> is_fresh(
            cached_at,
            now,
            duration_secs,
        ),
        now - cached_at >= duration_secs as int * crate::clock::NANOS_PER_SEC ==> !is_fresh(
            cached_at,
            now,
            duration_secs,
        ),
{
}

/// With a positive duration, a list read back at the moment it was stored
/// is valid.
pub proof fn law_store_then_read(now: i128, duration_secs: u64)
    requires
        duration_secs > 0,
    ensures
        is_fresh(now, now, duration_secs),
{
    assert(crate::clock::NANOS_PER_SEC > 0);
    assert(duration_secs as int * crate::clock::NANOS_PER_SEC > 0) by (nonlinear_arith)
        requires
            duration_secs > 0,
            crate::clock::NANOS_PER_SEC > 0,
    ;
}

} // verus!
