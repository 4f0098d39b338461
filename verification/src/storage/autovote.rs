//! Stations voted for automatically.

use vstd::prelude::*;
use crate::api::models::Station;
use crate::text::string_equals_str;

verus! {

/// A station on the automatic-vote list.
#[derive(Debug, Clone)]
pub struct AutovoteStation {
    pub uuid: String,
    pub name: String,
    pub url: String,
    pub country: String,
    pub codec: String,
    pub bitrate: i32,
    /// When it was added, in nanoseconds since the Unix epoch.
    pub added_at: i128,
}

/// The entry made of `station` at time `now`: the directory's resolved
/// stream address is kept as the address.
pub open spec fn autovote_of(station: Station, now: i128) -> AutovoteStation {
    AutovoteStation {
        uuid: station.station_uuid,
        name: station.name,
        url: station.url_resolved,
        country: station.country,
        codec: station.codec,
        bitrate: station.bitrate,
        added_at: now,
    }
}

impl AutovoteStation {
    /// The entry made of `station` at time `now`.
    pub fn from_station(station: &Station, now: i128) -> (f: AutovoteStation)
        ensures
            f == autovote_of(*station, now),
    {
        AutovoteStation {
            uuid: station.station_uuid.clone(),
            name: station.name.clone(),
            url: station.url_resolved.clone(),
            country: station.country.clone(),
            codec: station.codec.clone(),
            bitrate: station.bitrate,
            added_at: now,
        }
    }

    /// A copy of this entry.
    pub fn duplicate(&self) -> (f: AutovoteStation)
        ensures
            f == *self,
    {
        AutovoteStation {
            uuid: self.uuid.clone(),
            name: self.name.clone(),
            url: self.url.clone(),
            country: self.country.clone(),
            codec: self.codec.clone(),
            bitrate: self.bitrate,
            added_at: self.added_at,
        }
    }
}

/// The saved list of entries.
#[derive(Debug)]
pub struct AutovoteData {
    pub stations: Vec<AutovoteStation>,
}

/// Whether an entry with station id `uuid` is in the list.
pub open spec fn has_autovote(s: Seq<AutovoteStation>, uuid: Seq<char>) -> bool {
    exists|i: int| 0 <= i < s.len() && (#[trigger] s[i]).uuid@ == uuid
}

/// The list without the entries whose station id is `uuid`, order kept.
pub open spec fn without_autovote(s: Seq<AutovoteStation>, uuid: Seq<char>) -> Seq<AutovoteStation>
    decreases s.len(),
{
    if s.len() == 0 {
        Seq::empty()
    } else {
        let r = without_autovote(s.drop_last(), uuid);
        if s.last().uuid@ == uuid {
            r
        } else {
            r.push(s.last())
        }
    }
}

/// Removing a station id leaves no autovote entry with that id and keeps every other one.
pub proof fn lemma_without_autovote(s: Seq<AutovoteStation>, uuid: Seq<char>)
    ensures
        !has_autovote(without_autovote(s, uuid), uuid),
        forall|f: AutovoteStation| f.uuid@ != uuid ==> (#[trigger] s.contains(f) <==> without_autovote(s, uuid).contains(f)),
    decreases s.len(),
{
    if s.len() > 0 {
        let d = s.drop_last();
        lemma_without_autovote(d, uuid);
        let w = without_autovote(s, uuid);
        let wd = without_autovote(d, uuid);
        assert(s =~= d.push(s.last()));
        if s.last().uuid@ != uuid {
            assert(w =~= wd.push(s.last()));
            assert forall|i: int| 0 <= i < w.len() implies (#[trigger] w[i]).uuid@ != uuid by {
                if i < wd.len() {
                    assert(w[i] == wd[i]);
                    if wd[i].uuid@ == uuid {
                        assert(has_autovote(wd, uuid));
                    }
                }
            }
        }
        assert forall|f: AutovoteStation| f.uuid@ != uuid implies (#[trigger] s.contains(f) <==> w.contains(f)) by {
            if s.contains(f) {
                let i = choose|i: int| 0 <= i < s.len() && s[i] == f;
                if i < d.len() {
                    assert(d[i] == f);
                    assert(d.contains(f));
                    assert(wd.contains(f));
                    let j = choose|j: int| 0 <= j < wd.len() && wd[j] == f;
                    if s.last().uuid@ != uuid {
                        assert(w[j] == f);
                    }
                } else {
                    assert(w.last() == f);
                }
            }
            if w.contains(f) {
                let i = choose|i: int| 0 <= i < w.len() && w[i] == f;
                if i < wd.len() {
                    assert(wd[i] == f);
                    assert(wd.contains(f));
                    assert(d.contains(f));
                    let j = choose|j: int| 0 <= j < d.len() && d[j] == f;
                    assert(s[j] == f);
                } else {
                    assert(s[s.len() - 1] == f);
                }
            }
        }
    }
}

/// Keeps the user's automatic-vote stations, in the order they were added.
pub struct AutovoteManager {
    file_path: String,
    data: AutovoteData,
}

impl AutovoteManager {
    /// A manager of the entries loaded from (and saved to) `file_path`.
    pub fn new(file_path: String, data: AutovoteData) -> (m: AutovoteManager)
        ensures
            m.stations() == data.stations@,
            m.path() == file_path@,
    {
        AutovoteManager { file_path, data }
    }

    /// The entries, in order.
    pub closed spec fn stations(&self) -> Seq<AutovoteStation> {
        self.data.stations@
    }

    /// Where the entries are saved.
    pub closed spec fn path(&self) -> Seq<char> {
        self.file_path@
    }

    /// The file the entries are saved to.
    pub fn file_path(&self) -> (p: &String)
        ensures
            p@ == self.path(),
    {
        &self.file_path
    }

    /// The saved list, for writing it out.
    pub fn data(&self) -> (d: &AutovoteData)
        ensures
            d.stations@ == self.stations(),
    {
        &self.data
    }

    /// Whether station `uuid` is on the list.
    pub fn contains(&self, uuid: &str) -> (b: bool)
        ensures
            b == has_autovote(self.stations(), uuid@),
    {
        let mut i: usize = 0;
        while i < self.data.stations.len()
            invariant
                i <= self.data.stations.len(),
                forall|k: int| 0 <= k < i ==> (#[trigger] self.data.stations@[k]).uuid@ != uuid@,
            decreases self.data.stations.len() - i,
        {
            if string_equals_str(&self.data.stations[i].uuid, uuid) {
                return true;
            }
            i = i + 1;
        }
        false
    }

    /// Adds `station` to the list at time `now`, unless it is already there.
    /// Returns whether the list changed (and needs saving).
    pub fn add_at(&mut self, station: &Station, now: i128) -> (changed: bool)
        ensures
            changed == !has_autovote(old(self).stations(), station.station_uuid@),
            changed ==> final(self).stations() == old(self).stations().push(autovote_of(*station, now)),
            !changed ==> final(self).stations() == old(self).stations(),
            final(self).path() == old(self).path(),
    {
        if self.contains(station.station_uuid.as_str()) {
            return false;
        }
        self.data.stations.push(AutovoteStation::from_station(station, now));
        true
    }

    /// Adds `station` to the list, stamped with the current time, unless it
    /// already is one. Returns whether the list changed (and needs saving).
    pub fn add(&mut self, station: &Station) -> (changed: bool)
        ensures
            changed == !has_autovote(old(self).stations(), station.station_uuid@),
            changed ==> exists|now: i128| final(self).stations() == old(self).stations().push(
                #[trigger] autovote_of(*station, now),
            ),
            !changed ==> final(self).stations() == old(self).stations(),
            final(self).path() == old(self).path(),
    {
        let now = crate::clock::now_nanos();
        self.add_at(station, now)
    }

    /// Removes every autovote entry with station id `uuid`.
    pub fn remove(&mut self, uuid: &str)
        ensures
            final(self).stations() == without_autovote(old(self).stations(), uuid@),
            final(self).path() == old(self).path(),
    {
        let mut kept: Vec<AutovoteStation> = Vec::new();
        let mut i: usize = 0;
        while i < self.data.stations.len()
            invariant
                i <= self.data.stations.len(),
                kept@ == without_autovote(self.data.stations@.take(i as int), uuid@),
            decreases self.data.stations.len() - i,
        {
            proof {
                assert(self.data.stations@.take(i + 1).drop_last() =~= self.data.stations@.take(
                    i as int,
                ));
            }
            if !string_equals_str(&self.data.stations[i].uuid, uuid) {
                kept.push(self.data.stations[i].duplicate());
            }
            i = i + 1;
        }
        proof {
            assert(self.data.stations@.take(self.data.stations@.len() as int)
                =~= self.data.stations@);
        }
        self.data.stations = kept;
    }

    /// The entries, in the order they were added.
    pub fn get_all(&self) -> (s: &[AutovoteStation])
        ensures
            s@ == self.stations(),
    {
        self.data.stations.as_slice()
    }
}

/// After adding a station it is on the list, and adding it again changes nothing.
pub proof fn law_add_then_contains(s: Seq<AutovoteStation>, station: Station, now: i128)
    ensures
        has_autovote(
            if has_autovote(s, station.station_uuid@) {
                s
            } else {
                s.push(autovote_of(station, now))
            },
            station.station_uuid@,
        ),
{
    if !has_autovote(s, station.station_uuid@) {
        let t = s.push(autovote_of(station, now));
        assert(t[s.len() as int].uuid@ == station.station_uuid@);
    }
}

/// After removing a station it is no longer on the list, and the other entries stay.
pub proof fn law_remove_then_not_contained(s: Seq<AutovoteStation>, uuid: Seq<char>)
    ensures
        !has_autovote(without_autovote(s, uuid), uuid),
        forall|f: AutovoteStation| f.uuid@ != uuid ==> (#[trigger] s.contains(f) <==> without_autovote(s, uuid).contains(f)),
{
    lemma_without_autovote(s, uuid);
}

/// No station is listed twice.
pub open spec fn listed_once(s: Seq<AutovoteStation>) -> bool {
    forall|i: int, j: int| 0 <= i < j < s.len() ==> (#[trigger] s[i]).uuid@ != (#[trigger] s[j]).uuid@
}

/// Removing a station keeps every other station listed at most once.
proof fn lemma_without_listed_once(s: Seq<AutovoteStation>, uuid: Seq<char>)
    requires
        listed_once(s),
    ensures
        listed_once(without_autovote(s, uuid)),
    decreases s.len(),
{
    if s.len() > 0 {
        let d = s.drop_last();
        assert(listed_once(d)) by {
            assert forall|i: int, j: int| 0 <= i < j < d.len() implies (#[trigger] d[i]).uuid@
                != (#[trigger] d[j]).uuid@ by {
                assert(d[i] == s[i] && d[j] == s[j]);
            }
        }
        lemma_without_listed_once(d, uuid);
        lemma_without_autovote(d, uuid);
        let wd = without_autovote(d, uuid);
        let x = s.last();
        if x.uuid@ != uuid {
            let w = wd.push(x);
            assert forall|i: int, j: int| 0 <= i < j < w.len() implies (#[trigger] w[i]).uuid@
                != (#[trigger] w[j]).uuid@ by {
                if j == wd.len() {
                    let f = wd[i];
                    assert(w[i] == f && w[j] == x);
                    if f.uuid@ == uuid {
                        assert(has_autovote(wd, uuid));
                    }
                    assert(wd.contains(f));
                    assert(d.contains(f));
                    let k = choose|k: int| 0 <= k < d.len() && d[k] == f;
                    assert(s[k] == f);
                    assert(s[s.len() - 1] == x);
                } else {
                    assert(w[i] == wd[i] && w[j] == wd[j]);
                }
            }
            assert(without_autovote(s, uuid) == w);
        }
    }
}

/// Adding a station that is already listed changes nothing, so no station
/// is ever listed twice; removing one keeps that so.
pub proof fn law_autovote_listed_once(s: Seq<AutovoteStation>, station: Station, now: i128, uuid: Seq<char>)
    requires
        listed_once(s),
    ensures
        listed_once(
            if has_autovote(s, station.station_uuid@) {
                s
            } else {
                s.push(autovote_of(station, now))
            },
        ),
        listed_once(without_autovote(s, uuid)),
{
    if !has_autovote(s, station.station_uuid@) {
        let t = s.push(autovote_of(station, now));
        assert forall|i: int, j: int| 0 <= i < j < t.len() implies (#[trigger] t[i]).uuid@
            != (#[trigger] t[j]).uuid@ by {
            if j == s.len() {
                assert(t[i] == s[i]);
                if s[i].uuid@ == station.station_uuid@ {
                    assert(has_autovote(s, station.station_uuid@));
                }
            } else {
                assert(t[i] == s[i] && t[j] == s[j]);
            }
        }
    }
    lemma_without_listed_once(s, uuid);
}

} // verus!
