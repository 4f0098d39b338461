//! Favorite stations.

use vstd::prelude::*;
use crate::api::models::Station;
use crate::text::string_equals_str;

verus! {

/// A station the user marked as favorite.
#[derive(Debug, Clone)]
pub struct FavoriteStation {
    pub uuid: String,
    pub name: String,
    pub url: String,
    pub country: String,
    pub tags: String,
    pub codec: String,
    pub bitrate: i32,
    /// When it was added, in nanoseconds since the Unix epoch.
    pub added_at: i128,
}

/// The favorite made of `station` at time `now`: the directory's resolved
/// stream address is kept as the address.
pub open spec fn favorite_of(station: Station, now: i128) -> FavoriteStation {
    FavoriteStation {
        uuid: station.station_uuid,
        name: station.name,
        url: station.url_resolved,
        country: station.country,
        tags: station.tags,
        codec: station.codec,
        bitrate: station.bitrate,
        added_at: now,
    }
}

impl FavoriteStation {
    /// The favorite made of `station` at time `now`.
    pub fn from_station(station: &Station, now: i128) -> (f: FavoriteStation)
        ensures
            f == favorite_of(*station, now),
    {
        FavoriteStation {
            uuid: station.station_uuid.clone(),
            name: station.name.clone(),
            url: station.url_resolved.clone(),
            country: station.country.clone(),
            tags: station.tags.clone(),
            codec: station.codec.clone(),
            bitrate: station.bitrate,
            added_at: now,
        }
    }

    /// A copy of this favorite.
    pub fn duplicate(&self) -> (f: FavoriteStation)
        ensures
            f == *self,
    {
        FavoriteStation {
            uuid: self.uuid.clone(),
            name: self.name.clone(),
            url: self.url.clone(),
            country: self.country.clone(),
            tags: self.tags.clone(),
            codec: self.codec.clone(),
            bitrate: self.bitrate,
            added_at: self.added_at,
        }
    }
}

/// The saved list of favorites.
#[derive(Debug)]
pub struct FavoritesData {
    pub stations: Vec<FavoriteStation>,
}

/// Whether a favorite with station id `uuid` is in the list.
pub open spec fn has_favorite(s: Seq<FavoriteStation>, uuid: Seq<char>) -> bool {
    exists|i: int| 0 <= i < s.len() && (#[trigger] s[i]).uuid@ == uuid
}

/// The list without the favorites whose station id is `uuid`, order kept.
pub open spec fn without_favorite(s: Seq<FavoriteStation>, uuid: Seq<char>) -> Seq<FavoriteStation>
    decreases s.len(),
{
    if s.len() == 0 {
        Seq::empty()
    } else {
        let r = without_favorite(s.drop_last(), uuid);
        if s.last().uuid@ == uuid {
            r
        } else {
            r.push(s.last())
        }
    }
}

/// Removing a station id leaves no favorite with that id and keeps every other one.
pub proof fn lemma_without_favorite(s: Seq<FavoriteStation>, uuid: Seq<char>)
    ensures
        !has_favorite(without_favorite(s, uuid), uuid),
        forall|f: FavoriteStation| f.uuid@ != uuid ==> (#[trigger] s.contains(f) <==> without_favorite(s, uuid).contains(f)),
    decreases s.len(),
{
    if s.len() > 0 {
        let d = s.drop_last();
        lemma_without_favorite(d, uuid);
        let w = without_favorite(s, uuid);
        let wd = without_favorite(d, uuid);
        assert(s =~= d.push(s.last()));
        if s.last().uuid@ != uuid {
            assert(w =~= wd.push(s.last()));
            assert forall|i: int| 0 <= i < w.len() implies (#[trigger] w[i]).uuid@ != uuid by {
                if i < wd.len() {
                    assert(w[i] == wd[i]);
                    if wd[i].uuid@ == uuid {
                        assert(has_favorite(wd, uuid));
                    }
                }
            }
        }
        assert forall|f: FavoriteStation| f.uuid@ != uuid implies (#[trigger] s.contains(f) <==> w.contains(f)) by {
            if s.contains(f) {
                let i = choose|i: int| 0 <= i < s.len() && s[i] == f;
                if i < d.len() {
                    assert(d[i] == f);
                    assert(d.contains(f));
                    assert(wd.contains(f));
                    let j = choose|j: int| 0 <= j < wd.len() && wd[j] == f;
                    if s.last().uuid@ != uuid {
                        assert(w[j] == f);
                    }
                } else {
                    assert(w.last() == f);
                }
            }
            if w.contains(f) {
                let i = choose|i: int| 0 <= i < w.len() && w[i] == f;
                if i < wd.len() {
                    assert(wd[i] == f);
                    assert(wd.contains(f));
                    assert(d.contains(f));
                    let j = choose|j: int| 0 <= j < d.len() && d[j] == f;
                    assert(s[j] == f);
                } else {
                    assert(s[s.len() - 1] == f);
                }
            }
        }
    }
}

/// Keeps the user's favorite stations, in the order they were added.
pub struct FavoritesManager {
    file_path: String,
    favorites: FavoritesData,
}

impl FavoritesManager {
    /// A manager of the favorites loaded from (and saved to) `file_path`.
    pub fn new(file_path: String, favorites: FavoritesData) -> (m: FavoritesManager)
        ensures
            m.stations() == favorites.stations@,
            m.path() == file_path@,
    {
        FavoritesManager { file_path, favorites }
    }

    /// The favorites, in order.
    pub closed spec fn stations(&self) -> Seq<FavoriteStation> {
        self.favorites.stations@
    }

    /// Where the favorites are saved.
    pub closed spec fn path(&self) -> Seq<char> {
        self.file_path@
    }

    /// The file the favorites are saved to.
    pub fn file_path(&self) -> (p: &String)
        ensures
            p@ == self.path(),
    {
        &self.file_path
    }

    /// The saved list, for writing it out.
    pub fn data(&self) -> (d: &FavoritesData)
        ensures
            d.stations@ == self.stations(),
    {
        &self.favorites
    }

    /// Whether station `uuid` is a favorite.
    pub fn is_favorite(&self, uuid: &str) -> (b: bool)
        ensures
            b == has_favorite(self.stations(), uuid@),
    {
        let mut i: usize = 0;
        while i < self.favorites.stations.len()
            invariant
                i <= self.favorites.stations.len(),
                forall|k: int| 0 <= k < i ==> (#[trigger] self.favorites.stations@[k]).uuid@ != uuid@,
            decreases self.favorites.stations.len() - i,
        {
            if string_equals_str(&self.favorites.stations[i].uuid, uuid) {
                return true;
            }
            i = i + 1;
        }
        false
    }

    /// Adds `station` as a favorite at time `now`, unless it already is one.
    /// Returns whether the list changed (and needs saving).
    pub fn add_at(&mut self, station: &Station, now: i128) -> (changed: bool)
        ensures
            changed == !has_favorite(old(self).stations(), station.station_uuid@),
            changed ==> final(self).stations() == old(self).stations().push(favorite_of(*station, now)),
            !changed ==> final(self).stations() == old(self).stations(),
            final(self).path() == old(self).path(),
    {
        if self.is_favorite(station.station_uuid.as_str()) {
            return false;
        }
        self.favorites.stations.push(FavoriteStation::from_station(station, now));
        true
    }

    /// Adds `station` as a favorite, stamped with the current time, unless it
    /// already is one. Returns whether the list changed (and needs saving).
    pub fn add(&mut self, station: &Station) -> (changed: bool)
        ensures
            changed == !has_favorite(old(self).stations(), station.station_uuid@),
            changed ==> exists|now: i128| final(self).stations() == old(self).stations().push(
                #[trigger] favorite_of(*station, now),
            ),
            !changed ==> final(self).stations() == old(self).stations(),
            final(self).path() == old(self).path(),
    {
        let now = crate::clock::now_nanos();
        self.add_at(station, now)
    }

    /// Removes every favorite with station id `uuid`.
    pub fn remove(&mut self, uuid: &str)
        ensures
            final(self).stations() == without_favorite(old(self).stations(), uuid@),
            final(self).path() == old(self).path(),
    {
        let mut kept: Vec<FavoriteStation> = Vec::new();
        let mut i: usize = 0;
        while i < self.favorites.stations.len()
            invariant
                i <= self.favorites.stations.len(),
                kept@ == without_favorite(self.favorites.stations@.take(i as int), uuid@),
            decreases self.favorites.stations.len() - i,
        {
            proof {
                assert(self.favorites.stations@.take(i + 1).drop_last() =~= self.favorites.stations@.take(
                    i as int,
                ));
            }
            if !string_equals_str(&self.favorites.stations[i].uuid, uuid) {
                kept.push(self.favorites.stations[i].duplicate());
            }
            i = i + 1;
        }
        proof {
            assert(self.favorites.stations@.take(self.favorites.stations@.len() as int)
                =~= self.favorites.stations@);
        }
        self.favorites.stations = kept;
    }

    /// The favorites, in the order they were added.
    pub fn get_all(&self) -> (s: &[FavoriteStation])
        ensures
            s@ == self.stations(),
    {
        self.favorites.stations.as_slice()
    }
}

/// After adding a station it is a favorite, and adding it again changes nothing.
pub proof fn law_add_then_is_favorite(s: Seq<FavoriteStation>, station: Station, now: i128)
    ensures
        has_favorite(
            if has_favorite(s, station.station_uuid@) {
                s
            } else {
                s.push(favorite_of(station, now))
            },
            station.station_uuid@,
        ),
{
    if !has_favorite(s, station.station_uuid@) {
        let t = s.push(favorite_of(station, now));
        assert(t[s.len() as int].uuid@ == station.station_uuid@);
    }
}

/// After removing a station it is no longer a favorite, and the other favorites stay.
pub proof fn law_remove_then_not_favorite(s: Seq<FavoriteStation>, uuid: Seq<char>)
    ensures
        !has_favorite(without_favorite(s, uuid), uuid),
        forall|f: FavoriteStation| f.uuid@ != uuid ==> (#[trigger] s.contains(f) <==> without_favorite(s, uuid).contains(f)),
{
    lemma_without_favorite(s, uuid);
}

/// No station is listed twice.
pub open spec fn listed_once(s: Seq<FavoriteStation>) -> bool {
    forall|i: int, j: int| 0 <= i < j < s.len() ==> (#[trigger] s[i]).uuid@ != (#[trigger] s[j]).uuid@
}

/// Removing a station keeps every other station listed at most once.
proof fn lemma_without_listed_once(s: Seq<FavoriteStation>, uuid: Seq<char>)
    requires
        listed_once(s),
    ensures
        listed_once(without_favorite(s, uuid)),
    decreases s.len(),
{
    if s.len() > 0 {
        let d = s.drop_last();
        assert(listed_once(d)) by {
            assert forall|i: int, j: int| 0 <= i < j < d.len() implies (#[trigger] d[i]).uuid@
                != (#[trigger] d[j]).uuid@ by {
                assert(d[i] == s[i] && d[j] == s[j]);
            }
        }
        lemma_without_listed_once(d, uuid);
        lemma_without_favorite(d, uuid);
        let wd = without_favorite(d, uuid);
        let x = s.last();
        if x.uuid@ != uuid {
            let w = wd.push(x);
            assert forall|i: int, j: int| 0 <= i < j < w.len() implies (#[trigger] w[i]).uuid@
                != (#[trigger] w[j]).uuid@ by {
                if j == wd.len() {
                    let f = wd[i];
                    assert(w[i] == f && w[j] == x);
                    if f.uuid@ == uuid {
                        assert(has_favorite(wd, uuid));
                    }
                    assert(wd.contains(f));
                    assert(d.contains(f));
                    let k = choose|k: int| 0 <= k < d.len() && d[k] == f;
                    assert(s[k] == f);
                    assert(s[s.len() - 1] == x);
                } else {
                    assert(w[i] == wd[i] && w[j] == wd[j]);
                }
            }
            assert(without_favorite(s, uuid) == w);
        }
    }
}

/// Adding a station that is already listed changes nothing, so no station
/// is ever listed twice; removing one keeps that so.
pub proof fn law_favorites_listed_once(s: Seq<FavoriteStation>, station: Station, now: i128, uuid: Seq<char>)
    requires
        listed_once(s),
    ensures
        listed_once(
            if has_favorite(s, station.station_uuid@) {
                s
            } else {
                s.push(favorite_of(station, now))
            },
        ),
        listed_once(without_favorite(s, uuid)),
{
    if !has_favorite(s, station.station_uuid@) {
        let t = s.push(favorite_of(station, now));
        assert forall|i: int, j: int| 0 <= i < j < t.len() implies (#[trigger] t[i]).uuid@
            != (#[trigger] t[j]).uuid@ by {
            if j == s.len() {
                assert(t[i] == s[i]);
                if s[i].uuid@ == station.station_uuid@ {
                    assert(has_favorite(s, station.station_uuid@));
                }
            } else {
                assert(t[i] == s[i] && t[j] == s[j]);
            }
        }
    }
    lemma_without_listed_once(s, uuid);
}

} // verus!
