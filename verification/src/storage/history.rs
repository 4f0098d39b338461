//! Recently played stations, most recent first.

use vstd::prelude::*;
use crate::api::models::Station;
use crate::text::string_equals_str;

verus! {

/// A station the user played.
#[derive(Debug, Clone)]
pub struct HistoryStation {
    pub uuid: String,
    pub name: String,
    pub url: String,
    pub country: String,
    pub tags: String,
    pub codec: String,
    pub bitrate: i32,
    /// When it was last played, in nanoseconds since the Unix epoch.
    pub last_played: i128,
    pub play_count: u32,
}

/// The history entry for a first play of `station` at `now`.
pub open spec fn history_of(station: Station, now: i128) -> HistoryStation {
    HistoryStation {
        uuid: station.station_uuid,
        name: station.name,
        url: station.url_resolved,
        country: station.country,
        tags: station.tags,
        codec: station.codec,
        bitrate: station.bitrate,
        last_played: now,
        play_count: 1,
    }
}

impl HistoryStation {
    /// The entry for a first play of `station` at `now`.
    pub fn from_station(station: &Station, now: i128) -> (h: HistoryStation)
        ensures
            h == history_of(*station, now),
    {
        HistoryStation {
            uuid: station.station_uuid.clone(),
            name: station.name.clone(),
            url: station.url_resolved.clone(),
            country: station.country.clone(),
            tags: station.tags.clone(),
            codec: station.codec.clone(),
            bitrate: station.bitrate,
            last_played: now,
            play_count: 1,
        }
    }

    /// A copy of this entry.
    pub fn duplicate(&self) -> (h: HistoryStation)
        ensures
            h == *self,
    {
        HistoryStation {
            uuid: self.uuid.clone(),
            name: self.name.clone(),
            url: self.url.clone(),
            country: self.country.clone(),
            tags: self.tags.clone(),
            codec: self.codec.clone(),
            bitrate: self.bitrate,
            last_played: self.last_played,
            play_count: self.play_count,
        }
    }
}

/// The saved list of played stations.
#[derive(Debug)]
pub struct HistoryData {
    pub stations: Vec<HistoryStation>,
}

/// Position of the first entry for station `uuid`, or -1.
pub open spec fn first_entry(s: Seq<HistoryStation>, uuid: Seq<char>) -> int
    decreases s.len(),
{
    if s.len() == 0 {
        -1
    } else if s[0].uuid@ == uuid {
        0
    } else {
        let r = first_entry(s.drop_first(), uuid);
        if r < 0 {
            -1
        } else {
            r + 1
        }
    }
}

/// How many leading entries were played at `t` or later.
pub open spec fn played_since_prefix(s: Seq<HistoryStation>, t: i128) -> nat
    decreases s.len(),
{
    if s.len() > 0 && s[0].last_played >= t {
        1 + played_since_prefix(s.drop_first(), t)
    } else {
        0
    }
}

/// `x` placed into a list kept most recent first, after every entry played
/// at the same time or later.
pub open spec fn insert_by_recency(s: Seq<HistoryStation>, x: HistoryStation) -> Seq<HistoryStation> {
    s.insert(played_since_prefix(s, x.last_played) as int, x)
}

/// The entries ordered most recent first; entries played at the same time
/// keep their relative order (a stable sort, as `sort_by` performs).
pub open spec fn by_recency(s: Seq<HistoryStation>) -> Seq<HistoryStation>
    decreases s.len(),
{
    if s.len() == 0 {
        Seq::empty()
    } else {
        insert_by_recency(by_recency(s.drop_last()), s.last())
    }
}

/// The history after playing `station` at `now`: its entry (the first one
/// for the station, if any) gets the new time and one more play, otherwise
/// a new entry is added; then the list is ordered most recent first and cut
/// to `max` entries.
pub open spec fn after_play(s: Seq<HistoryStation>, station: Station, now: i128, max: nat) -> Seq<
    HistoryStation,
> {
    let i = first_entry(s, station.station_uuid@);
    let updated = if i >= 0 {
        s.update(i, HistoryStation { last_played: now, play_count: (s[i].play_count + 1) as u32, ..s[i] })
    } else {
        s.push(history_of(station, now))
    };
    let sorted = by_recency(updated);
    if sorted.len() > max {
        sorted.take(max as int)
    } else {
        sorted
    }
}

/// A play of `station` can be counted without overflowing its play count.
pub open spec fn play_countable(s: Seq<HistoryStation>, station: Station) -> bool {
    let i = first_entry(s, station.station_uuid@);
    i >= 0 ==> s[i].play_count < u32::MAX
}

/// The first entry lies in range and matches; none before it does.
pub proof fn lemma_first_entry(s: Seq<HistoryStation>, uuid: Seq<char>)
    ensures
        -1 <= first_entry(s, uuid) < s.len(),
        first_entry(s, uuid) >= 0 ==> s[first_entry(s, uuid)].uuid@ == uuid,
        forall|j: int| 0 <= j < s.len() && (first_entry(s, uuid) < 0 || j < first_entry(s, uuid)) ==> (
        #[trigger] s[j]).uuid@ != uuid,
    decreases s.len(),
{
    if s.len() > 0 && s[0].uuid@ != uuid {
        lemma_first_entry(s.drop_first(), uuid);
        assert forall|j: int| 0 <= j < s.len() && (first_entry(s, uuid) < 0 || j < first_entry(s, uuid)) implies (
        #[trigger] s[j]).uuid@ != uuid by {
            if j > 0 {
                assert(s[j] == s.drop_first()[j - 1]);
            }
        }
    }
}

/// Entries ordered most recent first.
pub open spec fn recency_sorted(s: Seq<HistoryStation>) -> bool {
    forall|i: int, j: int| 0 <= i < j < s.len() ==> #[trigger] s[i].last_played >= #[trigger] s[j].last_played
}

/// The leading entries counted by `played_since_prefix` are the ones played
/// at `t` or later, and the entry after them (if any) was played earlier.
proof fn lemma_played_since_prefix(s: Seq<HistoryStation>, t: i128)
    ensures
        played_since_prefix(s, t) <= s.len(),
        forall|k: int| 0 <= k < played_since_prefix(s, t) ==> #[trigger] s[k].last_played >= t,
        played_since_prefix(s, t) < s.len() ==> s[played_since_prefix(s, t) as int].last_played < t,
    decreases s.len(),
{
    if s.len() > 0 && s[0].last_played >= t {
        let r = s.drop_first();
        lemma_played_since_prefix(r, t);
        assert forall|k: int| 0 <= k < played_since_prefix(s, t) implies #[trigger] s[k].last_played >= t by {
            if k > 0 {
                assert(s[k] == r[k - 1]);
            }
        }
    }
}

/// Inserting by recency into an ordered list keeps it ordered and adds the entry.
proof fn lemma_insert_by_recency(s: Seq<HistoryStation>, x: HistoryStation)
    requires
        recency_sorted(s),
    ensures
        recency_sorted(insert_by_recency(s, x)),
        insert_by_recency(s, x).to_multiset() == s.to_multiset().insert(x),
{
    let p = played_since_prefix(s, x.last_played) as int;
    lemma_played_since_prefix(s, x.last_played);
    crate::text::lemma_insert_to_multiset(s, p, x);
    let r = insert_by_recency(s, x);
    assert forall|i: int, j: int| 0 <= i < j < r.len() implies #[trigger] r[i].last_played >= #[trigger] r[j].last_played by {
        if j < p {
            assert(r[i] == s[i] && r[j] == s[j]);
        } else if j == p {
            assert(r[j] == x);
            assert(r[i] == s[i]);
        } else if i < p {
            assert(r[i] == s[i] && r[j] == s[j - 1]);
        } else if i == p {
            assert(r[i] == x);
            assert(r[j] == s[j - 1]);
            assert(s[p].last_played < x.last_played);
            if j - 1 > p {
                assert(s[p].last_played >= s[j - 1].last_played);
            }
        } else {
            assert(r[i] == s[i - 1] && r[j] == s[j - 1]);
        }
    }
}

/// The history is always ordered most recent first and holds exactly the
/// entries it was built from.
pub proof fn law_history_most_recent_first(s: Seq<HistoryStation>)
    ensures
        recency_sorted(by_recency(s)),
        by_recency(s).to_multiset() == s.to_multiset(),
    decreases s.len(),
{
    broadcast use vstd::seq_lib::group_to_multiset_ensures;

    if s.len() > 0 {
        law_history_most_recent_first(s.drop_last());
        lemma_insert_by_recency(by_recency(s.drop_last()), s.last());
        assert(s =~= s.drop_last().push(s.last()));
    }
}

/// No two entries are for the same station.
pub open spec fn one_entry_per_station(s: Seq<HistoryStation>) -> bool {
    forall|i: int, j: int| 0 <= i < j < s.len() ==> (#[trigger] s[i]).uuid@ != (#[trigger] s[j]).uuid@
}

/// Whether some entry is for station `uuid`.
pub open spec fn has_station(s: Seq<HistoryStation>, uuid: Seq<char>) -> bool {
    exists|i: int| 0 <= i < s.len() && (#[trigger] s[i]).uuid@ == uuid
}

/// Inserting by recency adds exactly the inserted entry's station, and keeps
/// one entry per station when that station was not there yet.
proof fn lemma_insert_keeps_stations(s: Seq<HistoryStation>, x: HistoryStation)
    requires
        one_entry_per_station(s),
        !has_station(s, x.uuid@),
    ensures
        one_entry_per_station(insert_by_recency(s, x)),
        forall|u: Seq<char>| has_station(insert_by_recency(s, x), u) <==> (has_station(s, u) || u
            == x.uuid@),
{
    let p = played_since_prefix(s, x.last_played) as int;
    lemma_played_since_prefix(s, x.last_played);
    let r = insert_by_recency(s, x);
    assert(r.len() == s.len() + 1);
    assert forall|i: int| 0 <= i < r.len() implies #[trigger] r[i] == (if i < p {
        s[i]
    } else if i == p {
        x
    } else {
        s[i - 1]
    }) by {}
    assert forall|i: int, j: int| 0 <= i < j < r.len() implies (#[trigger] r[i]).uuid@ != (
    #[trigger] r[j]).uuid@ by {
        if i == p {
            assert(r[j] == s[j - 1]);
        } else if j == p {
            assert(r[i] == s[i]);
        } else {
            let si = if i < p { i } else { i - 1 };
            let sj = if j < p { j } else { j - 1 };
            assert(r[i] == s[si] && r[j] == s[sj]);
        }
    }
    assert forall|u: Seq<char>| has_station(r, u) <==> (has_station(s, u) || u == x.uuid@) by {
        if has_station(r, u) {
            let i = choose|i: int| 0 <= i < r.len() && (#[trigger] r[i]).uuid@ == u;
            if i < p {
                assert(s[i].uuid@ == u);
            } else if i > p {
                assert(s[i - 1].uuid@ == u);
            }
        }
        if has_station(s, u) {
            let k = choose|k: int| 0 <= k < s.len() && (#[trigger] s[k]).uuid@ == u;
            if k < p {
                assert(r[k] == s[k]);
            } else {
                assert(r[k + 1] == s[k]);
            }
        }
        if u == x.uuid@ {
            assert(r[p] == x);
        }
    }
}

/// Ordering by recency keeps one entry per station and the same stations.
proof fn lemma_by_recency_keeps_stations(s: Seq<HistoryStation>)
    requires
        one_entry_per_station(s),
    ensures
        one_entry_per_station(by_recency(s)),
        forall|u: Seq<char>| has_station(by_recency(s), u) <==> has_station(s, u),
    decreases s.len(),
{
    if s.len() > 0 {
        let init = s.drop_last();
        assert(one_entry_per_station(init)) by {
            assert forall|i: int, j: int| 0 <= i < j < init.len() implies (#[trigger] init[i]).uuid@
                != (#[trigger] init[j]).uuid@ by {
                assert(init[i] == s[i] && init[j] == s[j]);
            }
        }
        lemma_by_recency_keeps_stations(init);
        let x = s.last();
        assert(!has_station(init, x.uuid@)) by {
            if has_station(init, x.uuid@) {
                let k = choose|k: int| 0 <= k < init.len() && (#[trigger] init[k]).uuid@ == x.uuid@;
                assert(s[k] == init[k]);
                assert(s[s.len() - 1] == x);
            }
        }
        lemma_insert_keeps_stations(by_recency(init), x);
        assert forall|u: Seq<char>| has_station(by_recency(s), u) <==> has_station(s, u) by {
            if has_station(s, u) {
                let k = choose|k: int| 0 <= k < s.len() && (#[trigger] s[k]).uuid@ == u;
                if k < init.len() {
                    assert(init[k] == s[k]);
                }
            }
            if has_station(init, u) {
                let k = choose|k: int| 0 <= k < init.len() && (#[trigger] init[k]).uuid@ == u;
                assert(s[k] == init[k]);
            }
            if u == x.uuid@ {
                assert(s[s.len() - 1] == x);
            }
        }
    }
}

/// A history with one entry per station keeps one entry per station after
/// any play: a station played again has its entry updated, not repeated.
pub proof fn law_history_one_entry_per_station(s: Seq<HistoryStation>, station: Station, now: i128, max: nat)
    requires
        one_entry_per_station(s),
    ensures
        one_entry_per_station(after_play(s, station, now, max)),
{
    lemma_first_entry(s, station.station_uuid@);
    let i = first_entry(s, station.station_uuid@);
    let updated = if i >= 0 {
        s.update(i, HistoryStation { last_played: now, play_count: (s[i].play_count + 1) as u32, ..s[i] })
    } else {
        s.push(history_of(station, now))
    };
    assert(one_entry_per_station(updated)) by {
        assert forall|a: int, b: int| 0 <= a < b < updated.len() implies (#[trigger] updated[a]).uuid@
            != (#[trigger] updated[b]).uuid@ by {
            if i >= 0 {
                assert(updated[a].uuid@ == s[a].uuid@);
                assert(updated[b].uuid@ == s[b].uuid@);
            } else if b == s.len() {
                assert(updated[a] == s[a]);
                assert(updated[b].uuid@ == station.station_uuid@);
            } else {
                assert(updated[a] == s[a] && updated[b] == s[b]);
            }
        }
    }
    lemma_by_recency_keeps_stations(updated);
    let sorted = by_recency(updated);
    if sorted.len() > max {
        let t = sorted.take(max as int);
        assert forall|a: int, b: int| 0 <= a < b < t.len() implies (#[trigger] t[a]).uuid@
            != (#[trigger] t[b]).uuid@ by {
            assert(t[a] == sorted[a] && t[b] == sorted[b]);
        }
    }
}

/// The history never holds more than its limit: after any play it has at
/// most `max` entries.
pub proof fn law_history_capacity(s: Seq<HistoryStation>, station: Station, now: i128, max: nat)
    ensures
        after_play(s, station, now, max).len() <= max,
{
}

/// After a play the history is still ordered most recent first; when every
/// entry was played before `now`, the station just played comes first.
pub proof fn law_play_moves_station_to_front(s: Seq<HistoryStation>, station: Station, now: i128, max: nat)
    requires
        forall|i: int| 0 <= i < s.len() ==> #[trigger] s[i].last_played < now,
        max > 0,
    ensures
        recency_sorted(after_play(s, station, now, max)),
        after_play(s, station, now, max).len() > 0,
        after_play(s, station, now, max)[0].uuid@ == station.station_uuid@,
        after_play(s, station, now, max)[0].last_played == now,
{
    broadcast use vstd::seq_lib::group_to_multiset_ensures;

    lemma_first_entry(s, station.station_uuid@);
    let i = first_entry(s, station.station_uuid@);
    let updated = if i >= 0 {
        s.update(i, HistoryStation { last_played: now, play_count: (s[i].play_count + 1) as u32, ..s[i] })
    } else {
        s.push(history_of(station, now))
    };
    let k = if i >= 0 { i } else { s.len() as int };
    let x = updated[k];
    assert(x.uuid@ == station.station_uuid@ && x.last_played == now);
    assert forall|q: int| 0 <= q < updated.len() && q != k implies #[trigger] updated[q].last_played < now by {
        assert(updated[q] == s[q]);
    }
    law_history_most_recent_first(updated);
    let sorted = by_recency(updated);
    assert(updated.contains(x));
    assert(sorted.to_multiset().count(x) > 0);
    assert(sorted.contains(x));
    let j = choose|j: int| 0 <= j < sorted.len() && sorted[j] == x;
    assert(sorted.len() > 0);
    let first = sorted[0];
    assert(sorted.contains(first));
    assert(updated.to_multiset().count(first) > 0);
    assert(updated.contains(first));
    let q = choose|q: int| 0 <= q < updated.len() && updated[q] == first;
    if j > 0 {
        assert(sorted[0].last_played >= sorted[j].last_played);
    }
    if q != k {
        assert(updated[q].last_played < now);
        assert(false);
    }
    assert(first == x);
    let r = after_play(s, station, now, max);
    assert(r[0] == sorted[0]);
    assert forall|a: int, b: int| 0 <= a < b < r.len() implies #[trigger] r[a].last_played >= #[trigger] r[b].last_played by {
        assert(r[a] == sorted[a] && r[b] == sorted[b]);
    }
}

/// Keeps the most recently played stations.
pub struct HistoryManager {
    file_path: String,
    history: HistoryData,
    max_entries: usize,
}

impl HistoryManager {
    /// A manager of the history loaded from (and saved to) `file_path`,
    /// keeping at most `max_entries` stations.
    pub fn new(file_path: String, history: HistoryData, max_entries: usize) -> (m: HistoryManager)
        ensures
            m.entries() == history.stations@,
            m.max() == max_entries,
            m.path() == file_path@,
    {
        HistoryManager { file_path, history, max_entries }
    }

    /// The entries.
    pub closed spec fn entries(&self) -> Seq<HistoryStation> {
        self.history.stations@
    }

    /// How many entries are kept.
    pub closed spec fn max(&self) -> nat {
        self.max_entries as nat
    }

    /// Where the history is saved.
    pub closed spec fn path(&self) -> Seq<char> {
        self.file_path@
    }

    /// The file the history is saved to.
    pub fn file_path(&self) -> (p: &String)
        ensures
            p@ == self.path(),
    {
        &self.file_path
    }

    /// The saved list, for writing it out.
    pub fn data(&self) -> (d: &HistoryData)
        ensures
            d.stations@ == self.entries(),
    {
        &self.history
    }

    /// Records a play of `station` at time `now`.
    pub fn add_at(&mut self, station: &Station, now: i128)
        requires
            play_countable(old(self).entries(), *station),
        ensures
            final(self).entries() == after_play(old(self).entries(), *station, now, old(self).max()),
            final(self).max() == old(self).max(),
            final(self).path() == old(self).path(),
    {
        proof {
            lemma_first_entry(self.entries(), station.station_uuid@);
        }
        let mut list: Vec<HistoryStation> = Vec::new();
        std::mem::swap(&mut list, &mut self.history.stations);
        let ghost before = list@;
        match find_first(&list, station.station_uuid.as_str()) {
            Some(i) => {
                let mut entry = list[i].duplicate();
                entry.last_played = now;
                entry.play_count = entry.play_count + 1;
                list.set(i, entry);
            },
            None => {
                list.push(HistoryStation::from_station(station, now));
            },
        }
        let mut sorted = sort_by_recency(&list);
        if sorted.len() > self.max_entries {
            sorted.truncate(self.max_entries);
        }
        self.history.stations = sorted;
    }

    /// Records a play of `station` now.
    pub fn add(&mut self, station: &Station)
        requires
            play_countable(old(self).entries(), *station),
        ensures
            exists|now: i128| final(self).entries() == #[trigger] after_play(old(self).entries(), *station, now, old(self).max()),
            final(self).max() == old(self).max(),
            final(self).path() == old(self).path(),
    {
        let now = crate::clock::now_nanos();
        self.add_at(station, now);
    }

    /// All entries, most recent first.
    pub fn get_all(&self) -> (s: &[HistoryStation])
        ensures
            s@ == self.entries(),
    {
        self.history.stations.as_slice()
    }

    /// Forgets every played station.
    pub fn clear(&mut self)
        ensures
            final(self).entries() == Seq::<HistoryStation>::empty(),
            final(self).max() == old(self).max(),
            final(self).path() == old(self).path(),
    {
        self.history.stations.clear();
    }
}

/// Position of the first entry for station `uuid` in `list`.
fn find_first(list: &Vec<HistoryStation>, uuid: &str) -> (r: Option<usize>)
    ensures
        match r {
            Some(i) => i as int == first_entry(list@, uuid@),
            None => first_entry(list@, uuid@) == -1,
        },
{
    proof {
        lemma_first_entry(list@, uuid@);
    }
    let mut i: usize = 0;
    while i < list.len()
        invariant
            i <= list.len(),
            forall|k: int| 0 <= k < i ==> (#[trigger] list@[k]).uuid@ != uuid@,
            -1 <= first_entry(list@, uuid@) < list@.len(),
            first_entry(list@, uuid@) >= 0 ==> list@[first_entry(list@, uuid@)].uuid@ == uuid@,
            forall|j: int|
                0 <= j < list@.len() && (first_entry(list@, uuid@) < 0 || j < first_entry(list@, uuid@))
                    ==> (#[trigger] list@[j]).uuid@ != uuid@,
        decreases list.len() - i,
    {
        if string_equals_str(&list[i].uuid, uuid) {
            return Some(i);
        }
        i = i + 1;
    }
    None
}

/// The entries ordered most recent first, stably.
fn sort_by_recency(list: &Vec<HistoryStation>) -> (r: Vec<HistoryStation>)
    ensures
        r@ == by_recency(list@),
{
    let mut r: Vec<HistoryStation> = Vec::new();
    let mut i: usize = 0;
    proof {
        assert(list@.take(0) =~= Seq::<HistoryStation>::empty());
    }
    while i < list.len()
        invariant
            i <= list.len(),
            r@ == by_recency(list@.take(i as int)),
        decreases list.len() - i,
    {
        let x = list[i].duplicate();
        let t = x.last_played;
        let mut j: usize = 0;
        proof {
            assert(r@.skip(0) =~= r@);
        }
        while j < r.len() && r[j].last_played >= t
            invariant
                j <= r.len(),
                played_since_prefix(r@, t) == j + played_since_prefix(r@.skip(j as int), t),
            decreases r.len() - j,
        {
            proof {
                assert(r@.skip(j as int).drop_first() =~= r@.skip(j + 1));
            }
            j = j + 1;
        }
        proof {
            assert(list@.take(i + 1).drop_last() =~= list@.take(i as int));
            assert(list@.take(i + 1).last() == x);
        }
        r.insert(j, x);
        i = i + 1;
    }
    proof {
        assert(list@.take(list@.len() as int) =~= list@);
    }
    r
}

} // verus!
