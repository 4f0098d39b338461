//! Votes cast for stations, remembered for a day so a station is not voted
//! for twice in that time.

use vstd::prelude::*;
use crate::text::{string_equals_str, string_from_str};

verus! {

/// How long a vote is remembered: 24 hours, in nanoseconds.
pub const VOTE_TTL_NANOS: i128 = 86_400_000_000_000;

/// A vote for a station.
#[derive(Debug, Clone)]
pub struct VoteRecord {
    pub station_uuid: String,
    /// When the vote was cast, in nanoseconds since the Unix epoch.
    pub voted_at: i128,
}

impl VoteRecord {
    /// A copy of this record.
    pub fn duplicate(&self) -> (r: VoteRecord)
        ensures
            r == *self,
    {
        VoteRecord { station_uuid: self.station_uuid.clone(), voted_at: self.voted_at }
    }
}

/// The saved list of votes.
#[derive(Debug)]
pub struct VotesData {
    pub votes: Vec<VoteRecord>,
}

/// The earliest vote time still remembered at `now` (exclusive).
pub open spec fn cutoff(now: i128) -> int {
    now - VOTE_TTL_NANOS
}

/// The votes cast after `cut`, order kept.
pub open spec fn fresh_votes(s: Seq<VoteRecord>, cut: int) -> Seq<VoteRecord>
    decreases s.len(),
{
    if s.len() == 0 {
        Seq::empty()
    } else {
        let r = fresh_votes(s.drop_last(), cut);
        if s.last().voted_at > cut {
            r.push(s.last())
        } else {
            r
        }
    }
}

/// The votes not for station `uuid`, order kept.
pub open spec fn votes_without(s: Seq<VoteRecord>, uuid: Seq<char>) -> Seq<VoteRecord>
    decreases s.len(),
{
    if s.len() == 0 {
        Seq::empty()
    } else {
        let r = votes_without(s.drop_last(), uuid);
        if s.last().station_uuid@ == uuid {
            r
        } else {
            r.push(s.last())
        }
    }
}

/// Whether a vote for `uuid` was cast after `cut`.
pub open spec fn voted_since(s: Seq<VoteRecord>, uuid: Seq<char>, cut: int) -> bool {
    exists|i: int| 0 <= i < s.len() && (#[trigger] s[i]).station_uuid@ == uuid && s[i].voted_at > cut
}

/// Remembers recent votes.
pub struct VoteManager {
    file_path: String,
    data: VotesData,
}

/// The saturating form of `now - VOTE_TTL_NANOS`, which is exact for any
/// time a clock reports.
fn cutoff_of(now: i128) -> (c: i128)
    ensures
        now >= i128::MIN + VOTE_TTL_NANOS ==> c == cutoff(now),
        now < i128::MIN + VOTE_TTL_NANOS ==> c == i128::MIN,
{
    if now >= i128::MIN + VOTE_TTL_NANOS {
        now - VOTE_TTL_NANOS
    } else {
        i128::MIN
    }
}

/// Keeps the votes cast after `cut`.
fn keep_fresh(votes: &Vec<VoteRecord>, cut: i128) -> (r: Vec<VoteRecord>)
    ensures
        r@ == fresh_votes(votes@, cut as int),
{
    let mut r: Vec<VoteRecord> = Vec::new();
    let mut i: usize = 0;
    while i < votes.len()
        invariant
            i <= votes.len(),
            r@ == fresh_votes(votes@.take(i as int), cut as int),
        decreases votes.len() - i,
    {
        proof {
            assert(votes@.take(i + 1).drop_last() =~= votes@.take(i as int));
        }
        if votes[i].voted_at > cut {
            r.push(votes[i].duplicate());
        }
        i = i + 1;
    }
    proof {
        assert(votes@.take(votes@.len() as int) =~= votes@);
    }
    r
}

impl VoteManager {
    /// A manager of the votes loaded from (and saved to) `file_path`; votes
    /// older than a day at time `now` are dropped.
    pub fn new_at(file_path: String, data: VotesData, now: i128) -> (m: VoteManager)
        requires
            now >= i128::MIN + VOTE_TTL_NANOS,
        ensures
            m.votes() == fresh_votes(data.votes@, cutoff(now)),
            m.path() == file_path@,
    {
        let fresh = keep_fresh(&data.votes, cutoff_of(now));
        VoteManager { file_path, data: VotesData { votes: fresh } }
    }

    /// A manager of the votes loaded from (and saved to) `file_path`; votes
    /// older than a day are dropped.
    pub fn new(file_path: String, data: VotesData) -> (m: VoteManager)
        ensures
            exists|now: i128| m.votes() == #[trigger] fresh_votes(data.votes@, cutoff(now)),
            m.path() == file_path@,
    {
        let now = crate::clock::now_nanos();
        VoteManager::new_at(file_path, data, now)
    }

    /// The remembered votes.
    pub closed spec fn votes(&self) -> Seq<VoteRecord> {
        self.data.votes@
    }

    /// Where the votes are saved.
    pub closed spec fn path(&self) -> Seq<char> {
        self.file_path@
    }

    /// The file the votes are saved to.
    pub fn file_path(&self) -> (p: &String)
        ensures
            p@ == self.path(),
    {
        &self.file_path
    }

    /// The saved list, for writing it out.
    pub fn data(&self) -> (d: &VotesData)
        ensures
            d.votes@ == self.votes(),
    {
        &self.data
    }

    /// Whether station `station_uuid` was voted for within the day before `now`.
    pub fn has_voted_recently_at(&self, station_uuid: &str, now: i128) -> (b: bool)
        requires
            now >= i128::MIN + VOTE_TTL_NANOS,
        ensures
            b == voted_since(self.votes(), station_uuid@, cutoff(now)),
    {
        let cut = cutoff_of(now);
        let mut i: usize = 0;
        while i < self.data.votes.len()
            invariant
                i <= self.data.votes.len(),
                cut == cutoff(now),
                forall|k: int|
                    0 <= k < i ==> !((#[trigger] self.data.votes@[k]).station_uuid@ == station_uuid@
                        && self.data.votes@[k].voted_at > cut),
            decreases self.data.votes.len() - i,
        {
            if string_equals_str(&self.data.votes[i].station_uuid, station_uuid)
                && self.data.votes[i].voted_at > cut {
                return true;
            }
            i = i + 1;
        }
        false
    }

    /// Whether station `station_uuid` was voted for within the last 24 hours.
    pub fn has_voted_recently(&self, station_uuid: &str) -> (b: bool)
        ensures
            exists|now: i128| b == voted_since(self.votes(), station_uuid@, #[trigger] cutoff(now)),
    {
        let now = crate::clock::now_nanos();
        self.has_voted_recently_at(station_uuid, now)
    }

    /// Records a vote for `station_uuid` cast at `now`, replacing any earlier one.
    pub fn record_vote_at(&mut self, station_uuid: &str, now: i128)
        ensures
            final(self).votes().len() == votes_without(old(self).votes(), station_uuid@).len() + 1,
            final(self).votes().drop_last() == votes_without(old(self).votes(), station_uuid@),
            final(self).votes().last().station_uuid@ == station_uuid@,
            final(self).votes().last().voted_at == now,
            vote_recorded(old(self).votes(), final(self).votes(), station_uuid@, now),
            final(self).path() == old(self).path(),
    {
        let mut kept: Vec<VoteRecord> = Vec::new();
        let mut i: usize = 0;
        while i < self.data.votes.len()
            invariant
                i <= self.data.votes.len(),
                kept@ == votes_without(self.data.votes@.take(i as int), station_uuid@),
            decreases self.data.votes.len() - i,
        {
            proof {
                assert(self.data.votes@.take(i + 1).drop_last() =~= self.data.votes@.take(i as int));
            }
            if !string_equals_str(&self.data.votes[i].station_uuid, station_uuid) {
                kept.push(self.data.votes[i].duplicate());
            }
            i = i + 1;
        }
        proof {
            assert(self.data.votes@.take(self.data.votes@.len() as int) =~= self.data.votes@);
        }
        let ghost k = kept@;
        kept.push(VoteRecord { station_uuid: string_from_str(station_uuid), voted_at: now });
        proof {
            assert(kept@.drop_last() =~= k);
        }
        self.data.votes = kept;
    }

    /// Records a vote for `station_uuid` cast now, replacing any earlier one.
    pub fn record_vote(&mut self, station_uuid: &str)
        ensures
            final(self).votes().len() == votes_without(old(self).votes(), station_uuid@).len() + 1,
            final(self).votes().drop_last() == votes_without(old(self).votes(), station_uuid@),
            final(self).votes().last().station_uuid@ == station_uuid@,
            exists|t: i128| #[trigger] vote_recorded(old(self).votes(), final(self).votes(), station_uuid@, t),
            final(self).path() == old(self).path(),
    {
        let now = crate::clock::now_nanos();
        self.record_vote_at(station_uuid, now);
    }

    /// Forgets votes cast a day or more before `now`; returns whether any was
    /// forgotten (and the list needs saving).
    pub fn cleanup_expired_at(&mut self, now: i128) -> (removed: bool)
        requires
            now >= i128::MIN + VOTE_TTL_NANOS,
        ensures
            final(self).votes() == fresh_votes(old(self).votes(), cutoff(now)),
            removed == (final(self).votes().len() < old(self).votes().len()),
            final(self).path() == old(self).path(),
    {
        let before = self.data.votes.len();
        let fresh = keep_fresh(&self.data.votes, cutoff_of(now));
        self.data.votes = fresh;
        proof {
            lemma_fresh_votes_len(old(self).votes(), cutoff(now));
        }
        self.data.votes.len() < before
    }

    /// Forgets votes older than a day; returns whether any was forgotten.
    pub fn cleanup_expired(&mut self) -> (removed: bool)
        ensures
            exists|now: i128| final(self).votes() == #[trigger] fresh_votes(old(self).votes(), cutoff(now)),
            removed == (final(self).votes().len() < old(self).votes().len()),
            final(self).path() == old(self).path(),
    {
        let now = crate::clock::now_nanos();
        self.cleanup_expired_at(now)
    }
}

/// Keeping only fresh votes never lengthens the list.
pub proof fn lemma_fresh_votes_len(s: Seq<VoteRecord>, cut: int)
    ensures
        fresh_votes(s, cut).len() <= s.len(),
    decreases s.len(),
{
    if s.len() > 0 {
        lemma_fresh_votes_len(s.drop_last(), cut);
    }
}

/// A vote recorded at `now` for a station counts as recent at any time
/// before a day has passed.
pub proof fn law_recorded_vote_is_recent(s: Seq<VoteRecord>, uuid: Seq<char>, now: i128, later: i128)
    requires
        s.len() > 0,
        s.last().station_uuid@ == uuid,
        s.last().voted_at == now,
        later < now + VOTE_TTL_NANOS,
    ensures
        voted_since(s, uuid, cutoff(later)),
{
    assert(s[s.len() - 1].station_uuid@ == uuid);
}

/// No station has two remembered votes.
pub open spec fn one_vote_per_station(s: Seq<VoteRecord>) -> bool {
    forall|i: int, j: int| 0 <= i < j < s.len() ==> (#[trigger] s[i]).station_uuid@ != (#[trigger] s[j]).station_uuid@
}

/// What `record_vote_at(uuid, t0)` leaves, as its contract states it: the
/// votes for other stations in their order, then the new vote.
pub open spec fn vote_recorded(before: Seq<VoteRecord>, after: Seq<VoteRecord>, uuid: Seq<char>, t0: i128) -> bool {
    &&& after.len() == votes_without(before, uuid).len() + 1
    &&& after.drop_last() == votes_without(before, uuid)
    &&& after.last().station_uuid@ == uuid
    &&& after.last().voted_at == t0
}

/// The votes kept by `votes_without` are votes of the list, none for `uuid`.
proof fn lemma_votes_without(s: Seq<VoteRecord>, uuid: Seq<char>)
    ensures
        forall|i: int| 0 <= i < votes_without(s, uuid).len() ==> (#[trigger] votes_without(s, uuid)[i]).station_uuid@ != uuid
            && s.contains(votes_without(s, uuid)[i]),
        one_vote_per_station(s) ==> one_vote_per_station(votes_without(s, uuid)),
    decreases s.len(),
{
    if s.len() > 0 {
        let d = s.drop_last();
        lemma_votes_without(d, uuid);
        let w = votes_without(s, uuid);
        let wd = votes_without(d, uuid);
        assert forall|i: int| 0 <= i < w.len() implies (#[trigger] w[i]).station_uuid@ != uuid && s.contains(w[i]) by {
            if i < wd.len() {
                assert(w[i] == wd[i]);
                let k = choose|k: int| 0 <= k < d.len() && d[k] == wd[i];
                assert(s[k] == d[k]);
            } else {
                assert(w[i] == s.last());
                assert(s[s.len() - 1] == s.last());
            }
        }
        if one_vote_per_station(s) {
            assert(one_vote_per_station(d)) by {
                assert forall|i: int, j: int| 0 <= i < j < d.len() implies (#[trigger] d[i]).station_uuid@
                    != (#[trigger] d[j]).station_uuid@ by {
                    assert(d[i] == s[i] && d[j] == s[j]);
                }
            }
            assert forall|i: int, j: int| 0 <= i < j < w.len() implies (#[trigger] w[i]).station_uuid@
                != (#[trigger] w[j]).station_uuid@ by {
                if j < wd.len() {
                    assert(w[i] == wd[i] && w[j] == wd[j]);
                } else {
                    assert(w[i] == wd[i]);
                    assert(w[j] == s.last());
                    let k = choose|k: int| 0 <= k < d.len() && d[k] == wd[i];
                    assert(s[k] == d[k]);
                    assert(s[s.len() - 1] == s.last());
                }
            }
        }
    }
}

/// A vote recorded at `t0` makes the station count as voted for recently at
/// every time from `t0` until a day has passed, and recording keeps at most
/// one vote per station: `has_voted_recently_at(uuid, now)` answers `true`
/// for every such `now` after `record_vote_at(uuid, t0)`.
pub proof fn law_vote_recent_for_a_day(
    before: Seq<VoteRecord>,
    after: Seq<VoteRecord>,
    uuid: Seq<char>,
    t0: i128,
    now: i128,
)
    requires
        vote_recorded(before, after, uuid, t0),
        t0 <= now < t0 + VOTE_TTL_NANOS,
    ensures
        voted_since(after, uuid, cutoff(now)),
        one_vote_per_station(before) ==> one_vote_per_station(after),
{
    assert(after[after.len() - 1] == after.last());
    lemma_votes_without(before, uuid);
    if one_vote_per_station(before) {
        let w = votes_without(before, uuid);
        assert forall|i: int, j: int| 0 <= i < j < after.len() implies (#[trigger] after[i]).station_uuid@
            != (#[trigger] after[j]).station_uuid@ by {
            assert(after[i] == w[i]);
            if j < after.len() - 1 {
                assert(after[j] == w[j]);
            }
        }
    }
}

/// After cleaning up, every remembered vote is recent.
pub proof fn law_cleanup_keeps_only_fresh(s: Seq<VoteRecord>, cut: int)
    ensures
        forall|i: int| 0 <= i < fresh_votes(s, cut).len() ==> (#[trigger] fresh_votes(s, cut)[i]).voted_at > cut,
    decreases s.len(),
{
    if s.len() > 0 {
        law_cleanup_keeps_only_fresh(s.drop_last(), cut);
        let r = fresh_votes(s.drop_last(), cut);
        assert forall|i: int| 0 <= i < fresh_votes(s, cut).len() implies (#[trigger] fresh_votes(s, cut)[i]).voted_at > cut by {
            if i < r.len() {
                assert(fresh_votes(s, cut)[i] == r[i]);
            }
        }
    }
}

} // verus!
