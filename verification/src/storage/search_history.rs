//! Recently run search queries, newest first.

use vstd::prelude::*;
use crate::text::string_equals_str;

verus! {

/// A query the user ran.
#[derive(Debug, Clone)]
pub struct SearchHistoryEntry {
    pub query: String,
    /// When it was run, in nanoseconds since the Unix epoch.
    pub timestamp: i128,
    pub result_count: Option<usize>,
}

impl SearchHistoryEntry {
    /// A copy of this entry.
    pub fn duplicate(&self) -> (e: SearchHistoryEntry)
        ensures
            e == *self,
    {
        SearchHistoryEntry {
            query: self.query.clone(),
            timestamp: self.timestamp,
            result_count: self.result_count,
        }
    }
}

/// The entry recording that `query` was run at `now` and found `result_count` stations.
pub open spec fn entry_of(query: String, now: i128, result_count: Option<usize>) -> SearchHistoryEntry {
    SearchHistoryEntry { query, timestamp: now, result_count }
}

/// The saved list of queries.
#[derive(Debug)]
pub struct SearchHistoryData {
    pub queries: Vec<SearchHistoryEntry>,
}

/// Number of queries kept.
pub const MAX_SEARCH_HISTORY: usize = 50;

/// The entries without those for query `q`, order kept.
pub open spec fn without_query(s: Seq<SearchHistoryEntry>, q: Seq<char>) -> Seq<SearchHistoryEntry>
    decreases s.len(),
{
    if s.len() == 0 {
        Seq::empty()
    } else {
        let r = without_query(s.drop_last(), q);
        if s.last().query@ == q {
            r
        } else {
            r.push(s.last())
        }
    }
}

/// The history after running `query` at `now`: any older entry for the same
/// query is dropped, the new entry goes first, and only the first `max` entries stay.
pub open spec fn after_query(
    s: Seq<SearchHistoryEntry>,
    entry: SearchHistoryEntry,
    max: nat,
) -> Seq<SearchHistoryEntry> {
    let t = seq![entry] + without_query(s, entry.query@);
    if t.len() > max {
        t.take(max as int)
    } else {
        t
    }
}

/// No two entries are for the same query.
pub open spec fn queries_distinct(s: Seq<SearchHistoryEntry>) -> bool {
    forall|i: int, j: int| 0 <= i < j < s.len() ==> s[i].query@ != s[j].query@
}

/// Dropping a query's entries leaves none for it, keeps the others in order
/// and keeps them distinct.
pub proof fn lemma_without_query(s: Seq<SearchHistoryEntry>, q: Seq<char>)
    ensures
        forall|i: int| 0 <= i < without_query(s, q).len() ==> (#[trigger] without_query(s, q)[i]).query@ != q,
        forall|i: int| 0 <= i < without_query(s, q).len() ==> s.contains(#[trigger] without_query(s, q)[i]),
        queries_distinct(s) ==> queries_distinct(without_query(s, q)),
        without_query(s, q).len() <= s.len(),
    decreases s.len(),
{
    if s.len() > 0 {
        let d = s.drop_last();
        lemma_without_query(d, q);
        let w = without_query(s, q);
        let wd = without_query(d, q);
        assert forall|i: int| 0 <= i < w.len() implies s.contains(#[trigger] w[i]) by {
            if i < wd.len() {
                assert(w[i] == wd[i]);
                assert(d.contains(wd[i]));
                let j = choose|j: int| 0 <= j < d.len() && d[j] == wd[i];
                assert(s[j] == wd[i]);
            } else {
                assert(s[s.len() - 1] == w[i]);
            }
        }
        if queries_distinct(s) {
            assert(queries_distinct(d));
            assert forall|i: int, j: int| 0 <= i < j < w.len() implies w[i].query@ != w[j].query@ by {
                if j < wd.len() {
                    assert(w[i] == wd[i] && w[j] == wd[j]);
                } else {
                    assert(w[i] == wd[i]);
                    assert(d.contains(wd[i]));
                    let k = choose|k: int| 0 <= k < d.len() && d[k] == wd[i];
                    assert(s[k].query@ != s[s.len() - 1].query@);
                }
            }
        }
    }
}

/// Keeps the most recent search queries, newest first, one entry per query.
pub struct SearchHistoryManager {
    file_path: String,
    history: SearchHistoryData,
    max_entries: usize,
}

impl SearchHistoryManager {
    /// A manager of the history loaded from (and saved to) `file_path`,
    /// keeping `MAX_SEARCH_HISTORY` queries.
    pub fn new(file_path: String, history: SearchHistoryData) -> (m: SearchHistoryManager)
        ensures
            m.entries() == history.queries@,
            m.max() == MAX_SEARCH_HISTORY,
            m.path() == file_path@,
    {
        SearchHistoryManager { file_path, history, max_entries: MAX_SEARCH_HISTORY }
    }

    /// The entries, newest first.
    pub closed spec fn entries(&self) -> Seq<SearchHistoryEntry> {
        self.history.queries@
    }

    /// How many entries are kept.
    pub closed spec fn max(&self) -> nat {
        self.max_entries as nat
    }

    /// Where the history is saved.
    pub closed spec fn path(&self) -> Seq<char> {
        self.file_path@
    }

    /// The file the history is saved to.
    pub fn file_path(&self) -> (p: &String)
        ensures
            p@ == self.path(),
    {
        &self.file_path
    }

    /// The saved list, for writing it out.
    pub fn data(&self) -> (d: &SearchHistoryData)
        ensures
            d.queries@ == self.entries(),
    {
        &self.history
    }

    /// Records that `query` was run at time `now` and found `result_count` stations.
    pub fn add_query_at(&mut self, query: String, result_count: Option<usize>, now: i128)
        ensures
            final(self).entries() == after_query(
                old(self).entries(),
                entry_of(query, now, result_count),
                old(self).max(),
            ),
            final(self).max() == old(self).max(),
            final(self).path() == old(self).path(),
    {
        let mut kept: Vec<SearchHistoryEntry> = Vec::new();
        let mut i: usize = 0;
        let ghost q = query@;
        while i < self.history.queries.len()
            invariant
                i <= self.history.queries.len(),
                q == query@,
                kept@ == without_query(self.history.queries@.take(i as int), q),
            decreases self.history.queries.len() - i,
        {
            proof {
                assert(self.history.queries@.take(i + 1).drop_last() =~= self.history.queries@.take(
                    i as int,
                ));
            }
            if !string_equals_str(&self.history.queries[i].query, query.as_str()) {
                kept.push(self.history.queries[i].duplicate());
            }
            i = i + 1;
        }
        proof {
            assert(self.history.queries@.take(self.history.queries@.len() as int)
                =~= self.history.queries@);
        }
        let entry = SearchHistoryEntry { query, timestamp: now, result_count };
        let ghost e = entry;
        kept.insert(0, entry);
        proof {
            assert(kept@ =~= seq![e] + without_query(old(self).history.queries@, q));
        }
        if kept.len() > self.max_entries {
            kept.truncate(self.max_entries);
        }
        self.history.queries = kept;
    }

    /// Records that `query` was run now and found `result_count` stations.
    pub fn add_query(&mut self, query: String, result_count: Option<usize>)
        ensures
            exists|now: i128|
                final(self).entries() == after_query(
                    old(self).entries(),
                    #[trigger] entry_of(query, now, result_count),
                    old(self).max(),
                ),
            final(self).max() == old(self).max(),
            final(self).path() == old(self).path(),
    {
        let now = crate::clock::now_nanos();
        self.add_query_at(query, result_count, now);
    }

    /// The `limit` most recent entries (all of them when there are fewer).
    pub fn get_recent_queries(&self, limit: usize) -> (r: Vec<&SearchHistoryEntry>)
        ensures
            r@.len() == if limit < self.entries().len() {
                limit as nat
            } else {
                self.entries().len()
            },
            forall|i: int| 0 <= i < r@.len() ==> *(#[trigger] r@[i]) == self.entries()[i],
    {
        let mut r: Vec<&SearchHistoryEntry> = Vec::new();
        let mut i: usize = 0;
        while i < limit && i < self.history.queries.len()
            invariant
                i <= self.history.queries.len(),
                i <= limit,
                r@.len() == i,
                forall|k: int| 0 <= k < i ==> *(#[trigger] r@[k]) == self.history.queries@[k],
            decreases self.history.queries.len() - i,
        {
            r.push(&self.history.queries[i]);
            i = i + 1;
        }
        r
    }

    /// All entries, newest first.
    pub fn get_all(&self) -> (s: &[SearchHistoryEntry])
        ensures
            s@ == self.entries(),
    {
        self.history.queries.as_slice()
    }
}

/// After running a query its entry comes first, at most `max` entries are
/// kept (when `max` is positive), and queries stay distinct.
pub proof fn law_query_history(s: Seq<SearchHistoryEntry>, entry: SearchHistoryEntry, max: nat)
    requires
        queries_distinct(s),
        max > 0,
    ensures
        after_query(s, entry, max)[0] == entry,
        after_query(s, entry, max).len() <= max,
        queries_distinct(after_query(s, entry, max)),
{
    lemma_without_query(s, entry.query@);
    let w = without_query(s, entry.query@);
    let t = seq![entry] + w;
    assert(t[0] == entry);
    assert(queries_distinct(t)) by {
        assert forall|i: int, j: int| 0 <= i < j < t.len() implies t[i].query@ != t[j].query@ by {
            if i == 0 {
                assert(t[j] == w[j - 1]);
            } else {
                assert(t[i] == w[i - 1] && t[j] == w[j - 1]);
            }
        }
    }
}

} // verus!
