//! The result pages of the browse tab: which page is shown, whether it is
//! the last, and a small cache of pages already fetched that forgets the
//! page farthest from the shown one when full.

use vstd::prelude::*;
use std::collections::HashMap;
use crate::api::models::Station;
use crate::search::pagination::{without, lemma_without, lemma_push_contains};

verus! {

broadcast use vstd::std_specs::hash::group_hash_axioms;

/// How many fetched pages are kept.
pub const MAX_CACHED_PAGES: usize = 5;

/// The largest page number whose distance to another page the eviction
/// measures as it is: page numbers are turned into 32-bit signed numbers for
/// that, so beyond this bound a page number would wrap, and the distance of
/// two of them could overflow. Pages are reached one step at a time from the
/// first, so no search comes near it.
pub const MAX_PAGE_NUMBER: usize = 2147483647;

/// The pages of the current search.
pub struct Paging {
    pages: HashMap<usize, Vec<Station>>,
    keys: Vec<usize>,
    current_page: usize,
    is_last_page: bool,
    highest_page_loaded: usize,
}

/// The content of a [`Paging`].
pub struct PagingModel {
    /// Fetched pages by number.
    pub pages: Map<usize, Vec<Station>>,
    /// The page shown, from one.
    pub current_page: nat,
    /// Whether no page follows the shown one.
    pub is_last_page: bool,
    /// The highest page number fetched with stations on it.
    pub highest_page_loaded: nat,
}

impl View for Paging {
    type V = PagingModel;

    closed spec fn view(&self) -> PagingModel {
        PagingModel {
            pages: self.pages@,
            current_page: self.current_page as nat,
            is_last_page: self.is_last_page,
            highest_page_loaded: self.highest_page_loaded as nat,
        }
    }
}

/// How far page `a` is from page `b`.
pub open spec fn page_distance(a: int, b: int) -> int {
    if a >= b { a - b } else { b - a }
}

/// What every paging state satisfies: at most `MAX_CACHED_PAGES` pages
/// are kept, and page numbers stay within `MAX_PAGE_NUMBER`.
pub open spec fn paging_wf(m: PagingModel) -> bool {
    &&& m.pages.dom().finite()
    &&& m.pages.dom().len() <= MAX_CACHED_PAGES
    &&& forall|p: usize| #[trigger] m.pages.contains_key(p) ==> p <= MAX_PAGE_NUMBER
    &&& m.current_page <= MAX_PAGE_NUMBER
}

/// The state after showing `page` from the cache with page size `limit`: a
/// short page is the last; a page whose successor is cached, or that lies at
/// or beyond the highest fetched page, is not; otherwise that is unchanged.
pub open spec fn after_show_cached(m: PagingModel, page: usize, limit: nat) -> PagingModel {
    if m.pages.contains_key(page) {
        let s = m.pages[page];
        PagingModel {
            current_page: page as nat,
            is_last_page: if s.len() < limit {
                true
            } else if m.pages.contains_key((page + 1) as usize) {
                false
            } else if page >= m.highest_page_loaded {
                false
            } else {
                m.is_last_page
            },
            ..m
        }
    } else {
        m
    }
}

/// `m2` is a state that storing `stations`, fetched as `page` with page size
/// `limit`, can leave behind from `m`: `page` is shown and cached, it is the
/// last when short, the highest fetched page moves up when the page has
/// stations; when the cache was full, one page farthest from the page shown
/// before was forgotten first (any of them, when several are).
pub open spec fn store_result(m: PagingModel, page: usize, stations: Vec<Station>, limit: nat, m2: PagingModel) -> bool {
    &&& m2.current_page == page
    &&& m2.is_last_page == (stations.len() < limit)
    &&& m2.highest_page_loaded == (if page > m.highest_page_loaded && stations.len() > 0 {
        page as nat
    } else {
        m.highest_page_loaded
    })
    &&& if m.pages.dom().len() < MAX_CACHED_PAGES {
        m2.pages == m.pages.insert(page, stations)
    } else {
        exists|e: usize| #[trigger] m.pages.contains_key(e)
            && (forall|k: usize| #[trigger] m.pages.contains_key(k)
                ==> page_distance(k as int, m.current_page as int) <= page_distance(e as int, m.current_page as int))
            && m2.pages == m.pages.remove(e).insert(page, stations)
    }
}

/// The page a "next page" request loads: the one after the shown page, unless that is the last.
pub open spec fn next_page_target(m: PagingModel) -> Option<nat> {
    if !m.is_last_page { Some(m.current_page + 1) } else { None }
}

/// The page a "previous page" request loads: the one before, from the second page on.
pub open spec fn prev_page_target(m: PagingModel) -> Option<nat> {
    if m.current_page > 1 { Some((m.current_page - 1) as nat) } else { None }
}

impl Paging {
    /// The keys list mirrors the cache's pages.
    pub closed spec fn wf(&self) -> bool {
        &&& paging_wf(self@)
        &&& self.keys@.no_duplicates()
        &&& forall|p: usize| #[trigger] self.keys@.contains(p) <==> self.pages@.contains_key(p)
        &&& self.keys@.len() == self.pages@.dom().len()
    }

    /// Nothing fetched yet, the first page shown.
    pub fn new() -> (p: Paging)
        ensures
            p.wf(),
            p@.pages == Map::<usize, Vec<Station>>::empty(),
            p@.current_page == 1,
            !p@.is_last_page,
            p@.highest_page_loaded == 0,
    {
        let p = Paging { pages: HashMap::new(), keys: Vec::new(), current_page: 1, is_last_page: false, highest_page_loaded: 0 };
        proof {
            assert(p@.pages.dom() =~= Set::<usize>::empty());
        }
        p
    }

    /// The shown page.
    pub fn current_page(&self) -> (r: usize)
        ensures
            r == self@.current_page,
    {
        self.current_page
    }

    /// Whether the shown page is the last.
    pub fn is_last_page(&self) -> (r: bool)
        ensures
            r == self@.is_last_page,
    {
        self.is_last_page
    }

    /// Starts a new search whose first page, fetched with page size `limit`,
    /// holds `stations`: only that page is cached and it is shown.
    pub fn start_search(&mut self, stations: Vec<Station>, limit: usize)
        ensures
            final(self).wf(),
            final(self)@.pages == Map::<usize, Vec<Station>>::empty().insert(1, stations),
            final(self)@.current_page == 1,
            final(self)@.is_last_page == (stations.len() < limit),
            final(self)@.highest_page_loaded == (if stations.len() > 0 { 1nat } else { 0nat }),
    {
        let ghost s = stations;
        self.is_last_page = stations.len() < limit;
        self.highest_page_loaded = if stations.len() > 0 { 1 } else { 0 };
        self.current_page = 1;
        self.pages = HashMap::new();
        self.pages.insert(1, stations);
        self.keys = Vec::new();
        self.keys.push(1);
        proof {
            assert(self.pages@ =~= Map::<usize, Vec<Station>>::empty().insert(1, s));
            assert(self.pages@.dom() =~= set![1usize]);
            assert forall|p: usize| #[trigger] self.keys@.contains(p) <==> self.pages@.contains_key(p) by {
                if self.keys@.contains(p) {
                    let i = choose|i: int| 0 <= i < self.keys@.len() && self.keys@[i] == p;
                    assert(i == 0);
                }
                if p == 1 {
                    assert(self.keys@[0] == 1);
                }
            }
        }
    }

    /// Shows `page` from the cache when it is there (see [`after_show_cached`])
    /// and returns its stations; otherwise nothing changes.
    pub fn show_cached(&mut self, page: usize, limit: usize) -> (r: Option<&Vec<Station>>)
        requires
            old(self).wf(),
        ensures
            final(self).wf(),
            final(self)@ == after_show_cached(old(self)@, page, limit as nat),
            match r {
                Some(v) => old(self)@.pages.contains_key(page) && *v == old(self)@.pages[page],
                None => !old(self)@.pages.contains_key(page),
            },
    {
        if !self.pages.contains_key(&page) {
            return None;
        }
        let len = match self.pages.get(&page) {
            Some(v) => v.len(),
            None => 0,
        };
        let last = if len < limit {
            true
        } else if self.pages.contains_key(&(page + 1)) {
            false
        } else if page >= self.highest_page_loaded {
            false
        } else {
            self.is_last_page
        };
        self.current_page = page;
        self.is_last_page = last;
        self.pages.get(&page)
    }

    /// Stores `stations`, fetched as `page` with page size `limit`, and shows
    /// it (see [`store_result`]). The page number is at most `MAX_PAGE_NUMBER`,
    /// where page distances are still measured as the 32-bit comparison does.
    pub fn store_fetched(&mut self, page: usize, stations: Vec<Station>, limit: usize)
        requires
            old(self).wf(),
            page <= MAX_PAGE_NUMBER,
        ensures
            final(self).wf(),
            store_result(old(self)@, page, stations, limit as nat, final(self)@),
    {
        let ghost m = self@;
        let ghost s = stations;
        self.is_last_page = stations.len() < limit;
        if page > self.highest_page_loaded && stations.len() > 0 {
            self.highest_page_loaded = page;
        }
        if self.keys.len() >= MAX_CACHED_PAGES {
            let cur = self.current_page;
            let mut far = self.keys[0];
            let mut far_dist = if far >= cur { far - cur } else { cur - far };
            let mut i: usize = 1;
            while i < self.keys.len()
                invariant
                    1 <= i <= self.keys.len(),
                    self.keys@.contains(far),
                    far_dist == page_distance(far as int, cur as int),
                    forall|j: int| 0 <= j < i ==> page_distance(#[trigger] self.keys@[j] as int, cur as int) <= far_dist,
                decreases self.keys.len() - i,
            {
                let k = self.keys[i];
                let d = if k >= cur { k - cur } else { cur - k };
                if d >= far_dist {
                    far = k;
                    far_dist = d;
                }
                i = i + 1;
            }
            proof {
                assert forall|k: usize| #[trigger] m.pages.contains_key(k) implies page_distance(k as int, m.current_page as int)
                    <= page_distance(far as int, m.current_page as int) by {
                    assert(self.keys@.contains(k));
                    let j = choose|j: int| 0 <= j < self.keys@.len() && self.keys@[j] == k;
                    assert(page_distance(self.keys@[j] as int, cur as int) <= far_dist);
                }
            }
            self.pages.remove(&far);
            let ghost before = self.keys@;
            self.forget_key(far);
            proof {
                lemma_without(before, far);
                assert(self.pages@.dom() =~= m.pages.dom().remove(far));
                assert forall|p: usize| #[trigger] self.keys@.contains(p) <==> self.pages@.contains_key(p) by {
                    assert(without(before, far).contains(p) <==> (before.contains(p) && p != far));
                }
            }
        }
        let ghost mid = self.keys@;
        let ghost mid_pages = self.pages@;
        if !self.pages.contains_key(&page) {
            self.keys.push(page);
            proof {
                assert forall|p: usize| #[trigger] self.keys@.contains(p) <==> (mid.contains(p) || p == page) by {
                    lemma_push_contains(mid, page, p);
                }
                assert(self.keys@.no_duplicates()) by {
                    assert forall|i: int, j: int| 0 <= i < self.keys@.len() && 0 <= j < self.keys@.len() && i != j
                        implies self.keys@[i] != self.keys@[j] by {
                        if i == mid.len() as int {
                            assert(!mid.contains(page));
                            if mid[j] == page {
                                assert(mid.contains(page));
                            }
                        } else if j == mid.len() as int {
                            if mid[i] == page {
                                assert(mid.contains(page));
                            }
                        }
                    }
                }
            }
        }
        self.pages.insert(page, stations);
        self.current_page = page;
        proof {
            assert(self.pages@ == mid_pages.insert(page, s));
            if mid_pages.contains_key(page) {
                assert(self.pages@.dom() =~= mid_pages.dom());
            } else {
                assert(self.pages@.dom() =~= mid_pages.dom().insert(page));
            }
            assert forall|p: usize| #[trigger] self.keys@.contains(p) <==> self.pages@.contains_key(p) by {
                if mid_pages.contains_key(page) {
                    assert(mid.contains(page));
                }
            }
            assert forall|p: usize| #[trigger] self.pages@.contains_key(p) implies p <= MAX_PAGE_NUMBER by {
                if p != page {
                    assert(mid_pages.contains_key(p));
                    assert(m.pages.contains_key(p));
                }
            }
        }
    }

    /// Removes `page` from the list of cached page numbers.
    fn forget_key(&mut self, page: usize)
        ensures
            final(self).keys@ == without(old(self).keys@, page),
            final(self).pages == old(self).pages,
            final(self).current_page == old(self).current_page,
            final(self).is_last_page == old(self).is_last_page,
            final(self).highest_page_loaded == old(self).highest_page_loaded,
    {
        let mut kept: Vec<usize> = Vec::new();
        let mut i: usize = 0;
        while i < self.keys.len()
            invariant
                i <= self.keys.len(),
                kept@ == without(self.keys@.take(i as int), page),
            decreases self.keys.len() - i,
        {
            proof {
                assert(self.keys@.take(i + 1).drop_last() =~= self.keys@.take(i as int));
            }
            let p = self.keys[i];
            if p != page {
                kept.push(p);
            }
            i = i + 1;
        }
        proof {
            assert(self.keys@.take(self.keys@.len() as int) =~= self.keys@);
        }
        self.keys = kept;
    }

    /// The page a "next page" request loads, if any.
    pub fn next_page_target(&self) -> (r: Option<usize>)
        requires
            self.wf(),
        ensures
            match next_page_target(self@) {
                Some(p) => r == Some(p as usize),
                None => r is None,
            },
    {
        if !self.is_last_page { Some(self.current_page + 1) } else { None }
    }

    /// The page a "previous page" request loads, if any.
    pub fn prev_page_target(&self) -> (r: Option<usize>)
        ensures
            match prev_page_target(self@) {
                Some(p) => r == Some(p as usize),
                None => r is None,
            },
    {
        if self.current_page > 1 { Some(self.current_page - 1) } else { None }
    }

    /// The page a "first page" request loads: the first, unless it is shown.
    pub fn first_page_target(&self) -> (r: Option<usize>)
        ensures
            r == (if self@.current_page != 1 { Some(1usize) } else { None }),
    {
        if self.current_page != 1 { Some(1) } else { None }
    }
}

/// The offset of the first result of `page` (from one) with page size `limit`.
pub fn page_offset(page: usize, limit: usize) -> (r: usize)
    requires
        page >= 1,
        (page - 1) * limit <= usize::MAX,
    ensures
        r == (page - 1) * limit,
{
    (page - 1) * limit
}

/// A page just stored is cached and is the one shown, and the cache never
/// grows past `MAX_CACHED_PAGES`; showing it again from the cache gives the
/// stations that were stored.
pub proof fn law_stored_page_is_cached(m: PagingModel, page: usize, stations: Vec<Station>, limit: nat, m2: PagingModel)
    requires
        paging_wf(m),
        store_result(m, page, stations, limit, m2),
    ensures
        m2.pages.contains_key(page),
        m2.pages[page] == stations,
        m2.current_page == page,
        m2.pages.dom().len() <= MAX_CACHED_PAGES,
        after_show_cached(m2, page, limit).current_page == page,
{
    if m.pages.dom().len() < MAX_CACHED_PAGES {
        if m.pages.contains_key(page) {
            assert(m2.pages.dom() =~= m.pages.dom());
        } else {
            assert(m2.pages.dom() =~= m.pages.dom().insert(page));
        }
    } else {
        let e = choose|e: usize| #[trigger] m.pages.contains_key(e)
            && (forall|k: usize| #[trigger] m.pages.contains_key(k)
                ==> page_distance(k as int, m.current_page as int) <= page_distance(e as int, m.current_page as int))
            && m2.pages == m.pages.remove(e).insert(page, stations);
        let r = m.pages.remove(e);
        assert(r.dom() =~= m.pages.dom().remove(e));
        assert(r.dom().len() == m.pages.dom().len() - 1);
        if r.contains_key(page) {
            assert(m2.pages.dom() =~= r.dom());
        } else {
            assert(m2.pages.dom() =~= r.dom().insert(page));
        }
    }
}

} // verus!
