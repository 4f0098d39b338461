//! A least-recently-used cache of result pages.

use vstd::prelude::*;
use std::collections::HashMap;
use crate::api::models::Station;

verus! {

broadcast use vstd::std_specs::hash::group_hash_axioms;

/// Result pages by page number, evicting the least recently used page when full.
pub struct PageCache {
    pages: HashMap<usize, Vec<Station>>,
    lru_order: Vec<usize>,
    max_pages: usize,
}

/// The content of a [`PageCache`]: its pages, their use order (least recent
/// first) and the number of pages it is meant to hold.
pub struct PageCacheModel {
    pub pages: Map<usize, Vec<Station>>,
    pub order: Seq<usize>,
    pub max_pages: nat,
}

impl View for PageCache {
    type V = PageCacheModel;

    closed spec fn view(&self) -> PageCacheModel {
        PageCacheModel { pages: self.pages@, order: self.lru_order@, max_pages: self.max_pages as nat }
    }
}

/// `s` without any occurrence of `x`, order kept.
pub open spec fn without(s: Seq<usize>, x: usize) -> Seq<usize>
    decreases s.len(),
{
    if s.len() == 0 {
        Seq::empty()
    } else {
        let r = without(s.drop_last(), x);
        if s.last() == x {
            r
        } else {
            r.push(s.last())
        }
    }
}

/// The pages held never exceed the capacity (at least one page always fits).
pub open spec fn size_bound(max_pages: nat) -> nat {
    if max_pages == 0 {
        1
    } else {
        max_pages
    }
}

/// A well-formed cache: the use order lists each held page exactly once,
/// and no more pages are held than the capacity allows.
pub open spec fn cache_wf(m: PageCacheModel) -> bool {
    &&& m.order.no_duplicates()
    &&& forall|p: usize| #[trigger] m.order.contains(p) <==> m.pages.contains_key(p)
    &&& m.pages.dom().finite()
    &&& m.order.len() == m.pages.dom().len()
    &&& m.pages.dom().len() <= size_bound(m.max_pages)
}

/// The cache after a lookup of `page`: a held page becomes the most recently used.
pub open spec fn after_get(m: PageCacheModel, page: usize) -> PageCacheModel {
    if m.pages.contains_key(page) {
        PageCacheModel { order: without(m.order, page).push(page), ..m }
    } else {
        m
    }
}

/// The cache after storing `stations` as `page`: when full and `page` is
/// new, the least recently used page goes first; `page` becomes the most
/// recently used.
pub open spec fn after_insert(m: PageCacheModel, page: usize, stations: Vec<Station>) -> PageCacheModel {
    let evict = m.pages.dom().len() >= m.max_pages && !m.pages.contains_key(page) && m.order.len() > 0;
    let order = if evict {
        m.order.drop_first()
    } else {
        m.order
    };
    let pages = if evict {
        m.pages.remove(m.order[0])
    } else {
        m.pages
    };
    PageCacheModel { pages: pages.insert(page, stations), order: without(order, page).push(page), ..m }
}

/// A value occurs in a sequence extended by one element exactly when it
/// occurred before or is that element.
pub proof fn lemma_push_contains(s: Seq<usize>, a: usize, y: usize)
    ensures
        s.push(a).contains(y) <==> (s.contains(y) || a == y),
{
    if s.push(a).contains(y) {
        let i = choose|i: int| 0 <= i < s.push(a).len() && s.push(a)[i] == y;
        if i < s.len() {
            assert(s[i] == y);
        }
    }
    if s.contains(y) {
        let i = choose|i: int| 0 <= i < s.len() && s[i] == y;
        assert(s.push(a)[i] == y);
    }
    if a == y {
        assert(s.push(a)[s.len() as int] == y);
    }
}

/// Facts about removing every occurrence of a value.
pub proof fn lemma_without(s: Seq<usize>, x: usize)
    ensures
        forall|y: usize| #[trigger] without(s, x).contains(y) <==> (s.contains(y) && y != x),
        s.no_duplicates() ==> without(s, x).no_duplicates(),
        s.no_duplicates() && s.contains(x) ==> without(s, x).len() == s.len() - 1,
        !s.contains(x) ==> without(s, x) == s,
        without(s, x).len() <= s.len(),
    decreases s.len(),
{
    if s.len() > 0 {
        let d = s.drop_last();
        let a = s.last();
        assert(s =~= d.push(a));
        lemma_without(d, x);
        let w = without(s, x);
        let wd = without(d, x);
        assert forall|y: usize| #[trigger] w.contains(y) <==> (s.contains(y) && y != x) by {
            lemma_push_contains(d, a, y);
            if a != x {
                lemma_push_contains(wd, a, y);
            }
        }
        if s.no_duplicates() {
            assert(d.no_duplicates());
            if a != x {
                lemma_push_contains(d, a, a);
                assert(!d.contains(a)) by {
                    if d.contains(a) {
                        let i = choose|i: int| 0 <= i < d.len() && d[i] == a;
                        assert(s[i] == s[s.len() - 1]);
                    }
                }
                assert(!wd.contains(a));
                assert forall|i: int, j: int| 0 <= i < w.len() && 0 <= j < w.len() && i != j implies w[i]
                    != w[j] by {
                    if i < wd.len() && j < wd.len() {
                    } else if i == wd.len() {
                        assert(wd[j] != a) by {
                            if wd[j] == a {
                                assert(wd.contains(a));
                            }
                        }
                    } else {
                        assert(wd[i] != a) by {
                            if wd[i] == a {
                                assert(wd.contains(a));
                            }
                        }
                    }
                }
            }
        }
        lemma_push_contains(d, a, x);
        if s.no_duplicates() && s.contains(x) {
            if a == x {
                assert(!d.contains(x)) by {
                    if d.contains(x) {
                        let i = choose|i: int| 0 <= i < d.len() && d[i] == x;
                        assert(s[i] == s[s.len() - 1]);
                    }
                }
            }
        }
    }
}

impl PageCache {
    /// An empty cache meant to hold `max_pages` pages.
    pub fn new(max_pages: usize) -> (c: PageCache)
        ensures
            cache_wf(c@),
            c@.pages == Map::<usize, Vec<Station>>::empty(),
            c@.order == Seq::<usize>::empty(),
            c@.max_pages == max_pages,
    {
        let c = PageCache { pages: HashMap::new(), lru_order: Vec::new(), max_pages };
        proof {
            assert(c@.pages.dom() =~= Set::<usize>::empty());
        }
        c
    }

    /// Removes `page` from the use order.
    fn forget_use(&mut self, page: usize)
        ensures
            final(self).lru_order@ == without(old(self).lru_order@, page),
            final(self).pages == old(self).pages,
            final(self).max_pages == old(self).max_pages,
    {
        let mut kept: Vec<usize> = Vec::new();
        let mut i: usize = 0;
        while i < self.lru_order.len()
            invariant
                i <= self.lru_order.len(),
                kept@ == without(self.lru_order@.take(i as int), page),
            decreases self.lru_order.len() - i,
        {
            proof {
                assert(self.lru_order@.take(i + 1).drop_last() =~= self.lru_order@.take(i as int));
            }
            let p = self.lru_order[i];
            if p != page {
                kept.push(p);
            }
            i = i + 1;
        }
        proof {
            assert(self.lru_order@.take(self.lru_order@.len() as int) =~= self.lru_order@);
        }
        self.lru_order = kept;
    }

    /// The stations of `page`, if held; a held page becomes the most recently used.
    pub fn get(&mut self, page: usize) -> (r: Option<&Vec<Station>>)
        requires
            cache_wf(old(self)@),
        ensures
            cache_wf(final(self)@),
            final(self)@ == after_get(old(self)@, page),
            match r {
                Some(v) => old(self)@.pages.contains_key(page) && *v == old(self)@.pages[page],
                None => !old(self)@.pages.contains_key(page),
            },
    {
        if self.pages.contains_key(&page) {
            self.forget_use(page);
            self.lru_order.push(page);
            proof {
                let m = old(self)@;
                lemma_without(m.order, page);
                assert forall|p: usize| #[trigger] self@.order.contains(p) <==> self@.pages.contains_key(p) by {
                    lemma_push_contains(without(m.order, page), page, p);
                }
                lemma_push_contains(without(m.order, page), page, page);
                assert(!without(m.order, page).contains(page));
                assert forall|i: int, j: int| 0 <= i < self@.order.len() && 0 <= j < self@.order.len() && i != j implies self@.order[i] != self@.order[j] by {
                    let w = without(m.order, page);
                    if i < w.len() && j < w.len() {
                    } else if i == w.len() {
                        assert(w[j] != page) by {
                            if w[j] == page {
                                assert(w.contains(page));
                            }
                        }
                    } else {
                        assert(w[i] != page) by {
                            if w[i] == page {
                                assert(w.contains(page));
                            }
                        }
                    }
                }
            }
            self.pages.get(&page)
        } else {
            None
        }
    }

    /// Stores `stations` as `page`, evicting the least recently used page when full.
    pub fn insert(&mut self, page: usize, stations: Vec<Station>)
        requires
            cache_wf(old(self)@),
        ensures
            cache_wf(final(self)@),
            final(self)@ == after_insert(old(self)@, page, stations),
    {
        let ghost m = self@;
        if self.pages.len() >= self.max_pages && !self.pages.contains_key(&page) {
            if self.lru_order.len() > 0 {
                let oldest = self.lru_order[0];
                self.pages.remove(&oldest);
                self.lru_order.remove(0);
                proof {
                    assert(self.lru_order@ =~= m.order.drop_first());
                }
            }
        }
        let ghost mid = self@;
        proof {
            let evict = m.pages.dom().len() >= m.max_pages && !m.pages.contains_key(page) && m.order.len() > 0;
            if evict {
                let o = m.order[0];
                assert(m.order.contains(o));
                assert(m.order =~= seq![o] + mid.order);
                assert forall|p: usize| #[trigger] mid.order.contains(p) <==> mid.pages.contains_key(p) by {
                    if mid.order.contains(p) {
                        let i = choose|i: int| 0 <= i < mid.order.len() && mid.order[i] == p;
                        assert(m.order[i + 1] == p);
                        assert(m.order.contains(p));
                        assert(p != o);
                    }
                    if mid.pages.contains_key(p) {
                        assert(m.order.contains(p));
                        let i = choose|i: int| 0 <= i < m.order.len() && m.order[i] == p;
                        assert(i != 0);
                        assert(mid.order[i - 1] == p);
                    }
                }
                assert(mid.order.no_duplicates()) by {
                    assert forall|i: int, j: int| 0 <= i < mid.order.len() && 0 <= j < mid.order.len() && i != j implies mid.order[i] != mid.order[j] by {
                        assert(mid.order[i] == m.order[i + 1]);
                        assert(mid.order[j] == m.order[j + 1]);
                    }
                }
                assert(mid.pages.dom() =~= m.pages.dom().remove(o));
            } else {
                assert(mid == m);
            }
            assert(mid.pages.dom().len() == mid.order.len());
            assert(mid.pages.dom().finite());
        }
        self.forget_use(page);
        self.lru_order.push(page);
        self.pages.insert(page, stations);
        proof {
            let w = without(mid.order, page);
            lemma_without(mid.order, page);
            assert forall|p: usize| #[trigger] self@.order.contains(p) <==> self@.pages.contains_key(p) by {
                lemma_push_contains(w, page, p);
            }
            assert(!w.contains(page));
            assert forall|i: int, j: int| 0 <= i < self@.order.len() && 0 <= j < self@.order.len() && i != j implies self@.order[i] != self@.order[j] by {
                if i < w.len() && j < w.len() {
                } else if i == w.len() {
                    assert(w[j] != page) by {
                        if w[j] == page {
                            assert(w.contains(page));
                        }
                    }
                } else {
                    assert(w[i] != page) by {
                        if w[i] == page {
                            assert(w.contains(page));
                        }
                    }
                }
            }
            if mid.pages.contains_key(page) {
                assert(self@.pages.dom() =~= mid.pages.dom());
            } else {
                assert(self@.pages.dom() =~= mid.pages.dom().insert(page));
            }
        }
    }

    /// Drops every page.
    pub fn clear(&mut self)
        ensures
            cache_wf(final(self)@),
            final(self)@.pages == Map::<usize, Vec<Station>>::empty(),
            final(self)@.order == Seq::<usize>::empty(),
            final(self)@.max_pages == old(self)@.max_pages,
    {
        self.pages.clear();
        self.lru_order.clear();
        proof {
            assert(self@.pages.dom() =~= Set::<usize>::empty());
        }
    }
}

/// A page just stored is found by the next lookup, with the stored stations.
pub proof fn law_get_after_insert(m: PageCacheModel, page: usize, stations: Vec<Station>)
    ensures
        after_insert(m, page, stations).pages.contains_key(page),
        after_insert(m, page, stations).pages[page] == stations,
{
}

} // verus!
