//! One interactive search session: the page of results on screen, the
//! choice menu built from it, and what each key or choice asks for.

use vstd::prelude::*;
use crate::api::models::Station;
use crate::search::types::SearchQuery;
use crate::text::{string_from_str, string_append_str};

verus! {

/// The page of results a session shows.
pub struct SearchCache {
    results: Vec<Station>,
    current_offset: usize,
    last_limit: usize,
}

impl SearchCache {
    /// The stations of the page.
    pub closed spec fn results(&self) -> Seq<Station> {
        self.results@
    }

    /// The offset of the page's first station among all results.
    pub closed spec fn current_offset(&self) -> nat {
        self.current_offset as nat
    }

    /// The page size the page was asked for with.
    pub closed spec fn last_limit(&self) -> nat {
        self.last_limit as nat
    }

    /// An empty cache: no stations, offset and page size zero.
    pub fn new() -> (c: SearchCache)
        ensures
            c.results() == Seq::<Station>::empty(),
            c.current_offset() == 0,
            c.last_limit() == 0,
    {
        SearchCache { results: Vec::new(), current_offset: 0, last_limit: 0 }
    }

    /// Replaces the page by `new_results`, fetched with page size `limit` at `offset`.
    pub fn update(&mut self, new_results: Vec<Station>, limit: usize, offset: usize)
        ensures
            final(self).results() == new_results@,
            final(self).current_offset() == offset,
            final(self).last_limit() == limit,
    {
        self.results = new_results;
        self.current_offset = offset;
        self.last_limit = limit;
    }

    /// Whether a further page may exist: the page came back full, with a
    /// page size above zero.
    pub fn has_more(&self) -> (b: bool)
        ensures
            b == (self.results().len() >= self.last_limit() && self.last_limit() > 0),
    {
        self.results.len() >= self.last_limit && self.last_limit > 0
    }

    /// The stations of the page.
    pub fn stations(&self) -> (r: &Vec<Station>)
        ensures
            r@ == self.results(),
    {
        &self.results
    }

    /// The offset of the page's first station.
    pub fn offset(&self) -> (r: usize)
        ensures
            r == self.current_offset(),
    {
        self.current_offset
    }

    /// The offset at which the next page starts: right after this one.
    pub fn next_offset(&self) -> (r: usize)
        requires
            self.current_offset() + self.results().len() <= usize::MAX,
        ensures
            r == self.current_offset() + self.results().len(),
    {
        self.current_offset + self.results.len()
    }
}

/// What the user picked in the result menu.
#[derive(Debug, Clone)]
pub enum SearchAction {
    /// Play a station, given by its name and resolved stream address.
    Play(String, String),
    NextPage,
    PrevPage,
}

/// One entry of the result menu: the number it answers with, its label and a hint.
#[derive(Debug, Clone)]
pub struct MenuItem {
    pub index: usize,
    pub label: String,
    pub hint: String,
}

/// Whether a further page is offered: the page is as long as the page size.
pub open spec fn offers_next(results_len: nat, q_limit: nat) -> bool {
    results_len == q_limit
}

/// Whether a previous page is offered: the page does not start at the first result.
pub open spec fn offers_prev(q_offset: nat) -> bool {
    q_offset > 0
}

/// The number the "previous page" entry answers with: right after the
/// "next page" entry when that is offered, else right after the stations.
pub open spec fn prev_entry_index(results_len: nat, q_limit: nat) -> nat {
    if offers_next(results_len, q_limit) { results_len + 1 } else { results_len }
}

/// The menu entry of the `i`-th station: its name, and its country and language as hint.
pub open spec fn station_entry_matches(item: MenuItem, i: int, s: Station) -> bool {
    &&& item.index == i
    &&& item.label@ == s.name@
    &&& item.hint@ == s.country@ + " \u{2022} "@ + s.language@
}

/// The result menu of a page: one entry per station, numbered from zero,
/// then "next page" and "previous page" entries where they are offered.
pub open spec fn menu_matches(items: Seq<MenuItem>, results: Seq<Station>, q_limit: nat, q_offset: nat) -> bool {
    let n = results.len();
    let has_next = offers_next(n, q_limit);
    let has_prev = offers_prev(q_offset);
    let extra = (if has_next { 1int } else { 0int }) + (if has_prev { 1int } else { 0int });
    &&& items.len() == n + extra
    &&& forall|i: int| 0 <= i < n ==> #[trigger] station_entry_matches(items[i], i, results[i])
    &&& has_next ==> {
        &&& items[n as int].index == n
        &&& items[n as int].label@ == "\u{2192} See next stations"@
        &&& items[n as int].hint@ == "Load more results"@
    }
    &&& has_prev ==> {
        let k = items.len() - 1;
        &&& items[k].index == prev_entry_index(n, q_limit)
        &&& items[k].label@ == "\u{2190} See previous stations"@
        &&& items[k].hint@ == "Go back"@
    }
}

/// The menu of choices for a page of results fetched with `query`.
pub fn result_menu(results: &Vec<Station>, query: &SearchQuery) -> (items: Vec<MenuItem>)
    requires
        results.len() < usize::MAX,
    ensures
        menu_matches(items@, results@, query.limit as nat, query.offset as nat),
{
    let mut items: Vec<MenuItem> = Vec::new();
    let n = results.len();
    let mut i: usize = 0;
    while i < n
        invariant
            n == results.len(),
            i <= n,
            items.len() == i,
            forall|j: int| 0 <= j < i ==> #[trigger] station_entry_matches(items[j], j, results@[j]),
        decreases n - i,
    {
        let station = &results[i];
        let mut hint = station.country.clone();
        string_append_str(&mut hint, " \u{2022} ");
        string_append_str(&mut hint, station.language.as_str());
        items.push(MenuItem { index: i, label: station.name.clone(), hint });
        i = i + 1;
    }
    let has_next = n == query.limit;
    let has_prev = query.offset > 0;
    if has_next {
        items.push(MenuItem {
            index: n,
            label: string_from_str("\u{2192} See next stations"),
            hint: string_from_str("Load more results"),
        });
    }
    if has_prev {
        let prev_index = if has_next { n + 1 } else { n };
        items.push(MenuItem {
            index: prev_index,
            label: string_from_str("\u{2190} See previous stations"),
            hint: string_from_str("Go back"),
        });
    }
    items
}

/// The meaning of a menu entry.
pub enum MenuChoice {
    /// The station at this position of the page.
    Station(nat),
    NextPage,
    PrevPage,
}

/// What the menu entry numbered `selected` asks for: a station to play, the
/// next or the previous page, or nothing for a number no entry has.
pub open spec fn menu_choice_of(results_len: nat, q_limit: nat, q_offset: nat, selected: nat) -> Option<MenuChoice> {
    if selected < results_len {
        Some(MenuChoice::Station(selected))
    } else if offers_next(results_len, q_limit) && selected == results_len {
        Some(MenuChoice::NextPage)
    } else if offers_prev(q_offset) && selected == prev_entry_index(results_len, q_limit) {
        Some(MenuChoice::PrevPage)
    } else {
        None
    }
}

/// The action of the menu entry numbered `selected` for a page fetched with `query`.
pub fn menu_choice(results: &Vec<Station>, query: &SearchQuery, selected: usize) -> (a: Option<SearchAction>)
    requires
        results.len() < usize::MAX,
    ensures
        match menu_choice_of(results.len() as nat, query.limit as nat, query.offset as nat, selected as nat) {
            Some(MenuChoice::Station(i)) => a matches Some(SearchAction::Play(name, url))
                && name@ == results@[i as int].name@ && url@ == results@[i as int].url_resolved@,
            Some(MenuChoice::NextPage) => a matches Some(SearchAction::NextPage),
            Some(MenuChoice::PrevPage) => a matches Some(SearchAction::PrevPage),
            None => a is None,
        },
{
    let n = results.len();
    let has_next = n == query.limit;
    let has_prev = query.offset > 0;
    let prev_index = if has_next { n + 1 } else { n };
    if selected < n {
        Some(SearchAction::Play(results[selected].name.clone(), results[selected].url_resolved.clone()))
    } else if has_next && selected == n {
        Some(SearchAction::NextPage)
    } else if has_prev && selected == prev_index {
        Some(SearchAction::PrevPage)
    } else {
        None
    }
}

/// A key of the interactive result list.
#[derive(Debug, Clone, Copy, PartialEq, Eq)]
pub enum SessionKey {
    /// `Esc`, `q` or `Q`.
    Quit,
    /// The up arrow or `k`.
    Up,
    /// The down arrow or `j`.
    Down,
    /// `f` or `F`.
    Favorite,
    /// `v` or `V`.
    Vote,
    /// `n` or `N`.
    Next,
    /// `Enter`.
    Play,
    /// Any other key.
    Other,
}

/// What a key of the interactive result list asks the session to do.
#[derive(Debug, Clone, Copy, PartialEq, Eq)]
pub enum SessionAction {
    /// Leave the list without choosing.
    Quit,
    /// Move the highlight to the station at this position.
    Select(usize),
    /// Add or remove the station at this position as favorite.
    ToggleFavorite(usize),
    /// Vote for the station at this position.
    Vote(usize),
    /// Fetch the page after this one.
    LoadNextPage,
    /// Play the station at this position and leave the list.
    Play(usize),
    /// Nothing.
    Ignore,
}

/// What `key` asks for when `selected` is highlighted among `len` stations
/// and `has_more` says whether a further page may exist. Moving stops at
/// either end; the station actions need a highlighted station that exists.
pub open spec fn session_action(key: SessionKey, selected: nat, len: nat, has_more: bool) -> SessionAction {
    match key {
        SessionKey::Quit => SessionAction::Quit,
        SessionKey::Up => if selected > 0 { SessionAction::Select((selected - 1) as usize) } else { SessionAction::Ignore },
        SessionKey::Down => if selected + 1 < len { SessionAction::Select((selected + 1) as usize) } else { SessionAction::Ignore },
        SessionKey::Favorite => if selected < len { SessionAction::ToggleFavorite(selected as usize) } else { SessionAction::Ignore },
        SessionKey::Vote => if selected < len { SessionAction::Vote(selected as usize) } else { SessionAction::Ignore },
        SessionKey::Next => if has_more { SessionAction::LoadNextPage } else { SessionAction::Ignore },
        SessionKey::Play => if selected < len { SessionAction::Play(selected as usize) } else { SessionAction::Ignore },
        SessionKey::Other => SessionAction::Ignore,
    }
}

/// The action of `key` in the interactive result list.
///
/// Moving down needs at least one station on the page.
pub fn session_key_action(key: SessionKey, selected: usize, len: usize, has_more: bool) -> (a: SessionAction)
    requires
        key == SessionKey::Down ==> len > 0,
    ensures
        a == session_action(key, selected as nat, len as nat, has_more),
{
    match key {
        SessionKey::Quit => SessionAction::Quit,
        SessionKey::Up => if selected > 0 { SessionAction::Select(selected - 1) } else { SessionAction::Ignore },
        SessionKey::Down => if selected < len - 1 { SessionAction::Select(selected + 1) } else { SessionAction::Ignore },
        SessionKey::Favorite => if selected < len { SessionAction::ToggleFavorite(selected) } else { SessionAction::Ignore },
        SessionKey::Vote => if selected < len { SessionAction::Vote(selected) } else { SessionAction::Ignore },
        SessionKey::Next => if has_more { SessionAction::LoadNextPage } else { SessionAction::Ignore },
        SessionKey::Play => if selected < len { SessionAction::Play(selected) } else { SessionAction::Ignore },
        SessionKey::Other => SessionAction::Ignore,
    }
}

} // verus!
