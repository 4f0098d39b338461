//! Moving between tabs and through lists, and the station lists the
//! favorites and history tabs show.

use vstd::prelude::*;
use crate::tui::{Tab, BrowseMode};
use crate::api::models::{Station, copy_stations};
use crate::storage::favorites::FavoriteStation;
use crate::storage::history::HistoryStation;
use crate::storage::autovote::AutovoteStation;

verus! {

/// The tab after `t`; the automatic-vote tab is skipped when the feature is off.
pub open spec fn tab_after(t: Tab, autovote_enabled: bool) -> Tab {
    match t {
        Tab::Browse => Tab::Favorites,
        Tab::Favorites => Tab::History,
        Tab::History => if autovote_enabled { Tab::Autovote } else { Tab::Browse },
        Tab::Autovote => Tab::Browse,
    }
}

/// The tab before `t`; the automatic-vote tab is skipped when the feature is off.
pub open spec fn tab_before(t: Tab, autovote_enabled: bool) -> Tab {
    match t {
        Tab::Browse => if autovote_enabled { Tab::Autovote } else { Tab::History },
        Tab::Favorites => Tab::Browse,
        Tab::History => Tab::Favorites,
        Tab::Autovote => Tab::History,
    }
}

/// The tab `Tab` moves to from `t`.
pub fn next_tab(t: Tab, autovote_enabled: bool) -> (r: Tab)
    ensures
        r == tab_after(t, autovote_enabled),
{
    match t {
        Tab::Browse => Tab::Favorites,
        Tab::Favorites => Tab::History,
        Tab::History => if autovote_enabled { Tab::Autovote } else { Tab::Browse },
        Tab::Autovote => Tab::Browse,
    }
}

/// The tab `Shift-Tab` moves to from `t`.
pub fn prev_tab(t: Tab, autovote_enabled: bool) -> (r: Tab)
    ensures
        r == tab_before(t, autovote_enabled),
{
    match t {
        Tab::Browse => if autovote_enabled { Tab::Autovote } else { Tab::History },
        Tab::Favorites => Tab::Browse,
        Tab::History => Tab::Favorites,
        Tab::Autovote => Tab::History,
    }
}

/// Moving to the next tab and back returns to the tab one started from,
/// and so does moving back first, as long as that tab is one the cycle
/// visits (the automatic-vote tab only when the feature is on).
pub proof fn law_tab_round_trip(t: Tab, autovote_enabled: bool)
    requires
        autovote_enabled || t != Tab::Autovote,
    ensures
        tab_before(tab_after(t, autovote_enabled), autovote_enabled) == t,
        tab_after(tab_before(t, autovote_enabled), autovote_enabled) == t,
{
}

/// With the automatic-vote feature on, four steps visit every tab and return;
/// with it off, three do.
pub proof fn law_tab_cycle_period(t: Tab, autovote_enabled: bool)
    requires
        autovote_enabled || t != Tab::Autovote,
    ensures
        autovote_enabled ==> tab_after(tab_after(tab_after(tab_after(t, true), true), true), true) == t,
        !autovote_enabled ==> tab_after(tab_after(tab_after(t, false), false), false) == t,
{
}

/// Whether a browse mode shows a list of countries, genres or languages to pick from.
pub open spec fn lists_choices(mode: BrowseMode) -> bool {
    mode == BrowseMode::ByCountry || mode == BrowseMode::ByGenre || mode == BrowseMode::ByLanguage
}

/// The length of the list a browse mode picks from.
pub open spec fn choice_count(mode: BrowseMode, countries: nat, genres: nat, languages: nat) -> nat {
    match mode {
        BrowseMode::ByCountry => countries,
        BrowseMode::ByGenre => genres,
        BrowseMode::ByLanguage => languages,
        _ => 0,
    }
}

/// The position after `index` in a list of `len`: one further, but never past the end.
pub open spec fn index_after(index: nat, len: nat) -> nat {
    if index + 1 < len { index + 1 } else { index }
}

/// The position before `index`: one back, but never before the start.
pub open spec fn index_before(index: nat) -> nat {
    if index > 0 { (index - 1) as nat } else { 0 }
}

/// How far a page jump moves: the number of visible rows, at least one.
pub open spec fn jump_size(visible: nat) -> nat {
    if visible > 0 { visible } else { 1 }
}

/// The position a page down moves to: a page further, stopping at the last entry.
pub open spec fn index_page_down(index: nat, len: nat, visible: nat) -> nat {
    if len > 0 {
        if index + jump_size(visible) < len { index + jump_size(visible) } else { (len - 1) as nat }
    } else {
        index
    }
}

/// The position a page up moves to: a page back, stopping at the first entry.
pub open spec fn index_page_up(index: nat, visible: nat) -> nat {
    if index >= jump_size(visible) { (index - jump_size(visible)) as nat } else { 0 }
}

/// The highlighted positions of the main screen: a station of the station
/// list, or, in a browse mode that lists choices, an entry of that list.
#[derive(Debug, Clone, Copy)]
pub struct ListCursor {
    pub browse_mode: BrowseMode,
    pub browse_list_mode: bool,
    pub browse_list_index: usize,
    pub selected_index: usize,
}

impl ListCursor {
    /// Station list highlighted at the top, browsing popular stations.
    pub fn new() -> (c: ListCursor)
        ensures
            c.browse_mode == BrowseMode::Popular,
            !c.browse_list_mode,
            c.browse_list_index == 0,
            c.selected_index == 0,
    {
        ListCursor { browse_mode: BrowseMode::Popular, browse_list_mode: false, browse_list_index: 0, selected_index: 0 }
    }

    /// Moves the highlight one entry down, in the list of choices when one is
    /// shown, else in the station list of `stations` entries.
    pub fn select_next(&mut self, countries: usize, genres: usize, languages: usize, stations: usize)
        ensures
            final(self).browse_mode == old(self).browse_mode,
            final(self).browse_list_mode == old(self).browse_list_mode,
            old(self).browse_list_mode ==> {
                &&& final(self).browse_list_index == index_after(old(self).browse_list_index as nat,
                    choice_count(old(self).browse_mode, countries as nat, genres as nat, languages as nat))
                &&& final(self).selected_index == old(self).selected_index
            },
            !old(self).browse_list_mode ==> {
                &&& final(self).selected_index == index_after(old(self).selected_index as nat, stations as nat)
                &&& final(self).browse_list_index == old(self).browse_list_index
            },
    {
        if self.browse_list_mode {
            let max = match self.browse_mode {
                BrowseMode::ByCountry => countries,
                BrowseMode::ByGenre => genres,
                BrowseMode::ByLanguage => languages,
                _ => 0,
            };
            if max > 0 && self.browse_list_index < max - 1 {
                self.browse_list_index = self.browse_list_index + 1;
            }
        } else if stations > 0 && self.selected_index < stations - 1 {
            self.selected_index = self.selected_index + 1;
        }
    }

    /// Moves the highlight one entry up.
    pub fn select_prev(&mut self)
        ensures
            final(self).browse_mode == old(self).browse_mode,
            final(self).browse_list_mode == old(self).browse_list_mode,
            old(self).browse_list_mode ==> {
                &&& final(self).browse_list_index == index_before(old(self).browse_list_index as nat)
                &&& final(self).selected_index == old(self).selected_index
            },
            !old(self).browse_list_mode ==> {
                &&& final(self).selected_index == index_before(old(self).selected_index as nat)
                &&& final(self).browse_list_index == old(self).browse_list_index
            },
    {
        if self.browse_list_mode {
            if self.browse_list_index > 0 {
                self.browse_list_index = self.browse_list_index - 1;
            }
        } else if self.selected_index > 0 {
            self.selected_index = self.selected_index - 1;
        }
    }

    /// Moves the highlight a page of `visible` rows down.
    pub fn page_down(&mut self, countries: usize, genres: usize, languages: usize, stations: usize, visible: usize)
        requires
            old(self).browse_list_mode ==> old(self).browse_list_index + jump_size(visible as nat) <= usize::MAX,
            !old(self).browse_list_mode ==> old(self).selected_index + jump_size(visible as nat) <= usize::MAX,
        ensures
            final(self).browse_mode == old(self).browse_mode,
            final(self).browse_list_mode == old(self).browse_list_mode,
            old(self).browse_list_mode ==> {
                &&& final(self).browse_list_index == index_page_down(old(self).browse_list_index as nat,
                    choice_count(old(self).browse_mode, countries as nat, genres as nat, languages as nat), visible as nat)
                &&& final(self).selected_index == old(self).selected_index
            },
            !old(self).browse_list_mode ==> {
                &&& final(self).selected_index == index_page_down(old(self).selected_index as nat, stations as nat, visible as nat)
                &&& final(self).browse_list_index == old(self).browse_list_index
            },
    {
        let jump = if visible > 0 { visible } else { 1 };
        if self.browse_list_mode {
            let max = match self.browse_mode {
                BrowseMode::ByCountry => countries,
                BrowseMode::ByGenre => genres,
                BrowseMode::ByLanguage => languages,
                _ => 0,
            };
            if max > 0 {
                let target = self.browse_list_index + jump;
                self.browse_list_index = if target < max - 1 { target } else { max - 1 };
            }
        } else if stations > 0 {
            let target = self.selected_index + jump;
            self.selected_index = if target < stations - 1 { target } else { stations - 1 };
        }
    }

    /// Moves the highlight a page of `visible` rows up.
    pub fn page_up(&mut self, visible: usize)
        ensures
            final(self).browse_mode == old(self).browse_mode,
            final(self).browse_list_mode == old(self).browse_list_mode,
            old(self).browse_list_mode ==> {
                &&& final(self).browse_list_index == index_page_up(old(self).browse_list_index as nat, visible as nat)
                &&& final(self).selected_index == old(self).selected_index
            },
            !old(self).browse_list_mode ==> {
                &&& final(self).selected_index == index_page_up(old(self).selected_index as nat, visible as nat)
                &&& final(self).browse_list_index == old(self).browse_list_index
            },
    {
        let jump = if visible > 0 { visible } else { 1 };
        if self.browse_list_mode {
            self.browse_list_index = self.browse_list_index.saturating_sub(jump);
        } else {
            self.selected_index = self.selected_index.saturating_sub(jump);
        }
    }

    /// Switches the browse mode; a mode that lists choices shows its list
    /// from the top.
    pub fn set_browse_mode(&mut self, mode: BrowseMode)
        ensures
            final(self).browse_mode == mode,
            final(self).browse_list_mode == lists_choices(mode),
            final(self).browse_list_index == 0,
            final(self).selected_index == old(self).selected_index,
    {
        self.browse_mode = mode;
        self.browse_list_mode = match mode {
            BrowseMode::ByCountry | BrowseMode::ByGenre | BrowseMode::ByLanguage => true,
            _ => false,
        };
        self.browse_list_index = 0;
    }
}

/// A page down followed by a page up of the same size comes back to where it
/// started, unless the page down stopped early at the end of the list.
pub proof fn law_page_down_then_up(index: nat, len: nat, visible: nat)
    requires
        index + jump_size(visible) < len,
    ensures
        index_page_up(index_page_down(index, len, visible), visible) == index,
{
}

/// Moving down then up returns to the start when there was room to move down.
pub proof fn law_next_then_prev(index: nat, len: nat)
    requires
        index + 1 < len,
    ensures
        index_before(index_after(index, len)) == index,
{
}

/// The highlight after the list shrank or grew to `len` stations: kept, but
/// never past the last station (zero for an empty list).
pub open spec fn clamped_selection(selected: nat, len: nat) -> nat {
    if len == 0 { 0 } else if selected < len { selected } else { (len - 1) as nat }
}

/// Keeps a highlighted position within a list of `len` stations.
pub fn clamp_selection(selected: usize, len: usize) -> (r: usize)
    ensures
        r == clamped_selection(selected as nat, len as nat),
{
    let last = len.saturating_sub(1);
    if selected < last { selected } else { last }
}

/// The station record a favorite is shown as: its fields where the favorite
/// has them, the stream address as both address and resolved address,
/// nothing else, and marked as working.
pub open spec fn favorite_station_matches(s: Station, f: FavoriteStation) -> bool {
    &&& s.station_uuid@ == f.uuid@
    &&& s.change_uuid@ == Seq::<char>::empty()
    &&& s.name@ == f.name@
    &&& s.url@ == f.url@
    &&& s.url_resolved@ == f.url@
    &&& s.homepage@ == Seq::<char>::empty()
    &&& s.favicon@ == Seq::<char>::empty()
    &&& s.tags@ == f.tags@
    &&& s.country@ == f.country@
    &&& s.country_code@ == Seq::<char>::empty()
    &&& s.state@ == Seq::<char>::empty()
    &&& s.language@ == Seq::<char>::empty()
    &&& s.language_codes@ == Seq::<char>::empty()
    &&& s.votes == 0
    &&& s.codec@ == f.codec@
    &&& s.bitrate == f.bitrate
    &&& s.hls == 0
    &&& s.last_check_ok == 1
    &&& s.last_check_time@ == Seq::<char>::empty()
    &&& s.last_check_ok_time@ == Seq::<char>::empty()
    &&& s.click_timestamp@ == Seq::<char>::empty()
    &&& s.click_count == 0
    &&& s.click_trend == 0
}

/// The station record a history entry is shown as, built as for a favorite.
pub open spec fn history_station_matches(s: Station, h: HistoryStation) -> bool {
    &&& s.station_uuid@ == h.uuid@
    &&& s.change_uuid@ == Seq::<char>::empty()
    &&& s.name@ == h.name@
    &&& s.url@ == h.url@
    &&& s.url_resolved@ == h.url@
    &&& s.homepage@ == Seq::<char>::empty()
    &&& s.favicon@ == Seq::<char>::empty()
    &&& s.tags@ == h.tags@
    &&& s.country@ == h.country@
    &&& s.country_code@ == Seq::<char>::empty()
    &&& s.state@ == Seq::<char>::empty()
    &&& s.language@ == Seq::<char>::empty()
    &&& s.language_codes@ == Seq::<char>::empty()
    &&& s.votes == 0
    &&& s.codec@ == h.codec@
    &&& s.bitrate == h.bitrate
    &&& s.hls == 0
    &&& s.last_check_ok == 1
    &&& s.last_check_time@ == Seq::<char>::empty()
    &&& s.last_check_ok_time@ == Seq::<char>::empty()
    &&& s.click_timestamp@ == Seq::<char>::empty()
    &&& s.click_count == 0
    &&& s.click_trend == 0
}

/// A station record with the given identity, address, tags, country, codec
/// and bitrate, and everything else empty.
fn listed_station(uuid: &String, name: &String, url: &String, tags: &String, country: &String, codec: &String, bitrate: i32) -> (s: Station)
    ensures
        s.station_uuid@ == uuid@,
        s.change_uuid@ == Seq::<char>::empty(),
        s.name@ == name@,
        s.url@ == url@,
        s.url_resolved@ == url@,
        s.homepage@ == Seq::<char>::empty(),
        s.favicon@ == Seq::<char>::empty(),
        s.tags@ == tags@,
        s.country@ == country@,
        s.country_code@ == Seq::<char>::empty(),
        s.state@ == Seq::<char>::empty(),
        s.language@ == Seq::<char>::empty(),
        s.language_codes@ == Seq::<char>::empty(),
        s.votes == 0,
        s.codec@ == codec@,
        s.bitrate == bitrate,
        s.hls == 0,
        s.last_check_ok == 1,
        s.last_check_time@ == Seq::<char>::empty(),
        s.last_check_ok_time@ == Seq::<char>::empty(),
        s.click_timestamp@ == Seq::<char>::empty(),
        s.click_count == 0,
        s.click_trend == 0,
{
    Station {
        station_uuid: uuid.clone(),
        change_uuid: String::new(),
        name: name.clone(),
        url: url.clone(),
        url_resolved: url.clone(),
        homepage: String::new(),
        favicon: String::new(),
        tags: tags.clone(),
        country: country.clone(),
        country_code: String::new(),
        state: String::new(),
        language: String::new(),
        language_codes: String::new(),
        votes: 0,
        codec: codec.clone(),
        bitrate,
        hls: 0,
        last_check_ok: 1,
        last_check_time: String::new(),
        last_check_ok_time: String::new(),
        click_timestamp: String::new(),
        click_count: 0,
        click_trend: 0,
    }
}

/// The station list of the favorites tab, in the favorites' order.
pub fn favorites_as_stations(favorites: &[FavoriteStation]) -> (r: Vec<Station>)
    ensures
        r.len() == favorites.len(),
        forall|i: int| 0 <= i < r.len() ==> #[trigger] favorite_station_matches(r@[i], favorites@[i]),
{
    let mut r: Vec<Station> = Vec::new();
    let mut i: usize = 0;
    while i < favorites.len()
        invariant
            i <= favorites.len(),
            r.len() == i,
            forall|j: int| 0 <= j < i ==> #[trigger] favorite_station_matches(r@[j], favorites@[j]),
        decreases favorites.len() - i,
    {
        let f = &favorites[i];
        r.push(listed_station(&f.uuid, &f.name, &f.url, &f.tags, &f.country, &f.codec, f.bitrate));
        i = i + 1;
    }
    r
}

/// The station list of the history tab, in the history's order.
pub fn history_as_stations(history: &[HistoryStation]) -> (r: Vec<Station>)
    ensures
        r.len() == history.len(),
        forall|i: int| 0 <= i < r.len() ==> #[trigger] history_station_matches(r@[i], history@[i]),
{
    let mut r: Vec<Station> = Vec::new();
    let mut i: usize = 0;
    while i < history.len()
        invariant
            i <= history.len(),
            r.len() == i,
            forall|j: int| 0 <= j < i ==> #[trigger] history_station_matches(r@[j], history@[j]),
        decreases history.len() - i,
    {
        let h = &history[i];
        r.push(listed_station(&h.uuid, &h.name, &h.url, &h.tags, &h.country, &h.codec, h.bitrate));
        i = i + 1;
    }
    r
}

/// The stations a tab shows when it is (re)loaded, and the highlighted
/// position: the automatic-vote tab draws its own list and shows none; the
/// browse tab shows its last results with the highlight kept; the favorites
/// tab shows the favorites with the highlight kept within the list; the
/// history tab shows the history from its top.
pub fn reload_tab(
    tab: Tab,
    browse: &Vec<Station>,
    favorites: &[FavoriteStation],
    history: &[HistoryStation],
    selected: usize,
) -> (r: (Vec<Station>, usize))
    ensures
        tab == Tab::Autovote ==> r.0@.len() == 0 && r.1 == 0,
        tab == Tab::Browse ==> r.0@ == browse@ && r.1 == selected,
        tab == Tab::Favorites ==> {
            &&& r.0.len() == favorites.len()
            &&& forall|i: int|
                0 <= i < r.0.len() ==> #[trigger] favorite_station_matches(r.0@[i], favorites@[i])
            &&& r.1 == clamped_selection(selected as nat, favorites.len() as nat)
        },
        tab == Tab::History ==> {
            &&& r.0.len() == history.len()
            &&& forall|i: int|
                0 <= i < r.0.len() ==> #[trigger] history_station_matches(r.0@[i], history@[i])
            &&& r.1 == 0
        },
{
    match tab {
        Tab::Autovote => (Vec::new(), 0),
        Tab::Browse => (copy_stations(browse), selected),
        Tab::Favorites => {
            let stations = favorites_as_stations(favorites);
            let sel = clamp_selection(selected, stations.len());
            (stations, sel)
        },
        Tab::History => (history_as_stations(history), 0),
    }
}

/// The station record an automatic-vote entry is shown as, built as for a
/// favorite, with no tags.
pub open spec fn autovote_station_matches(s: Station, a: AutovoteStation) -> bool {
    &&& s.station_uuid@ == a.uuid@
    &&& s.change_uuid@ == Seq::<char>::empty()
    &&& s.name@ == a.name@
    &&& s.url@ == a.url@
    &&& s.url_resolved@ == a.url@
    &&& s.homepage@ == Seq::<char>::empty()
    &&& s.favicon@ == Seq::<char>::empty()
    &&& s.tags@ == Seq::<char>::empty()
    &&& s.country@ == a.country@
    &&& s.country_code@ == Seq::<char>::empty()
    &&& s.state@ == Seq::<char>::empty()
    &&& s.language@ == Seq::<char>::empty()
    &&& s.language_codes@ == Seq::<char>::empty()
    &&& s.votes == 0
    &&& s.codec@ == a.codec@
    &&& s.bitrate == a.bitrate
    &&& s.hls == 0
    &&& s.last_check_ok == 1
    &&& s.last_check_time@ == Seq::<char>::empty()
    &&& s.last_check_ok_time@ == Seq::<char>::empty()
    &&& s.click_timestamp@ == Seq::<char>::empty()
    &&& s.click_count == 0
    &&& s.click_trend == 0
}

/// The station record of an automatic-vote entry.
pub fn autovote_as_station(a: &AutovoteStation) -> (s: Station)
    ensures
        autovote_station_matches(s, *a),
{
    let no_tags = String::new();
    listed_station(&a.uuid, &a.name, &a.url, &no_tags, &a.country, &a.codec, a.bitrate)
}

/// Where the automatic-vote list stands after an entry was removed.
#[derive(Debug, Clone, Copy, PartialEq, Eq, Structural)]
pub enum AutovoteSelection {
    /// The list is empty: show the favorites tab, highlighting its first entry.
    LeaveForFavorites,
    /// Highlight this entry.
    Select(usize),
}

/// The highlight after removing an entry from the automatic-vote list,
/// leaving `remaining` entries, when `selected` was highlighted: with none
/// left while that tab is shown, the favorites tab is shown instead (when
/// `leave_only_on_tab`, only then; otherwise always); a highlight past the
/// end moves to the last entry.
pub fn autovote_selection_after_removal(selected: usize, remaining: usize, on_autovote_tab: bool, leave_only_on_tab: bool) -> (r: AutovoteSelection)
    ensures
        r == (if remaining == 0 && (on_autovote_tab || !leave_only_on_tab) {
            AutovoteSelection::LeaveForFavorites
        } else if selected >= remaining && remaining > 0 {
            AutovoteSelection::Select((remaining - 1) as usize)
        } else {
            AutovoteSelection::Select(selected)
        }),
{
    if remaining == 0 && (on_autovote_tab || !leave_only_on_tab) {
        AutovoteSelection::LeaveForFavorites
    } else if selected >= remaining && remaining > 0 {
        AutovoteSelection::Select(remaining - 1)
    } else {
        AutovoteSelection::Select(selected)
    }
}

/// The highlight after removing a favorite, leaving a list of `len`
/// stations: a highlight past the end moves to the last station.
pub fn selection_after_favorite_removal(selected: usize, len: usize) -> (r: usize)
    ensures
        r == (if selected > 0 && selected >= len { if len > 0 { len - 1 } else { 0 } } else { selected as int }),
{
    if selected > 0 && selected >= len {
        len.saturating_sub(1)
    } else {
        selected
    }
}

/// The tab the application opens on for a startup preference.
pub fn startup_tab_to_tab(t: crate::config::StartupTab) -> (r: Tab)
    ensures
        r == (match t {
            crate::config::StartupTab::Search => Tab::Browse,
            crate::config::StartupTab::Favorites => Tab::Favorites,
            crate::config::StartupTab::History => Tab::History,
        }),
{
    match t {
        crate::config::StartupTab::Search => Tab::Browse,
        crate::config::StartupTab::Favorites => Tab::Favorites,
        crate::config::StartupTab::History => Tab::History,
    }
}

/// The page size of the first search: the terminal's height less the
/// eleven rows around the list, at least one.
pub fn initial_page_size(terminal_height: u16) -> (r: usize)
    ensures
        r == (if terminal_height > 11 { terminal_height - 11 } else { 1 }),
{
    let rows = terminal_height.saturating_sub(11) as usize;
    if rows > 0 { rows } else { 1 }
}

/// Whether the last session's station plays at startup: the user wants it
/// and a station is remembered.
pub fn resume_at_startup(play_at_startup: bool, has_station_url: bool) -> (b: bool)
    ensures
        b == (play_at_startup && has_station_url),
{
    play_at_startup && has_station_url
}

/// The frames of the animation clock.
pub const ANIMATION_FRAMES: usize = 48;

/// The animation frame after `frame`, round the clock.
pub fn next_animation_frame(frame: usize) -> (r: usize)
    requires
        frame < usize::MAX,
    ensures
        r == (frame + 1) % (ANIMATION_FRAMES as int),
{
    (frame + 1) % ANIMATION_FRAMES
}

/// Whether a state update from the player opens an error popup: it carries
/// an error and no error popup is open.
pub fn shows_player_error(has_error: bool, error_popup_open: bool) -> (b: bool)
    ensures
        b == (has_error && !error_popup_open),
{
    has_error && !error_popup_open
}

/// The number of entries the status log keeps.
pub const STATUS_LOG_CAPACITY: usize = 100;

/// The status log of the main screen and the entry it is scrolled to.
pub struct StatusLog {
    entries: Vec<String>,
    scroll: usize,
}

impl StatusLog {
    /// The entries, oldest first.
    pub closed spec fn entries_view(&self) -> Seq<Seq<char>> {
        crate::text::text_list(self.entries@)
    }

    /// The entry scrolled to.
    pub closed spec fn scroll_view(&self) -> nat {
        self.scroll as nat
    }

    /// Every log holds at most `STATUS_LOG_CAPACITY` entries.
    pub closed spec fn wf(&self) -> bool {
        self.entries.len() <= STATUS_LOG_CAPACITY
    }

    /// An empty log.
    pub fn new() -> (l: StatusLog)
        ensures
            l.wf(),
            l.entries_view() == Seq::<Seq<char>>::empty(),
            l.scroll_view() == 0,
    {
        let l = StatusLog { entries: Vec::new(), scroll: 0 };
        proof {
            assert(l.entries_view() =~= Seq::<Seq<char>>::empty());
        }
        l
    }

    /// Appends `entry`; past the capacity the oldest entry is dropped. The
    /// view scrolls to the newest entry.
    pub fn add(&mut self, entry: String)
        requires
            old(self).wf(),
        ensures
            final(self).wf(),
            final(self).entries_view() == (if old(self).entries_view().len() + 1 > STATUS_LOG_CAPACITY {
                old(self).entries_view().push(entry@).drop_first()
            } else {
                old(self).entries_view().push(entry@)
            }),
            final(self).scroll_view() == final(self).entries_view().len() - 1,
    {
        let ghost before = self.entries_view();
        let ghost e = entry@;
        self.entries.push(entry);
        proof {
            assert(crate::text::text_list(self.entries@) =~= before.push(e));
        }
        if self.entries.len() > STATUS_LOG_CAPACITY {
            let ghost full = self.entries@;
            self.entries.remove(0);
            proof {
                assert(self.entries@ =~= full.drop_first());
                assert(crate::text::text_list(self.entries@) =~= before.push(e).drop_first());
            }
        }
        self.scroll = self.entries.len() - 1;
    }

    /// Scrolls one entry up, stopping at the first.
    pub fn scroll_up(&mut self)
        ensures
            final(self).entries_view() == old(self).entries_view(),
            final(self).wf() == old(self).wf(),
            final(self).scroll_view() == index_before(old(self).scroll_view()),
    {
        if self.scroll > 0 {
            self.scroll = self.scroll - 1;
        }
    }

    /// Scrolls one entry down, stopping at the last.
    pub fn scroll_down(&mut self)
        ensures
            final(self).entries_view() == old(self).entries_view(),
            final(self).wf() == old(self).wf(),
            final(self).scroll_view() == index_after(old(self).scroll_view(), old(self).entries_view().len()),
    {
        if !self.entries.is_empty() && self.scroll < self.entries.len() - 1 {
            self.scroll = self.scroll + 1;
        }
    }

    /// The entries, oldest first.
    pub fn entries(&self) -> (r: &Vec<String>)
        ensures
            crate::text::text_list(r@) == self.entries_view(),
    {
        &self.entries
    }

    /// The entry scrolled to.
    pub fn scroll(&self) -> (r: usize)
        ensures
            r == self.scroll_view(),
    {
        self.scroll
    }
}

} // verus!
