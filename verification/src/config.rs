//! User preferences that have a fixed set of choices.

use vstd::prelude::*;

verus! {

/// Which tab the application opens on.
#[derive(Debug, Clone, Copy, PartialEq, Eq, Structural)]
pub enum StartupTab {
    Search,
    Favorites,
    History,
}

/// Position of a startup tab in the settings cycle.
pub open spec fn startup_tab_index(t: StartupTab) -> int {
    match t {
        StartupTab::Search => 0,
        StartupTab::Favorites => 1,
        StartupTab::History => 2,
    }
}

/// The tab that follows `t` in the settings cycle.
pub open spec fn startup_tab_after(t: StartupTab) -> StartupTab {
    match t {
        StartupTab::Search => StartupTab::Favorites,
        StartupTab::Favorites => StartupTab::History,
        StartupTab::History => StartupTab::Search,
    }
}

/// The tab that precedes `t` in the settings cycle.
pub open spec fn startup_tab_before(t: StartupTab) -> StartupTab {
    match t {
        StartupTab::Search => StartupTab::History,
        StartupTab::Favorites => StartupTab::Search,
        StartupTab::History => StartupTab::Favorites,
    }
}

/// Human-readable name of a startup tab.
pub open spec fn startup_tab_label(t: StartupTab) -> Seq<char> {
    match t {
        StartupTab::Search => "Search"@,
        StartupTab::Favorites => "Favorites"@,
        StartupTab::History => "History"@,
    }
}

impl Default for StartupTab {
    /// The tab the application opens on when nothing is configured.
    fn default() -> (t: StartupTab)
        ensures
            t == StartupTab::Search,
    {
        StartupTab::Search
    }
}

impl StartupTab {
    /// Human-readable name of the tab.
    pub fn label(&self) -> (s: &'static str)
        ensures
            s@ == startup_tab_label(*self),
    {
        match self {
            StartupTab::Search => "Search",
            StartupTab::Favorites => "Favorites",
            StartupTab::History => "History",
        }
    }

    /// The following tab in the cycle Search, Favorites, History.
    pub fn cycle_next(&self) -> (t: StartupTab)
        ensures
            t == startup_tab_after(*self),
            startup_tab_index(t) == (startup_tab_index(*self) + 1) % 3,
    {
        match self {
            StartupTab::Search => StartupTab::Favorites,
            StartupTab::Favorites => StartupTab::History,
            StartupTab::History => StartupTab::Search,
        }
    }

    /// The preceding tab in the cycle Search, Favorites, History.
    pub fn cycle_prev(&self) -> (t: StartupTab)
        ensures
            t == startup_tab_before(*self),
            startup_tab_index(t) == (startup_tab_index(*self) + 2) % 3,
    {
        match self {
            StartupTab::Search => StartupTab::History,
            StartupTab::Favorites => StartupTab::Search,
            StartupTab::History => StartupTab::Favorites,
        }
    }
}

/// Sort order applied to searches unless the query names one.
#[derive(Debug, Clone, Copy, PartialEq, Eq, Structural)]
pub enum DefaultSearchOrder {
    Votes,
    Name,
    ClickCount,
    Bitrate,
    Random,
}

/// Human-readable name of a search order.
pub open spec fn search_order_label(o: DefaultSearchOrder) -> Seq<char> {
    match o {
        DefaultSearchOrder::Votes => "Votes"@,
        DefaultSearchOrder::Name => "Name"@,
        DefaultSearchOrder::ClickCount => "Click Count"@,
        DefaultSearchOrder::Bitrate => "Bitrate"@,
        DefaultSearchOrder::Random => "Random"@,
    }
}

/// Position of a search order in the settings cycle.
pub open spec fn search_order_index(o: DefaultSearchOrder) -> int {
    match o {
        DefaultSearchOrder::Votes => 0,
        DefaultSearchOrder::Name => 1,
        DefaultSearchOrder::ClickCount => 2,
        DefaultSearchOrder::Bitrate => 3,
        DefaultSearchOrder::Random => 4,
    }
}

/// The value the station directory expects for an order.
pub open spec fn search_order_api_str(o: DefaultSearchOrder) -> Seq<char> {
    match o {
        DefaultSearchOrder::Votes => "votes"@,
        DefaultSearchOrder::Name => "name"@,
        DefaultSearchOrder::ClickCount => "clickcount"@,
        DefaultSearchOrder::Bitrate => "bitrate"@,
        DefaultSearchOrder::Random => "random"@,
    }
}

/// The order that follows `o` in the settings cycle.
pub open spec fn search_order_after(o: DefaultSearchOrder) -> DefaultSearchOrder {
    match o {
        DefaultSearchOrder::Votes => DefaultSearchOrder::Name,
        DefaultSearchOrder::Name => DefaultSearchOrder::ClickCount,
        DefaultSearchOrder::ClickCount => DefaultSearchOrder::Bitrate,
        DefaultSearchOrder::Bitrate => DefaultSearchOrder::Random,
        DefaultSearchOrder::Random => DefaultSearchOrder::Votes,
    }
}

/// The order that precedes `o` in the settings cycle.
pub open spec fn search_order_before(o: DefaultSearchOrder) -> DefaultSearchOrder {
    match o {
        DefaultSearchOrder::Votes => DefaultSearchOrder::Random,
        DefaultSearchOrder::Name => DefaultSearchOrder::Votes,
        DefaultSearchOrder::ClickCount => DefaultSearchOrder::Name,
        DefaultSearchOrder::Bitrate => DefaultSearchOrder::ClickCount,
        DefaultSearchOrder::Random => DefaultSearchOrder::Bitrate,
    }
}

impl Default for DefaultSearchOrder {
    /// The order used when nothing is configured.
    fn default() -> (o: DefaultSearchOrder)
        ensures
            o == DefaultSearchOrder::Votes,
    {
        DefaultSearchOrder::Votes
    }
}

impl DefaultSearchOrder {
    /// The value sent to the station directory.
    pub fn as_api_str(&self) -> (s: &'static str)
        ensures
            s@ == search_order_api_str(*self),
    {
        match self {
            DefaultSearchOrder::Votes => "votes",
            DefaultSearchOrder::Name => "name",
            DefaultSearchOrder::ClickCount => "clickcount",
            DefaultSearchOrder::Bitrate => "bitrate",
            DefaultSearchOrder::Random => "random",
        }
    }

    /// Human-readable name of the order.
    pub fn label(&self) -> (s: &'static str)
        ensures
            s@ == search_order_label(*self),
    {
        match self {
            DefaultSearchOrder::Votes => "Votes",
            DefaultSearchOrder::Name => "Name",
            DefaultSearchOrder::ClickCount => "Click Count",
            DefaultSearchOrder::Bitrate => "Bitrate",
            DefaultSearchOrder::Random => "Random",
        }
    }

    /// The following order in the cycle Votes, Name, Click Count, Bitrate, Random.
    pub fn cycle_next(&self) -> (o: DefaultSearchOrder)
        ensures
            o == search_order_after(*self),
            search_order_index(o) == (search_order_index(*self) + 1) % 5,
    {
        match self {
            DefaultSearchOrder::Votes => DefaultSearchOrder::Name,
            DefaultSearchOrder::Name => DefaultSearchOrder::ClickCount,
            DefaultSearchOrder::ClickCount => DefaultSearchOrder::Bitrate,
            DefaultSearchOrder::Bitrate => DefaultSearchOrder::Random,
            DefaultSearchOrder::Random => DefaultSearchOrder::Votes,
        }
    }

    /// The preceding order in the cycle Votes, Name, Click Count, Bitrate, Random.
    pub fn cycle_prev(&self) -> (o: DefaultSearchOrder)
        ensures
            o == search_order_before(*self),
            search_order_index(o) == (search_order_index(*self) + 4) % 5,
    {
        match self {
            DefaultSearchOrder::Votes => DefaultSearchOrder::Random,
            DefaultSearchOrder::Name => DefaultSearchOrder::Votes,
            DefaultSearchOrder::ClickCount => DefaultSearchOrder::Name,
            DefaultSearchOrder::Bitrate => DefaultSearchOrder::ClickCount,
            DefaultSearchOrder::Random => DefaultSearchOrder::Bitrate,
        }
    }
}

/// Stepping forward then back through the startup tabs, or back then
/// forward, returns to the tab one started from.
pub proof fn law_startup_tab_cycle_round_trip(t: StartupTab)
    ensures
        startup_tab_before(startup_tab_after(t)) == t,
        startup_tab_after(startup_tab_before(t)) == t,
{
}

/// Three steps forward through the startup tabs come back to the start.
pub proof fn law_startup_tab_cycle_period(t: StartupTab)
    ensures
        startup_tab_after(startup_tab_after(startup_tab_after(t))) == t,
{
}

/// Stepping forward then back through the search orders, or back then
/// forward, returns to the order one started from.
pub proof fn law_search_order_cycle_round_trip(o: DefaultSearchOrder)
    ensures
        search_order_before(search_order_after(o)) == o,
        search_order_after(search_order_before(o)) == o,
{
}

/// Five steps forward through the search orders come back to the start.
pub proof fn law_search_order_cycle_period(o: DefaultSearchOrder)
    ensures
        search_order_after(search_order_after(search_order_after(search_order_after(search_order_after(o))))) == o,
{
}

/// Whether to show the station logo when the preference is missing.
pub fn default_true() -> (b: bool)
    ensures
        b,
{
    true
}

/// How long a notification stays on screen, in seconds, when the preference is missing.
pub fn default_toast_duration() -> (d: u64)
    ensures
        d == 3,
{
    3
}

/// The choices for how long a notification stays on screen, in seconds, in
/// the order the settings cycle through them.
pub open spec fn toast_duration_options() -> Seq<u64> {
    seq![0u64, 1, 2, 3, 5, 10]
}

/// The choices for how long a notification stays on screen, in seconds.
pub fn toast_duration_choices() -> (v: Vec<u64>)
    ensures
        v@ == toast_duration_options(),
{
    let v: Vec<u64> = vec![0, 1, 2, 3, 5, 10];
    proof {
        assert(v@ =~= toast_duration_options());
    }
    v
}

/// The duration after `cur` among the choices; the first choice after the
/// last one, and also when `cur` is none of them.
pub open spec fn toast_duration_after(cur: u64) -> u64 {
    let opts = toast_duration_options();
    if exists|k: int| 0 <= k < opts.len() - 1 && opts[k] == cur {
        opts[(choose|k: int| 0 <= k < opts.len() - 1 && opts[k] == cur) + 1]
    } else {
        opts[0]
    }
}

/// The duration before `cur` among the choices; the last choice before the
/// first one, and also when `cur` is none of them.
pub open spec fn toast_duration_before(cur: u64) -> u64 {
    let opts = toast_duration_options();
    if exists|k: int| 1 <= k < opts.len() && opts[k] == cur {
        opts[(choose|k: int| 1 <= k < opts.len() && opts[k] == cur) - 1]
    } else {
        opts[opts.len() - 1]
    }
}

/// The notification duration that follows `cur` in the settings cycle.
pub fn next_toast_duration(cur: u64) -> (d: u64)
    ensures
        d == toast_duration_after(cur),
{
    let opts = toast_duration_choices();
    let mut k: usize = 0;
    while k + 1 < opts.len()
        invariant
            opts@ == toast_duration_options(),
            k < opts.len(),
            forall|j: int| 0 <= j < k ==> opts@[j] != cur,
        decreases opts.len() - k,
    {
        if opts[k] == cur {
            proof {
                let c = choose|j: int| 0 <= j < opts@.len() - 1 && opts@[j] == cur;
                assert(opts@[c] == cur);
                assert(c == k as int) by {
                    if c < k as int {
                        assert(opts@[c] != cur);
                    } else if c > k as int {
                        assert(opts@[k as int] < opts@[c]);
                    }
                }
            }
            return opts[k + 1];
        }
        k = k + 1;
    }
    opts[0]
}

/// The notification duration that precedes `cur` in the settings cycle.
pub fn prev_toast_duration(cur: u64) -> (d: u64)
    ensures
        d == toast_duration_before(cur),
{
    let opts = toast_duration_choices();
    let mut k: usize = opts.len();
    while k > 1
        invariant
            opts@ == toast_duration_options(),
            1 <= k <= opts.len(),
            forall|j: int| k <= j < opts.len() ==> opts@[j] != cur,
        decreases k,
    {
        if opts[k - 1] == cur {
            proof {
                let c = choose|j: int| 1 <= j < opts@.len() && opts@[j] == cur;
                assert(opts@[c] == cur);
                assert(c == k - 1) by {
                    if c > k - 1 {
                        assert(opts@[c] != cur);
                    } else if c < k - 1 {
                        assert(opts@[c] < opts@[k - 1]);
                    }
                }
            }
            return opts[k - 2];
        }
        k = k - 1;
    }
    opts[opts.len() - 1]
}

/// How long a notification stays on screen, in milliseconds, for a setting
/// of `secs` seconds; a setting of 0 switches notifications off.
pub fn toast_lifetime_millis(secs: u64) -> (r: Option<u64>)
    requires
        secs * 1000 <= u64::MAX,
    ensures
        r == (if secs == 0 {
            None::<u64>
        } else {
            Some((secs * 1000) as u64)
        }),
{
    if secs == 0 {
        None
    } else {
        Some(secs * 1000)
    }
}

/// Seconds in a day.
pub const SECONDS_PER_DAY: u64 = 86400;

/// Whether a file is a rotated log (its name starts with `radm.log.`, which
/// the current log `radm.log` does not) last modified more than
/// `max_age_days` days before `now_secs`; an age below zero counts as zero.
pub open spec fn is_expired_log(file_name: Seq<char>, modified_secs: u64, now_secs: u64, max_age_days: u64) -> bool {
    &&& crate::text::starts_with(file_name, "radm.log."@)
    &&& (if now_secs >= modified_secs { now_secs - modified_secs } else { 0 }) > max_age_days * SECONDS_PER_DAY
}

/// Whether the log-cleanup removes a file of the data directory.
pub fn log_file_expired(file_name: &str, modified_secs: u64, now_secs: u64, max_age_days: u64) -> (b: bool)
    requires
        max_age_days * SECONDS_PER_DAY <= u64::MAX,
    ensures
        b == is_expired_log(file_name@, modified_secs, now_secs, max_age_days),
{
    let name = crate::text::chars_of(file_name);
    let prefix = crate::text::chars_of("radm.log.");
    if !crate::text::chars_starts_with(&name, &prefix) {
        return false;
    }
    let max_age_secs = max_age_days * SECONDS_PER_DAY;
    let age = now_secs.saturating_sub(modified_secs);
    age > max_age_secs
}

/// The preferences the settings list of the help popup changes.
#[derive(Debug, Clone, Copy)]
pub struct Preferences {
    pub startup_tab: StartupTab,
    pub default_search_order: DefaultSearchOrder,
    pub play_at_startup: bool,
    pub auto_vote_favorites: bool,
    pub show_logo: bool,
    pub toast_duration_secs: u64,
}

/// What the application does besides saving after a setting changed.
#[derive(Debug, Clone, Copy, PartialEq, Eq, Structural)]
pub enum SettingFollowUp {
    Nothing,
    /// Search with this order from now on.
    SetQueryOrder(DefaultSearchOrder),
    /// Leave the automatic-vote tab, which was just turned off, for the favorites tab.
    LeaveAutovoteTab,
}

/// The preferences after changing the setting at position `index` of the
/// list forward or back: the startup tab, the search order, playing at
/// startup, automatic votes, the logo, and (at any other position) the
/// notification duration. Cycling settings move one step; switches flip.
pub open spec fn preferences_after(p: Preferences, index: nat, forward: bool) -> Preferences {
    if index == 0 {
        Preferences {
            startup_tab: if forward { startup_tab_after(p.startup_tab) } else { startup_tab_before(p.startup_tab) },
            ..p
        }
    } else if index == 1 {
        Preferences {
            default_search_order: if forward {
                search_order_after(p.default_search_order)
            } else {
                search_order_before(p.default_search_order)
            },
            ..p
        }
    } else if index == 2 {
        Preferences { play_at_startup: !p.play_at_startup, ..p }
    } else if index == 3 {
        Preferences { auto_vote_favorites: !p.auto_vote_favorites, ..p }
    } else if index == 4 {
        Preferences { show_logo: !p.show_logo, ..p }
    } else {
        Preferences {
            toast_duration_secs: if forward {
                toast_duration_after(p.toast_duration_secs)
            } else {
                toast_duration_before(p.toast_duration_secs)
            },
            ..p
        }
    }
}

/// The follow-up of that change made while `tab` is shown: a new search
/// order applies to searches; turning automatic votes off leaves its tab.
pub open spec fn setting_follow_up(p: Preferences, index: nat, forward: bool, tab: crate::tui::Tab) -> SettingFollowUp {
    let q = preferences_after(p, index, forward);
    if index == 1 {
        SettingFollowUp::SetQueryOrder(q.default_search_order)
    } else if index == 3 && !q.auto_vote_favorites && tab == crate::tui::Tab::Autovote {
        SettingFollowUp::LeaveAutovoteTab
    } else {
        SettingFollowUp::Nothing
    }
}

impl Preferences {
    /// Changes the setting at position `index` forward or back, with `tab`
    /// shown, and says what else the application must do.
    pub fn change_setting(&mut self, index: usize, forward: bool, tab: crate::tui::Tab) -> (f: SettingFollowUp)
        ensures
            *final(self) == preferences_after(*old(self), index as nat, forward),
            f == setting_follow_up(*old(self), index as nat, forward, tab),
    {
        if index == 0 {
            self.startup_tab = if forward { self.startup_tab.cycle_next() } else { self.startup_tab.cycle_prev() };
            SettingFollowUp::Nothing
        } else if index == 1 {
            self.default_search_order = if forward {
                self.default_search_order.cycle_next()
            } else {
                self.default_search_order.cycle_prev()
            };
            SettingFollowUp::SetQueryOrder(self.default_search_order)
        } else if index == 2 {
            self.play_at_startup = !self.play_at_startup;
            SettingFollowUp::Nothing
        } else if index == 3 {
            self.auto_vote_favorites = !self.auto_vote_favorites;
            if !self.auto_vote_favorites && tab == crate::tui::Tab::Autovote {
                SettingFollowUp::LeaveAutovoteTab
            } else {
                SettingFollowUp::Nothing
            }
        } else if index == 4 {
            self.show_logo = !self.show_logo;
            SettingFollowUp::Nothing
        } else {
            self.toast_duration_secs = if forward {
                next_toast_duration(self.toast_duration_secs)
            } else {
                prev_toast_duration(self.toast_duration_secs)
            };
            SettingFollowUp::Nothing
        }
    }
}

/// Changing a setting forward and then back restores every preference, as
/// long as a notification duration being changed is one of the choices.
pub proof fn law_setting_change_round_trip(p: Preferences, index: nat)
    requires
        index >= 5 ==> toast_duration_options().contains(p.toast_duration_secs),
    ensures
        preferences_after(preferences_after(p, index, true), index, false) == p,
{
    if index >= 5 {
        let opts = toast_duration_options();
        let cur = p.toast_duration_secs;
        let k = choose|k: int| 0 <= k < opts.len() && opts[k] == cur;
        assert(opts[k] == cur);
        lemma_toast_after_before(cur);
    }
}

/// On the notification durations, a step back undoes a step forward.
proof fn lemma_toast_after_before(cur: u64)
    requires
        toast_duration_options().contains(cur),
    ensures
        toast_duration_before(toast_duration_after(cur)) == cur,
{
    let opts = toast_duration_options();
    assert(opts[0] == 0 && opts[1] == 1 && opts[2] == 2 && opts[3] == 3 && opts[4] == 5 && opts[5] == 10);
    let n = toast_duration_after(cur);
    if cur == 10 {
        assert(!(exists|k: int| 0 <= k < opts.len() - 1 && opts[k] == cur));
        assert(n == 0);
        assert(opts[5] == 10);
        assert(!(exists|k: int| 1 <= k < opts.len() && opts[k] == n));
    } else {
        let k = choose|k: int| 0 <= k < opts.len() && opts[k] == cur;
        assert(opts[k] == cur);
        assert(opts[k + 1] == n);
        assert(1 <= k + 1 < opts.len());
    }
}

} // verus!
