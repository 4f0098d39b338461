//! The text of the screen's panels: the settings page of the help popup,
//! the key hints of the status bar, the window of the log page, the rows of
//! the automatic-vote tab, the deletion prompt and the player panel.

use vstd::prelude::*;
use crate::config::{Preferences, startup_tab_label, search_order_label};
use crate::player::PlayerState;
use crate::tui::HelpTab;
use crate::storage::autovote::AutovoteStation;
use crate::api::models::{missing_mark, Station};
use crate::tui::ConfirmDelete;
use crate::text::{
    chars_of, string_append_str, string_push, push_decimal, decimal_string, utf8_len, utf8_len_of, is_char_boundary_at, chars_before_byte,
    char_index_of_byte, lemma_chars_before_byte_unique, string_of_range,
};
use crate::tui::layout::{spaces, column_text, display_col};

verus! {

/// `On` or `Off`.
pub open spec fn on_off_text(b: bool) -> Seq<char> {
    if b {
        "On"@
    } else {
        "Off"@
    }
}

/// `On` or `Off` for a switch.
pub fn on_off(b: bool) -> (s: &'static str)
    ensures
        s@ == on_off_text(b),
{
    if b {
        "On"
    } else {
        "Off"
    }
}

/// The notification duration as the settings page shows it: `Off` for 0,
/// else the seconds followed by `s`.
pub open spec fn toast_duration_text(secs: u64) -> Seq<char> {
    if secs == 0 {
        "Off"@
    } else {
        decimal_string(secs as nat) + "s"@
    }
}

/// The notification duration as the settings page shows it.
pub fn toast_duration_label(secs: u64) -> (s: String)
    ensures
        s@ == toast_duration_text(secs),
{
    let mut s = String::new();
    if secs == 0 {
        string_append_str(&mut s, "Off");
    } else {
        push_decimal(&mut s, secs);
        string_push(&mut s, 's');
    }
    proof {
        reveal_strlit("s");
        assert(s@ =~= toast_duration_text(secs));
    }
    s
}

/// The settings page's entries: each setting's name and current value, in
/// the order the page lists them.
pub open spec fn setting_entries_spec(p: Preferences) -> Seq<(Seq<char>, Seq<char>)> {
    seq![
        ("Startup Tab"@, startup_tab_label(p.startup_tab)),
        ("Default Search Order"@, search_order_label(p.default_search_order)),
        ("Play at Startup"@, on_off_text(p.play_at_startup)),
        ("Autovote"@, on_off_text(p.auto_vote_favorites)),
        ("Show Logo"@, on_off_text(p.show_logo)),
        ("Toast Duration"@, toast_duration_text(p.toast_duration_secs)),
    ]
}

/// Pairs of strings as pairs of character sequences.
pub open spec fn pair_views(v: Seq<(String, String)>) -> Seq<(Seq<char>, Seq<char>)> {
    v.map_values(|p: (String, String)| (p.0@, p.1@))
}

/// Appends a pair of strings.
fn push_pair(out: &mut Vec<(String, String)>, a: String, b: String)
    ensures
        pair_views(final(out)@) == pair_views(old(out)@).push((a@, b@)),
{
    let ghost before = out@;
    out.push((a, b));
    proof {
        assert(pair_views(out@) =~= pair_views(before).push((a@, b@)));
    }
}

/// A string holding a literal.
fn owned(t: &str) -> (s: String)
    ensures
        s@ == t@,
{
    let mut s = String::new();
    string_append_str(&mut s, t);
    proof {
        assert(s@ =~= t@);
    }
    s
}

/// The settings page's entries for preferences `p`.
pub fn setting_entries(p: &Preferences) -> (r: Vec<(String, String)>)
    ensures
        pair_views(r@) == setting_entries_spec(*p),
{
    let mut r: Vec<(String, String)> = Vec::new();
    push_pair(&mut r, owned("Startup Tab"), owned(p.startup_tab.label()));
    push_pair(&mut r, owned("Default Search Order"), owned(p.default_search_order.label()));
    push_pair(&mut r, owned("Play at Startup"), owned(on_off(p.play_at_startup)));
    push_pair(&mut r, owned("Autovote"), owned(on_off(p.auto_vote_favorites)));
    push_pair(&mut r, owned("Show Logo"), owned(on_off(p.show_logo)));
    push_pair(&mut r, owned("Toast Duration"), toast_duration_label(p.toast_duration_secs));
    proof {
        assert(pair_views(r@) =~= setting_entries_spec(*p));
    }
    r
}

/// Width of the name column of the settings page.
pub const SETTINGS_LABEL_WIDTH: usize = 22;

/// One row of the settings page: the name indented by two spaces and padded
/// to the name column, then the value in brackets.
pub open spec fn setting_row_spec(entry: (Seq<char>, Seq<char>)) -> (Seq<char>, Seq<char>) {
    let pad = if entry.0.len() < SETTINGS_LABEL_WIDTH {
        (SETTINGS_LABEL_WIDTH - entry.0.len()) as nat
    } else {
        0
    };
    ("  "@ + entry.0 + spaces(pad), "[ "@ + entry.1 + " ]"@)
}

/// The rows of the settings page for preferences `p`, as name part and
/// value part. The names are ASCII, so their width in characters is their
/// width in bytes.
pub fn settings_rows(p: &Preferences) -> (r: Vec<(String, String)>)
    ensures
        pair_views(r@) == setting_entries_spec(*p).map_values(
            |e: (Seq<char>, Seq<char>)| setting_row_spec(e),
        ),
{
    let entries = setting_entries(p);
    let mut r: Vec<(String, String)> = Vec::new();
    let mut i: usize = 0;
    while i < entries.len()
        invariant
            i <= entries.len(),
            pair_views(entries@) == setting_entries_spec(*p),
            pair_views(r@) == pair_views(entries@).take(i as int).map_values(
                |e: (Seq<char>, Seq<char>)| setting_row_spec(e),
            ),
        decreases entries.len() - i,
    {
        let label = &entries[i].0;
        let value = &entries[i].1;
        let n = chars_of(label.as_str()).len();
        let mut left = owned("  ");
        string_append_str(&mut left, label.as_str());
        let pad: usize = if n < SETTINGS_LABEL_WIDTH {
            SETTINGS_LABEL_WIDTH - n
        } else {
            0
        };
        let ghost body = left@;
        let mut k: usize = 0;
        while k < pad
            invariant
                k <= pad,
                left@ == body + spaces(k as nat),
            decreases pad - k,
        {
            string_push(&mut left, ' ');
            k = k + 1;
            proof {
                assert(body + spaces(k as nat) =~= (body + spaces((k - 1) as nat)).push(' '));
            }
        }
        let mut right = owned("[ ");
        string_append_str(&mut right, value.as_str());
        string_append_str(&mut right, " ]");
        let ghost before = r@;
        push_pair(&mut r, left, right);
        proof {
            assert(pair_views(entries@)[i as int] == (label@, value@));
            assert(pair_views(entries@).take(i + 1) =~= pair_views(entries@).take(i as int).push(
                (label@, value@),
            ));
            assert(pair_views(r@) =~= pair_views(entries@).take(i + 1).map_values(
                |e: (Seq<char>, Seq<char>)| setting_row_spec(e),
            ));
        }
        i = i + 1;
    }
    proof {
        assert(pair_views(entries@).take(i as int) =~= pair_views(entries@));
    }
    r
}

/// What the status bar's key hints depend on.
#[derive(Debug, Clone, Copy)]
pub struct HintContext {
    pub error_popup: bool,
    pub warning_popup: bool,
    pub help_popup: bool,
    pub help_tab: HelpTab,
    pub search_popup: bool,
    /// Whether the station list has any station.
    pub has_stations: bool,
    pub player_state: PlayerState,
}

/// A key hint: the key and what it does.
pub type Hint = (Seq<char>, Seq<char>);

/// The hints for the playback keys in a player state.
pub open spec fn playback_hints(state: PlayerState) -> Seq<Hint> {
    match state {
        PlayerState::Playing | PlayerState::Paused => seq![
            ("Space"@, ":Pause"@),
            ("s"@, ":Stop"@),
            ("r"@, ":Reload"@),
        ],
        PlayerState::Loading => seq![("s"@, ":Stop"@)],
        _ => seq![],
    }
}

/// The hints every main screen ends with.
pub open spec fn closing_hints() -> Seq<Hint> {
    seq![("?"@, ":Help"@), ("Ctrl+C"@, ":Quit"@)]
}

/// The hints of the main screen.
pub open spec fn main_hints(has_stations: bool, state: PlayerState) -> Seq<Hint> {
    if !has_stations {
        seq![("/"@, ":Search"@), ("F1"@, ":Popular"@)] + closing_hints()
    } else {
        seq![("\u{2191}\u{2193}"@, ":Nav"@), ("Enter"@, ":Play"@)] + playback_hints(state) + seq![
            ("+-"@, ":Vol"@),
            ("f"@, ":Fav"@),
            ("v"@, ":Vote"@),
            ("V"@, ":Autovote"@),
            ("/"@, ":Search"@),
            ("np"@, ":Page"@),
            ("Tab"@, ":Tabs"@),
        ] + closing_hints()
    }
}

/// The hints of each help page.
pub open spec fn help_hints(tab: HelpTab) -> Seq<Hint> {
    match tab {
        HelpTab::Keys => seq![("Tab"@, ":Settings"@), ("Esc/?"@, ":Close"@)],
        HelpTab::Settings => seq![
            ("\u{2191}\u{2193}"@, ":Navigate"@),
            ("\u{2190}\u{2192}/Enter"@, ":Change"@),
            ("Tab"@, ":Log"@),
            ("Esc"@, ":Close"@),
        ],
        HelpTab::Log => seq![("\u{2191}\u{2193}"@, ":Scroll"@), ("Tab"@, ":Keys"@), ("Esc"@, ":Close"@)],
    }
}

/// The status bar's hints: those of the topmost layer, where an error popup
/// is above a warning, the help popup and the search popup, and all of
/// them are above the main screen.
pub open spec fn status_hints_spec(h: HintContext) -> Seq<Hint> {
    if h.error_popup {
        seq![("Esc/Enter"@, ":Close"@), ("Ctrl+C"@, ":Quit"@)]
    } else if h.warning_popup {
        seq![("Esc/Enter"@, ":Close"@)]
    } else if h.help_popup {
        help_hints(h.help_tab)
    } else if h.search_popup {
        seq![
            ("Enter"@, ":Search"@),
            ("Tab"@, ":Complete"@),
            ("\u{2191}\u{2193}"@, ":Suggestions"@),
            ("Esc"@, ":Cancel"@),
        ]
    } else {
        main_hints(h.has_stations, h.player_state)
    }
}

/// Pairs of string slices as pairs of character sequences.
pub open spec fn hint_views(v: Seq<(&str, &str)>) -> Seq<Hint> {
    v.map_values(|p: (&str, &str)| (p.0@, p.1@))
}

/// Appends a hint.
fn push_hint(out: &mut Vec<(&'static str, &'static str)>, key: &'static str, what: &'static str)
    ensures
        hint_views(final(out)@) == hint_views(old(out)@).push((key@, what@)),
{
    let ghost before = out@;
    out.push((key, what));
    proof {
        assert(hint_views(out@) =~= hint_views(before).push((key@, what@)));
    }
}

/// The hints of the main screen.
fn push_main_hints(out: &mut Vec<(&'static str, &'static str)>, has_stations: bool, state: PlayerState)
    requires
        old(out)@.len() == 0,
    ensures
        hint_views(final(out)@) == main_hints(has_stations, state),
{
    if !has_stations {
        push_hint(out, "/", ":Search");
        push_hint(out, "F1", ":Popular");
    } else {
        push_hint(out, "\u{2191}\u{2193}", ":Nav");
        push_hint(out, "Enter", ":Play");
        match state {
            PlayerState::Playing | PlayerState::Paused => {
                push_hint(out, "Space", ":Pause");
                push_hint(out, "s", ":Stop");
                push_hint(out, "r", ":Reload");
            },
            PlayerState::Loading => {
                push_hint(out, "s", ":Stop");
            },
            _ => {},
        }
        push_hint(out, "+-", ":Vol");
        push_hint(out, "f", ":Fav");
        push_hint(out, "v", ":Vote");
        push_hint(out, "V", ":Autovote");
        push_hint(out, "/", ":Search");
        push_hint(out, "np", ":Page");
        push_hint(out, "Tab", ":Tabs");
    }
    push_hint(out, "?", ":Help");
    push_hint(out, "Ctrl+C", ":Quit");
    proof {
        assert(hint_views(out@) =~= main_hints(has_stations, state));
    }
}

/// The key hints the status bar shows.
pub fn status_hints(h: &HintContext) -> (r: Vec<(&'static str, &'static str)>)
    ensures
        hint_views(r@) == status_hints_spec(*h),
{
    let mut r: Vec<(&'static str, &'static str)> = Vec::new();
    if h.error_popup {
        push_hint(&mut r, "Esc/Enter", ":Close");
        push_hint(&mut r, "Ctrl+C", ":Quit");
    } else if h.warning_popup {
        push_hint(&mut r, "Esc/Enter", ":Close");
    } else if h.help_popup {
        match h.help_tab {
            HelpTab::Keys => {
                push_hint(&mut r, "Tab", ":Settings");
                push_hint(&mut r, "Esc/?", ":Close");
            },
            HelpTab::Settings => {
                push_hint(&mut r, "\u{2191}\u{2193}", ":Navigate");
                push_hint(&mut r, "\u{2190}\u{2192}/Enter", ":Change");
                push_hint(&mut r, "Tab", ":Log");
                push_hint(&mut r, "Esc", ":Close");
            },
            HelpTab::Log => {
                push_hint(&mut r, "\u{2191}\u{2193}", ":Scroll");
                push_hint(&mut r, "Tab", ":Keys");
                push_hint(&mut r, "Esc", ":Close");
            },
        }
    } else if h.search_popup {
        push_hint(&mut r, "Enter", ":Search");
        push_hint(&mut r, "Tab", ":Complete");
        push_hint(&mut r, "\u{2191}\u{2193}", ":Suggestions");
        push_hint(&mut r, "Esc", ":Cancel");
    } else {
        push_main_hints(&mut r, h.has_stations, h.player_state);
    }
    proof {
        assert(hint_views(r@) =~= status_hints_spec(*h));
    }
    r
}

/// The hints as one line: each key followed by its action, ` | ` between
/// two hints.
pub open spec fn hints_text(hs: Seq<Hint>) -> Seq<char>
    decreases hs.len(),
{
    if hs.len() == 0 {
        Seq::empty()
    } else if hs.len() == 1 {
        hs[0].0 + hs[0].1
    } else {
        hints_text(hs.drop_last()) + " | "@ + hs.last().0 + hs.last().1
    }
}

/// The status bar's line of hints.
pub fn hints_line(hs: &Vec<(&'static str, &'static str)>) -> (s: String)
    ensures
        s@ == hints_text(hint_views(hs@)),
{
    let mut s = String::new();
    let mut i: usize = 0;
    while i < hs.len()
        invariant
            i <= hs.len(),
            s@ == hints_text(hint_views(hs@).take(i as int)),
        decreases hs.len() - i,
    {
        if i > 0 {
            string_append_str(&mut s, " | ");
        }
        string_append_str(&mut s, hs[i].0);
        string_append_str(&mut s, hs[i].1);
        proof {
            let t = hint_views(hs@).take(i + 1);
            assert(t.drop_last() =~= hint_views(hs@).take(i as int));
            assert(t.last() == (hs@[i as int].0@, hs@[i as int].1@));
            if i == 0 {
                assert(hints_text(hint_views(hs@).take(0)) =~= Seq::<char>::empty());
            }
            assert(s@ =~= hints_text(t));
        }
        i = i + 1;
    }
    proof {
        assert(hint_views(hs@).take(i as int) =~= hint_views(hs@));
    }
    s
}

/// The part of the log page that is shown: the scroll position is held
/// where the last page of the log still fills the page, and the window ends
/// at the end of the log or a page further on.
pub open spec fn log_window_spec(count: nat, visible: nat, scroll: nat) -> (nat, nat) {
    let max_scroll = if count > visible {
        (count - visible) as nat
    } else {
        0
    };
    let start = if scroll < max_scroll {
        scroll
    } else {
        max_scroll
    };
    let end = if start + visible < count {
        start + visible
    } else {
        count
    };
    (start, end)
}

/// The first and the past-the-end entry of the log page's window.
pub fn log_window(count: usize, visible: usize, scroll: usize) -> (r: (usize, usize))
    ensures
        (r.0 as nat, r.1 as nat) == log_window_spec(count as nat, visible as nat, scroll as nat),
{
    let max_scroll = if count > visible {
        count - visible
    } else {
        0
    };
    let start = if scroll < max_scroll {
        scroll
    } else {
        max_scroll
    };
    let end = if visible < count - start {
        start + visible
    } else {
        count
    };
    (start, end)
}

/// The log page shows at most a page of entries, all of them in the log,
/// and a full page whenever the log has that many entries.
pub proof fn law_log_window_fits(count: nat, visible: nat, scroll: nat)
    ensures
        log_window_spec(count, visible, scroll).0 <= log_window_spec(count, visible, scroll).1
            <= count,
        log_window_spec(count, visible, scroll).1 - log_window_spec(count, visible, scroll).0
            <= visible,
        count >= visible ==> log_window_spec(count, visible, scroll).1 - log_window_spec(
            count,
            visible,
            scroll,
        ).0 == visible,
{
}

/// The count shown after the title of a station list: ` (N stations)`,
/// nothing when the list is empty.
pub open spec fn station_count_text(n: nat) -> Seq<char> {
    if n == 0 {
        Seq::empty()
    } else {
        " ("@ + decimal_string(n) + " stations)"@
    }
}

/// The count shown after the title of a station list.
pub fn station_count_suffix(n: usize) -> (s: String)
    ensures
        s@ == station_count_text(n as nat),
{
    let mut s = String::new();
    if n > 0 {
        string_append_str(&mut s, " (");
        push_decimal(&mut s, n as u64);
        string_append_str(&mut s, " stations)");
    }
    proof {
        assert(s@ =~= station_count_text(n as nat));
    }
    s
}

/// Width of the name column of the automatic-vote tab.
pub const AUTOVOTE_NAME_WIDTH: usize = 40;

/// Width of the country column of the automatic-vote tab.
pub const AUTOVOTE_COUNTRY_WIDTH: usize = 18;

/// Width of the codec column of the automatic-vote tab.
pub const AUTOVOTE_CODEC_WIDTH: usize = 6;

/// The bitrate column: `N kbps`, or a dash when the bitrate is not positive.
pub open spec fn bitrate_text(bitrate: i32) -> Seq<char> {
    if bitrate > 0 {
        decimal_string(bitrate as nat) + " kbps"@
    } else {
        missing_mark()
    }
}

/// One row of the automatic-vote tab: an indent, then name, country and
/// codec in columns two spaces apart (a dash for no codec), then the bitrate.
pub open spec fn autovote_row_text(s: AutovoteStation) -> Seq<char> {
    let codec = if s.codec@.len() == 0 {
        missing_mark()
    } else {
        s.codec@
    };
    "    "@ + column_text(s.name@, AUTOVOTE_NAME_WIDTH as nat) + "  "@ + column_text(
        s.country@,
        AUTOVOTE_COUNTRY_WIDTH as nat,
    ) + "  "@ + column_text(codec, AUTOVOTE_CODEC_WIDTH as nat) + "  "@ + bitrate_text(s.bitrate)
}

/// The row of the automatic-vote tab for station `s`.
pub fn autovote_row(s: &AutovoteStation) -> (r: String)
    ensures
        r@ == autovote_row_text(*s),
{
    proof {
        reveal_strlit("\u{2014}");
        assert("\u{2014}"@ =~= missing_mark());
    }
    let mut r = owned("    ");
    let name = display_col(s.name.as_str(), AUTOVOTE_NAME_WIDTH);
    string_append_str(&mut r, name.as_str());
    string_append_str(&mut r, "  ");
    let country = display_col(s.country.as_str(), AUTOVOTE_COUNTRY_WIDTH);
    string_append_str(&mut r, country.as_str());
    string_append_str(&mut r, "  ");
    let codec_text: &str = if chars_of(s.codec.as_str()).len() == 0 {
        "\u{2014}"
    } else {
        s.codec.as_str()
    };
    let codec = display_col(codec_text, AUTOVOTE_CODEC_WIDTH);
    string_append_str(&mut r, codec.as_str());
    string_append_str(&mut r, "  ");
    let ghost head = r@;
    if s.bitrate > 0 {
        push_decimal(&mut r, s.bitrate as u64);
        string_append_str(&mut r, " kbps");
    } else {
        string_append_str(&mut r, "\u{2014}");
    }
    proof {
        assert(r@ =~= head + bitrate_text(s.bitrate));
        assert(r@ =~= autovote_row_text(*s));
    }
    r
}

/// The list a pending deletion removes from, as the prompt names it.
pub open spec fn delete_kind(t: ConfirmDelete) -> Seq<char> {
    match t {
        ConfirmDelete::Favorite(_, _) => "Favorites"@,
        ConfirmDelete::Autovote(_, _) => "Autovote"@,
    }
}

/// The name of the station a pending deletion removes.
pub open spec fn delete_name(t: ConfirmDelete) -> Seq<char> {
    match t {
        ConfirmDelete::Favorite(_, n) => n@,
        ConfirmDelete::Autovote(_, n) => n@,
    }
}

/// The deletion popup's question and title:
/// `Remove NAME from LIST?` and ` Remove from LIST `.
pub open spec fn confirm_delete_spec(t: ConfirmDelete) -> (Seq<char>, Seq<char>) {
    (
        "Remove "@ + delete_name(t) + " from "@ + delete_kind(t) + "?"@,
        " Remove from "@ + delete_kind(t) + " "@,
    )
}

/// The deletion popup's question and title for target `t`.
pub fn confirm_delete_text(t: &ConfirmDelete) -> (r: (String, String))
    ensures
        (r.0@, r.1@) == confirm_delete_spec(*t),
{
    let (name, kind) = match t {
        ConfirmDelete::Favorite(_, n) => (n, "Favorites"),
        ConfirmDelete::Autovote(_, n) => (n, "Autovote"),
    };
    let mut question = owned("Remove ");
    string_append_str(&mut question, name.as_str());
    string_append_str(&mut question, " from ");
    string_append_str(&mut question, kind);
    string_append_str(&mut question, "?");
    let mut title = owned(" Remove from ");
    string_append_str(&mut title, kind);
    string_append_str(&mut title, " ");
    proof {
        assert(question@ =~= confirm_delete_spec(*t).0);
        assert(title@ =~= confirm_delete_spec(*t).1);
    }
    (question, title)
}

/// The player panel's name for a player state.
pub open spec fn player_state_text(state: PlayerState) -> Seq<char> {
    match state {
        PlayerState::Playing => "Playing"@,
        PlayerState::Paused => "Paused"@,
        PlayerState::Stopped => "Stopped"@,
        PlayerState::Loading => "Loading..."@,
        PlayerState::Error => "Error"@,
    }
}

/// The player panel's name for a player state.
pub fn player_state_title(state: PlayerState) -> (s: &'static str)
    ensures
        s@ == player_state_text(state),
{
    match state {
        PlayerState::Playing => "Playing",
        PlayerState::Paused => "Paused",
        PlayerState::Stopped => "Stopped",
        PlayerState::Loading => "Loading...",
        PlayerState::Error => "Error",
    }
}

/// The station line of the player panel, for a panel `width` columns wide:
/// a fixed message when no station plays; the name when its UTF-8 encoding
/// fits in the width less the borders; else the name cut to three bytes
/// less than that, followed by `...`.
pub open spec fn station_line_text(name: Seq<char>, width: u16) -> Seq<char> {
    let room: int = if width >= 4 {
        width - 4
    } else {
        0
    };
    let cut: int = if room >= 3 {
        room - 3
    } else {
        0
    };
    if name.len() == 0 {
        "No station selected"@
    } else if utf8_len(name) > room {
        name.take(chars_before_byte(name, cut)) + "..."@
    } else {
        name
    }
}

/// The byte offset at which a long station name is cut.
pub open spec fn station_cut(width: u16) -> int {
    let room: int = if width >= 4 {
        width - 4
    } else {
        0
    };
    if room >= 3 {
        room - 3
    } else {
        0
    }
}

/// The station line of the player panel. A name that does not fit is cut
/// at a byte offset, which must fall between two characters.
pub fn station_line(name: &str, width: u16) -> (s: String)
    requires
        utf8_len(name@) <= usize::MAX,
        utf8_len(name@) > (if width >= 4 { width - 4 } else { 0 }) ==> is_char_boundary_at(
            name@,
            station_cut(width),
        ),
    ensures
        s@ == station_line_text(name@, width),
{
    let v = chars_of(name);
    if v.len() == 0 {
        return owned("No station selected");
    }
    let room: usize = if width >= 4 {
        (width - 4) as usize
    } else {
        0
    };
    let n = utf8_len_of(&v);
    if n > room {
        let cut: usize = if room >= 3 {
            room - 3
        } else {
            0
        };
        match char_index_of_byte(&v, cut) {
            Some(k) => {
                proof {
                    lemma_chars_before_byte_unique(v@, k as int, cut as int);
                }
                let mut s = string_of_range(&v, 0, k);
                string_append_str(&mut s, "...");
                proof {
                    assert(v@.subrange(0, k as int) =~= v@.take(k as int));
                }
                s
            },
            None => {
                // the cut falls between two characters by the precondition
                owned(name)
            },
        }
    } else {
        owned(name)
    }
}

/// Spaces between the state and the volume on the player panel: what is
/// left of the panel's inner width, or two when nothing is left.
pub open spec fn player_spacing_spec(width: u16, state_len: nat, volume_len: nat) -> nat {
    let room: int = if width >= 4 {
        width - 4
    } else {
        0
    };
    if room > state_len + volume_len {
        (room - (state_len + volume_len)) as nat
    } else {
        2
    }
}

/// Spaces between the state (`state_len` bytes) and the volume
/// (`volume_len` bytes) on a player panel `width` columns wide.
pub fn player_spacing(width: u16, state_len: usize, volume_len: usize) -> (r: usize)
    requires
        state_len + volume_len <= usize::MAX,
    ensures
        r == player_spacing_spec(width, state_len as nat, volume_len as nat),
{
    let room: usize = if width >= 4 {
        (width - 4) as usize
    } else {
        0
    };
    let used = state_len + volume_len;
    if room > used {
        room - used
    } else {
        2
    }
}

/// Width of the name column of the station list.
pub const STATION_NAME_WIDTH: usize = 32;

/// Width of the country column of the station list.
pub const STATION_COUNTRY_WIDTH: usize = 14;

/// Width of the codec column of the station list.
pub const STATION_CODEC_WIDTH: usize = 6;

/// The codec as the station list shows it: a dash when there is none.
pub open spec fn codec_text(codec: Seq<char>) -> Seq<char> {
    if codec.len() == 0 {
        missing_mark()
    } else {
        codec
    }
}

/// One row of the station list: a star for a favorite (two spaces
/// otherwise), the station's marker, then name, country and codec in
/// columns two spaces apart, then the bitrate.
pub open spec fn station_row_text(s: Station, favorite: bool, marker: char) -> Seq<char> {
    (if favorite {
        "* "@
    } else {
        "  "@
    }) + seq![marker] + " "@ + column_text(s.name@, STATION_NAME_WIDTH as nat) + "  "@
        + column_text(s.country@, STATION_COUNTRY_WIDTH as nat) + "  "@ + column_text(
        codec_text(s.codec@),
        STATION_CODEC_WIDTH as nat,
    ) + "  "@ + bitrate_text(s.bitrate)
}

/// The row of the station list for station `s`, marked with `marker` (see
/// `station_marker`) and starred when it is a favorite.
pub fn station_row(s: &Station, favorite: bool, marker: char) -> (r: String)
    ensures
        r@ == station_row_text(*s, favorite, marker),
{
    let mut r = if favorite {
        owned("* ")
    } else {
        owned("  ")
    };
    string_push(&mut r, marker);
    string_append_str(&mut r, " ");
    let name = display_col(s.name.as_str(), STATION_NAME_WIDTH);
    string_append_str(&mut r, name.as_str());
    string_append_str(&mut r, "  ");
    let country = display_col(s.country.as_str(), STATION_COUNTRY_WIDTH);
    string_append_str(&mut r, country.as_str());
    string_append_str(&mut r, "  ");
    let codec_shown = s.format_codec();
    let codec = display_col(codec_shown.as_str(), STATION_CODEC_WIDTH);
    string_append_str(&mut r, codec.as_str());
    string_append_str(&mut r, "  ");
    let bitrate = s.format_bitrate();
    string_append_str(&mut r, bitrate.as_str());
    proof {
        assert(r@ =~= station_row_text(*s, favorite, marker));
    }
    r
}

/// What an empty station list says: that stations are loading, or that
/// none were found.
pub fn empty_list_message(loading: bool) -> (s: &'static str)
    ensures
        s@ == (if loading {
            "Loading stations..."@
        } else {
            "No stations found."@
        }),
{
    if loading {
        "Loading stations..."
    } else {
        "No stations found."
    }
}

} // verus!
