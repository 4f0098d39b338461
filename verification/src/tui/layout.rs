//! What the main screen shows, computed before it is drawn: fixed-width
//! columns, the station markers, the page indicator, how the station list
//! and the logo share the width, and the logo's animation.

use vstd::prelude::*;
use crate::player::PlayerState;
use crate::tui::Tab;
use crate::text::{chars_of, string_push, string_from_str, push_decimal, decimal_string};

verus! {

/// The display width unicode-width gives a character: `None` for control characters.
pub uninterp spec fn char_display_width(c: char) -> Option<usize>;

/// Calls `unicode_width::UnicodeWidthChar::width` (unicode-width 0.1.14):
/// the columns a character takes on a terminal, `None` for a control
/// character. The source shows printable ASCII (U+0020 to U+007E) as one
/// column and U+0000 to U+001F and U+007F to U+009F as control characters;
/// for the other characters the result is named, not stated.
#[verifier::external_body]
fn char_columns(c: char) -> (r: Option<usize>)
    ensures
        r == char_display_width(c),
        0x20 <= c as u32 && (c as u32) < 0x7f ==> r == Some(1usize),
        (c as u32) < 0x20 || (0x7f <= c as u32 && (c as u32) < 0xa0) ==> r is None,
{
    unicode_width::UnicodeWidthChar::width(c)
}

/// The columns a character is counted as taking: its display width, one for a control character.
pub open spec fn shown_width(c: char) -> nat {
    match char_display_width(c) {
        Some(w) => w as nat,
        None => 1,
    }
}

/// The columns the characters of `s` are counted as taking.
pub open spec fn shown_columns(s: Seq<char>) -> nat
    decreases s.len(),
{
    if s.len() == 0 { 0 } else { shown_width(s[0]) + shown_columns(s.drop_first()) }
}

/// How many characters of `s` fit in `width` columns, taken from the start
/// until the next one would not fit.
pub open spec fn fitting_chars(s: Seq<char>, width: nat) -> nat
    decreases s.len(),
{
    if s.len() == 0 || shown_width(s[0]) > width {
        0
    } else {
        1 + fitting_chars(s.drop_first(), (width - shown_width(s[0])) as nat)
    }
}

/// `n` spaces.
pub open spec fn spaces(n: nat) -> Seq<char> {
    Seq::new(n, |i: int| ' ')
}

/// A text in a column `width` wide: as many characters as fit, then spaces
/// up to the width.
pub open spec fn column_text(s: Seq<char>, width: nat) -> Seq<char> {
    let k = fitting_chars(s, width);
    s.take(k as int) + spaces((width - shown_columns(s.take(k as int))) as nat)
}

/// `s` laid out in a column `width` wide (see [`column_text`]).
pub fn display_col(s: &str, width: usize) -> (r: String)
    ensures
        r@ == column_text(s@, width as nat),
{
    let v = chars_of(s);
    let mut out = String::new();
    let mut used: usize = 0;
    let mut i: usize = 0;
    proof {
        assert(v@.take(0) =~= Seq::<char>::empty());
        assert(v@.skip(0) =~= v@);
        assert(shown_columns(Seq::<char>::empty()) == 0);
    }
    while i < v.len()
        invariant
            i <= v.len(),
            used <= width,
            out@ == v@.take(i as int),
            used == shown_columns(v@.take(i as int)),
            fitting_chars(v@, width as nat) == i + fitting_chars(v@.skip(i as int), (width - used) as nat),
        ensures
            used <= width,
            out@ == v@.take(i as int),
            used == shown_columns(v@.take(i as int)),
            fitting_chars(v@, width as nat) == i,
        decreases v.len() - i,
    {
        let c = v[i];
        let w = match char_columns(c) {
            Some(w) => w,
            None => 1,
        };
        proof {
            assert(v@.skip(i as int)[0] == c);
            assert(v@.skip(i as int).drop_first() =~= v@.skip(i + 1));
            assert(w == shown_width(c));
            if i + 1 == v.len() {
                assert(v@.skip(i + 1) =~= Seq::<char>::empty());
            }
        }
        if w > width - used {
            break;
        }
        string_push(&mut out, c);
        proof {
            lemma_columns_push(v@.take(i as int), c);
            assert(v@.take(i + 1) =~= v@.take(i as int).push(c));
        }
        used = used + w;
        i = i + 1;
    }
    let mut pad: usize = 0;
    let ghost body = out@;
    while pad < width - used
        invariant
            used <= width,
            pad <= width - used,
            out@ == body + spaces(pad as nat),
        decreases width - used - pad,
    {
        string_push(&mut out, ' ');
        proof {
            assert(body + spaces((pad + 1) as nat) =~= (body + spaces(pad as nat)).push(' '));
        }
        pad = pad + 1;
    }
    out
}

/// One more character adds its width.
proof fn lemma_columns_push(s: Seq<char>, c: char)
    ensures
        shown_columns(s.push(c)) == shown_columns(s) + shown_width(c),
    decreases s.len(),
{
    if s.len() == 0 {
        assert(s.push(c).drop_first() =~= Seq::<char>::empty());
        assert(shown_columns(Seq::<char>::empty()) == 0);
        assert(s.push(c)[0] == c);
    } else {
        lemma_columns_push(s.drop_first(), c);
        assert(s.push(c).drop_first() =~= s.drop_first().push(c));
    }
}

/// The rows of the station list: the area's height less the two border
/// rows, at least one.
pub fn visible_station_rows(area_height: u16) -> (r: usize)
    ensures
        r == (if area_height > 2 { area_height - 2 } else { 1 }),
{
    let rows = area_height.saturating_sub(2) as usize;
    if rows > 0 { rows } else { 1 }
}

/// What the list does when its height changed the number of visible rows.
#[derive(Debug, Clone, Copy, PartialEq, Eq, Structural)]
pub enum PageSizeChange {
    /// The page size already matches.
    Keep,
    /// Use the visible rows as page size and forget cached pages; search
    /// again when `search` (on the browse tab).
    Resize { search: bool },
}

/// Keeps the page size equal to the visible rows, so that a page fills the list.
pub fn page_size_change(visible: usize, limit: usize, tab: Tab) -> (c: PageSizeChange)
    ensures
        c == (if visible == limit {
            PageSizeChange::Keep
        } else {
            PageSizeChange::Resize { search: tab == Tab::Browse }
        }),
{
    if visible == limit {
        PageSizeChange::Keep
    } else {
        PageSizeChange::Resize { search: tab == Tab::Browse }
    }
}

/// The page indicator of the browse tab: ` Page n `, with ` ... ` in place of
/// the closing space when more pages follow.
pub fn page_indicator(page: usize, is_last: bool) -> (s: String)
    ensures
        s@ == " Page "@ + decimal_string(page as nat) + (if is_last { " "@ } else { " ... "@ }),
{
    let mut s = string_from_str(" Page ");
    push_decimal(&mut s, page as u64);
    if is_last {
        crate::text::string_append_str(&mut s, " ");
    } else {
        crate::text::string_append_str(&mut s, " ... ");
    }
    s
}

/// The marker before a station: a play sign for the station the player is
/// on (playing, paused or loading it), else a full dot when its stream was
/// working at the last check, an empty dot otherwise.
pub open spec fn station_marker_of(state: PlayerState, on_station: bool, online: bool) -> char {
    if (state == PlayerState::Playing || state == PlayerState::Paused || state == PlayerState::Loading) && on_station {
        '\u{25b6}'
    } else if online {
        '\u{25cf}'
    } else {
        '\u{25cb}'
    }
}

/// The marker before a station whose resolved address is `station_url`,
/// while the player is in `state` on `player_url`.
pub fn station_marker(state: PlayerState, player_url: &str, station_url: &str, online: bool) -> (c: char)
    ensures
        c == station_marker_of(state, station_url@ == player_url@, online),
{
    let busy = match state {
        PlayerState::Playing | PlayerState::Paused | PlayerState::Loading => true,
        _ => false,
    };
    let a = chars_of(station_url);
    let b = chars_of(player_url);
    if busy && crate::text::chars_equal(&a, &b) {
        '\u{25b6}'
    } else if online {
        '\u{25cf}'
    } else {
        '\u{25cb}'
    }
}

/// The widest the station list grows, in columns.
pub const MAX_LIST_WIDTH: u16 = 80;
/// The size of the logo.
pub const ART_WIDTH: u16 = 33;
pub const ART_HEIGHT: u16 = 11;

/// How the inside of the list's frame is shared: the list takes up to
/// `MAX_LIST_WIDTH` columns, and the logo is shown beside it when the user
/// wants it and the rest of the width and the height leave room for it.
pub fn list_layout(inner_width: u16, inner_height: u16, show_logo: bool) -> (r: (u16, bool))
    ensures
        r.0 == (if inner_width < MAX_LIST_WIDTH { inner_width } else { MAX_LIST_WIDTH }),
        r.1 == (show_logo && inner_width - r.0 >= ART_WIDTH && inner_height >= ART_HEIGHT),
{
    let list_width = if inner_width < MAX_LIST_WIDTH { inner_width } else { MAX_LIST_WIDTH };
    let remaining = inner_width - list_width;
    (list_width, show_logo && remaining >= ART_WIDTH && inner_height >= ART_HEIGHT)
}

/// The size of the logo's signal while playing, from the animation clock:
/// it breathes small, medium, large, medium over eight frames.
pub fn signal_phase(frame: usize) -> (p: u8)
    ensures
        p == (if frame % 8 < 2 { 0u8 } else if frame % 8 < 4 { 1u8 } else if frame % 8 < 6 { 2u8 } else { 1u8 }),
{
    let f = frame % 8;
    if f < 2 { 0 } else if f < 4 { 1 } else if f < 6 { 2 } else { 1 }
}

/// The arms drawn left and right of the logo's antenna tip: while playing
/// they widen and narrow with the signal phase; while loading they sweep
/// from left to right over eight frames; after an error they hang broken;
/// otherwise there are none.
pub open spec fn antenna_arms_of(state: PlayerState, frame: nat) -> Option<(Seq<char>, Seq<char>)> {
    match state {
        PlayerState::Playing => {
            let f = frame % 8;
            if f < 2 {
                Some(("(  "@, "  )"@))
            } else if f < 4 || f >= 6 {
                Some(("(  (  "@, "  )  )"@))
            } else {
                Some((". (  (  "@, "  )  ) ."@))
            }
        },
        PlayerState::Loading => {
            let f = frame % 8;
            if f == 0 {
                Some((". (  (  "@, ""@))
            } else if f == 1 {
                Some(("(  (  "@, ""@))
            } else if f == 2 {
                Some(("(  "@, ""@))
            } else if f == 3 {
                Some((""@, ""@))
            } else if f == 4 {
                Some((""@, "  )"@))
            } else if f == 5 {
                Some((""@, "  )  )"@))
            } else if f == 6 {
                Some((""@, "  )  ) ."@))
            } else {
                Some((""@, "  )"@))
            }
        },
        PlayerState::Error => Some(("\\  "@, "  /"@)),
        _ => None,
    }
}

/// The antenna arms for `state` at animation frame `frame`.
pub fn antenna_arms(state: PlayerState, frame: usize) -> (r: Option<(&'static str, &'static str)>)
    ensures
        match (r, antenna_arms_of(state, frame as nat)) {
            (Some((a, b)), Some((x, y))) => a@ == x && b@ == y,
            (None, None) => true,
            _ => false,
        },
{
    match state {
        PlayerState::Playing => {
            let p = signal_phase(frame);
            if p == 0 {
                Some(("(  ", "  )"))
            } else if p == 1 {
                Some(("(  (  ", "  )  )"))
            } else {
                Some((". (  (  ", "  )  ) ."))
            }
        },
        PlayerState::Loading => {
            let f = frame % 8;
            if f == 0 {
                Some((". (  (  ", ""))
            } else if f == 1 {
                Some(("(  (  ", ""))
            } else if f == 2 {
                Some(("(  ", ""))
            } else if f == 3 {
                Some(("", ""))
            } else if f == 4 {
                Some(("", "  )"))
            } else if f == 5 {
                Some(("", "  )  )"))
            } else if f == 6 {
                Some(("", "  )  ) ."))
            } else {
                Some(("", "  )"))
            }
        },
        PlayerState::Error => Some(("\\  ", "  /")),
        _ => None,
    }
}

} // verus!
