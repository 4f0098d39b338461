//! The station table the interactive command-line search prints.

use vstd::prelude::*;
use crate::api::models::Station;
use crate::storage::favorites::{FavoritesManager, has_favorite};
use crate::text::{
    chars_of, utf8_len, is_char_boundary_at, chars_before_byte, char_index_of_byte,
    lemma_chars_before_byte_unique, utf8_len_of, string_of_range, string_push, string_append_str,
    string_from_str, push_decimal, push_signed_decimal, decimal_string, signed_decimal_string,
};

verus! {

/// Whether `s` can be cut to `max_len` bytes as the table does: it is short
/// enough already, or the cut falls between two characters.
#[verifier::opaque]
pub open spec fn cuttable(s: Seq<char>, max_len: nat) -> bool {
    utf8_len(s) <= max_len || is_char_boundary_at(s, if max_len > 0 { max_len - 1 } else { 0 })
}

/// `s` cut to fit `max_len` bytes: when longer, its first `max_len - 1`
/// bytes followed by an ellipsis.
#[verifier::opaque]
pub open spec fn truncated(s: Seq<char>, max_len: nat) -> Seq<char> {
    if utf8_len(s) > max_len {
        s.take(chars_before_byte(s, if max_len > 0 { max_len - 1 } else { 0 })) + seq!['\u{2026}']
    } else {
        s
    }
}

/// Cuts `s` to fit `max_len` bytes, marking the cut with an ellipsis.
pub fn truncate_string(s: &str, max_len: usize) -> (r: String)
    requires
        cuttable(s@, max_len as nat),
        utf8_len(s@) <= usize::MAX,
    ensures
        r@ == truncated(s@, max_len as nat),
{
    proof {
        reveal(cuttable);
        reveal(truncated);
    }
    let v = chars_of(s);
    let len = utf8_len_of(&v);
    if len > max_len {
        let cut = max_len.saturating_sub(1);
        let k = match char_index_of_byte(&v, cut) {
            Some(k) => k,
            None => {
                return string_from_str(s);
            },
        };
        proof {
            lemma_chars_before_byte_unique(v@, k as int, cut as int);
        }
        let mut r = string_of_range(&v, 0, k);
        string_push(&mut r, '\u{2026}');
        proof {
            assert(r@ =~= v@.take(k as int) + seq!['\u{2026}']);
        }
        r
    } else {
        string_from_str(s)
    }
}

/// `s` padded with spaces to `width` characters, as `{:<width}` formats it.
#[verifier::opaque]
pub open spec fn pad_right(s: Seq<char>, width: nat) -> Seq<char> {
    if s.len() < width { s + Seq::new((width - s.len()) as nat, |i: int| ' ') } else { s }
}

/// Appends `s` padded with spaces to `width` characters.
fn push_padded(out: &mut String, s: &str, width: usize)
    ensures
        final(out)@ == old(out)@ + pad_right(s@, width as nat),
{
    let v = chars_of(s);
    string_append_str(out, s);
    let ghost mid = out@;
    if v.len() < width {
        let mut i: usize = v.len();
        while i < width
            invariant
                v.len() <= i <= width,
                out@ == mid + Seq::new((i - v.len()) as nat, |j: int| ' '),
            decreases width - i,
        {
            string_push(out, ' ');
            proof {
                assert(out@ =~= mid + Seq::new((i + 1 - v.len()) as nat, |j: int| ' '));
            }
            i = i + 1;
        }
    }
    proof {
        reveal(pad_right);
        assert(out@ =~= old(out)@ + pad_right(s@, width as nat));
    }
}

/// The width the table is laid out for: the terminal's, at least 80 columns.
pub open spec fn table_width(terminal_width: nat) -> nat {
    if terminal_width > 80 { terminal_width } else { 80 }
}

/// The room for station names: the table width less the 25 columns of
/// the fixed fields.
pub open spec fn name_room(terminal_width: nat) -> nat {
    (table_width(terminal_width) - 25) as nat
}

/// The heading line of the table.
pub open spec fn table_heading() -> Seq<char> {
    pad_right("No."@, 3) + seq![' '] + pad_right("\u{2605}"@, 2) + seq![' '] + pad_right("Station"@, 20)
        + seq![' '] + pad_right("Cntr"@, 4) + seq![' '] + pad_right("Lang"@, 4) + seq![' ']
        + pad_right("Codec"@, 5) + seq![' '] + pad_right("Votes"@, 7)
}

/// The rule under the heading: as wide as the table, at most 120 columns.
pub open spec fn table_rule(terminal_width: nat) -> Seq<char> {
    let w = table_width(terminal_width);
    Seq::new(if w < 120 { w } else { 120 }, |i: int| '\u{2500}')
}

/// Whether every field of every station can be cut as the table cuts it.
pub open spec fn stations_cuttable(stations: Seq<Station>, terminal_width: nat) -> bool {
    forall|i: int| 0 <= i < stations.len() ==> {
        &&& cuttable(#[trigger] stations[i].name@, name_room(terminal_width))
        &&& cuttable(stations[i].country@, 4)
        &&& cuttable(stations[i].language@, 4)
        &&& cuttable(stations[i].codec@, 5)
        &&& utf8_len(stations[i].name@) <= usize::MAX
        &&& utf8_len(stations[i].country@) <= usize::MAX
        &&& utf8_len(stations[i].language@) <= usize::MAX
        &&& utf8_len(stations[i].codec@) <= usize::MAX
    }
}

/// The row of station `s`, at position `number` (from one), highlighted when
/// `selected`, starred when a favorite.
pub open spec fn table_row(s: Station, number: nat, selected: bool, favorite: bool, terminal_width: nat) -> Seq<char> {
    (if selected { "> "@ } else { "  "@ }) + pad_right(if favorite { "\u{2605}"@ } else { "\u{2606}"@ }, 2)
        + seq![' '] + decimal_string(number) + seq![' '] + pad_right(truncated(s.name@, name_room(terminal_width)), 20)
        + seq![' '] + pad_right(truncated(s.country@, 4), 4) + seq![' '] + pad_right(truncated(s.language@, 4), 4)
        + seq![' '] + pad_right(truncated(s.codec@, 5), 5) + seq![' ']
        + pad_right(signed_decimal_string(s.votes as int), 7)
}

/// The rows of the stations from position `k` on, each followed by a line feed.
pub open spec fn table_rows(
    stations: Seq<Station>,
    k: nat,
    selected: nat,
    favorites: Seq<crate::storage::favorites::FavoriteStation>,
    terminal_width: nat,
    start_index: nat,
) -> Seq<char>
    decreases stations.len() - k,
{
    if k >= stations.len() {
        Seq::empty()
    } else {
        table_row(stations[k as int], start_index + k + 1, k == selected,
            has_favorite(favorites, stations[k as int].station_uuid@), terminal_width)
            + seq!['\n'] + table_rows(stations, k + 1, selected, favorites, terminal_width, start_index)
    }
}

/// The table of `stations`: a heading, a rule and a row per station
/// (numbered from `start_index + 1`), or a message when there are none.
pub open spec fn station_table(
    stations: Seq<Station>,
    selected: nat,
    favorites: Seq<crate::storage::favorites::FavoriteStation>,
    terminal_width: nat,
    start_index: nat,
) -> Seq<char> {
    if stations.len() == 0 {
        "No stations to display"@
    } else {
        seq!['\n'] + table_heading() + seq!['\n'] + table_rule(terminal_width) + seq!['\n']
            + table_rows(stations, 0, selected, favorites, terminal_width, start_index)
    }
}

/// Appends the row of a station.
#[verifier::rlimit(40)]
fn push_row(
    out: &mut String,
    s: &Station,
    number: usize,
    selected: bool,
    favorite: bool,
    terminal_width: usize,
    name_width: usize,
)
    requires
        name_width == name_room(terminal_width as nat),
        cuttable(s.name@, name_room(terminal_width as nat)),
        cuttable(s.country@, 4),
        cuttable(s.language@, 4),
        cuttable(s.codec@, 5),
        utf8_len(s.name@) <= usize::MAX,
        utf8_len(s.country@) <= usize::MAX,
        utf8_len(s.language@) <= usize::MAX,
        utf8_len(s.codec@) <= usize::MAX,
    ensures
        final(out)@ == old(out)@ + table_row(*s, number as nat, selected, favorite, terminal_width as nat),
{
    let ghost base = old(out)@;
    let lead = if selected { "> " } else { "  " };
    string_append_str(out, lead);
    let star = if favorite { "\u{2605}" } else { "\u{2606}" };
    push_padded(out, star, 2);
    string_push(out, ' ');
    let ghost a1 = out@;
    proof {
        assert(a1 =~= base + (if selected { "> "@ } else { "  "@ }) + pad_right(if favorite { "\u{2605}"@ } else { "\u{2606}"@ }, 2) + seq![' ']);
    }
    push_decimal(out, number as u64);
    string_push(out, ' ');
    let ghost a2 = out@;
    let name = truncate_string(s.name.as_str(), name_width);
    push_padded(out, name.as_str(), 20);
    string_push(out, ' ');
    let ghost a3 = out@;
    proof {
        assert(a3 =~= a2 + pad_right(truncated(s.name@, name_room(terminal_width as nat)), 20) + seq![' ']);
    }
    let country = truncate_string(s.country.as_str(), 4);
    push_padded(out, country.as_str(), 4);
    string_push(out, ' ');
    let ghost a4 = out@;
    proof {
        assert(a4 =~= a3 + pad_right(truncated(s.country@, 4), 4) + seq![' ']);
    }
    let language = truncate_string(s.language.as_str(), 4);
    push_padded(out, language.as_str(), 4);
    string_push(out, ' ');
    let ghost a5 = out@;
    proof {
        assert(a5 =~= a4 + pad_right(truncated(s.language@, 4), 4) + seq![' ']);
    }
    let codec = truncate_string(s.codec.as_str(), 5);
    push_padded(out, codec.as_str(), 5);
    string_push(out, ' ');
    let ghost a6 = out@;
    proof {
        assert(a6 =~= a5 + pad_right(truncated(s.codec@, 5), 5) + seq![' ']);
    }
    let mut votes = String::new();
    push_signed_decimal(&mut votes, s.votes as i64);
    push_padded(out, votes.as_str(), 7);
    proof {
        assert(out@ =~= a6 + pad_right(signed_decimal_string(s.votes as int), 7));
        assert(a2 =~= a1 + decimal_string(number as nat) + seq![' ']);
        assert(out@ =~= base + table_row(*s, number as nat, selected, favorite, terminal_width as nat));
    }
}

/// The station table the interactive search prints (see [`station_table`]).
pub fn format_station_list(
    stations: &[Station],
    selected: usize,
    favorites: &FavoritesManager,
    terminal_width: usize,
    start_index: usize,
) -> (r: String)
    requires
        stations_cuttable(stations@, terminal_width as nat),
        start_index + stations@.len() <= usize::MAX,
    ensures
        r@ == station_table(stations@, selected as nat, favorites.stations(), terminal_width as nat, start_index as nat),
{
    if stations.len() == 0 {
        return string_from_str("No stations to display");
    }
    let width = if terminal_width > 80 { terminal_width } else { 80 };
    let name_width = width - 25;
    let mut out = String::new();
    string_push(&mut out, '\n');
    push_padded(&mut out, "No.", 3);
    string_push(&mut out, ' ');
    push_padded(&mut out, "\u{2605}", 2);
    string_push(&mut out, ' ');
    push_padded(&mut out, "Station", 20);
    string_push(&mut out, ' ');
    push_padded(&mut out, "Cntr", 4);
    string_push(&mut out, ' ');
    push_padded(&mut out, "Lang", 4);
    string_push(&mut out, ' ');
    push_padded(&mut out, "Codec", 5);
    string_push(&mut out, ' ');
    push_padded(&mut out, "Votes", 7);
    string_push(&mut out, '\n');
    let rule = if width < 120 { width } else { 120 };
    let ghost before_rule = out@;
    let mut i: usize = 0;
    while i < rule
        invariant
            i <= rule,
            out@ == before_rule + Seq::new(i as nat, |j: int| '\u{2500}'),
        decreases rule - i,
    {
        string_push(&mut out, '\u{2500}');
        proof {
            assert(out@ =~= before_rule + Seq::new((i + 1) as nat, |j: int| '\u{2500}'));
        }
        i = i + 1;
    }
    string_push(&mut out, '\n');
    let ghost head = out@;
    proof {
        assert(head =~= seq!['\n'] + table_heading() + seq!['\n'] + table_rule(terminal_width as nat) + seq!['\n']);
    }
    let mut k: usize = 0;
    while k < stations.len()
        invariant
            k <= stations.len(),
            start_index + stations@.len() <= usize::MAX,
            stations_cuttable(stations@, terminal_width as nat),
            name_width == name_room(terminal_width as nat),
            head + table_rows(stations@, 0, selected as nat, favorites.stations(), terminal_width as nat, start_index as nat)
                == out@ + table_rows(stations@, k as nat, selected as nat, favorites.stations(), terminal_width as nat, start_index as nat),
        decreases stations.len() - k,
    {
        let s = &stations[k];
        let fav = favorites.is_favorite(s.station_uuid.as_str());
        let ghost before = out@;
        proof {
            assert(cuttable(stations@[k as int].name@, name_room(terminal_width as nat)));
        }
        push_row(&mut out, s, start_index + k + 1, k == selected, fav, terminal_width, name_width);
        string_push(&mut out, '\n');
        proof {
            let rest = table_rows(stations@, (k + 1) as nat, selected as nat, favorites.stations(), terminal_width as nat, start_index as nat);
            assert(before + table_rows(stations@, k as nat, selected as nat, favorites.stations(), terminal_width as nat, start_index as nat)
                =~= out@ + rest);
        }
        k = k + 1;
    }
    proof {
        assert(table_rows(stations@, stations@.len(), selected as nat, favorites.stations(), terminal_width as nat, start_index as nat)
            =~= Seq::<char>::empty());
        assert(out@ =~= head + table_rows(stations@, 0, selected as nat, favorites.stations(), terminal_width as nat, start_index as nat));
    }
    out
}

} // verus!
