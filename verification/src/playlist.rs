//! Finding the stream address inside a playlist file (M3U or PLS) that a
//! station's address points to.

use vstd::prelude::*;
use crate::text::{
    chars_of, split_first, is_first_index, lemma_split_first_at, trim, trim_range, starts_with,
    range_eq_str, range_find, string_of_range, text_lines, bounds_spell, line_bounds,
};

verus! {

/// `s` ends with `p`.
pub open spec fn ends_with(s: Seq<char>, p: Seq<char>) -> bool {
    p.len() <= s.len() && s.skip(s.len() - p.len()) == p
}

/// Whether a station address names a playlist file rather than a stream.
pub open spec fn is_playlist_address(url: Seq<char>) -> bool {
    ends_with(url, ".m3u"@) || ends_with(url, ".pls"@)
}

/// A trimmed M3U line that is a stream address: not empty, not a comment,
/// and starting with `http` or `//`.
pub open spec fn is_m3u_entry(t: Seq<char>) -> bool {
    t.len() > 0 && !starts_with(t, "#"@) && (starts_with(t, "http"@) || starts_with(t, "//"@))
}

/// The first M3U stream address among `lines`, trimmed.
pub open spec fn first_m3u_url(lines: Seq<Seq<char>>) -> Option<Seq<char>>
    decreases lines.len(),
{
    if lines.len() == 0 {
        None
    } else if is_m3u_entry(trim(lines[0])) {
        Some(trim(lines[0]))
    } else {
        first_m3u_url(lines.drop_first())
    }
}

/// The address a PLS line gives: for a line starting with `File` that holds
/// a `=`, the text after the first `=` up to the next one (or the end),
/// trimmed.
pub open spec fn pls_entry(l: Seq<char>) -> Option<Seq<char>> {
    if starts_with(l, "File"@) && l.contains('=') {
        let after = split_first(l, '=').unwrap().1;
        Some(trim(match split_first(after, '=') {
            Some((v, _)) => v,
            None => after,
        }))
    } else {
        None
    }
}

/// The first PLS stream address among `lines`.
pub open spec fn first_pls_url(lines: Seq<Seq<char>>) -> Option<Seq<char>>
    decreases lines.len(),
{
    if lines.len() == 0 {
        None
    } else if pls_entry(lines[0]) is Some {
        pls_entry(lines[0])
    } else {
        first_pls_url(lines.drop_first())
    }
}

/// The stream address in playlist `content` fetched from `url`: an M3U
/// address when the file is M3U (by its name or its `#EXTM3U` header),
/// else a PLS address when the name says PLS; none otherwise.
pub open spec fn playlist_stream_url(url: Seq<char>, content: Seq<char>) -> Option<Seq<char>> {
    let lines = text_lines(content);
    let m3u = if ends_with(url, ".m3u"@) || starts_with(content, "#EXTM3U"@) { first_m3u_url(lines) } else { None };
    match m3u {
        Some(u) => Some(u),
        None => if ends_with(url, ".pls"@) { first_pls_url(lines) } else { None },
    }
}

/// Whether `v` ends with `p`.
fn chars_end_with(v: &Vec<char>, p: &str) -> (b: bool)
    ensures
        b == ends_with(v@, p@),
{
    let pv = chars_of(p);
    if pv.len() > v.len() {
        return false;
    }
    let b = range_eq_str(v, v.len() - pv.len(), v.len(), p);
    proof {
        assert(v@.subrange(v@.len() - pv@.len(), v@.len() as int) =~= v@.skip(v@.len() - pv@.len()));
    }
    b
}

/// Whether `v[lo..hi]` begins with `p`.
fn range_starts_with(v: &Vec<char>, lo: usize, hi: usize, p: &str) -> (b: bool)
    requires
        lo <= hi <= v.len(),
    ensures
        b == starts_with(v@.subrange(lo as int, hi as int), p@),
{
    let pv = chars_of(p);
    if pv.len() > hi - lo {
        return false;
    }
    let b = range_eq_str(v, lo, lo + pv.len(), p);
    proof {
        assert(v@.subrange(lo as int, hi as int).take(pv@.len() as int) =~= v@.subrange(lo as int, lo + pv@.len()));
    }
    b
}

/// Whether a station address names a playlist file.
pub fn is_playlist_url(url: &str) -> (b: bool)
    ensures
        b == is_playlist_address(url@),
{
    let v = chars_of(url);
    chars_end_with(&v, ".m3u") || chars_end_with(&v, ".pls")
}

/// The trimmed `v[lo..hi]` when it is an M3U stream address.
fn m3u_entry_in(v: &Vec<char>, lo: usize, hi: usize) -> (r: Option<String>)
    requires
        lo <= hi <= v.len(),
    ensures
        is_m3u_entry(trim(v@.subrange(lo as int, hi as int))) ==> (r matches Some(s) && s@ == trim(v@.subrange(lo as int, hi as int))),
        !is_m3u_entry(trim(v@.subrange(lo as int, hi as int))) ==> r is None,
{
    let (a, b) = trim_range(v, lo, hi);
    if a < b && !range_starts_with(v, a, b, "#") && (range_starts_with(v, a, b, "http") || range_starts_with(v, a, b, "//")) {
        Some(string_of_range(v, a, b))
    } else {
        None
    }
}

/// The address of the PLS line `v[lo..hi]`, if it gives one.
fn pls_entry_in(v: &Vec<char>, lo: usize, hi: usize) -> (r: Option<String>)
    requires
        lo <= hi <= v.len(),
    ensures
        match pls_entry(v@.subrange(lo as int, hi as int)) {
            Some(u) => r matches Some(s) && s@ == u,
            None => r is None,
        },
{
    let ghost l = v@.subrange(lo as int, hi as int);
    if !range_starts_with(v, lo, hi, "File") {
        return None;
    }
    let eq = match range_find(v, lo, hi, '=') {
        Some(k) => k,
        None => {
            return None;
        },
    };
    proof {
        assert(is_first_index(l, '=', eq - lo));
        lemma_split_first_at(l, '=', eq - lo);
        assert(l.skip(eq - lo + 1) =~= v@.subrange(eq + 1, hi as int));
    }
    let ghost after = v@.subrange(eq + 1, hi as int);
    let end = match range_find(v, eq + 1, hi, '=') {
        Some(k) => {
            proof {
                assert(is_first_index(after, '=', k - eq - 1));
                lemma_split_first_at(after, '=', k - eq - 1);
                assert(after.take(k - eq - 1) =~= v@.subrange(eq + 1, k as int));
            }
            k
        },
        None => {
            proof {
                assert(!after.contains('='));
            }
            hi
        },
    };
    let (a, b) = trim_range(v, eq + 1, end);
    Some(string_of_range(v, a, b))
}

/// The stream address in a playlist file's `content`, fetched from `url`
/// (see [`playlist_stream_url`]), or `None` when it has none.
pub fn stream_url_in_playlist(url: &str, content: &str) -> (r: Option<String>)
    ensures
        match playlist_stream_url(url@, content@) {
            Some(u) => r matches Some(s) && s@ == u,
            None => r is None,
        },
{
    let u = chars_of(url);
    let v = chars_of(content);
    let lines = line_bounds(&v);
    let ghost ls = text_lines(v@);
    let header = range_starts_with(&v, 0, v.len(), "#EXTM3U");
    proof {
        assert(v@.subrange(0, v@.len() as int) =~= v@);
        assert(ls.skip(0) =~= ls);
    }
    let is_m3u = chars_end_with(&u, ".m3u") || header;
    if is_m3u {
        let mut i: usize = 0;
        while i < lines.len()
            invariant
                i <= lines.len(),
                lines@.len() == ls.len(),
                ls == text_lines(v@),
                v@ == content@,
                playlist_stream_url(url@, content@) == (match first_m3u_url(ls) {
                    Some(m) => Some(m),
                    None => if ends_with(url@, ".pls"@) { first_pls_url(ls) } else { None },
                }),
                forall|j: int| 0 <= j < lines@.len() ==> bounds_spell(v@, #[trigger] lines@[j], ls[j]),
                first_m3u_url(ls) == first_m3u_url(ls.skip(i as int)),
            decreases lines.len() - i,
        {
            let (lo, hi) = lines[i];
            proof {
                assert(bounds_spell(v@, lines@[i as int], ls[i as int]));
                assert(ls.skip(i as int)[0] == ls[i as int]);
                assert(ls.skip(i as int).drop_first() =~= ls.skip(i + 1));
            }
            if let Some(s) = m3u_entry_in(&v, lo, hi) {
                proof {
                    assert(is_m3u_entry(trim(ls[i as int])));
                    assert(first_m3u_url(ls.skip(i as int)) == Some(trim(ls[i as int])));
                }
                return Some(s);
            }
            i = i + 1;
        }
        proof {
            assert(ls.skip(lines@.len() as int) =~= Seq::<Seq<char>>::empty());
        }
    }
    let is_pls = chars_end_with(&u, ".pls");
    proof {
        assert(playlist_stream_url(url@, content@) == (if is_pls { first_pls_url(ls) } else { None }));
    }
    if is_pls {
        let mut i: usize = 0;
        while i < lines.len()
            invariant
                i <= lines.len(),
                lines@.len() == ls.len(),
                ls == text_lines(v@),
                playlist_stream_url(url@, content@) == first_pls_url(ls),
                forall|j: int| 0 <= j < lines@.len() ==> bounds_spell(v@, #[trigger] lines@[j], ls[j]),
                first_pls_url(ls) == first_pls_url(ls.skip(i as int)),
            decreases lines.len() - i,
        {
            let (lo, hi) = lines[i];
            proof {
                assert(bounds_spell(v@, lines@[i as int], ls[i as int]));
                assert(ls.skip(i as int)[0] == ls[i as int]);
                assert(ls.skip(i as int).drop_first() =~= ls.skip(i + 1));
            }
            if let Some(s) = pls_entry_in(&v, lo, hi) {
                proof {
                    assert(first_pls_url(ls.skip(i as int)) == pls_entry(ls[i as int]));
                }
                return Some(s);
            }
            i = i + 1;
        }
        proof {
            assert(ls.skip(lines@.len() as int) =~= Seq::<Seq<char>>::empty());
        }
    }
    None
}

} // verus!
