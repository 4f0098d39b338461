//! The browse tab's lists of countries, genres and languages: which names
//! are offered, and what picking one asks for.

use vstd::prelude::*;
use crate::api::models::{Country, Tag, Language};
use crate::tui::BrowseMode;
use crate::text::{string_append_str, push_decimal, decimal_string};

verus! {

/// The names of the entries that have at least one station, in order.
pub open spec fn names_with_stations(entries: Seq<(Seq<char>, i32)>) -> Seq<Seq<char>>
    decreases entries.len(),
{
    if entries.len() == 0 {
        Seq::empty()
    } else {
        let rest = names_with_stations(entries.drop_last());
        if entries.last().1 > 0 {
            rest.push(entries.last().0)
        } else {
            rest
        }
    }
}

/// Countries as names and station counts.
pub open spec fn country_entries(v: Seq<Country>) -> Seq<(Seq<char>, i32)> {
    v.map_values(|c: Country| (c.name@, c.station_count))
}

/// Tags as names and station counts.
pub open spec fn tag_entries(v: Seq<Tag>) -> Seq<(Seq<char>, i32)> {
    v.map_values(|t: Tag| (t.name@, t.station_count))
}

/// Languages as names and station counts.
pub open spec fn language_entries(v: Seq<Language>) -> Seq<(Seq<char>, i32)> {
    v.map_values(|l: Language| (l.name@, l.station_count))
}

/// Strings as their characters.
pub open spec fn string_views(v: Seq<String>) -> Seq<Seq<char>> {
    v.map_values(|s: String| s@)
}

/// Appends `name` to `out` when `count` is positive.
fn keep_if_stations(out: &mut Vec<String>, name: &String, count: i32)
    ensures
        string_views(final(out)@) == if count > 0 {
            string_views(old(out)@).push(name@)
        } else {
            string_views(old(out)@)
        },
{
    if count > 0 {
        let ghost before = out@;
        out.push(name.clone());
        proof {
            assert(string_views(out@) =~= string_views(before).push(name@));
        }
    }
}

/// The countries offered for browsing: those with stations, by name.
pub fn country_names(countries: &Vec<Country>) -> (r: Vec<String>)
    ensures
        string_views(r@) == names_with_stations(country_entries(countries@)),
{
    let mut out: Vec<String> = Vec::new();
    let mut i: usize = 0;
    while i < countries.len()
        invariant
            i <= countries.len(),
            string_views(out@) == names_with_stations(country_entries(countries@.take(i as int))),
        decreases countries.len() - i,
    {
        keep_if_stations(&mut out, &countries[i].name, countries[i].station_count);
        proof {
            assert(country_entries(countries@.take(i + 1)).drop_last() =~= country_entries(
                countries@.take(i as int),
            ));
        }
        i = i + 1;
    }
    proof {
        assert(countries@.take(i as int) =~= countries@);
    }
    out
}

/// The genres offered for browsing: the tags with stations, by name.
pub fn tag_names(tags: &Vec<Tag>) -> (r: Vec<String>)
    ensures
        string_views(r@) == names_with_stations(tag_entries(tags@)),
{
    let mut out: Vec<String> = Vec::new();
    let mut i: usize = 0;
    while i < tags.len()
        invariant
            i <= tags.len(),
            string_views(out@) == names_with_stations(tag_entries(tags@.take(i as int))),
        decreases tags.len() - i,
    {
        keep_if_stations(&mut out, &tags[i].name, tags[i].station_count);
        proof {
            assert(tag_entries(tags@.take(i + 1)).drop_last() =~= tag_entries(tags@.take(i as int)));
        }
        i = i + 1;
    }
    proof {
        assert(tags@.take(i as int) =~= tags@);
    }
    out
}

/// The languages offered for browsing: those with stations, by name.
pub fn language_names(languages: &Vec<Language>) -> (r: Vec<String>)
    ensures
        string_views(r@) == names_with_stations(language_entries(languages@)),
{
    let mut out: Vec<String> = Vec::new();
    let mut i: usize = 0;
    while i < languages.len()
        invariant
            i <= languages.len(),
            string_views(out@) == names_with_stations(language_entries(languages@.take(i as int))),
        decreases languages.len() - i,
    {
        keep_if_stations(&mut out, &languages[i].name, languages[i].station_count);
        proof {
            assert(language_entries(languages@.take(i + 1)).drop_last() =~= language_entries(
                languages@.take(i as int),
            ));
        }
        i = i + 1;
    }
    proof {
        assert(languages@.take(i as int) =~= languages@);
    }
    out
}

/// Every name offered has stations, and it comes from the list it was
/// taken from.
pub proof fn law_offered_names_have_stations(entries: Seq<(Seq<char>, i32)>, k: int)
    requires
        0 <= k < names_with_stations(entries).len(),
    ensures
        exists|j: int|
            0 <= j < entries.len() && #[trigger] entries[j].0 == names_with_stations(entries)[k]
                && entries[j].1 > 0,
    decreases entries.len(),
{
    let rest = names_with_stations(entries.drop_last());
    if entries.last().1 > 0 && k == rest.len() {
        assert(entries[entries.len() - 1].0 == names_with_stations(entries)[k]);
    } else {
        law_offered_names_have_stations(entries.drop_last(), k);
        let j = choose|j: int|
            0 <= j < entries.drop_last().len() && #[trigger] entries.drop_last()[j].0
                == names_with_stations(entries.drop_last())[k] && entries.drop_last()[j].1 > 0;
        assert(entries[j].0 == names_with_stations(entries)[k]);
    }
}

/// Which station list a browse pick asks for.
#[derive(Debug, Clone, Copy, PartialEq, Eq, Structural)]
pub enum BrowseSource {
    Country,
    Tag,
    Language,
}

/// A list of stations to show: where it comes from, the name picked, and
/// the key under which it is cached.
#[derive(Debug, Clone)]
pub struct BrowseFetch {
    pub source: BrowseSource,
    pub name: String,
    pub cache_key: String,
}

/// What picking the selected entry of a browse list does.
#[derive(Debug, Clone)]
pub enum BrowsePick {
    /// No list is shown, so nothing is picked.
    NotListing,
    /// The selection points past the list: the station list becomes empty.
    Nothing,
    /// Show the stations for the picked name.
    Fetch(BrowseFetch),
}

/// The cache key of a browse pick: a prefix for the list and the name.
pub open spec fn browse_cache_key(source: BrowseSource, name: Seq<char>) -> Seq<char> {
    match source {
        BrowseSource::Country => "country_"@ + name,
        BrowseSource::Tag => "genre_"@ + name,
        BrowseSource::Language => "language_"@ + name,
    }
}

/// The list a browse mode picks from, if it has one.
pub open spec fn mode_source(mode: BrowseMode) -> Option<BrowseSource> {
    match mode {
        BrowseMode::ByCountry => Some(BrowseSource::Country),
        BrowseMode::ByGenre => Some(BrowseSource::Tag),
        BrowseMode::ByLanguage => Some(BrowseSource::Language),
        _ => None,
    }
}

/// What a pick at `index` does, over the three lists.
pub open spec fn browse_pick_spec(
    mode: BrowseMode,
    list_mode: bool,
    countries: Seq<Seq<char>>,
    genres: Seq<Seq<char>>,
    languages: Seq<Seq<char>>,
    index: int,
) -> Option<Option<(BrowseSource, Seq<char>)>> {
    if !list_mode {
        None
    } else {
        match mode_source(mode) {
            None => Some(None),
            Some(src) => {
                let names = match src {
                    BrowseSource::Country => countries,
                    BrowseSource::Tag => genres,
                    BrowseSource::Language => languages,
                };
                if 0 <= index < names.len() {
                    Some(Some((src, names[index])))
                } else {
                    Some(None)
                }
            },
        }
    }
}

/// A pick as the model of `browse_pick_spec`.
pub open spec fn pick_view(p: BrowsePick) -> Option<Option<(BrowseSource, Seq<char>)>> {
    match p {
        BrowsePick::NotListing => None,
        BrowsePick::Nothing => Some(None),
        BrowsePick::Fetch(f) => Some(Some((f.source, f.name@))),
    }
}

/// The cache key for a pick from `source` of `name`.
pub fn cache_key_for(source: BrowseSource, name: &String) -> (k: String)
    ensures
        k@ == browse_cache_key(source, name@),
{
    let mut k = String::new();
    match source {
        BrowseSource::Country => string_append_str(&mut k, "country_"),
        BrowseSource::Tag => string_append_str(&mut k, "genre_"),
        BrowseSource::Language => string_append_str(&mut k, "language_"),
    }
    string_append_str(&mut k, name.as_str());
    proof {
        assert(k@ =~= browse_cache_key(source, name@));
    }
    k
}

/// What picking entry `index` of the shown browse list does; the list
/// shown is the one of `mode`, and nothing is picked outside list mode.
pub fn browse_pick(
    mode: BrowseMode,
    list_mode: bool,
    countries: &Vec<String>,
    genres: &Vec<String>,
    languages: &Vec<String>,
    index: usize,
) -> (r: BrowsePick)
    ensures
        pick_view(r) == browse_pick_spec(
            mode,
            list_mode,
            string_views(countries@),
            string_views(genres@),
            string_views(languages@),
            index as int,
        ),
        r matches BrowsePick::Fetch(f) ==> f.cache_key@ == browse_cache_key(f.source, f.name@),
{
    if !list_mode {
        return BrowsePick::NotListing;
    }
    let (source, names) = match mode {
        BrowseMode::ByCountry => (BrowseSource::Country, countries),
        BrowseMode::ByGenre => (BrowseSource::Tag, genres),
        BrowseMode::ByLanguage => (BrowseSource::Language, languages),
        _ => {
            return BrowsePick::Nothing;
        },
    };
    if index < names.len() {
        let name = names[index].clone();
        let cache_key = cache_key_for(source, &name);
        BrowsePick::Fetch(BrowseFetch { source, name, cache_key })
    } else {
        BrowsePick::Nothing
    }
}

/// The status line after a browse list was loaded: `Loaded N stations`.
pub open spec fn loaded_message(n: nat) -> Seq<char> {
    "Loaded "@ + decimal_string(n) + " stations"@
}

/// The status line after `n` stations were loaded.
pub fn loaded_status(n: usize) -> (s: String)
    ensures
        s@ == loaded_message(n as nat),
{
    let mut s = String::new();
    string_append_str(&mut s, "Loaded ");
    push_decimal(&mut s, n as u64);
    string_append_str(&mut s, " stations");
    proof {
        assert(s@ =~= loaded_message(n as nat));
    }
    s
}

} // verus!
