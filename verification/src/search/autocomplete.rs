//! Suggestions for the field name or value being typed in a query string.

use vstd::prelude::*;
use crate::text::{
    chars_of, trim, lowercase, last_index_of, rfind_in, range_contains, trim_range,
    lowercase_of_range, char_index_of_byte, is_char_boundary_at, utf8_len, chars_eq_str,
    string_of_chars, lemma_chars_before_byte_unique, chars_before_byte, lemma_last_index_props,
    starts_with, contains_text, chars_starts_with, chars_contains_text, chars_equal, lex_le,
    sort_lex, string_from_str, text_list,
};

verus! {

/// What the text before the cursor is in the middle of.
#[derive(Debug, Clone, PartialEq)]
pub enum AutocompleteContext {
    /// A field name, or nothing yet.
    FieldName,
    /// The value of the named field.
    FieldValue(String),
    /// A comma in a field that takes a single value.
    InvalidComma,
}

/// The mathematical content of an [`AutocompleteContext`].
pub enum ContextModel {
    FieldName,
    FieldValue(Seq<char>),
    InvalidComma,
}

impl View for AutocompleteContext {
    type V = ContextModel;

    open spec fn view(&self) -> ContextModel {
        match self {
            AutocompleteContext::FieldName => ContextModel::FieldName,
            AutocompleteContext::FieldValue(f) => ContextModel::FieldValue(f@),
            AutocompleteContext::InvalidComma => ContextModel::InvalidComma,
        }
    }
}

/// Start of the token under the cursor: just after the last space, or 0.
pub open spec fn token_start(before: Seq<char>) -> int {
    last_index_of(before, ' ') + 1
}

/// The context of the text `before` the cursor. After a comma only `tag`
/// continues with another value; after `=` the field's value is typed;
/// anything else is a field name.
pub open spec fn context_of(before: Seq<char>) -> ContextModel {
    let current = before.skip(token_start(before));
    if current.contains(',') {
        let eq = last_index_of(before, '=');
        if eq >= 0 {
            let key = before.take(eq);
            let name = lowercase(trim(key.skip(last_index_of(key, ' ') + 1)));
            if name == "tag"@ {
                ContextModel::FieldValue(name)
            } else {
                ContextModel::InvalidComma
            }
        } else {
            ContextModel::FieldName
        }
    } else if current.contains('=') {
        ContextModel::FieldValue(lowercase(trim(current.take(last_index_of(current, '=')))))
    } else {
        ContextModel::FieldName
    }
}

/// The context at byte offset `cursor` of `input`: past the end it is a
/// field name; otherwise it is that of the characters before the cursor.
pub open spec fn context_at(input: Seq<char>, cursor: int) -> ContextModel {
    if cursor > utf8_len(input) {
        ContextModel::FieldName
    } else {
        context_of(input.take(chars_before_byte(input, cursor)))
    }
}

/// A cursor the text can be cut at: past the end or between two characters.
pub open spec fn cursor_ok(input: Seq<char>, cursor: int) -> bool {
    cursor > utf8_len(input) || is_char_boundary_at(input, cursor)
}

/// The context at a cursor between two characters depends only on the text
/// before the cursor: it is the same for the text cut at the cursor, and for
/// any two texts that agree up to the cursor.
pub proof fn law_context_depends_on_text_before(a: Seq<char>, b: Seq<char>, cursor: int)
    requires
        is_char_boundary_at(a, cursor),
        is_char_boundary_at(b, cursor),
    ensures
        context_at(a, cursor) == context_at(a.take(chars_before_byte(a, cursor)), cursor),
        a.take(chars_before_byte(a, cursor)) == b.take(chars_before_byte(b, cursor)) ==> context_at(
            a,
            cursor,
        ) == context_at(b, cursor),
{
    let k = chars_before_byte(a, cursor);
    assert(0 <= k <= a.len() && utf8_len(a.take(k)) == cursor);
    crate::text::lemma_utf8_len_prefix_le(a, k);
    let kb = chars_before_byte(b, cursor);
    assert(0 <= kb <= b.len() && utf8_len(b.take(kb)) == cursor);
    crate::text::lemma_utf8_len_prefix_le(b, kb);
    let p = a.take(k);
    assert(p.take(k) =~= p);
    lemma_chars_before_byte_unique(p, k, cursor);
}

/// The context of the characters `v[0..k]`.
fn context_of_prefix(v: &Vec<char>, k: usize) -> (r: AutocompleteContext)
    requires
        k <= v.len(),
    ensures
        r@ == context_of(v@.take(k as int)),
{
    let ghost before = v@.take(k as int);
    proof {
        assert(v@.subrange(0, k as int) =~= before);
    }
    let start = match rfind_in(v, 0, k, ' ') {
        Some(i) => i + 1,
        None => 0,
    };
    proof {
        assert(v@.subrange(start as int, k as int) =~= before.skip(token_start(before)));
    }
    if range_contains(v, start, k, ',') {
        match rfind_in(v, 0, k, '=') {
            Some(eq) => {
                let ghost key = before.take(eq as int);
                proof {
                    assert(v@.subrange(0, eq as int) =~= key);
                }
                let fs = match rfind_in(v, 0, eq, ' ') {
                    Some(i) => i + 1,
                    None => 0,
                };
                proof {
                    assert(v@.subrange(fs as int, eq as int) =~= key.skip(
                        last_index_of(key, ' ') + 1,
                    ));
                }
                let (a, b) = trim_range(v, fs, eq);
                let name = lowercase_of_range(v, a, b);
                if chars_eq_str(&name, "tag") {
                    AutocompleteContext::FieldValue(string_of_chars(&name))
                } else {
                    AutocompleteContext::InvalidComma
                }
            },
            None => AutocompleteContext::FieldName,
        }
    } else {
        match rfind_in(v, start, k, '=') {
            Some(eq) => {
                proof {
                    let current = before.skip(token_start(before));
                    lemma_last_index_props(current, '=');
                    assert(v@.subrange(start as int, eq as int) =~= current.take(
                        last_index_of(current, '='),
                    ));
                }
                let (a, b) = trim_range(v, start, eq);
                let name = lowercase_of_range(v, a, b);
                AutocompleteContext::FieldValue(string_of_chars(&name))
            },
            None => {
                proof {
                    let current = before.skip(token_start(before));
                    lemma_last_index_props(current, '=');
                }
                AutocompleteContext::FieldName
            },
        }
    }
}

/// Works out what is being typed at byte offset `cursor_pos` of `input`.
pub fn detect_context(input: &str, cursor_pos: usize) -> (r: AutocompleteContext)
    requires
        cursor_ok(input@, cursor_pos as int),
    ensures
        r@ == context_at(input@, cursor_pos as int),
{
    let v = chars_of(input);
    match char_index_of_byte(&v, cursor_pos) {
        Some(k) => {
            proof {
                lemma_chars_before_byte_unique(v@, k as int, cursor_pos as int);
                crate::text::lemma_utf8_len_prefix_le(v@, k as int);
            }
            context_of_prefix(&v, k)
        },
        None => AutocompleteContext::FieldName,
    }
}

/// Most suggestions offered at once.
pub const MAX_SUGGESTIONS: usize = 300;

/// The lists suggestions are drawn from.
pub struct AutocompleteData {
    pub countries: Vec<String>,
    pub languages: Vec<String>,
    pub tags: Vec<String>,
    pub codecs: Vec<String>,
    pub field_names: Vec<String>,
    pub order_values: Vec<String>,
    pub boolean_values: Vec<String>,
}

/// The codecs offered before the directory is consulted.
pub open spec fn default_codecs() -> Seq<Seq<char>> {
    seq!["MP3"@, "AAC"@, "AAC+"@, "OGG"@, "FLAC"@]
}

/// The field names of the query language, in the order they are documented.
pub open spec fn default_field_names() -> Seq<Seq<char>> {
    seq![
        "name"@,
        "country"@,
        "countrycode"@,
        "state"@,
        "language"@,
        "tag"@,
        "codec"@,
        "bitrate_min"@,
        "bitrate_max"@,
        "order"@,
        "reverse"@,
        "hidebroken"@,
        "is_https"@,
        "page"@,
    ]
}

/// The sort orders offered.
pub open spec fn default_order_values() -> Seq<Seq<char>> {
    seq!["name"@, "votes"@, "clickcount"@, "bitrate"@, "changetimestamp"@, "random"@]
}

/// A vector of strings built from literals.
fn strings_of(lits: &Vec<&str>) -> (r: Vec<String>)
    ensures
        r@.len() == lits@.len(),
        forall|i: int| 0 <= i < lits@.len() ==> #[trigger] r@[i]@ == lits@[i]@,
{
    let mut r: Vec<String> = Vec::new();
    let mut i: usize = 0;
    while i < lits.len()
        invariant
            i <= lits.len(),
            r@.len() == i,
            forall|k: int| 0 <= k < i ==> #[trigger] r@[k]@ == lits@[k]@,
        decreases lits.len() - i,
    {
        r.push(string_from_str(lits[i]));
        i = i + 1;
    }
    r
}

impl Default for AutocompleteData {
    /// The built-in lists, with no countries, languages or tags yet.
    fn default() -> (d: AutocompleteData)
        ensures
            d.countries@.len() == 0,
            d.languages@.len() == 0,
            d.tags@.len() == 0,
            text_list(d.codecs@) == default_codecs(),
            text_list(d.field_names@) == default_field_names(),
            text_list(d.order_values@) == default_order_values(),
            text_list(d.boolean_values@) == seq!["true"@, "false"@],
    {
        let codecs = strings_of(&vec!["MP3", "AAC", "AAC+", "OGG", "FLAC"]);
        let field_names = strings_of(
            &vec![
                "name",
                "country",
                "countrycode",
                "state",
                "language",
                "tag",
                "codec",
                "bitrate_min",
                "bitrate_max",
                "order",
                "reverse",
                "hidebroken",
                "is_https",
                "page",
            ],
        );
        let order_values = strings_of(
            &vec!["name", "votes", "clickcount", "bitrate", "changetimestamp", "random"],
        );
        let boolean_values = strings_of(&vec!["true", "false"]);
        proof {
            assert(text_list(codecs@) =~= default_codecs());
            assert(text_list(field_names@) =~= default_field_names());
            assert(text_list(order_values@) =~= default_order_values());
            assert(text_list(boolean_values@) =~= seq!["true"@, "false"@]);
        }
        AutocompleteData {
            countries: Vec::new(),
            languages: Vec::new(),
            tags: Vec::new(),
            codecs,
            field_names,
            order_values,
            boolean_values,
        }
    }
}

impl AutocompleteData {
    /// The built-in lists completed with the country, language and tag names
    /// the station directory returned; a list that could not be fetched stays empty.
    pub fn load(countries: Option<Vec<String>>, languages: Option<Vec<String>>, tags: Option<Vec<String>>) -> (d:
        AutocompleteData)
        ensures
            d.countries@ == (match countries {
                Some(c) => c@,
                None => Seq::<String>::empty(),
            }),
            d.languages@ == (match languages {
                Some(l) => l@,
                None => Seq::<String>::empty(),
            }),
            d.tags@ == (match tags {
                Some(t) => t@,
                None => Seq::<String>::empty(),
            }),
            text_list(d.codecs@) == default_codecs(),
            text_list(d.field_names@) == default_field_names(),
            text_list(d.order_values@) == default_order_values(),
            text_list(d.boolean_values@) == seq!["true"@, "false"@],
    {
        let mut d = AutocompleteData::default();
        if let Some(c) = countries {
            d.countries = c;
        }
        if let Some(l) = languages {
            d.languages = l;
        }
        if let Some(t) = tags {
            d.tags = t;
        }
        proof {
            assert(d.countries@ =~= Seq::<String>::empty() || countries is Some);
        }
        d
    }
}

/// Whether an entry is offered for the typed `partial` text: field names
/// must start with it, values must contain it, ignoring letter case.
pub open spec fn is_candidate(x: Seq<char>, partial: Seq<char>, names: bool) -> bool {
    if names {
        starts_with(lowercase(x), partial)
    } else {
        contains_text(lowercase(x), partial)
    }
}

/// Whether an offered entry is ranked first: a field name equal to the typed
/// text, or a value that starts with it, ignoring letter case.
pub open spec fn is_preferred(x: Seq<char>, partial: Seq<char>, names: bool) -> bool {
    if names {
        lowercase(x) == partial
    } else {
        starts_with(lowercase(x), partial)
    }
}

/// The entries of a list that are offered, in list order.
pub open spec fn candidates(list: Seq<String>, partial: Seq<char>, names: bool) -> Seq<String>
    decreases list.len(),
{
    if list.len() == 0 {
        Seq::empty()
    } else {
        let r = candidates(list.drop_last(), partial, names);
        if is_candidate(list.last()@, partial, names) {
            r.push(list.last())
        } else {
            r
        }
    }
}

/// `a` may be listed before `b`: preferred entries first, then alphabetical.
pub open spec fn ranked_before(a: String, b: String, partial: Seq<char>, names: bool) -> bool {
    ||| is_preferred(a@, partial, names) && !is_preferred(b@, partial, names)
    ||| is_preferred(a@, partial, names) == is_preferred(b@, partial, names) && lex_le(a@, b@)
}

/// The entries are in ranking order.
pub open spec fn ranked(s: Seq<String>, partial: Seq<char>, names: bool) -> bool {
    forall|i: int, j: int| 0 <= i < j < s.len() ==> ranked_before(s[i], s[j], partial, names)
}

/// `result` is the first (at most `MAX_SUGGESTIONS`) entries of the offered
/// entries of `list` put in ranking order.
pub open spec fn ranked_top(result: Seq<String>, list: Seq<String>, partial: Seq<char>, names: bool) -> bool {
    exists|full: Seq<String>|
        {
            &&& full.to_multiset() == candidates(list, partial, names).to_multiset()
            &&& ranked(full, partial, names)
            &&& result == full.take(
                if full.len() <= MAX_SUGGESTIONS {
                    full.len() as int
                } else {
                    MAX_SUGGESTIONS as int
                },
            )
        }
}

/// The offered entries of `list` for `partial`, ranked, at most `MAX_SUGGESTIONS`.
fn rank_candidates(list: &Vec<String>, partial: &Vec<char>, names: bool) -> (r: Vec<String>)
    ensures
        ranked_top(r@, list@, partial@, names),
{
    broadcast use vstd::seq_lib::group_to_multiset_ensures;

    let mut preferred: Vec<String> = Vec::new();
    let mut others: Vec<String> = Vec::new();
    let mut i: usize = 0;
    proof {
        assert(list@.take(0) =~= Seq::<String>::empty());
        assert(preferred@ =~= Seq::<String>::empty());
        assert(others@ =~= Seq::<String>::empty());
    }
    while i < list.len()
        invariant
            i <= list.len(),
            preferred@.to_multiset().add(others@.to_multiset()) == candidates(
                list@.take(i as int),
                partial@,
                names,
            ).to_multiset(),
            forall|k: int| 0 <= k < preferred@.len() ==> is_preferred(#[trigger] preferred@[k]@, partial@, names),
            forall|k: int| 0 <= k < others@.len() ==> !is_preferred(#[trigger] others@[k]@, partial@, names),
        decreases list.len() - i,
    {
        let x = list[i].clone();
        let lower = crate::text::to_lowercase(x.as_str());
        let lx = chars_of(lower.as_str());
        proof {
            assert(list@.take(i + 1).drop_last() =~= list@.take(i as int));
            assert(list@.take(i + 1).last() == x);
        }
        let cand = if names {
            chars_starts_with(&lx, partial)
        } else {
            chars_contains_text(&lx, partial)
        };
        if cand {
            let pref = if names {
                chars_equal(&lx, partial)
            } else {
                chars_starts_with(&lx, partial)
            };
            let ghost c = candidates(list@.take(i as int), partial@, names);
            proof {
                c.to_multiset_ensures();
            }
            if pref {
                let ghost old_p = preferred@;
                preferred.push(x);
                proof {
                    old_p.to_multiset_ensures();
                }
            } else {
                let ghost old_o = others@;
                others.push(x);
                proof {
                    old_o.to_multiset_ensures();
                }
            }
        }
        i = i + 1;
    }
    proof {
        assert(list@.take(list@.len() as int) =~= list@);
    }
    let mut full = sort_lex(&preferred);
    let mut rest = sort_lex(&others);
    let ghost sp = full@;
    let ghost so = rest@;
    proof {
        assert forall|k: int| 0 <= k < sp.len() implies is_preferred(#[trigger] sp[k]@, partial@, names) by {
            assert(sp.to_multiset().count(sp[k]) > 0);
            assert(preferred@.contains(sp[k]));
        }
        assert forall|k: int| 0 <= k < so.len() implies !is_preferred(#[trigger] so[k]@, partial@, names) by {
            assert(so.to_multiset().count(so[k]) > 0);
            assert(others@.contains(so[k]));
        }
    }
    full.append(&mut rest);
    proof {
        assert(full@ == sp + so);
        vstd::seq_lib::lemma_multiset_commutative(sp, so);
        assert forall|a: int, b: int| 0 <= a < b < full@.len() implies ranked_before(
            full@[a],
            full@[b],
            partial@,
            names,
        ) by {
            if b < sp.len() {
                assert(full@[a] == sp[a] && full@[b] == sp[b]);
            } else if a >= sp.len() {
                assert(full@[a] == so[a - sp.len()] && full@[b] == so[b - sp.len()]);
            } else {
                assert(full@[a] == sp[a] && full@[b] == so[b - sp.len()]);
            }
        }
    }
    let ghost whole = full@;
    proof {
        assert(whole.to_multiset() == candidates(list@, partial@, names).to_multiset());
        assert(ranked(whole, partial@, names));
    }
    full.truncate(MAX_SUGGESTIONS);
    proof {
        assert(full@ == whole.take(
            if whole.len() <= MAX_SUGGESTIONS {
                whole.len() as int
            } else {
                MAX_SUGGESTIONS as int
            },
        ));
    }
    full
}

/// The list a field's values are suggested from, if it has one.
pub open spec fn value_list(d: &AutocompleteData, field: Seq<char>) -> Option<Seq<String>> {
    if field == "country"@ {
        Some(d.countries@)
    } else if field == "language"@ {
        Some(d.languages@)
    } else if field == "tag"@ {
        Some(d.tags@)
    } else if field == "codec"@ {
        Some(d.codecs@)
    } else if field == "order"@ {
        Some(d.order_values@)
    } else if field == "reverse"@ || field == "hidebroken"@ || field == "is_https"@ {
        Some(d.boolean_values@)
    } else {
        None
    }
}

/// Start of the value under the cursor: just after the last `=` or `,`, or 0.
pub open spec fn value_start(before: Seq<char>) -> int {
    let e = last_index_of(before, '=');
    let c = last_index_of(before, ',');
    (if e > c {
        e
    } else {
        c
    }) + 1
}

/// The suggestions offered at byte offset `cursor` of `input`: none past the
/// end or after a misplaced comma; the ranked field names starting with the
/// typed name; or the ranked values of the field's list containing the typed
/// value (none for a field without a list). Typed text is trimmed and
/// lower-cased before it is compared.
pub open spec fn suggestions_spec(input: Seq<char>, cursor: int, d: &AutocompleteData, result: Seq<String>) -> bool {
    if cursor > utf8_len(input) {
        result.len() == 0
    } else {
        let before = input.take(chars_before_byte(input, cursor));
        match context_of(before) {
            ContextModel::InvalidComma => result.len() == 0,
            ContextModel::FieldName => ranked_top(
                result,
                d.field_names@,
                lowercase(trim(before.skip(token_start(before)))),
                true,
            ),
            ContextModel::FieldValue(f) => match value_list(d, f) {
                None => result.len() == 0,
                Some(list) => ranked_top(
                    result,
                    list,
                    lowercase(trim(before.skip(value_start(before)))),
                    false,
                ),
            },
        }
    }
}

/// Suggestions for what is being typed at byte offset `cursor_pos` of `input`.
pub fn get_suggestions(input: &str, cursor_pos: usize, data: &AutocompleteData) -> (r: Vec<String>)
    requires
        cursor_ok(input@, cursor_pos as int),
    ensures
        suggestions_spec(input@, cursor_pos as int, data, r@),
{
    let v = chars_of(input);
    let k = match char_index_of_byte(&v, cursor_pos) {
        Some(k) => k,
        None => {
            return Vec::new();
        },
    };
    proof {
        lemma_chars_before_byte_unique(v@, k as int, cursor_pos as int);
        crate::text::lemma_utf8_len_prefix_le(v@, k as int);
        assert(v@.subrange(0, k as int) =~= v@.take(k as int));
    }
    let ghost before = v@.take(k as int);
    let context = context_of_prefix(&v, k);
    match context {
        AutocompleteContext::InvalidComma => Vec::new(),
        AutocompleteContext::FieldName => {
            let start = match rfind_in(&v, 0, k, ' ') {
                Some(i) => i + 1,
                None => 0,
            };
            proof {
                assert(v@.subrange(start as int, k as int) =~= before.skip(token_start(before)));
            }
            let (a, b) = trim_range(&v, start, k);
            let partial = lowercase_of_range(&v, a, b);
            rank_candidates(&data.field_names, &partial, true)
        },
        AutocompleteContext::FieldValue(field) => {
            let e = rfind_in(&v, 0, k, '=');
            let c = rfind_in(&v, 0, k, ',');
            let start = match (e, c) {
                (Some(ei), Some(ci)) => if ei > ci {
                    ei + 1
                } else {
                    ci + 1
                },
                (Some(ei), None) => ei + 1,
                (None, Some(ci)) => ci + 1,
                (None, None) => 0,
            };
            proof {
                lemma_last_index_props(before, '=');
                lemma_last_index_props(before, ',');
                assert(start == value_start(before));
                assert(v@.subrange(start as int, k as int) =~= before.skip(value_start(before)));
            }
            let (a, b) = trim_range(&v, start, k);
            let partial = lowercase_of_range(&v, a, b);
            let fc = chars_of(field.as_str());
            if chars_eq_str(&fc, "country") {
                rank_candidates(&data.countries, &partial, false)
            } else if chars_eq_str(&fc, "language") {
                rank_candidates(&data.languages, &partial, false)
            } else if chars_eq_str(&fc, "tag") {
                rank_candidates(&data.tags, &partial, false)
            } else if chars_eq_str(&fc, "codec") {
                rank_candidates(&data.codecs, &partial, false)
            } else if chars_eq_str(&fc, "order") {
                rank_candidates(&data.order_values, &partial, false)
            } else if chars_eq_str(&fc, "reverse") || chars_eq_str(&fc, "hidebroken")
                || chars_eq_str(&fc, "is_https") {
                rank_candidates(&data.boolean_values, &partial, false)
            } else {
                Vec::new()
            }
        },
    }
}

/// Every entry offered from a list is an entry of that list, and matches the typed text.
proof fn lemma_candidates_from_list(list: Seq<String>, partial: Seq<char>, names: bool, x: String)
    requires
        candidates(list, partial, names).contains(x),
    ensures
        list.contains(x),
        is_candidate(x@, partial, names),
    decreases list.len(),
{
    broadcast use vstd::seq_lib::lemma_seq_contains_after_push;
    if list.len() > 0 {
        let init = list.drop_last();
        let r = candidates(init, partial, names);
        if is_candidate(list.last()@, partial, names) && x == list.last() {
            assert(list[list.len() - 1] == x);
        } else {
            assert(r.contains(x));
            lemma_candidates_from_list(init, partial, names, x);
            let k = choose|k: int| 0 <= k < init.len() && init[k] == x;
            assert(list[k] == x);
        }
    }
}

/// What is suggested from a list is drawn from that list, each entry matching the typed text.
proof fn lemma_ranked_top_from_list(result: Seq<String>, list: Seq<String>, partial: Seq<char>, names: bool)
    requires
        ranked_top(result, list, partial, names),
    ensures
        forall|i: int| 0 <= i < result.len() ==> list.contains(#[trigger] result[i]),
        forall|i: int| 0 <= i < result.len() ==> is_candidate((#[trigger] result[i])@, partial, names),
{
    broadcast use vstd::seq_lib::group_to_multiset_ensures;
    let full = choose|full: Seq<String>|
        {
            &&& full.to_multiset() == candidates(list, partial, names).to_multiset()
            &&& ranked(full, partial, names)
            &&& result == full.take(
                if full.len() <= MAX_SUGGESTIONS {
                    full.len() as int
                } else {
                    MAX_SUGGESTIONS as int
                },
            )
        };
    assert forall|i: int| 0 <= i < result.len() implies list.contains(#[trigger] result[i])
        && is_candidate(result[i]@, partial, names) by {
        let x = result[i];
        assert(full[i] == x);
        assert(full.contains(x));
        assert(full.to_multiset().count(x) > 0);
        assert(candidates(list, partial, names).contains(x));
        lemma_candidates_from_list(list, partial, names, x);
    }
}

/// Makes the text of the fields with value lists known.
proof fn lemma_value_field_names()
    ensures
        "country"@.len() == 7, "language"@.len() == 8, "tag"@.len() == 3, "codec"@.len() == 5,
        "order"@.len() == 5, "reverse"@.len() == 7, "hidebroken"@.len() == 10,
        "is_https"@.len() == 8,
        "country"@[0] == 'c', "language"@[0] == 'l', "codec"@[0] == 'c', "order"@[0] == 'o',
        "reverse"@[0] == 'r', "is_https"@[0] == 'i',
{
    reveal_strlit("country");
    reveal_strlit("language");
    reveal_strlit("tag");
    reveal_strlit("codec");
    reveal_strlit("order");
    reveal_strlit("reverse");
    reveal_strlit("hidebroken");
    reveal_strlit("is_https");
}

/// The values suggested for a field are drawn from that field's own list:
/// countries for `country`, languages for `language`, tags for `tag`,
/// codecs for `codec`, sort orders for `order`, and `true`/`false` for the
/// three switches; a field without a list gets no suggestion. Each value
/// offered contains the typed text, ignoring letter case.
pub proof fn law_values_come_from_the_field_list(
    input: Seq<char>,
    cursor: int,
    d: &AutocompleteData,
    r: Seq<String>,
    f: Seq<char>,
)
    requires
        cursor <= utf8_len(input),
        context_at(input, cursor) == ContextModel::FieldValue(f),
        suggestions_spec(input, cursor, d, r),
    ensures
        f == "country"@ ==> forall|i: int| 0 <= i < r.len() ==> d.countries@.contains(#[trigger] r[i]),
        f == "language"@ ==> forall|i: int| 0 <= i < r.len() ==> d.languages@.contains(#[trigger] r[i]),
        f == "tag"@ ==> forall|i: int| 0 <= i < r.len() ==> d.tags@.contains(#[trigger] r[i]),
        f == "codec"@ ==> forall|i: int| 0 <= i < r.len() ==> d.codecs@.contains(#[trigger] r[i]),
        f == "order"@ ==> forall|i: int| 0 <= i < r.len() ==> d.order_values@.contains(#[trigger] r[i]),
        (f == "reverse"@ || f == "hidebroken"@ || f == "is_https"@) ==> forall|i: int|
            0 <= i < r.len() ==> d.boolean_values@.contains(#[trigger] r[i]),
        !(f == "country"@ || f == "language"@ || f == "tag"@ || f == "codec"@ || f == "order"@
            || f == "reverse"@ || f == "hidebroken"@ || f == "is_https"@) ==> r.len() == 0,
        ({
            let before = input.take(chars_before_byte(input, cursor));
            let typed = lowercase(trim(before.skip(value_start(before))));
            forall|i: int| 0 <= i < r.len() ==> contains_text(lowercase((#[trigger] r[i])@), typed)
        }),
{
    lemma_value_field_names();
    let before = input.take(chars_before_byte(input, cursor));
    let typed = lowercase(trim(before.skip(value_start(before))));
    if let Some(list) = value_list(d, f) {
        lemma_ranked_top_from_list(r, list, typed, false);
    }
}

} // verus!
