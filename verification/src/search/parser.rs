//! The textual query syntax: `field=value field2=value2`, with double quotes
//! keeping spaces inside a value and bare words searching station names.

use vstd::prelude::*;
use crate::text::{
    chars_of, string_push, trim, lowercase, uppercase, join, split_first,
    parse_unsigned, utf8_len, trim_range, string_of_range, string_from_str, string_of_chars,
    lowercase_of_range, chars_eq_str, range_contains, utf8_len_is, parse_u32_range,
    parse_usize_range, range_find, is_first_index, lemma_split_first_at, join_strings,
    to_uppercase, decimal_string, comma_list, comma_list_of_range, push_decimal, string_append_str, string_equals_str,
};
use crate::search::types::{
    text_list, QueryModel, ParseErrorModel, ParseError, SearchQuery, default_query,
};
use crate::search::validation::{
    is_valid_field, is_valid_order, is_valid_field_chars, is_valid_order_chars,
};

verus! {

/// State of the tokenizer after reading part of the input.
pub struct TokenizerState {
    pub tokens: Seq<Seq<char>>,
    pub current: Seq<char>,
    pub in_quotes: bool,
}

/// The tokenizer reads one character: a double quote toggles quoting and is
/// dropped, an unquoted space ends the current token, anything else is kept.
pub open spec fn tokenize_step(st: TokenizerState, c: char) -> TokenizerState {
    if c == '"' {
        TokenizerState { in_quotes: !st.in_quotes, ..st }
    } else if c == ' ' && !st.in_quotes {
        if st.current.len() > 0 {
            TokenizerState { tokens: st.tokens.push(st.current), current: Seq::empty(), ..st }
        } else {
            st
        }
    } else {
        TokenizerState { current: st.current.push(c), ..st }
    }
}

/// Tokenizer state after reading all of `s`.
pub open spec fn tokenize_prefix(s: Seq<char>) -> TokenizerState
    decreases s.len(),
{
    if s.len() == 0 {
        TokenizerState { tokens: Seq::empty(), current: Seq::empty(), in_quotes: false }
    } else {
        tokenize_step(tokenize_prefix(s.drop_last()), s.last())
    }
}

/// The tokens of a query string.
pub open spec fn tokenize(s: Seq<char>) -> Seq<Seq<char>> {
    let st = tokenize_prefix(s);
    if st.current.len() > 0 {
        st.tokens.push(st.current)
    } else {
        st.tokens
    }
}

/// Splits a query string into tokens at unquoted spaces, dropping the quotes.
pub fn tokenize_query(input: &str) -> (tokens: Vec<String>)
    ensures
        text_list(tokens@) == tokenize(input@),
{
    let v = chars_of(input);
    let mut tokens: Vec<String> = Vec::new();
    let mut current = String::new();
    let mut in_quotes = false;
    let mut i: usize = 0;
    proof {
        assert(v@.take(0) =~= Seq::<char>::empty());
        assert(text_list(tokens@) =~= Seq::<Seq<char>>::empty());
    }
    while i < v.len()
        invariant
            i <= v.len(),
            tokenize_prefix(v@.take(i as int)) == (TokenizerState {
                tokens: text_list(tokens@),
                current: current@,
                in_quotes,
            }),
        decreases v.len() - i,
    {
        proof {
            assert(v@.take(i + 1).drop_last() =~= v@.take(i as int));
        }
        let ch = v[i];
        if ch == '"' {
            in_quotes = !in_quotes;
        } else if ch == ' ' && !in_quotes {
            if current.unicode_len() > 0 {
                let ghost before = tokens@;
                let done = current;
                current = String::new();
                tokens.push(done);
                proof {
                    assert(text_list(tokens@) =~= text_list(before).push(done@));
                }
            }
        } else {
            string_push(&mut current, ch);
        }
        i = i + 1;
    }
    proof {
        assert(v@.take(v@.len() as int) =~= v@);
    }
    if current.unicode_len() > 0 {
        let ghost before = tokens@;
        tokens.push(current);
        proof {
            assert(text_list(tokens@) =~= text_list(before).push(tokens@.last()@));
        }
    }
    tokens
}


/// An `InvalidValue` error.
pub open spec fn invalid(field: Seq<char>, value: Seq<char>, reason: Seq<char>) -> ParseErrorModel {
    ParseErrorModel::InvalidValue { field, value, reason }
}

/// `true` or `false` in any letter case.
pub open spec fn parse_bool_value(v: Seq<char>) -> Option<bool> {
    if lowercase(v) == "true"@ {
        Some(true)
    } else if lowercase(v) == "false"@ {
        Some(false)
    } else {
        None
    }
}

/// A single-valued text filter (country or language): it may be neither
/// blank nor a comma-separated list, and is stored trimmed.
pub open spec fn single_value(field: Seq<char>, value: Seq<char>, multi_reason: Seq<char>) -> Result<
    Seq<char>,
    ParseErrorModel,
> {
    if trim(value).len() == 0 {
        Err(invalid(field, value, "empty value"@))
    } else if value.contains(',') {
        Err(invalid(field, value, multi_reason))
    } else {
        Ok(trim(value))
    }
}

/// A true/false filter.
pub open spec fn bool_field(field: Seq<char>, value: Seq<char>) -> Result<bool, ParseErrorModel> {
    match parse_bool_value(value) {
        Some(b) => Ok(b),
        None => Err(invalid(field, value, "must be 'true' or 'false'"@)),
    }
}

/// A bitrate bound.
pub open spec fn number_field(field: Seq<char>, value: Seq<char>) -> Result<u32, ParseErrorModel> {
    match parse_unsigned(value, u32::MAX as nat) {
        Some(n) => Ok(n as u32),
        None => Err(invalid(field, value, "must be a number"@)),
    }
}

/// Whether a field takes free text (possibly checked) rather than a number, order or flag.
pub open spec fn is_text_field(field: Seq<char>) -> bool {
    ||| field == "name"@
    ||| field == "country"@
    ||| field == "countrycode"@
    ||| field == "state"@
    ||| field == "language"@
    ||| field == "tag"@
    ||| field == "codec"@
}

/// The effect of a text field on a query.
pub open spec fn apply_text_field(q: QueryModel, field: Seq<char>, value: Seq<char>) -> Result<
    QueryModel,
    ParseErrorModel,
> {
    if field == "name"@ {
        Ok(QueryModel { name: Some(value), ..q })
    } else if field == "country"@ {
        match single_value(
            "country"@,
            value,
            "multiple countries not supported (use single country only)"@,
        ) {
            Ok(v) => Ok(QueryModel { country: Some(v), ..q }),
            Err(e) => Err(e),
        }
    } else if field == "countrycode"@ {
        if utf8_len(value) != 2 {
            Err(invalid("countrycode"@, value, "must be 2-letter code"@))
        } else {
            Ok(QueryModel { countrycode: Some(uppercase(value)), ..q })
        }
    } else if field == "state"@ {
        Ok(QueryModel { state: Some(value), ..q })
    } else if field == "language"@ {
        match single_value(
            "language"@,
            value,
            "multiple languages not supported (use single language only)"@,
        ) {
            Ok(v) => Ok(QueryModel { language: Some(v), ..q }),
            Err(e) => Err(e),
        }
    } else if field == "tag"@ {
        if comma_list(value).len() == 0 {
            Err(invalid("tag"@, value, "empty value"@))
        } else {
            Ok(QueryModel { tags: Some(comma_list(value)), ..q })
        }
    } else {
        // the codec
        Ok(QueryModel { codec: Some(value), ..q })
    }
}

/// The effect of a bitrate bound, an order or a flag on a query.
pub open spec fn apply_typed_field(q: QueryModel, field: Seq<char>, value: Seq<char>) -> Result<
    QueryModel,
    ParseErrorModel,
> {
    if field == "bitrate_min"@ {
        match number_field("bitrate_min"@, value) {
            Ok(n) => Ok(QueryModel { bitrate_min: Some(n), ..q }),
            Err(e) => Err(e),
        }
    } else if field == "bitrate_max"@ {
        match number_field("bitrate_max"@, value) {
            Ok(n) => Ok(QueryModel { bitrate_max: Some(n), ..q }),
            Err(e) => Err(e),
        }
    } else if field == "order"@ {
        if !is_valid_order(lowercase(value)) {
            Err(
                invalid(
                    "order"@,
                    value,
                    "must be one of: name, votes, clickcount, bitrate, changetimestamp, random"@,
                ),
            )
        } else {
            Ok(QueryModel { order: Some(lowercase(value)), ..q })
        }
    } else if field == "reverse"@ {
        match bool_field("reverse"@, value) {
            Ok(b) => Ok(QueryModel { reverse: Some(b), ..q }),
            Err(e) => Err(e),
        }
    } else if field == "hidebroken"@ {
        match bool_field("hidebroken"@, value) {
            Ok(b) => Ok(QueryModel { hidebroken: Some(b), ..q }),
            Err(e) => Err(e),
        }
    } else {
        // the HTTPS-only flag
        match bool_field("is_https"@, value) {
            Ok(b) => Ok(QueryModel { is_https: Some(b), ..q }),
            Err(e) => Err(e),
        }
    }
}

/// The effect of a 1-based `page` number on a query.
pub open spec fn apply_page(q: QueryModel, value: Seq<char>) -> Result<QueryModel, ParseErrorModel> {
    match parse_unsigned(value, usize::MAX as nat) {
        Some(p) => if p > 0 {
            Ok(QueryModel { offset: ((p - 1) * q.limit) as nat, ..q })
        } else {
            Err(invalid("page"@, value, "must be a positive integer"@))
        },
        None => Err(invalid("page"@, value, "must be a positive integer"@)),
    }
}

/// The effect of one `field=value` pair on a query, `field` already
/// lower-cased and both sides trimmed.
pub open spec fn apply_field(q: QueryModel, field: Seq<char>, value: Seq<char>) -> Result<
    QueryModel,
    ParseErrorModel,
> {
    if !is_valid_field(field) {
        Err(ParseErrorModel::UnknownField(field))
    } else if field == "page"@ {
        apply_page(q, value)
    } else if is_text_field(field) {
        apply_text_field(q, field, value)
    } else {
        apply_typed_field(q, field, value)
    }
}

/// The page offset a `page=` pair computes fits in a `usize`.
pub open spec fn page_fits(q: QueryModel, field: Seq<char>, value: Seq<char>) -> bool {
    field == "page"@ ==> match parse_unsigned(value, usize::MAX as nat) {
        Some(p) => p > 0 ==> (p - 1) * q.limit <= usize::MAX,
        None => true,
    }
}

/// The field name of a `key=value` token: the key, trimmed and lower-cased.
pub open spec fn token_field(key: Seq<char>) -> Seq<char> {
    lowercase(trim(key))
}

/// Applies the tokens in order: a token without `=` is a bare word, any other
/// is a `field=value` pair; the first failing pair stops with its error.
pub open spec fn parse_tokens(tokens: Seq<Seq<char>>) -> Result<
    (QueryModel, Seq<Seq<char>>),
    ParseErrorModel,
>
    decreases tokens.len(),
{
    if tokens.len() == 0 {
        Ok((default_query(), Seq::empty()))
    } else {
        match parse_tokens(tokens.drop_last()) {
            Err(e) => Err(e),
            Ok((q, bare)) => match split_first(tokens.last(), '=') {
                None => Ok((q, bare.push(tokens.last()))),
                Some((key, val)) => match apply_field(q, token_field(key), trim(val)) {
                    Ok(q2) => Ok((q2, bare)),
                    Err(e) => Err(e),
                },
            },
        }
    }
}

/// Every `page=` pair reached while parsing gives an offset that fits in a `usize`.
pub open spec fn tokens_page_fit(tokens: Seq<Seq<char>>) -> bool
    decreases tokens.len(),
{
    if tokens.len() == 0 {
        true
    } else {
        &&& tokens_page_fit(tokens.drop_last())
        &&& match parse_tokens(tokens.drop_last()) {
            Ok((q, _)) => match split_first(tokens.last(), '=') {
                Some((key, val)) => page_fits(q, token_field(key), trim(val)),
                None => true,
            },
            Err(_) => true,
        }
    }
}

/// What parsing a query string gives: the default query for blank input,
/// else the tokens applied in order, with the bare words joined by spaces
/// as the station name when no `name=` pair was given.
pub open spec fn parse_query_spec(input: Seq<char>) -> Result<QueryModel, ParseErrorModel> {
    let t = trim(input);
    if t.len() == 0 {
        Ok(default_query())
    } else {
        match parse_tokens(tokenize(t)) {
            Err(e) => Err(e),
            Ok((q, bare)) => Ok(
                if bare.len() > 0 && q.name is None {
                    QueryModel { name: Some(join(bare, " "@)), ..q }
                } else {
                    q
                },
            ),
        }
    }
}

/// Parsing `input` computes no page offset that overflows a `usize`.
pub open spec fn parse_query_in_range(input: Seq<char>) -> bool {
    trim(input).len() == 0 || tokens_page_fit(tokenize(trim(input)))
}

/// An `InvalidValue` error for `field` with the value `v[lo..hi]`.
fn invalid_value(field: &str, v: &Vec<char>, lo: usize, hi: usize, reason: &str) -> (e: ParseError)
    requires
        lo <= hi <= v.len(),
    ensures
        e@ == invalid(field@, v@.subrange(lo as int, hi as int), reason@),
{
    ParseError::InvalidValue {
        field: string_from_str(field),
        value: string_of_range(v, lo, hi),
        reason: string_from_str(reason),
    }
}

/// Reads `true` or `false`, in any letter case, from `v[lo..hi]`.
fn parse_bool_range(v: &Vec<char>, lo: usize, hi: usize) -> (r: Option<bool>)
    requires
        lo <= hi <= v.len(),
    ensures
        r == parse_bool_value(v@.subrange(lo as int, hi as int)),
{
    let l = lowercase_of_range(v, lo, hi);
    if chars_eq_str(&l, "true") {
        Some(true)
    } else if chars_eq_str(&l, "false") {
        Some(false)
    } else {
        None
    }
}

/// Applies a text field, whose value is `pair[va..vb]`.
fn apply_text_pair(query: &mut SearchQuery, field: &Vec<char>, pair: &Vec<char>, va: usize, vb: usize) -> (r:
    Result<(), ParseError>)
    requires
        va <= vb <= pair.len(),
        is_text_field(field@),
    ensures
        match apply_text_field(old(query)@, field@, pair@.subrange(va as int, vb as int)) {
            Ok(m) => r is Ok && final(query)@ == m,
            Err(e) => r matches Err(x) && x@ == e,
        },
{
    if chars_eq_str(field, "name") {
        query.name = Some(string_of_range(pair, va, vb));
        Ok(())
    } else if chars_eq_str(field, "country") {
        let (ca, cb) = trim_range(pair, va, vb);
        if ca == cb {
            Err(invalid_value("country", pair, va, vb, "empty value"))
        } else if range_contains(pair, va, vb, ',') {
            Err(
                invalid_value(
                    "country",
                    pair,
                    va,
                    vb,
                    "multiple countries not supported (use single country only)",
                ),
            )
        } else {
            query.country = Some(string_of_range(pair, ca, cb));
            Ok(())
        }
    } else if chars_eq_str(field, "countrycode") {
        if !utf8_len_is(pair, va, vb, 2) {
            Err(invalid_value("countrycode", pair, va, vb, "must be 2-letter code"))
        } else {
            let value = string_of_range(pair, va, vb);
            query.countrycode = Some(to_uppercase(value.as_str()));
            Ok(())
        }
    } else if chars_eq_str(field, "state") {
        query.state = Some(string_of_range(pair, va, vb));
        Ok(())
    } else if chars_eq_str(field, "language") {
        let (ca, cb) = trim_range(pair, va, vb);
        if ca == cb {
            Err(invalid_value("language", pair, va, vb, "empty value"))
        } else if range_contains(pair, va, vb, ',') {
            Err(
                invalid_value(
                    "language",
                    pair,
                    va,
                    vb,
                    "multiple languages not supported (use single language only)",
                ),
            )
        } else {
            query.language = Some(string_of_range(pair, ca, cb));
            Ok(())
        }
    } else if chars_eq_str(field, "tag") {
        let tags = comma_list_of_range(pair, va, vb);
        if tags.len() == 0 {
            Err(invalid_value("tag", pair, va, vb, "empty value"))
        } else {
            query.tags = Some(tags);
            Ok(())
        }
    } else {
        query.codec = Some(string_of_range(pair, va, vb));
        Ok(())
    }
}

/// Applies a bitrate bound, an order or a flag, whose value is `pair[va..vb]`.
fn apply_typed_pair(query: &mut SearchQuery, field: &Vec<char>, pair: &Vec<char>, va: usize, vb: usize) -> (r:
    Result<(), ParseError>)
    requires
        va <= vb <= pair.len(),
    ensures
        match apply_typed_field(old(query)@, field@, pair@.subrange(va as int, vb as int)) {
            Ok(m) => r is Ok && final(query)@ == m,
            Err(e) => r matches Err(x) && x@ == e,
        },
{
    if chars_eq_str(field, "bitrate_min") {
        match parse_u32_range(pair, va, vb) {
            Some(n) => {
                query.bitrate_min = Some(n);
                Ok(())
            },
            None => Err(invalid_value("bitrate_min", pair, va, vb, "must be a number")),
        }
    } else if chars_eq_str(field, "bitrate_max") {
        match parse_u32_range(pair, va, vb) {
            Some(n) => {
                query.bitrate_max = Some(n);
                Ok(())
            },
            None => Err(invalid_value("bitrate_max", pair, va, vb, "must be a number")),
        }
    } else if chars_eq_str(field, "order") {
        let order_value = lowercase_of_range(pair, va, vb);
        if !is_valid_order_chars(&order_value) {
            Err(
                invalid_value(
                    "order",
                    pair,
                    va,
                    vb,
                    "must be one of: name, votes, clickcount, bitrate, changetimestamp, random",
                ),
            )
        } else {
            query.order = Some(string_of_chars(&order_value));
            Ok(())
        }
    } else if chars_eq_str(field, "reverse") {
        match parse_bool_range(pair, va, vb) {
            Some(b) => {
                query.reverse = Some(b);
                Ok(())
            },
            None => Err(invalid_value("reverse", pair, va, vb, "must be 'true' or 'false'")),
        }
    } else if chars_eq_str(field, "hidebroken") {
        match parse_bool_range(pair, va, vb) {
            Some(b) => {
                query.hidebroken = Some(b);
                Ok(())
            },
            None => Err(invalid_value("hidebroken", pair, va, vb, "must be 'true' or 'false'")),
        }
    } else {
        match parse_bool_range(pair, va, vb) {
            Some(b) => {
                query.is_https = Some(b);
                Ok(())
            },
            None => Err(invalid_value("is_https", pair, va, vb, "must be 'true' or 'false'")),
        }
    }
}

/// Applies a page number, whose value is `pair[va..vb]`; `Ok(false)` reports
/// an offset that does not fit in a `usize`.
fn apply_page_pair(query: &mut SearchQuery, pair: &Vec<char>, va: usize, vb: usize) -> (r: Result<
    bool,
    ParseError,
>)
    requires
        va <= vb <= pair.len(),
    ensures
        page_fits(old(query)@, "page"@, pair@.subrange(va as int, vb as int)) ==> match apply_page(
            old(query)@,
            pair@.subrange(va as int, vb as int),
        ) {
            Ok(m) => r == Ok::<bool, ParseError>(true) && final(query)@ == m,
            Err(e) => r matches Err(x) && x@ == e,
        },
        !page_fits(old(query)@, "page"@, pair@.subrange(va as int, vb as int)) ==> r == Ok::<
            bool,
            ParseError,
        >(false),
{
    match parse_usize_range(pair, va, vb) {
        Some(p) => {
            if p > 0 {
                match (p - 1).checked_mul(query.limit) {
                    Some(off) => {
                        query.offset = off;
                        Ok(true)
                    },
                    None => Ok(false),
                }
            } else {
                Err(invalid_value("page", pair, va, vb, "must be a positive integer"))
            }
        },
        None => Err(invalid_value("page", pair, va, vb, "must be a positive integer")),
    }
}

/// Applies one `key=value` token, `eq` being the position of its first `=`.
/// `Ok(false)` reports a page number whose offset does not fit in a `usize`.
fn apply_pair(query: &mut SearchQuery, pair: &Vec<char>, eq: usize) -> (r: Result<bool, ParseError>)
    requires
        is_first_index(pair@, '=', eq as int),
    ensures
        page_fits(old(query)@, token_field(pair@.take(eq as int)), trim(pair@.skip(eq + 1)))
            ==> match apply_field(
            old(query)@,
            token_field(pair@.take(eq as int)),
            trim(pair@.skip(eq + 1)),
        ) {
            Ok(m) => r == Ok::<bool, ParseError>(true) && final(query)@ == m,
            Err(e) => r matches Err(x) && x@ == e,
        },
        !page_fits(old(query)@, token_field(pair@.take(eq as int)), trim(pair@.skip(eq + 1)))
            ==> r == Ok::<bool, ParseError>(false),
{
    assert(eq < pair.len());
    let (ka, kb) = trim_range(pair, 0, eq);
    let field = lowercase_of_range(pair, ka, kb);
    let (va, vb) = trim_range(pair, eq + 1, pair.len());
    proof {
        assert(pair@.subrange(0, eq as int) =~= pair@.take(eq as int));
        assert(pair@.subrange(eq + 1, pair@.len() as int) =~= pair@.skip(eq + 1));
    }
    if !is_valid_field_chars(&field) {
        return Err(ParseError::UnknownField(string_of_chars(&field)));
    }
    if chars_eq_str(&field, "page") {
        apply_page_pair(query, pair, va, vb)
    } else if chars_eq_str(&field, "name") || chars_eq_str(&field, "country") || chars_eq_str(
        &field,
        "countrycode",
    ) || chars_eq_str(&field, "state") || chars_eq_str(&field, "language") || chars_eq_str(
        &field,
        "tag",
    ) || chars_eq_str(&field, "codec") {
        match apply_text_pair(query, &field, pair, va, vb) {
            Ok(()) => Ok(true),
            Err(e) => Err(e),
        }
    } else {
        match apply_typed_pair(query, &field, pair, va, vb) {
            Ok(()) => Ok(true),
            Err(e) => Err(e),
        }
    }
}

/// Every prefix of a token list whose page offsets fit has fitting page offsets.
proof fn lemma_page_fit_prefix(toks: Seq<Seq<char>>, k: int)
    requires
        0 <= k <= toks.len(),
        tokens_page_fit(toks),
    ensures
        tokens_page_fit(toks.take(k)),
    decreases toks.len() - k,
{
    if k < toks.len() {
        assert(toks.drop_last() =~= toks.drop_last().take(toks.len() - 1));
        lemma_page_fit_prefix(toks.drop_last(), k);
        assert(toks.drop_last().take(k) =~= toks.take(k));
    } else {
        assert(toks.take(k) =~= toks);
    }
}

/// Once parsing a prefix of the tokens fails, parsing all of them fails the same way.
proof fn lemma_parse_error_persists(toks: Seq<Seq<char>>, k: int, e: ParseErrorModel)
    requires
        0 <= k <= toks.len(),
        parse_tokens(toks.take(k)) == Err::<(QueryModel, Seq<Seq<char>>), _>(e),
    ensures
        parse_tokens(toks) == Err::<(QueryModel, Seq<Seq<char>>), _>(e),
    decreases toks.len() - k,
{
    if k < toks.len() {
        assert(toks.drop_last().take(k) =~= toks.take(k));
        lemma_parse_error_persists(toks.drop_last(), k, e);
    } else {
        assert(toks.take(k) =~= toks);
    }
}

/// A prefix whose page offsets fit and whose parsing fails already settles
/// that the page offsets of the whole token list fit.
proof fn lemma_page_fit_after_error(toks: Seq<Seq<char>>, k: int)
    requires
        0 <= k <= toks.len(),
        tokens_page_fit(toks.take(k)),
        parse_tokens(toks.take(k)) is Err,
    ensures
        tokens_page_fit(toks),
        parse_tokens(toks) == parse_tokens(toks.take(k)),
    decreases toks.len() - k,
{
    if k < toks.len() {
        assert(toks.drop_last().take(k) =~= toks.take(k));
        lemma_page_fit_after_error(toks.drop_last(), k);
    } else {
        assert(toks.take(k) =~= toks);
    }
}

/// Parses a query string, reporting `None` instead when a `page=` number
/// would give a result offset beyond what a `usize` holds.
fn parse_query_core(input: &str) -> (r: Option<Result<SearchQuery, ParseError>>)
    ensures
        r is None <==> !parse_query_in_range(input@),
        r matches Some(res) ==> match parse_query_spec(input@) {
            Ok(m) => res matches Ok(q) && q@ == m,
            Err(e) => res matches Err(x) && x@ == e,
        },
{
    let v = chars_of(input);
    let (a, b) = trim_range(&v, 0, v.len());
    proof {
        assert(v@.subrange(0, v@.len() as int) =~= v@);
    }
    if a == b {
        return Some(Ok(SearchQuery::default()));
    }
    let t = string_of_range(&v, a, b);
    let mut query = SearchQuery::default();
    let pairs = tokenize_query(t.as_str());
    let ghost toks = text_list(pairs@);
    let mut bare_words: Vec<String> = Vec::new();
    let mut i: usize = 0;
    proof {
        assert(toks.take(0) =~= Seq::<Seq<char>>::empty());
        assert(text_list(bare_words@) =~= Seq::<Seq<char>>::empty());
    }
    while i < pairs.len()
        invariant
            i <= pairs.len(),
            toks == text_list(pairs@),
            toks == tokenize(trim(input@)),
            tokens_page_fit(toks.take(i as int)),
            parse_tokens(toks.take(i as int)) == Ok::<_, ParseErrorModel>(
                (query@, text_list(bare_words@)),
            ),
        decreases pairs.len() - i,
    {
        proof {
            assert(toks.take(i + 1).drop_last() =~= toks.take(i as int));
            assert(toks.take(i + 1).last() == pairs@[i as int]@);
        }
        let pair = chars_of(pairs[i].as_str());
        match range_find(&pair, 0, pair.len(), '=') {
            None => {
                proof {
                    assert(pair@.subrange(0, pair@.len() as int) =~= pair@);
                }
                let ghost before = bare_words@;
                bare_words.push(pairs[i].clone());
                proof {
                    assert(text_list(bare_words@) =~= text_list(before).push(pair@));
                }
            },
            Some(k) => {
                proof {
                    lemma_split_first_at(pair@, '=', k as int);
                }
                match apply_pair(&mut query, &pair, k) {
                    Ok(true) => {},
                    Ok(false) => {
                        proof {
                            if tokens_page_fit(toks) {
                                lemma_page_fit_prefix(toks, i + 1);
                            }
                        }
                        return None;
                    },
                    Err(e) => {
                        proof {
                            lemma_page_fit_after_error(toks, i + 1);
                        }
                        return Some(Err(e));
                    },
                }
            },
        }
        i = i + 1;
    }
    proof {
        assert(toks.take(toks.len() as int) =~= toks);
    }
    if bare_words.len() > 0 && query.name.is_none() {
        query.name = Some(join_strings(&bare_words, " "));
    }
    Some(Ok(query))
}

/// Whether parsing `input` computes only page offsets that fit in a `usize`.
pub fn query_page_offsets_fit(input: &str) -> (b: bool)
    ensures
        b == parse_query_in_range(input@),
{
    parse_query_core(input).is_some()
}

/// Parses a query string such as `country=france tag=jazz,blues "classic rock"`.
pub fn parse_query(input: &str) -> (r: Result<SearchQuery, ParseError>)
    requires
        parse_query_in_range(input@),
    ensures
        match parse_query_spec(input@) {
            Ok(m) => r matches Ok(q) && q@ == m,
            Err(e) => r matches Err(x) && x@ == e,
        },
{
    match parse_query_core(input) {
        Some(res) => res,
        None => Ok(SearchQuery::default()),
    }
}

/// Parses a query string when every page number in it gives an offset that
/// fits in a `usize`; `None` otherwise.
pub fn parse_query_checked(input: &str) -> (r: Option<Result<SearchQuery, ParseError>>)
    ensures
        r is None <==> !parse_query_in_range(input@),
        r matches Some(res) ==> match parse_query_spec(input@) {
            Ok(m) => res matches Ok(q) && q@ == m,
            Err(e) => res matches Err(x) && x@ == e,
        },
{
    if query_page_offsets_fit(input) {
        Some(parse_query(input))
    } else {
        None
    }
}

/// `prefix` followed by the value, as a one-element list, when there is a value.
pub open spec fn opt_part(prefix: Seq<char>, o: Option<Seq<char>>) -> Seq<Seq<char>> {
    match o {
        Some(v) => seq![prefix + v],
        None => Seq::empty(),
    }
}

/// `prefix` followed by a number in decimal, when there is a number.
pub open spec fn number_part(prefix: Seq<char>, o: Option<u32>) -> Seq<Seq<char>> {
    match o {
        Some(n) => seq![prefix + decimal_string(n as nat)],
        None => Seq::empty(),
    }
}

/// `true` or `false`, as `{}` formats a `bool`.
pub open spec fn bool_text(b: bool) -> Seq<char> {
    if b {
        "true"@
    } else {
        "false"@
    }
}

/// The `field=value` pairs that describe a query, in field order; the order
/// is left out when it is `votes`, direction and broken-station hiding when
/// they are `true`.
pub open spec fn format_parts(q: QueryModel) -> Seq<Seq<char>> {
    opt_part("name="@, q.name) + opt_part("country="@, q.country) + opt_part(
        "countrycode="@,
        q.countrycode,
    ) + opt_part("state="@, q.state) + opt_part("language="@, q.language) + (match q.tags {
        Some(t) => seq!["tag="@ + join(t, ","@)],
        None => Seq::empty(),
    }) + opt_part("codec="@, q.codec) + number_part("bitrate_min="@, q.bitrate_min) + number_part(
        "bitrate_max="@,
        q.bitrate_max,
    ) + (match q.order {
        Some(o) => if o != "votes"@ {
            seq!["order="@ + o]
        } else {
            Seq::empty()
        },
        None => Seq::empty(),
    }) + (match q.reverse {
        Some(false) => seq!["reverse=false"@],
        _ => Seq::empty(),
    }) + (match q.hidebroken {
        Some(false) => seq!["hidebroken=false"@],
        _ => Seq::empty(),
    }) + (match q.is_https {
        Some(b) => seq!["is_https="@ + bool_text(b)],
        None => Seq::empty(),
    })
}

/// The query string that describes a query: its pairs separated by spaces.
pub open spec fn format_query_spec(q: QueryModel) -> Seq<char> {
    join(format_parts(q), " "@)
}

/// `prefix` followed by `value`.
fn prefixed(prefix: &str, value: &str) -> (s: String)
    ensures
        s@ == prefix@ + value@,
{
    let mut s = string_from_str(prefix);
    string_append_str(&mut s, value);
    s
}

/// Adds `prefix` followed by the optional value to the parts.
fn push_opt_part(parts: &mut Vec<String>, prefix: &str, o: &Option<String>)
    ensures
        text_list(final(parts)@) == text_list(old(parts)@) + opt_part(prefix@, crate::search::types::opt_text(*o)),
{
    if let Some(v) = o {
        let ghost before = parts@;
        parts.push(prefixed(prefix, v.as_str()));
        proof {
            assert(text_list(parts@) =~= text_list(before) + opt_part(prefix@, crate::search::types::opt_text(*o)));
        }
    } else {
        proof {
            assert(text_list(parts@) =~= text_list(parts@) + opt_part(prefix@, crate::search::types::opt_text(*o)));
        }
    }
}

/// Adds `prefix` followed by the optional number to the parts.
fn push_number_part(parts: &mut Vec<String>, prefix: &str, o: Option<u32>)
    ensures
        text_list(final(parts)@) == text_list(old(parts)@) + number_part(prefix@, o),
{
    if let Some(n) = o {
        let ghost before = parts@;
        let mut s = string_from_str(prefix);
        push_decimal(&mut s, n as u64);
        parts.push(s);
        proof {
            assert(text_list(parts@) =~= text_list(before) + number_part(prefix@, o));
        }
    } else {
        proof {
            assert(text_list(parts@) =~= text_list(parts@) + number_part(prefix@, o));
        }
    }
}

/// Writes a query back as a query string.
pub fn format_query(query: &SearchQuery) -> (s: String)
    ensures
        s@ == format_query_spec(query@),
{
    let mut parts: Vec<String> = Vec::new();
    let ghost q = query@;
    proof {
        assert(text_list(parts@) =~= Seq::<Seq<char>>::empty());
    }
    push_opt_part(&mut parts, "name=", &query.name);
    push_opt_part(&mut parts, "country=", &query.country);
    push_opt_part(&mut parts, "countrycode=", &query.countrycode);
    push_opt_part(&mut parts, "state=", &query.state);
    push_opt_part(&mut parts, "language=", &query.language);
    let ghost p5 = text_list(parts@);
    match &query.tags {
        Some(tags) => {
            let joined = join_strings(tags, ",");
            parts.push(prefixed("tag=", joined.as_str()));
            proof {
                assert(text_list(parts@) =~= p5 + seq!["tag="@ + join(text_list(tags@), ","@)]);
            }
        },
        None => {},
    }
    push_opt_part(&mut parts, "codec=", &query.codec);
    push_number_part(&mut parts, "bitrate_min=", query.bitrate_min);
    push_number_part(&mut parts, "bitrate_max=", query.bitrate_max);
    let ghost p9 = text_list(parts@);
    match &query.order {
        Some(order) => {
            if !string_equals_str(order, "votes") {
                parts.push(prefixed("order=", order.as_str()));
                proof {
                    assert(text_list(parts@) =~= p9 + seq!["order="@ + order@]);
                }
            }
        },
        None => {},
    }
    let ghost p10 = text_list(parts@);
    if query.reverse == Some(false) {
        parts.push(string_from_str("reverse=false"));
        proof {
            assert(text_list(parts@) =~= p10 + seq!["reverse=false"@]);
        }
    }
    let ghost p11 = text_list(parts@);
    if query.hidebroken == Some(false) {
        parts.push(string_from_str("hidebroken=false"));
        proof {
            assert(text_list(parts@) =~= p11 + seq!["hidebroken=false"@]);
        }
    }
    let ghost p12 = text_list(parts@);
    match query.is_https {
        Some(b) => {
            let part = if b {
                string_from_str("is_https=true")
            } else {
                string_from_str("is_https=false")
            };
            proof {
                reveal_strlit("is_https=true");
                reveal_strlit("is_https=false");
                reveal_strlit("is_https=");
                reveal_strlit("true");
                reveal_strlit("false");
                assert(part@ =~= "is_https="@ + bool_text(b));
            }
            parts.push(part);
            proof {
                assert(text_list(parts@) =~= p12 + seq!["is_https="@ + bool_text(b)]);
            }
        },
        None => {},
    }
    proof {
        assert(text_list(parts@) =~= format_parts(q));
    }
    join_strings(&parts, " ")
}

} // verus!
