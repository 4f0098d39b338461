//! Writing a query out and reading it back: a query whose values are single
//! words reads back from its query string as the same query; and the shape
//! of every query that parsing gives.

use vstd::prelude::*;
use crate::text::{
    trim, trim_start, trim_end, is_white_space, lowercase, uppercase, is_ascii_text, ascii_lower,
    ascii_upper, join, split_on, nonempty_trimmed, comma_list, lemma_split_on_nonempty,
    parse_unsigned, unsigned_digits, decimal_string, lemma_decimal_string_reads_back,
    is_ascii_digit,
};
use crate::text::{is_first_index, lemma_split_first_at, split_first};
use crate::search::parser::{
    TokenizerState, tokenize_step, tokenize_prefix, tokenize, parse_tokens, apply_field, token_field,
};
use crate::search::types::{QueryModel, ParseErrorModel, default_query, DEFAULT_PAGE_SIZE};
use crate::search::parser::{
    format_parts, format_query_spec, parse_query_spec, opt_part, number_part, tokens_page_fit,
    parse_query_in_range,
};
use crate::search::validation::is_valid_order;
use crate::search::parser::{parse_bool_value, bool_text};
use crate::text::{utf8_len, char_utf8_width};

verus! {

/// Text with no white space anywhere.
pub open spec fn no_white_space(s: Seq<char>) -> bool {
    forall|i: int| 0 <= i < s.len() ==> !is_white_space(#[trigger] s[i])
}

/// Trimming leaves text without white space as it is.
pub proof fn lemma_trim_unchanged(s: Seq<char>)
    requires
        no_white_space(s),
    ensures
        trim(s) == s,
{
    if s.len() > 0 {
        assert(!is_white_space(s[0]));
        assert(!is_white_space(s.last()));
    }
    assert(trim_start(s) == s);
    assert(trim_end(s) == s);
}

/// ASCII text without capital letters is its own lower case.
pub proof fn lemma_lowercase_unchanged(s: Seq<char>)
    requires
        is_ascii_text(s),
        forall|i: int| 0 <= i < s.len() ==> !('A' <= #[trigger] s[i] && s[i] <= 'Z'),
    ensures
        lowercase(s) == s,
{
    assert(s.map_values(|c: char| ascii_lower(c)) =~= s);
}

/// ASCII text without small letters is its own upper case.
pub proof fn lemma_uppercase_unchanged(s: Seq<char>)
    requires
        is_ascii_text(s),
        forall|i: int| 0 <= i < s.len() ==> !('a' <= #[trigger] s[i] && s[i] <= 'z'),
    ensures
        uppercase(s) == s,
{
    assert(s.map_values(|c: char| ascii_upper(c)) =~= s);
}

/// A piece of a query string that the tokenizer keeps whole: not empty, with
/// neither white space nor double quotes.
pub open spec fn is_token_text(p: Seq<char>) -> bool {
    &&& p.len() > 0
    &&& no_white_space(p)
    &&& forall|i: int| 0 <= i < p.len() ==> #[trigger] p[i] != '"'
}

/// Reading one more character is one more tokenizer step.
proof fn lemma_tokenize_push(s: Seq<char>, c: char)
    ensures
        tokenize_prefix(s.push(c)) == tokenize_step(tokenize_prefix(s), c),
{
    assert(s.push(c).drop_last() =~= s);
}

/// Outside quotes, characters that are neither spaces nor quotes extend the
/// current token.
proof fn lemma_tokenize_word(s: Seq<char>, w: Seq<char>)
    requires
        !tokenize_prefix(s).in_quotes,
        forall|i: int| 0 <= i < w.len() ==> #[trigger] w[i] != ' ' && w[i] != '"',
    ensures
        tokenize_prefix(s + w) == (TokenizerState {
            tokens: tokenize_prefix(s).tokens,
            current: tokenize_prefix(s).current + w,
            in_quotes: false,
        }),
    decreases w.len(),
{
    if w.len() == 0 {
        assert(s + w =~= s);
        assert(tokenize_prefix(s).current + w =~= tokenize_prefix(s).current);
    } else {
        let w0 = w.drop_last();
        assert forall|i: int| 0 <= i < w0.len() implies #[trigger] w0[i] != ' ' && w0[i] != '"' by {
            assert(w0[i] == w[i]);
        }
        lemma_tokenize_word(s, w0);
        assert(s + w =~= (s + w0).push(w.last()));
        lemma_tokenize_push(s + w0, w.last());
        assert(w.last() == w[w.len() - 1]);
        assert(tokenize_prefix(s).current + w0 + seq![w.last()] =~= tokenize_prefix(s).current + w);
        assert((tokenize_prefix(s).current + w0).push(w.last()) =~= tokenize_prefix(s).current + w);
    }
}

/// Inside quotes, every character but a quote, spaces included, extends the
/// current token, and quoting stays on.
proof fn lemma_tokenize_quoted(s: Seq<char>, v: Seq<char>)
    requires
        tokenize_prefix(s).in_quotes,
        forall|i: int| 0 <= i < v.len() ==> #[trigger] v[i] != '"',
    ensures
        tokenize_prefix(s + v) == (TokenizerState {
            tokens: tokenize_prefix(s).tokens,
            current: tokenize_prefix(s).current + v,
            in_quotes: true,
        }),
    decreases v.len(),
{
    if v.len() == 0 {
        assert(s + v =~= s);
        assert(tokenize_prefix(s).current + v =~= tokenize_prefix(s).current);
    } else {
        let v0 = v.drop_last();
        assert forall|i: int| 0 <= i < v0.len() implies #[trigger] v0[i] != '"' by {
            assert(v0[i] == v[i]);
        }
        lemma_tokenize_quoted(s, v0);
        assert(s + v =~= (s + v0).push(v.last()));
        lemma_tokenize_push(s + v0, v.last());
        assert(v.last() == v[v.len() - 1]);
        assert((tokenize_prefix(s).current + v0).push(v.last()) =~= tokenize_prefix(s).current + v);
    }
}

/// A double-quoted value is one token: for a field name `w` (no spaces, no
/// quotes) and a value `v` with no quotes, `w="v"` tokenizes to the single
/// token `w=v`, the spaces inside `v` kept and the quotes dropped.
pub proof fn law_quoted_value_is_one_token(w: Seq<char>, v: Seq<char>)
    requires
        forall|i: int| 0 <= i < w.len() ==> #[trigger] w[i] != ' ' && w[i] != '"',
        forall|i: int| 0 <= i < v.len() ==> #[trigger] v[i] != '"',
    ensures
        tokenize(w + seq!['=', '"'] + v + seq!['"']) == seq![w + seq!['='] + v],
{
    let e = Seq::<char>::empty();
    let w1 = w.push('=');
    assert forall|i: int| 0 <= i < w1.len() implies #[trigger] w1[i] != ' ' && w1[i] != '"' by {
        if i < w.len() {
            assert(w1[i] == w[i]);
        }
    }
    lemma_tokenize_word(e, w1);
    assert(e + w1 =~= w1);
    let s1 = w1.push('"');
    lemma_tokenize_push(w1, '"');
    assert(tokenize_prefix(s1).in_quotes);
    assert(tokenize_prefix(s1).current =~= w1);
    lemma_tokenize_quoted(s1, v);
    let s2 = (s1 + v).push('"');
    lemma_tokenize_push(s1 + v, '"');
    assert(s2 =~= w + seq!['=', '"'] + v + seq!['"']);
    assert(w1 + v =~= w + seq!['='] + v);
    assert(tokenize_prefix(s2).tokens =~= Seq::<Seq<char>>::empty());
    assert(tokenize_prefix(s2).current.len() > 0);
}

/// Outside quotes a space separates words: two words without spaces or
/// quotes, one space between them, are two tokens.
pub proof fn law_unquoted_space_separates(a: Seq<char>, b: Seq<char>)
    requires
        a.len() > 0,
        b.len() > 0,
        forall|i: int| 0 <= i < a.len() ==> #[trigger] a[i] != ' ' && a[i] != '"',
        forall|i: int| 0 <= i < b.len() ==> #[trigger] b[i] != ' ' && b[i] != '"',
    ensures
        tokenize(a + seq![' '] + b) == seq![a, b],
{
    let e = Seq::<char>::empty();
    lemma_tokenize_word(e, a);
    assert(e + a =~= a);
    let s1 = a.push(' ');
    lemma_tokenize_push(a, ' ');
    assert(tokenize_prefix(a).current =~= a);
    assert(tokenize_prefix(s1).tokens =~= seq![a]);
    assert(tokenize_prefix(s1).current =~= e);
    lemma_tokenize_word(s1, b);
    assert(s1 + b =~= a + seq![' '] + b);
    assert(e + b =~= b);
}

/// Token texts joined by single spaces: every token but the last is complete,
/// the last one is still being read.
proof fn lemma_tokenize_joined(parts: Seq<Seq<char>>)
    requires
        parts.len() >= 1,
        forall|k: int| 0 <= k < parts.len() ==> is_token_text(#[trigger] parts[k]),
    ensures
        tokenize_prefix(join(parts, " "@)) == (TokenizerState {
            tokens: parts.drop_last(),
            current: parts.last(),
            in_quotes: false,
        }),
    decreases parts.len(),
{
    reveal_strlit(" ");
    let p = parts.last();
    assert(is_token_text(p));
    assert forall|i: int| 0 <= i < p.len() implies #[trigger] p[i] != ' ' && p[i] != '"' by {
        assert(!is_white_space(p[i]));
    }
    if parts.len() == 1 {
        let e = Seq::<char>::empty();
        assert(tokenize_prefix(e) == (TokenizerState {
            tokens: Seq::empty(),
            current: Seq::empty(),
            in_quotes: false,
        }));
        lemma_tokenize_word(e, p);
        assert(e + p =~= p);
        assert(join(parts, " "@) == parts[0]);
        assert(Seq::<char>::empty() + p =~= p);
        assert(parts.drop_last() =~= Seq::<Seq<char>>::empty());
    } else {
        let init = parts.drop_last();
        assert forall|k: int| 0 <= k < init.len() implies is_token_text(#[trigger] init[k]) by {
            assert(init[k] == parts[k]);
        }
        lemma_tokenize_joined(init);
        let head = join(init, " "@);
        assert(init.last() == init[init.len() - 1]);
        assert(is_token_text(init.last()));
        lemma_tokenize_push(head, ' ');
        let after_space = TokenizerState {
            tokens: init.drop_last().push(init.last()),
            current: Seq::empty(),
            in_quotes: false,
        };
        assert(tokenize_prefix(head.push(' ')) == after_space);
        assert(init.drop_last().push(init.last()) =~= init);
        lemma_tokenize_word(head.push(' '), p);
        assert(head + " "@ =~= head.push(' '));
        assert(join(parts, " "@) == head + " "@ + p);
        assert(Seq::<char>::empty() + p =~= p);
    }
}

/// The tokens of token texts joined by single spaces are those texts.
pub proof fn lemma_tokenize_join(parts: Seq<Seq<char>>)
    requires
        forall|k: int| 0 <= k < parts.len() ==> is_token_text(#[trigger] parts[k]),
    ensures
        tokenize(join(parts, " "@)) == parts,
{
    if parts.len() == 0 {
        assert(tokenize_prefix(Seq::<char>::empty()).tokens =~= Seq::<Seq<char>>::empty());
    } else {
        lemma_tokenize_joined(parts);
        assert(parts.last() == parts[parts.len() - 1]);
        assert(parts.drop_last().push(parts.last()) =~= parts);
    }
}

/// Text that a query value may be when written out and read back: no white
/// space and no double quotes.
pub open spec fn is_word(s: Seq<char>) -> bool {
    &&& no_white_space(s)
    &&& forall|i: int| 0 <= i < s.len() ==> #[trigger] s[i] != '"'
}

/// Joining words with a word between them gives a word.
proof fn lemma_join_is_word(parts: Seq<Seq<char>>, sep: Seq<char>)
    requires
        is_word(sep),
        forall|k: int| 0 <= k < parts.len() ==> is_word(#[trigger] parts[k]),
    ensures
        is_word(join(parts, sep)),
    decreases parts.len(),
{
    if parts.len() == 1 {
        assert(is_word(parts[0]));
    } else if parts.len() > 1 {
        let init = parts.drop_last();
        assert forall|k: int| 0 <= k < init.len() implies is_word(#[trigger] init[k]) by {
            assert(init[k] == parts[k]);
        }
        lemma_join_is_word(init, sep);
        assert(is_word(parts[parts.len() - 1]));
        lemma_concat_is_word(join(init, sep), sep);
        lemma_concat_is_word(join(init, sep) + sep, parts.last());
    }
}

/// Two words one after the other make a word.
proof fn lemma_concat_is_word(a: Seq<char>, b: Seq<char>)
    requires
        is_word(a),
        is_word(b),
    ensures
        is_word(a + b),
{
    assert forall|i: int| 0 <= i < (a + b).len() implies !is_white_space(#[trigger] (a + b)[i]) && (a
        + b)[i] != '"' by {
        if i < a.len() {
            assert((a + b)[i] == a[i]);
        } else {
            assert((a + b)[i] == b[i - a.len()]);
        }
    }
}

/// Appending text without commas extends the last piece of a comma split.
proof fn lemma_split_extend(x: Seq<char>, w: Seq<char>)
    requires
        !w.contains(','),
    ensures
        split_on(x + w, ',') == split_on(x, ',').update(
            split_on(x, ',').len() - 1,
            split_on(x, ',').last() + w,
        ),
    decreases w.len(),
{
    lemma_split_on_nonempty(x, ',');
    let base = split_on(x, ',');
    if w.len() == 0 {
        assert(x + w =~= x);
        assert(base.last() + w =~= base.last());
        assert(base.update(base.len() - 1, base.last()) =~= base);
    } else {
        let w0 = w.drop_last();
        let c = w.last();
        assert(!w0.contains(',')) by {
            if w0.contains(',') {
                let j = choose|j: int| 0 <= j < w0.len() && w0[j] == ',';
                assert(w[j] == ',');
            }
        }
        assert(c != ',') by {
            assert(w[w.len() - 1] == c);
        }
        lemma_split_extend(x, w0);
        assert((x + w).drop_last() =~= x + w0);
        assert((x + w).last() == c);
        let p = split_on(x + w0, ',');
        assert(p == base.update(base.len() - 1, base.last() + w0));
        assert(split_on(x + w, ',') == p.update(p.len() - 1, p.last().push(c)));
        assert((base.last() + w0).push(c) =~= base.last() + w);
        assert(p.update(p.len() - 1, p.last().push(c)) =~= base.update(
            base.len() - 1,
            base.last() + w,
        ));
    }
}

/// Splitting at commas undoes joining with commas, when no piece holds one.
proof fn lemma_split_join(t: Seq<Seq<char>>)
    requires
        t.len() >= 1,
        forall|k: int| 0 <= k < t.len() ==> !(#[trigger] t[k]).contains(','),
    ensures
        split_on(join(t, ","@), ',') == t,
    decreases t.len(),
{
    reveal_strlit(",");
    let e = Seq::<char>::empty();
    assert(split_on(e, ',') == seq![e]);
    if t.len() == 1 {
        lemma_split_extend(e, t[0]);
        assert(e + t[0] =~= t[0]);
        assert(e + t[0] =~= t[0]);
        assert(seq![e].update(0, e + t[0]) =~= t);
    } else {
        let init = t.drop_last();
        assert forall|k: int| 0 <= k < init.len() implies !(#[trigger] init[k]).contains(',') by {
            assert(init[k] == t[k]);
        }
        lemma_split_join(init);
        let head = join(init, ","@);
        assert(head + ","@ =~= head.push(','));
        assert(head.push(',').drop_last() =~= head);
        assert(split_on(head.push(','), ',') == init.push(e));
        assert(!t.last().contains(',')) by {
            assert(t[t.len() - 1] == t.last());
        }
        lemma_split_extend(head.push(','), t.last());
        assert(join(t, ","@) == head + ","@ + t.last());
        assert(e + t.last() =~= t.last());
        assert(init.push(e).update(init.len() as int, e + t.last()) =~= t);
    }
}

/// Pieces that are already trimmed and not empty are kept as they are.
proof fn lemma_nonempty_trimmed_unchanged(t: Seq<Seq<char>>)
    requires
        forall|k: int| 0 <= k < t.len() ==> (#[trigger] t[k]).len() > 0 && no_white_space(t[k]),
    ensures
        nonempty_trimmed(t) == t,
    decreases t.len(),
{
    if t.len() > 0 {
        let init = t.drop_last();
        assert forall|k: int| 0 <= k < init.len() implies (#[trigger] init[k]).len() > 0
            && no_white_space(init[k]) by {
            assert(init[k] == t[k]);
        }
        lemma_nonempty_trimmed_unchanged(init);
        assert(t.last() == t[t.len() - 1]);
        lemma_trim_unchanged(t.last());
        assert(init.push(t.last()) =~= t);
    }
}

/// Tags written as a comma-separated list read back as the same tags.
pub proof fn lemma_comma_list_join(t: Seq<Seq<char>>)
    requires
        t.len() >= 1,
        forall|k: int|
            0 <= k < t.len() ==> (#[trigger] t[k]).len() > 0 && no_white_space(t[k]) && !t[k].contains(
                ',',
            ),
    ensures
        comma_list(join(t, ","@)) == t,
{
    lemma_split_join(t);
    lemma_nonempty_trimmed_unchanged(t);
}

/// A number written in decimal reads back as itself.
pub proof fn lemma_decimal_parses_back(n: nat, max: nat)
    requires
        n <= max,
    ensures
        parse_unsigned(decimal_string(n), max) == Some(n),
{
    lemma_decimal_string_reads_back(n);
    let d = decimal_string(n);
    assert(is_ascii_digit(d[0]));
    assert(unsigned_digits(d) == d);
}

/// What the parsed tokens give when they hold no bare word.
pub open spec fn parsed_pairs(q: QueryModel) -> Result<(QueryModel, Seq<Seq<char>>), ParseErrorModel> {
    Ok((q, Seq::empty()))
}

/// A field name as the query language spells it: small ASCII letters and
/// underscores, no `=` and no white space.
pub open spec fn is_field_spelling(f: Seq<char>) -> bool {
    &&& is_ascii_text(f)
    &&& forall|i: int| 0 <= i < f.len() ==> !('A' <= #[trigger] f[i] && f[i] <= 'Z')
    &&& no_white_space(f)
    &&& !f.contains('=')
}

/// One more `field=value` token after tokens that parsed into `q` without
/// bare words applies that pair to `q`.
proof fn lemma_pair_step(a: Seq<Seq<char>>, q: QueryModel, field: Seq<char>, value: Seq<char>)
    requires
        parse_tokens(a) == parsed_pairs(q),
        is_field_spelling(field),
        no_white_space(value),
    ensures
        parse_tokens(a.push(field.push('=') + value)) == match apply_field(q, field, value) {
            Ok(q2) => parsed_pairs(q2),
            Err(e) => Err(e),
        },
        split_first(field.push('=') + value, '=') == Some((field, value)),
        token_field(field) == field,
{
    let t = field.push('=') + value;
    let k = field.len() as int;
    assert(a.push(t).drop_last() =~= a);
    assert(a.push(t).last() == t);
    assert(t[k] == '=');
    assert forall|j: int| 0 <= j < k implies t[j] != '=' by {
        assert(t[j] == field[j]);
        if t[j] == '=' {
            assert(field.contains('='));
        }
    }
    assert(is_first_index(t, '=', k));
    lemma_split_first_at(t, '=', k);
    assert(t.take(k) =~= field);
    assert(t.skip(k + 1) =~= value);
    lemma_trim_unchanged(field);
    lemma_lowercase_unchanged(field);
    assert(token_field(field) == field);
    lemma_trim_unchanged(value);
}

/// The field names of the query language: their lengths, the prefixes that
/// write them, and which of them differ although they are equally long.
proof fn lemma_field_names()
    ensures
        "name"@.len() == 4,
        "country"@.len() == 7,
        "countrycode"@.len() == 11,
        "state"@.len() == 5,
        "language"@.len() == 8,
        "tag"@.len() == 3,
        "codec"@.len() == 5,
        "bitrate_min"@.len() == 11,
        "bitrate_max"@.len() == 11,
        "order"@.len() == 5,
        "reverse"@.len() == 7,
        "hidebroken"@.len() == 10,
        "is_https"@.len() == 8,
        "page"@.len() == 4,
        is_field_spelling("name"@),
        "name="@ == "name"@.push('='),
        is_word("name="@),
        is_field_spelling("country"@),
        "country="@ == "country"@.push('='),
        is_word("country="@),
        is_field_spelling("countrycode"@),
        "countrycode="@ == "countrycode"@.push('='),
        is_word("countrycode="@),
        is_field_spelling("state"@),
        "state="@ == "state"@.push('='),
        is_word("state="@),
        is_field_spelling("language"@),
        "language="@ == "language"@.push('='),
        is_word("language="@),
        is_field_spelling("tag"@),
        "tag="@ == "tag"@.push('='),
        is_word("tag="@),
        is_field_spelling("codec"@),
        "codec="@ == "codec"@.push('='),
        is_word("codec="@),
        is_field_spelling("bitrate_min"@),
        "bitrate_min="@ == "bitrate_min"@.push('='),
        is_word("bitrate_min="@),
        is_field_spelling("bitrate_max"@),
        "bitrate_max="@ == "bitrate_max"@.push('='),
        is_word("bitrate_max="@),
        is_field_spelling("order"@),
        "order="@ == "order"@.push('='),
        is_word("order="@),
        is_field_spelling("reverse"@),
        "reverse="@ == "reverse"@.push('='),
        is_word("reverse="@),
        is_field_spelling("hidebroken"@),
        "hidebroken="@ == "hidebroken"@.push('='),
        is_word("hidebroken="@),
        is_field_spelling("is_https"@),
        "is_https="@ == "is_https"@.push('='),
        is_word("is_https="@),
        "name"@ != "page"@,
        "country"@ != "reverse"@,
        "countrycode"@ != "bitrate_min"@,
        "countrycode"@ != "bitrate_max"@,
        "bitrate_min"@ != "bitrate_max"@,
        "state"@ != "codec"@,
        "state"@ != "order"@,
        "codec"@ != "order"@,
        "language"@ != "is_https"@,
{
    reveal_strlit("name");
    reveal_strlit("country");
    reveal_strlit("countrycode");
    reveal_strlit("state");
    reveal_strlit("language");
    reveal_strlit("tag");
    reveal_strlit("codec");
    reveal_strlit("bitrate_min");
    reveal_strlit("bitrate_max");
    reveal_strlit("order");
    reveal_strlit("reverse");
    reveal_strlit("hidebroken");
    reveal_strlit("is_https");
    reveal_strlit("page");
    reveal_strlit("name=");
    assert("name="@ =~= "name"@.push('='));
    reveal_strlit("country=");
    assert("country="@ =~= "country"@.push('='));
    reveal_strlit("countrycode=");
    assert("countrycode="@ =~= "countrycode"@.push('='));
    reveal_strlit("state=");
    assert("state="@ =~= "state"@.push('='));
    reveal_strlit("language=");
    assert("language="@ =~= "language"@.push('='));
    reveal_strlit("tag=");
    assert("tag="@ =~= "tag"@.push('='));
    reveal_strlit("codec=");
    assert("codec="@ =~= "codec"@.push('='));
    reveal_strlit("bitrate_min=");
    assert("bitrate_min="@ =~= "bitrate_min"@.push('='));
    reveal_strlit("bitrate_max=");
    assert("bitrate_max="@ =~= "bitrate_max"@.push('='));
    reveal_strlit("order=");
    assert("order="@ =~= "order"@.push('='));
    reveal_strlit("reverse=");
    assert("reverse="@ =~= "reverse"@.push('='));
    reveal_strlit("hidebroken=");
    assert("hidebroken="@ =~= "hidebroken"@.push('='));
    reveal_strlit("is_https=");
    assert("is_https="@ =~= "is_https"@.push('='));
    assert("name"@[0] != "page"@[0]);
    assert("country"@[0] != "reverse"@[0]);
    assert("countrycode"@[0] != "bitrate_min"@[0]);
    assert("countrycode"@[0] != "bitrate_max"@[0]);
    assert("bitrate_min"@[9] != "bitrate_max"@[9]);
    assert("state"@[0] != "codec"@[0]);
    assert("state"@[0] != "order"@[0]);
    assert("codec"@[0] != "order"@[0]);
    assert("language"@[0] != "is_https"@[0]);
}

/// The result of applying a pair that sets a field.
pub open spec fn applied(q: QueryModel) -> Result<QueryModel, ParseErrorModel> {
    Ok(q)
}

/// The `name` pair sets the station name as written.
proof fn lemma_apply_name(q: QueryModel, v: Seq<char>)
    ensures
        apply_field(q, "name"@, v) == applied(QueryModel { name: Some(v), ..q }),
{
    lemma_field_names();
}

/// A country that is one word without commas is taken as written.
proof fn lemma_apply_country(q: QueryModel, v: Seq<char>)
    requires
        v.len() > 0,
        no_white_space(v),
        !v.contains(','),
    ensures
        apply_field(q, "country"@, v) == applied(QueryModel { country: Some(v), ..q }),
{
    lemma_field_names();
    lemma_trim_unchanged(v);
}

/// Capital letters or other ASCII characters in a code that is not all
/// small letters.
pub open spec fn is_upper_ascii_text(v: Seq<char>) -> bool {
    &&& is_ascii_text(v)
    &&& forall|i: int| 0 <= i < v.len() ==> !('a' <= #[trigger] v[i] && v[i] <= 'z')
}

/// A two-character ASCII country code without small letters is taken as written.
proof fn lemma_apply_countrycode(q: QueryModel, v: Seq<char>)
    requires
        v.len() == 2,
        is_upper_ascii_text(v),
    ensures
        apply_field(q, "countrycode"@, v) == applied(QueryModel { countrycode: Some(v), ..q }),
{
    lemma_field_names();
    lemma_uppercase_unchanged(v);
    assert((v[0] as u32) < 0x80);
    assert((v[1] as u32) < 0x80);
    assert(char_utf8_width(v[0]) == 1);
    assert(char_utf8_width(v[1]) == 1);
    assert(v.drop_first().drop_first() =~= Seq::<char>::empty());
    assert(v.drop_first()[0] == v[1]);
    assert(utf8_len(v.drop_first().drop_first()) == 0);
    assert(utf8_len(v.drop_first()) == 1);
    assert(utf8_len(v) == 2);
}

/// The `state` pair sets the state as written.
proof fn lemma_apply_state(q: QueryModel, v: Seq<char>)
    ensures
        apply_field(q, "state"@, v) == applied(QueryModel { state: Some(v), ..q }),
{
    lemma_field_names();
}

/// A language that is one word without commas is taken as written.
proof fn lemma_apply_language(q: QueryModel, v: Seq<char>)
    requires
        v.len() > 0,
        no_white_space(v),
        !v.contains(','),
    ensures
        apply_field(q, "language"@, v) == applied(QueryModel { language: Some(v), ..q }),
{
    lemma_field_names();
    lemma_trim_unchanged(v);
}

/// Tags that are words without commas, written with commas between them,
/// are read back as the same tags.
proof fn lemma_apply_tags(q: QueryModel, t: Seq<Seq<char>>)
    requires
        t.len() >= 1,
        forall|k: int|
            0 <= k < t.len() ==> (#[trigger] t[k]).len() > 0 && no_white_space(t[k]) && !t[k].contains(
                ',',
            ),
    ensures
        apply_field(q, "tag"@, join(t, ","@)) == applied(QueryModel { tags: Some(t), ..q }),
{
    lemma_field_names();
    lemma_comma_list_join(t);
}

/// The `codec` pair sets the codec as written.
proof fn lemma_apply_codec(q: QueryModel, v: Seq<char>)
    ensures
        apply_field(q, "codec"@, v) == applied(QueryModel { codec: Some(v), ..q }),
{
    lemma_field_names();
}

/// A lowest bitrate written in decimal is read back.
proof fn lemma_apply_bitrate_min(q: QueryModel, n: u32)
    ensures
        apply_field(q, "bitrate_min"@, decimal_string(n as nat)) == applied(
            QueryModel { bitrate_min: Some(n), ..q },
        ),
{
    lemma_field_names();
    lemma_decimal_parses_back(n as nat, u32::MAX as nat);
}

/// A highest bitrate written in decimal is read back.
proof fn lemma_apply_bitrate_max(q: QueryModel, n: u32)
    ensures
        apply_field(q, "bitrate_max"@, decimal_string(n as nat)) == applied(
            QueryModel { bitrate_max: Some(n), ..q },
        ),
{
    lemma_field_names();
    lemma_decimal_parses_back(n as nat, u32::MAX as nat);
}

/// The sort orders are written in small ASCII letters.
proof fn lemma_order_lowercase(o: Seq<char>)
    requires
        is_valid_order(o),
    ensures
        lowercase(o) == o,
        is_word(o),
{
    reveal_strlit("name");
    reveal_strlit("votes");
    reveal_strlit("clickcount");
    reveal_strlit("bitrate");
    reveal_strlit("changetimestamp");
    reveal_strlit("random");
    lemma_lowercase_unchanged(o);
}

/// A sort order is read back as written.
proof fn lemma_apply_order(q: QueryModel, o: Seq<char>)
    requires
        is_valid_order(o),
    ensures
        apply_field(q, "order"@, o) == applied(QueryModel { order: Some(o), ..q }),
{
    lemma_field_names();
    lemma_order_lowercase(o);
}

/// `true` and `false` are read back as the flags they write.
proof fn lemma_bool_text_reads_back(b: bool)
    ensures
        parse_bool_value(bool_text(b)) == Some(b),
        is_word(bool_text(b)),
        bool_text(b).len() > 0,
{
    reveal_strlit("true");
    reveal_strlit("false");
    lemma_lowercase_unchanged("true"@);
    lemma_lowercase_unchanged("false"@);
}

/// `reverse=false` turns the descending order off.
proof fn lemma_apply_reverse(q: QueryModel, b: bool)
    ensures
        apply_field(q, "reverse"@, bool_text(b)) == applied(QueryModel { reverse: Some(b), ..q }),
{
    lemma_field_names();
    lemma_bool_text_reads_back(b);
}

/// `hidebroken=false` shows broken stations too.
proof fn lemma_apply_hidebroken(q: QueryModel, b: bool)
    ensures
        apply_field(q, "hidebroken"@, bool_text(b)) == applied(QueryModel { hidebroken: Some(b), ..q }),
{
    lemma_field_names();
    lemma_bool_text_reads_back(b);
}

/// The HTTPS flag is read back as written.
proof fn lemma_apply_is_https(q: QueryModel, b: bool)
    ensures
        apply_field(q, "is_https"@, bool_text(b)) == applied(QueryModel { is_https: Some(b), ..q }),
{
    lemma_field_names();
    lemma_bool_text_reads_back(b);
}

/// The value of an optional text, empty when there is none.
pub open spec fn value_or_empty(o: Option<Seq<char>>) -> Seq<char> {
    match o {
        Some(v) => v,
        None => Seq::empty(),
    }
}

/// No `field=value` text of a list names the `page` field.
pub open spec fn no_page_pairs(a: Seq<Seq<char>>) -> bool {
    forall|k: int|
        0 <= k < a.len() ==> match split_first(#[trigger] a[k], '=') {
            Some((key, _)) => token_field(key) != "page"@,
            None => true,
        }
}

/// Every text of a list is kept whole by the tokenizer.
pub open spec fn all_token_texts(a: Seq<Seq<char>>) -> bool {
    forall|k: int| 0 <= k < a.len() ==> is_token_text(#[trigger] a[k])
}

/// Parsed tokens followed by an optional `field=value` pair parse into the
/// query that pair gives, or into the same query when there is no pair.
proof fn lemma_opt_step(
    a: Seq<Seq<char>>,
    q: QueryModel,
    piece: Seq<Seq<char>>,
    field: Seq<char>,
    value: Seq<char>,
    q2: QueryModel,
)
    requires
        parse_tokens(a) == parsed_pairs(q),
        all_token_texts(a),
        no_page_pairs(a),
        piece.len() == 0 ==> q2 == q,
        piece.len() != 0 ==> {
            &&& piece == seq![field.push('=') + value]
            &&& field != "page"@
            &&& is_field_spelling(field)
            &&& is_word(field.push('='))
            &&& is_word(value)
            &&& apply_field(q, field, value) == applied(q2)
        },
    ensures
        parse_tokens(a + piece) == parsed_pairs(q2),
        all_token_texts(a + piece),
        no_page_pairs(a + piece),
{
    if piece.len() == 0 {
        assert(a + piece =~= a);
    } else {
        lemma_pair_step(a, q, field, value);
        let t = field.push('=') + value;
        assert(a + piece =~= a.push(t));
        lemma_concat_is_word(field.push('='), value);
        assert(is_token_text(t));
        assert forall|k: int| 0 <= k < (a + piece).len() implies is_token_text(#[trigger] (a + piece)[k]) by {
            if k < a.len() {
                assert((a + piece)[k] == a[k]);
            } else {
                assert((a + piece)[k] == t);
            }
        }
        assert forall|k: int| 0 <= k < (a + piece).len() implies match split_first(
            #[trigger] (a + piece)[k],
            '=',
        ) {
            Some((key, _)) => token_field(key) != "page"@,
            None => true,
        } by {
            if k < a.len() {
                assert((a + piece)[k] == a[k]);
            } else {
                assert((a + piece)[k] == t);
            }
        }
    }
}

/// The written-out flags that are not the default.
proof fn lemma_flag_texts()
    ensures
        "reverse=false"@ == "reverse"@.push('=') + bool_text(false),
        "hidebroken=false"@ == "hidebroken"@.push('=') + bool_text(false),
        "votes"@.len() == 5,
{
    reveal_strlit("reverse=false");
    reveal_strlit("hidebroken=false");
    reveal_strlit("reverse");
    reveal_strlit("hidebroken");
    reveal_strlit("false");
    reveal_strlit("votes");
    assert("reverse=false"@ =~= "reverse"@.push('=') + bool_text(false));
    assert("hidebroken=false"@ =~= "hidebroken"@.push('=') + bool_text(false));
}

/// A number written in decimal is a word.
proof fn lemma_decimal_is_word(n: nat)
    ensures
        is_word(decimal_string(n)),
        decimal_string(n).len() > 0,
{
    lemma_decimal_string_reads_back(n);
    let d = decimal_string(n);
    assert forall|i: int| 0 <= i < d.len() implies !is_white_space(#[trigger] d[i]) && d[i] != '"' by {
        assert(is_ascii_digit(d[i]));
    }
}

/// The first character of joined texts is that of the first text, the last
/// that of the last.
proof fn lemma_join_ends(parts: Seq<Seq<char>>, sep: Seq<char>)
    requires
        parts.len() >= 1,
        forall|k: int| 0 <= k < parts.len() ==> (#[trigger] parts[k]).len() > 0,
    ensures
        join(parts, sep).len() > 0,
        join(parts, sep)[0] == parts[0][0],
        join(parts, sep).last() == parts.last().last(),
    decreases parts.len(),
{
    assert(parts[0].len() > 0);
    assert(parts[parts.len() - 1].len() > 0);
    if parts.len() > 1 {
        let init = parts.drop_last();
        assert forall|k: int| 0 <= k < init.len() implies (#[trigger] init[k]).len() > 0 by {
            assert(init[k] == parts[k]);
        }
        lemma_join_ends(init, sep);
        assert(init[0] == parts[0]);
        let j = join(init, sep) + sep + parts.last();
        assert(j[0] == join(init, sep)[0]);
        assert(j.last() == parts.last().last());
    }
}

/// A query string that begins and ends with a character other than white
/// space is its own trimmed form.
proof fn lemma_trim_ends(s: Seq<char>)
    requires
        s.len() > 0,
        !is_white_space(s[0]),
        !is_white_space(s.last()),
    ensures
        trim(s) == s,
{
    assert(trim_start(s) == s);
    assert(trim_end(s) == s);
}

/// A query that reads back from its query string unchanged: every text
/// value is a single word (no white space, no double quotes), country and
/// language are not empty and hold no comma, the country code is two ASCII
/// characters without small letters, there is at least one tag and each is
/// a non-empty word without commas, a valid sort order and both flags that
/// default to on are set, and the page size is the default.
pub open spec fn is_formattable(q: QueryModel) -> bool {
    &&& q.limit == DEFAULT_PAGE_SIZE as nat
    &&& (q.name matches Some(v) ==> is_word(v))
    &&& (q.country matches Some(v) ==> is_word(v) && v.len() > 0 && !v.contains(','))
    &&& (q.countrycode matches Some(v) ==> is_word(v) && v.len() == 2 && is_upper_ascii_text(v))
    &&& (q.state matches Some(v) ==> is_word(v))
    &&& (q.language matches Some(v) ==> is_word(v) && v.len() > 0 && !v.contains(','))
    &&& (q.tags matches Some(t) ==> t.len() >= 1 && forall|k: int|
        0 <= k < t.len() ==> is_word(#[trigger] t[k]) && t[k].len() > 0 && !t[k].contains(','))
    &&& (q.codec matches Some(v) ==> is_word(v))
    &&& (q.order matches Some(o) && is_valid_order(o))
    &&& q.reverse is Some
    &&& q.hidebroken is Some
}

/// The pairs for the text filters, in the order they are written.
pub open spec fn text_pairs(q: QueryModel) -> Seq<Seq<char>> {
    opt_part("name="@, q.name) + opt_part("country="@, q.country) + opt_part(
        "countrycode="@,
        q.countrycode,
    ) + opt_part("state="@, q.state) + opt_part("language="@, q.language) + (match q.tags {
        Some(t) => seq!["tag="@ + join(t, ","@)],
        None => Seq::empty(),
    })
}

/// The default query with the text filters of `q` but the codec.
pub open spec fn with_text_filters(q: QueryModel) -> QueryModel {
    QueryModel {
        name: q.name,
        country: q.country,
        countrycode: q.countrycode,
        state: q.state,
        language: q.language,
        tags: q.tags,
        ..default_query()
    }
}

/// The pairs of the text filters parse into the default query with those
/// filters set.
proof fn lemma_text_pairs(q: QueryModel)
    requires
        is_formattable(q),
    ensures
        parse_tokens(text_pairs(q)) == parsed_pairs(with_text_filters(q)),
        all_token_texts(text_pairs(q)),
        no_page_pairs(text_pairs(q)),
{
    lemma_field_names();
    reveal_strlit(",");
    let e = Seq::<Seq<char>>::empty();
    let q0 = default_query();
    assert(parse_tokens(e) == parsed_pairs(q0));
    assert(all_token_texts(e));
    assert(no_page_pairs(e));

    let p1 = opt_part("name="@, q.name);
    let q1 = QueryModel { name: q.name, ..q0 };
    if let Some(v) = q.name {
        lemma_apply_name(q0, v);
    }
    lemma_opt_step(e, q0, p1, "name"@, value_or_empty(q.name), q1);
    let a1 = e + p1;

    let p2 = opt_part("country="@, q.country);
    let q2 = QueryModel { country: q.country, ..q1 };
    if let Some(v) = q.country {
        lemma_apply_country(q1, v);
    }
    lemma_opt_step(a1, q1, p2, "country"@, value_or_empty(q.country), q2);
    let a2 = a1 + p2;

    let p3 = opt_part("countrycode="@, q.countrycode);
    let q3 = QueryModel { countrycode: q.countrycode, ..q2 };
    if let Some(v) = q.countrycode {
        lemma_apply_countrycode(q2, v);
    }
    lemma_opt_step(a2, q2, p3, "countrycode"@, value_or_empty(q.countrycode), q3);
    let a3 = a2 + p3;

    let p4 = opt_part("state="@, q.state);
    let q4 = QueryModel { state: q.state, ..q3 };
    if let Some(v) = q.state {
        lemma_apply_state(q3, v);
    }
    lemma_opt_step(a3, q3, p4, "state"@, value_or_empty(q.state), q4);
    let a4 = a3 + p4;

    let p5 = opt_part("language="@, q.language);
    let q5 = QueryModel { language: q.language, ..q4 };
    if let Some(v) = q.language {
        lemma_apply_language(q4, v);
    }
    lemma_opt_step(a4, q4, p5, "language"@, value_or_empty(q.language), q5);
    let a5 = a4 + p5;

    let p6: Seq<Seq<char>> = match q.tags {
        Some(t) => seq!["tag="@ + join(t, ","@)],
        None => Seq::empty(),
    };
    let v6: Seq<char> = match q.tags {
        Some(t) => join(t, ","@),
        None => Seq::empty(),
    };
    let q6 = QueryModel { tags: q.tags, ..q5 };
    if let Some(t) = q.tags {
        lemma_apply_tags(q5, t);
        assert(is_word(","@));
        lemma_join_is_word(t, ","@);
    }
    lemma_opt_step(a5, q5, p6, "tag"@, v6, q6);
    assert(e + p1 =~= p1);
    assert(text_pairs(q) =~= a5 + p6);
    assert(q6 == with_text_filters(q));
}

/// The pairs for the codec and the bitrate bounds, in the order they are written.
pub open spec fn number_pairs(q: QueryModel) -> Seq<Seq<char>> {
    text_pairs(q) + opt_part("codec="@, q.codec) + number_part("bitrate_min="@, q.bitrate_min)
        + number_part("bitrate_max="@, q.bitrate_max)
}

/// The default query with the filters of `q` up to the bitrate bounds set.
pub open spec fn with_value_filters(q: QueryModel) -> QueryModel {
    QueryModel {
        codec: q.codec,
        bitrate_min: q.bitrate_min,
        bitrate_max: q.bitrate_max,
        ..with_text_filters(q)
    }
}

/// The pairs up to the bitrate bounds parse into the default query with
/// those filters set.
proof fn lemma_number_pairs(q: QueryModel)
    requires
        is_formattable(q),
    ensures
        parse_tokens(number_pairs(q)) == parsed_pairs(with_value_filters(q)),
        all_token_texts(number_pairs(q)),
        no_page_pairs(number_pairs(q)),
{
    lemma_text_pairs(q);
    lemma_field_names();
    let a6 = text_pairs(q);
    let q6 = with_text_filters(q);

    let p7 = opt_part("codec="@, q.codec);
    let q7 = QueryModel { codec: q.codec, ..q6 };
    if let Some(v) = q.codec {
        lemma_apply_codec(q6, v);
    }
    lemma_opt_step(a6, q6, p7, "codec"@, value_or_empty(q.codec), q7);
    let a7 = a6 + p7;

    let p8 = number_part("bitrate_min="@, q.bitrate_min);
    let v8: Seq<char> = match q.bitrate_min {
        Some(n) => decimal_string(n as nat),
        None => Seq::empty(),
    };
    let q8 = QueryModel { bitrate_min: q.bitrate_min, ..q7 };
    if let Some(n) = q.bitrate_min {
        lemma_apply_bitrate_min(q7, n);
        lemma_decimal_is_word(n as nat);
    }
    lemma_opt_step(a7, q7, p8, "bitrate_min"@, v8, q8);
    let a8 = a7 + p8;

    let p9 = number_part("bitrate_max="@, q.bitrate_max);
    let v9: Seq<char> = match q.bitrate_max {
        Some(n) => decimal_string(n as nat),
        None => Seq::empty(),
    };
    let q9 = QueryModel { bitrate_max: q.bitrate_max, ..q8 };
    if let Some(n) = q.bitrate_max {
        lemma_apply_bitrate_max(q8, n);
        lemma_decimal_is_word(n as nat);
    }
    lemma_opt_step(a8, q8, p9, "bitrate_max"@, v9, q9);
    assert(q9 == with_value_filters(q));
}

/// All the pairs of a query parse into the query, on its first page.
proof fn lemma_all_pairs(q: QueryModel)
    requires
        is_formattable(q),
    ensures
        parse_tokens(format_parts(q)) == parsed_pairs(QueryModel { offset: 0, ..q }),
        all_token_texts(format_parts(q)),
        no_page_pairs(format_parts(q)),
{
    lemma_number_pairs(q);
    lemma_field_names();
    lemma_flag_texts();
    let a9 = number_pairs(q);
    let q9 = with_value_filters(q);

    let o = q.order->0;
    let p10: Seq<Seq<char>> = if o != "votes"@ {
        seq!["order="@ + o]
    } else {
        Seq::empty()
    };
    let q10 = QueryModel { order: q.order, ..q9 };
    lemma_apply_order(q9, o);
    lemma_order_lowercase(o);
    lemma_opt_step(a9, q9, p10, "order"@, o, q10);
    let a10 = a9 + p10;

    let p11: Seq<Seq<char>> = match q.reverse {
        Some(false) => seq!["reverse=false"@],
        _ => Seq::empty(),
    };
    let q11 = QueryModel { reverse: q.reverse, ..q10 };
    lemma_apply_reverse(q10, false);
    lemma_bool_text_reads_back(false);
    lemma_opt_step(a10, q10, p11, "reverse"@, bool_text(false), q11);
    let a11 = a10 + p11;

    let p12: Seq<Seq<char>> = match q.hidebroken {
        Some(false) => seq!["hidebroken=false"@],
        _ => Seq::empty(),
    };
    let q12 = QueryModel { hidebroken: q.hidebroken, ..q11 };
    lemma_apply_hidebroken(q11, false);
    lemma_opt_step(a11, q11, p12, "hidebroken"@, bool_text(false), q12);
    let a12 = a11 + p12;

    let p13: Seq<Seq<char>> = match q.is_https {
        Some(b) => seq!["is_https="@ + bool_text(b)],
        None => Seq::empty(),
    };
    let v13: Seq<char> = match q.is_https {
        Some(b) => bool_text(b),
        None => Seq::empty(),
    };
    let q13 = QueryModel { is_https: q.is_https, ..q12 };
    if let Some(b) = q.is_https {
        lemma_apply_is_https(q12, b);
        lemma_bool_text_reads_back(b);
    }
    lemma_opt_step(a12, q12, p13, "is_https"@, v13, q13);
    assert(format_parts(q) =~= a12 + p13);
    assert(q13 == QueryModel { offset: 0, ..q });
}

/// A query written out as a query string reads back as the same query, on
/// its first page.
pub proof fn law_format_then_parse(q: QueryModel)
    requires
        is_formattable(q),
    ensures
        parse_query_spec(format_query_spec(q)) == Ok::<QueryModel, ParseErrorModel>(
            QueryModel { offset: 0, ..q },
        ),
{
    lemma_all_pairs(q);
    let parts = format_parts(q);
    if parts.len() == 0 {
        assert(join(parts, " "@) =~= Seq::<char>::empty());
        assert(trim(Seq::<char>::empty()) =~= Seq::<char>::empty());
    } else {
        assert forall|k: int| 0 <= k < parts.len() implies (#[trigger] parts[k]).len() > 0 by {
            assert(is_token_text(parts[k]));
        }
        lemma_join_ends(parts, " "@);
        assert(is_token_text(parts[0]));
        assert(is_token_text(parts[parts.len() - 1]));
        assert(parts.last() == parts[parts.len() - 1]);
        lemma_trim_ends(join(parts, " "@));
        lemma_tokenize_join(parts);
    }
}

/// Tokens that name no `page` field compute no page offset.
proof fn lemma_no_page_fits(a: Seq<Seq<char>>)
    requires
        no_page_pairs(a),
    ensures
        tokens_page_fit(a),
    decreases a.len(),
{
    if a.len() > 0 {
        let init = a.drop_last();
        assert(no_page_pairs(init)) by {
            assert forall|k: int| 0 <= k < init.len() implies match split_first(#[trigger] init[k], '=') {
                Some((key, _)) => token_field(key) != "page"@,
                None => true,
            } by {
                assert(init[k] == a[k]);
            }
        }
        lemma_no_page_fits(init);
        assert(a.last() == a[a.len() - 1]);
    }
}

/// A query written out as a query string can be parsed: no page offset in
/// it overflows, since the written string names no `page` field.
pub proof fn lemma_formatted_query_in_range(q: QueryModel)
    requires
        is_formattable(q),
    ensures
        parse_query_in_range(format_query_spec(q)),
{
    lemma_all_pairs(q);
    let parts = format_parts(q);
    if parts.len() > 0 {
        assert forall|k: int| 0 <= k < parts.len() implies (#[trigger] parts[k]).len() > 0 by {
            assert(is_token_text(parts[k]));
        }
        lemma_join_ends(parts, " "@);
        assert(is_token_text(parts[0]));
        assert(is_token_text(parts[parts.len() - 1]));
        assert(parts.last() == parts[parts.len() - 1]);
        lemma_trim_ends(join(parts, " "@));
        lemma_tokenize_join(parts);
        lemma_no_page_fits(parts);
    }
}

/// What every parsed query looks like: the default page size and an offset
/// that is a whole number of pages; a country or language that is not empty
/// and holds no comma; at least one tag, none empty; a valid sort order;
/// direction and broken-station hiding always set.
pub open spec fn parsed_shape(q: QueryModel) -> bool {
    &&& q.limit == DEFAULT_PAGE_SIZE as nat
    &&& q.offset % (DEFAULT_PAGE_SIZE as nat) == 0
    &&& (q.country matches Some(v) ==> v.len() > 0 && !v.contains(','))
    &&& (q.language matches Some(v) ==> v.len() > 0 && !v.contains(','))
    &&& (q.tags matches Some(t) ==> t.len() > 0 && forall|k: int| 0 <= k < t.len() ==> (#[trigger] t[k]).len() > 0)
    &&& (q.order matches Some(o) ==> is_valid_order(o))
    &&& q.reverse is Some
    &&& q.hidebroken is Some
}

/// Trimming keeps only characters of the text.
proof fn lemma_trim_within(s: Seq<char>, c: char)
    ensures
        trim(s).contains(c) ==> s.contains(c),
{
    lemma_trim_start_within(s, c);
    lemma_trim_end_within(trim_start(s), c);
}

/// Cutting leading white space keeps only characters of the text.
proof fn lemma_trim_start_within(s: Seq<char>, c: char)
    ensures
        trim_start(s).contains(c) ==> s.contains(c),
    decreases s.len(),
{
    if s.len() > 0 && is_white_space(s[0]) {
        lemma_trim_start_within(s.drop_first(), c);
        if s.drop_first().contains(c) {
            let i = choose|i: int| 0 <= i < s.drop_first().len() && s.drop_first()[i] == c;
            assert(s[i + 1] == c);
        }
    }
}

/// Cutting trailing white space keeps only characters of the text.
proof fn lemma_trim_end_within(s: Seq<char>, c: char)
    ensures
        trim_end(s).contains(c) ==> s.contains(c),
    decreases s.len(),
{
    if s.len() > 0 && is_white_space(s.last()) {
        lemma_trim_end_within(s.drop_last(), c);
        if s.drop_last().contains(c) {
            let i = choose|i: int| 0 <= i < s.drop_last().len() && s.drop_last()[i] == c;
            assert(s[i] == c);
        }
    }
}

/// The pieces `nonempty_trimmed` keeps are not empty.
proof fn lemma_nonempty_trimmed_items(p: Seq<Seq<char>>)
    ensures
        forall|k: int| 0 <= k < nonempty_trimmed(p).len() ==> (#[trigger] nonempty_trimmed(p)[k]).len() > 0,
    decreases p.len(),
{
    if p.len() > 0 {
        lemma_nonempty_trimmed_items(p.drop_last());
        let r = nonempty_trimmed(p.drop_last());
        assert forall|k: int| 0 <= k < nonempty_trimmed(p).len() implies (#[trigger] nonempty_trimmed(p)[k]).len() > 0 by {
            if k < r.len() {
                assert(nonempty_trimmed(p)[k] == r[k]);
            }
        }
    }
}

/// Applying one `field=value` pair keeps the shape of a parsed query.
proof fn lemma_apply_field_shape(q: QueryModel, field: Seq<char>, value: Seq<char>)
    requires
        parsed_shape(q),
    ensures
        apply_field(q, field, value) matches Ok(q2) ==> parsed_shape(q2),
{
    if let Ok(q2) = apply_field(q, field, value) {
        if field == "page"@ {
            if let Some(p) = parse_unsigned(value, usize::MAX as nat) {
                vstd::arithmetic::div_mod::lemma_mod_multiples_basic(p - 1, DEFAULT_PAGE_SIZE as int);
            }
        } else if field == "country"@ || field == "language"@ {
            if value.contains(',') {
            } else {
                lemma_trim_within(value, ',');
            }
        } else if field == "tag"@ {
            lemma_nonempty_trimmed_items(split_on(value, ','));
        }
    }
}

/// Every query that parsing the tokens gives has the shape of a parsed query.
proof fn lemma_parse_tokens_shape(tokens: Seq<Seq<char>>)
    ensures
        parse_tokens(tokens) matches Ok((q, _)) ==> parsed_shape(q),
    decreases tokens.len(),
{
    reveal_strlit("votes");
    if tokens.len() > 0 {
        lemma_parse_tokens_shape(tokens.drop_last());
        if let Ok((q, _)) = parse_tokens(tokens.drop_last()) {
            if let Some((key, val)) = split_first(tokens.last(), '=') {
                lemma_apply_field_shape(q, token_field(key), trim(val));
            }
        }
    } else {
        vstd::arithmetic::div_mod::lemma_mod_multiples_basic(0, DEFAULT_PAGE_SIZE as int);
    }
}

/// Every query that parsing a query string gives has the default page size
/// and an offset that is a whole number of pages, a country and a language
/// that are not empty and hold no comma, at least one tag and no empty one,
/// a valid sort order, and direction and broken-station hiding set.
pub proof fn law_parsed_query_shape(input: Seq<char>)
    ensures
        parse_query_spec(input) matches Ok(q) ==> parsed_shape(q),
{
    reveal_strlit("votes");
    vstd::arithmetic::div_mod::lemma_mod_multiples_basic(0, DEFAULT_PAGE_SIZE as int);
    lemma_parse_tokens_shape(tokenize(trim(input)));
}

} // verus!
