//! Station-search options given on the command line.

use vstd::prelude::*;
use crate::search::types::{SearchQuery, QueryModel, default_query};
use crate::text::{
    chars_of, chars_starts_with, string_equals_str, parse_u32, parse_usize, parse_unsigned,
    starts_with, text_list,
};

verus! {

/// What the argument at `i` does to the query, and how many arguments it
/// consumes: an option that takes a value consumes two when the value is there;
/// an invalid number leaves the query as it was; the first bare word is the
/// name filter; anything else is skipped.
pub open spec fn arg_step(args: Seq<Seq<char>>, i: int, q: QueryModel) -> (QueryModel, int) {
    let a = args[i];
    let has_value = i + 1 < args.len();
    let v = args[i + 1];
    if a == "--name"@ && has_value {
        (QueryModel { name: Some(v), ..q }, 2)
    } else if a == "--country"@ && has_value {
        (QueryModel { country: Some(v), ..q }, 2)
    } else if a == "--countrycode"@ && has_value {
        (QueryModel { countrycode: Some(v), ..q }, 2)
    } else if a == "--language"@ && has_value {
        (QueryModel { language: Some(v), ..q }, 2)
    } else if a == "--tags"@ && has_value {
        (QueryModel { tags: Some(seq![v]), ..q }, 2)
    } else if a == "--codec"@ && has_value {
        (QueryModel { codec: Some(v), ..q }, 2)
    } else if a == "--state"@ && has_value {
        (QueryModel { state: Some(v), ..q }, 2)
    } else if a == "--bitrate-min"@ && has_value {
        (match parse_unsigned(v, u32::MAX as nat) {
            Some(n) => QueryModel { bitrate_min: Some(n as u32), ..q },
            None => q,
        }, 2)
    } else if a == "--bitrate-max"@ && has_value {
        (match parse_unsigned(v, u32::MAX as nat) {
            Some(n) => QueryModel { bitrate_max: Some(n as u32), ..q },
            None => q,
        }, 2)
    } else if a == "--order"@ && has_value {
        (QueryModel { order: Some(v), ..q }, 2)
    } else if a == "--reverse"@ {
        (QueryModel { reverse: Some(true), ..q }, 1)
    } else if a == "--no-reverse"@ {
        (QueryModel { reverse: Some(false), ..q }, 1)
    } else if a == "--hidebroken"@ {
        (QueryModel { hidebroken: Some(true), ..q }, 1)
    } else if a == "--show-broken"@ {
        (QueryModel { hidebroken: Some(false), ..q }, 1)
    } else if a == "--https-only"@ {
        (QueryModel { is_https: Some(true), ..q }, 1)
    } else if a == "--limit"@ && has_value {
        (match parse_unsigned(v, usize::MAX as nat) {
            Some(n) => QueryModel { limit: n, ..q },
            None => q,
        }, 2)
    } else if a == "--skip"@ && has_value {
        (match parse_unsigned(v, usize::MAX as nat) {
            Some(n) => QueryModel { offset: n, ..q },
            None => q,
        }, 2)
    } else if !starts_with(a, "--"@) {
        (if q.name is None { QueryModel { name: Some(a), ..q } } else { q }, 1)
    } else {
        (q, 1)
    }
}

/// The query that the arguments from index `i` on make of `q`.
pub open spec fn args_query_from(args: Seq<Seq<char>>, i: int, q: QueryModel) -> QueryModel
    decreases args.len() - i,
{
    if 0 <= i < args.len() {
        let (next, step) = arg_step(args, i, q);
        if step >= 1 {
            args_query_from(args, i + step, next)
        } else {
            q
        }
    } else {
        q
    }
}

/// The query a command line asks for: the first two arguments (the program
/// and its command) are skipped, and the rest applied to the default query.
pub open spec fn args_query(args: Seq<Seq<char>>) -> QueryModel {
    args_query_from(args, 2, default_query())
}

/// Applies the argument at `i` to `query` and says how many arguments it consumed.
fn apply_arg(query: &mut SearchQuery, args: &[String], i: usize) -> (step: usize)
    requires
        i < args.len(),
    ensures
        (final(query)@, step as int) == arg_step(text_list(args@), i as int, old(query)@),
        1 <= step,
        i + step <= args.len(),
{
    let ghost a = text_list(args@);
    let arg = &args[i];
    let has_value = i + 1 < args.len();
    proof {
        assert(a[i as int] == arg@);
        if has_value {
            assert(a[i + 1] == args@[i + 1]@);
        }
    }
    if string_equals_str(arg, "--name") && has_value {
        query.name = Some(args[i + 1].clone());
        2
    } else if string_equals_str(arg, "--country") && has_value {
        query.country = Some(args[i + 1].clone());
        2
    } else if string_equals_str(arg, "--countrycode") && has_value {
        query.countrycode = Some(args[i + 1].clone());
        2
    } else if string_equals_str(arg, "--language") && has_value {
        query.language = Some(args[i + 1].clone());
        2
    } else if string_equals_str(arg, "--tags") && has_value {
        let tags = vec![args[i + 1].clone()];
        proof {
            assert(text_list(tags@) =~= seq![a[i + 1]]);
        }
        query.tags = Some(tags);
        2
    } else if string_equals_str(arg, "--codec") && has_value {
        query.codec = Some(args[i + 1].clone());
        2
    } else if string_equals_str(arg, "--state") && has_value {
        query.state = Some(args[i + 1].clone());
        2
    } else if string_equals_str(arg, "--bitrate-min") && has_value {
        if let Some(n) = parse_u32(args[i + 1].as_str()) {
            query.bitrate_min = Some(n);
        }
        2
    } else if string_equals_str(arg, "--bitrate-max") && has_value {
        if let Some(n) = parse_u32(args[i + 1].as_str()) {
            query.bitrate_max = Some(n);
        }
        2
    } else if string_equals_str(arg, "--order") && has_value {
        query.order = Some(args[i + 1].clone());
        2
    } else if string_equals_str(arg, "--reverse") {
        query.reverse = Some(true);
        1
    } else if string_equals_str(arg, "--no-reverse") {
        query.reverse = Some(false);
        1
    } else if string_equals_str(arg, "--hidebroken") {
        query.hidebroken = Some(true);
        1
    } else if string_equals_str(arg, "--show-broken") {
        query.hidebroken = Some(false);
        1
    } else if string_equals_str(arg, "--https-only") {
        query.is_https = Some(true);
        1
    } else if string_equals_str(arg, "--limit") && has_value {
        if let Some(n) = parse_usize(args[i + 1].as_str()) {
            query.limit = n;
        }
        2
    } else if string_equals_str(arg, "--skip") && has_value {
        if let Some(n) = parse_usize(args[i + 1].as_str()) {
            query.offset = n;
        }
        2
    } else {
        let chars = chars_of(arg.as_str());
        let dashes = chars_of("--");
        if !chars_starts_with(&chars, &dashes) {
            if query.name.is_none() {
                query.name = Some(arg.clone());
            }
        }
        1
    }
}

/// Turns the arguments of a `search` command into a query.
///
/// The first two arguments (the program and the command) are skipped. Each
/// option that takes a value sets its filter from the next argument (`--tags`
/// sets a single tag); numbers that do not parse are ignored; `--reverse`,
/// `--no-reverse`, `--hidebroken`, `--show-broken` and `--https-only` set
/// their flags; the first argument that does not start with `--` is the name
/// filter unless one is set; anything else is skipped.
pub fn parse_search_args(args: &[String]) -> (query: SearchQuery)
    ensures
        query@ == args_query(text_list(args@)),
{
    let ghost a = text_list(args@);
    let mut query = SearchQuery::default();
    let mut i: usize = 2;
    while i < args.len()
        invariant
            args_query(a) == args_query_from(a, i as int, query@),
            a == text_list(args@),
        decreases args.len() - i,
    {
        let step = apply_arg(&mut query, args, i);
        i = i + step;
    }
    query
}

/// A command line whose only option starts at index 2 and takes the rest:
/// the query is what that one step makes of the default query.
proof fn lemma_single_step(args: Seq<Seq<char>>)
    requires
        2 < args.len(),
        arg_step(args, 2, default_query()).1 == args.len() - 2,
    ensures
        args_query(args) == arg_step(args, 2, default_query()).0,
{
    reveal_with_fuel(args_query_from, 2);
}

/// Makes the text of every option name known, so that one option is told apart from another.
proof fn lemma_option_names()
    ensures
        "--name"@.len() == 6, "--country"@.len() == 9, "--countrycode"@.len() == 13,
        "--language"@.len() == 10, "--tags"@.len() == 6, "--codec"@.len() == 7,
        "--state"@.len() == 7, "--bitrate-min"@.len() == 13, "--bitrate-max"@.len() == 13,
        "--order"@.len() == 7, "--reverse"@.len() == 9, "--no-reverse"@.len() == 12,
        "--hidebroken"@.len() == 12, "--show-broken"@.len() == 13, "--https-only"@.len() == 12,
        "--limit"@.len() == 7, "--skip"@.len() == 6, "--"@.len() == 2,
        "--name"@[2] == 'n', "--country"@[2] == 'c', "--countrycode"@[2] == 'c',
        "--language"@[2] == 'l', "--tags"@[2] == 't', "--codec"@[2] == 'c',
        "--state"@[2] == 's', "--bitrate-min"@[2] == 'b', "--bitrate-max"@[2] == 'b',
        "--order"@[2] == 'o', "--reverse"@[2] == 'r', "--no-reverse"@[2] == 'n',
        "--hidebroken"@[2] == 'h', "--show-broken"@[2] == 's', "--https-only"@[2] == 'h',
        "--limit"@[2] == 'l', "--skip"@[2] == 's', "--bitrate-min"@[12] == 'n',
        "--bitrate-max"@[12] == 'x', "--https-only"@[3] == 't', "--hidebroken"@[3] == 'i',
        starts_with("--name"@, "--"@),
        starts_with("--country"@, "--"@),
        starts_with("--countrycode"@, "--"@),
        starts_with("--language"@, "--"@),
        starts_with("--tags"@, "--"@),
        starts_with("--codec"@, "--"@),
        starts_with("--state"@, "--"@),
        starts_with("--bitrate-min"@, "--"@),
        starts_with("--bitrate-max"@, "--"@),
        starts_with("--order"@, "--"@),
        starts_with("--reverse"@, "--"@),
        starts_with("--no-reverse"@, "--"@),
        starts_with("--hidebroken"@, "--"@),
        starts_with("--show-broken"@, "--"@),
        starts_with("--https-only"@, "--"@),
        starts_with("--limit"@, "--"@),
        starts_with("--skip"@, "--"@),
{
    reveal_strlit("--name");
    reveal_strlit("--country");
    reveal_strlit("--countrycode");
    reveal_strlit("--language");
    reveal_strlit("--tags");
    reveal_strlit("--codec");
    reveal_strlit("--state");
    reveal_strlit("--bitrate-min");
    reveal_strlit("--bitrate-max");
    reveal_strlit("--order");
    reveal_strlit("--reverse");
    reveal_strlit("--no-reverse");
    reveal_strlit("--hidebroken");
    reveal_strlit("--show-broken");
    reveal_strlit("--https-only");
    reveal_strlit("--limit");
    reveal_strlit("--skip");
    reveal_strlit("--");
    assert("--name"@.take(2) =~= "--"@);
    assert("--country"@.take(2) =~= "--"@);
    assert("--countrycode"@.take(2) =~= "--"@);
    assert("--language"@.take(2) =~= "--"@);
    assert("--tags"@.take(2) =~= "--"@);
    assert("--codec"@.take(2) =~= "--"@);
    assert("--state"@.take(2) =~= "--"@);
    assert("--bitrate-min"@.take(2) =~= "--"@);
    assert("--bitrate-max"@.take(2) =~= "--"@);
    assert("--order"@.take(2) =~= "--"@);
    assert("--reverse"@.take(2) =~= "--"@);
    assert("--no-reverse"@.take(2) =~= "--"@);
    assert("--hidebroken"@.take(2) =~= "--"@);
    assert("--show-broken"@.take(2) =~= "--"@);
    assert("--https-only"@.take(2) =~= "--"@);
    assert("--limit"@.take(2) =~= "--"@);
    assert("--skip"@.take(2) =~= "--"@);
}

/// Each option that takes a text value sets the filter it names, and only
/// that one: after the program and its command, `--country v` asks for
/// country `v`, `--language v` for language `v`, `--tags v` for the single
/// tag `v`, and so on, with every other filter as in the default query.
pub proof fn law_text_options_set_their_field(p: Seq<char>, c: Seq<char>, v: Seq<char>)
    ensures
        args_query(seq![p, c, "--name"@, v]) == (QueryModel { name: Some(v), ..default_query() }),
        args_query(seq![p, c, "--country"@, v]) == (QueryModel { country: Some(v), ..default_query() }),
        args_query(seq![p, c, "--countrycode"@, v]) == (QueryModel { countrycode: Some(v), ..default_query() }),
        args_query(seq![p, c, "--language"@, v]) == (QueryModel { language: Some(v), ..default_query() }),
        args_query(seq![p, c, "--tags"@, v]) == (QueryModel { tags: Some(seq![v]), ..default_query() }),
        args_query(seq![p, c, "--codec"@, v]) == (QueryModel { codec: Some(v), ..default_query() }),
        args_query(seq![p, c, "--state"@, v]) == (QueryModel { state: Some(v), ..default_query() }),
        args_query(seq![p, c, "--order"@, v]) == (QueryModel { order: Some(v), ..default_query() }),
{
    lemma_option_names();
    lemma_single_step(seq![p, c, "--name"@, v]);
    lemma_single_step(seq![p, c, "--country"@, v]);
    lemma_single_step(seq![p, c, "--countrycode"@, v]);
    lemma_single_step(seq![p, c, "--language"@, v]);
    lemma_single_step(seq![p, c, "--tags"@, v]);
    lemma_single_step(seq![p, c, "--codec"@, v]);
    lemma_single_step(seq![p, c, "--state"@, v]);
    lemma_single_step(seq![p, c, "--order"@, v]);
}

/// Each numeric option sets the bound it names and no other: `--bitrate-max n`
/// asks for stations of at most `n` kbit/s and leaves the lower bound unset,
/// `--bitrate-min n` the reverse; `--limit` and `--skip` set the page size and
/// the offset. A value that is not a number leaves the query as it was.
pub proof fn law_number_options_set_their_field(p: Seq<char>, c: Seq<char>, v: Seq<char>, n: u32, m: usize)
    ensures
        parse_unsigned(v, u32::MAX as nat) == Some(n as nat) ==> {
            &&& args_query(seq![p, c, "--bitrate-max"@, v]) == (QueryModel { bitrate_max: Some(n), ..default_query() })
            &&& args_query(seq![p, c, "--bitrate-min"@, v]) == (QueryModel { bitrate_min: Some(n), ..default_query() })
        },
        parse_unsigned(v, usize::MAX as nat) == Some(m as nat) ==> {
            &&& args_query(seq![p, c, "--limit"@, v]) == (QueryModel { limit: m as nat, ..default_query() })
            &&& args_query(seq![p, c, "--skip"@, v]) == (QueryModel { offset: m as nat, ..default_query() })
        },
        parse_unsigned(v, u32::MAX as nat) is None ==> {
            &&& args_query(seq![p, c, "--bitrate-max"@, v]) == default_query()
            &&& args_query(seq![p, c, "--bitrate-min"@, v]) == default_query()
        },
        parse_unsigned(v, usize::MAX as nat) is None ==> {
            &&& args_query(seq![p, c, "--limit"@, v]) == default_query()
            &&& args_query(seq![p, c, "--skip"@, v]) == default_query()
        },
{
    lemma_option_names();
    lemma_single_step(seq![p, c, "--bitrate-max"@, v]);
    lemma_single_step(seq![p, c, "--bitrate-min"@, v]);
    lemma_single_step(seq![p, c, "--limit"@, v]);
    lemma_single_step(seq![p, c, "--skip"@, v]);
}

/// Each flag sets the switch it names: `--reverse` and `--no-reverse` the
/// sort direction, `--hidebroken` and `--show-broken` whether broken stations
/// are left out, `--https-only` the secure-stream filter.
pub proof fn law_flags_set_their_field(p: Seq<char>, c: Seq<char>)
    ensures
        args_query(seq![p, c, "--reverse"@]) == (QueryModel { reverse: Some(true), ..default_query() }),
        args_query(seq![p, c, "--no-reverse"@]) == (QueryModel { reverse: Some(false), ..default_query() }),
        args_query(seq![p, c, "--hidebroken"@]) == (QueryModel { hidebroken: Some(true), ..default_query() }),
        args_query(seq![p, c, "--show-broken"@]) == (QueryModel { hidebroken: Some(false), ..default_query() }),
        args_query(seq![p, c, "--https-only"@]) == (QueryModel { is_https: Some(true), ..default_query() }),
{
    lemma_option_names();
    lemma_single_step(seq![p, c, "--reverse"@]);
    lemma_single_step(seq![p, c, "--no-reverse"@]);
    lemma_single_step(seq![p, c, "--hidebroken"@]);
    lemma_single_step(seq![p, c, "--show-broken"@]);
    lemma_single_step(seq![p, c, "--https-only"@]);
}

/// A bare word after the command is the station name to look for.
pub proof fn law_bare_word_is_the_name(p: Seq<char>, c: Seq<char>, w: Seq<char>)
    requires
        !starts_with(w, "--"@),
    ensures
        args_query(seq![p, c, w]) == (QueryModel { name: Some(w), ..default_query() }),
{
    lemma_option_names();
    lemma_single_step(seq![p, c, w]);
}

} // verus!
