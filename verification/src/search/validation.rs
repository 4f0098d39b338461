//! Which field names a query may use, and whether a query filters anything.

use vstd::prelude::*;
use crate::search::types::{SearchQuery, QueryModel};
use crate::text::{chars_of, chars_eq_str, string_equals_str};

verus! {

/// The field names the query language accepts (case-sensitive).
pub open spec fn is_valid_field(f: Seq<char>) -> bool {
    ||| f == "name"@
    ||| f == "country"@
    ||| f == "countrycode"@
    ||| f == "state"@
    ||| f == "language"@
    ||| f == "tag"@
    ||| f == "codec"@
    ||| f == "bitrate_min"@
    ||| f == "bitrate_max"@
    ||| f == "order"@
    ||| f == "reverse"@
    ||| f == "hidebroken"@
    ||| f == "is_https"@
    ||| f == "page"@
}

/// The sort orders the station directory understands.
pub open spec fn is_valid_order(o: Seq<char>) -> bool {
    ||| o == "name"@
    ||| o == "votes"@
    ||| o == "clickcount"@
    ||| o == "bitrate"@
    ||| o == "changetimestamp"@
    ||| o == "random"@
}

/// Whether the characters `v` name a field of the query language.
pub fn is_valid_field_chars(v: &Vec<char>) -> (b: bool)
    ensures
        b == is_valid_field(v@),
{
    chars_eq_str(v, "name") || chars_eq_str(v, "country") || chars_eq_str(v, "countrycode")
        || chars_eq_str(v, "state") || chars_eq_str(v, "language") || chars_eq_str(v, "tag")
        || chars_eq_str(v, "codec") || chars_eq_str(v, "bitrate_min") || chars_eq_str(
        v,
        "bitrate_max",
    ) || chars_eq_str(v, "order") || chars_eq_str(v, "reverse") || chars_eq_str(v, "hidebroken")
        || chars_eq_str(v, "is_https") || chars_eq_str(v, "page")
}

/// Whether the characters `v` name a sort order.
pub fn is_valid_order_chars(v: &Vec<char>) -> (b: bool)
    ensures
        b == is_valid_order(v@),
{
    chars_eq_str(v, "name") || chars_eq_str(v, "votes") || chars_eq_str(v, "clickcount")
        || chars_eq_str(v, "bitrate") || chars_eq_str(v, "changetimestamp") || chars_eq_str(
        v,
        "random",
    )
}

/// Whether `field` is a field name of the query language.
pub fn validate_field(field: &str) -> (b: bool)
    ensures
        b == is_valid_field(field@),
{
    let v = chars_of(field);
    is_valid_field_chars(&v)
}

/// A query that filters nothing: no filter is set and order, direction and
/// the hiding of broken stations are at their defaults. Paging is ignored.
pub open spec fn is_default_spec(q: QueryModel) -> bool {
    &&& q.name is None
    &&& q.country is None
    &&& q.countrycode is None
    &&& q.state is None
    &&& q.language is None
    &&& q.tags is None
    &&& q.codec is None
    &&& q.bitrate_min is None
    &&& q.bitrate_max is None
    &&& q.is_https is None
    &&& q.order == Some("votes"@)
    &&& q.reverse == Some(true)
    &&& q.hidebroken == Some(true)
}

/// Whether the query is the default one, apart from paging.
pub fn is_default_query(query: &SearchQuery) -> (b: bool)
    ensures
        b == is_default_spec(query@),
{
    let order_default = match &query.order {
        Some(o) => string_equals_str(o, "votes"),
        None => false,
    };
    query.name.is_none() && query.country.is_none() && query.countrycode.is_none()
        && query.state.is_none() && query.language.is_none() && query.tags.is_none()
        && query.codec.is_none() && query.bitrate_min.is_none() && query.bitrate_max.is_none()
        && query.is_https.is_none() && order_default && query.reverse == Some(true)
        && query.hidebroken == Some(true)
}

/// Paging does not change whether a query counts as the default one.
pub proof fn law_default_ignores_paging(q: QueryModel, limit: nat, offset: nat)
    ensures
        is_default_spec(q) == is_default_spec(QueryModel { limit, offset, ..q }),
{
}

/// The default query counts as the default one.
pub proof fn law_default_query_is_default()
    ensures
        is_default_spec(crate::search::types::default_query()),
{
}

} // verus!
