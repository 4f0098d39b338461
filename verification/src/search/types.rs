//! A parsed search query and the errors parsing can report.

use vstd::prelude::*;
use crate::text::{string_from_str, string_append_str};
pub use crate::text::text_list;

verus! {

/// Number of stations per result page unless the caller chooses otherwise.
pub const DEFAULT_PAGE_SIZE: usize = 12;

/// Filters and paging of a station search.
#[derive(Debug, Clone, PartialEq)]
pub struct SearchQuery {
    pub name: Option<String>,
    pub country: Option<String>,
    pub countrycode: Option<String>,
    pub state: Option<String>,
    pub language: Option<String>,
    pub tags: Option<Vec<String>>,
    pub codec: Option<String>,
    pub bitrate_min: Option<u32>,
    pub bitrate_max: Option<u32>,
    pub order: Option<String>,
    pub reverse: Option<bool>,
    pub hidebroken: Option<bool>,
    pub is_https: Option<bool>,
    pub limit: usize,
    pub offset: usize,
}

/// The mathematical content of a [`SearchQuery`]: text as character sequences.
pub struct QueryModel {
    pub name: Option<Seq<char>>,
    pub country: Option<Seq<char>>,
    pub countrycode: Option<Seq<char>>,
    pub state: Option<Seq<char>>,
    pub language: Option<Seq<char>>,
    pub tags: Option<Seq<Seq<char>>>,
    pub codec: Option<Seq<char>>,
    pub bitrate_min: Option<u32>,
    pub bitrate_max: Option<u32>,
    pub order: Option<Seq<char>>,
    pub reverse: Option<bool>,
    pub hidebroken: Option<bool>,
    pub is_https: Option<bool>,
    pub limit: nat,
    pub offset: nat,
}

/// The characters of an optional string.
pub open spec fn opt_text(o: Option<String>) -> Option<Seq<char>> {
    match o {
        Some(s) => Some(s@),
        None => None,
    }
}

/// The characters of each string of an optional list.
pub open spec fn opt_text_list(o: Option<Vec<String>>) -> Option<Seq<Seq<char>>> {
    match o {
        Some(v) => Some(text_list(v@)),
        None => None,
    }
}

impl View for SearchQuery {
    type V = QueryModel;

    open spec fn view(&self) -> QueryModel {
        QueryModel {
            name: opt_text(self.name),
            country: opt_text(self.country),
            countrycode: opt_text(self.countrycode),
            state: opt_text(self.state),
            language: opt_text(self.language),
            tags: opt_text_list(self.tags),
            codec: opt_text(self.codec),
            bitrate_min: self.bitrate_min,
            bitrate_max: self.bitrate_max,
            order: opt_text(self.order),
            reverse: self.reverse,
            hidebroken: self.hidebroken,
            is_https: self.is_https,
            limit: self.limit as nat,
            offset: self.offset as nat,
        }
    }
}

/// The query that matches every working station, most voted first, on the first page.
pub open spec fn default_query() -> QueryModel {
    QueryModel {
        name: None,
        country: None,
        countrycode: None,
        state: None,
        language: None,
        tags: None,
        codec: None,
        bitrate_min: None,
        bitrate_max: None,
        order: Some("votes"@),
        reverse: Some(true),
        hidebroken: Some(true),
        is_https: None,
        limit: DEFAULT_PAGE_SIZE as nat,
        offset: 0,
    }
}

/// `q` moved to another result offset, everything else kept.
pub open spec fn with_offset(q: QueryModel, offset: nat) -> QueryModel {
    QueryModel { offset, ..q }
}

/// The 1-based page a query shows.
pub open spec fn page_number(q: QueryModel) -> int
    recommends
        q.limit > 0,
{
    q.offset as int / q.limit as int + 1
}

/// A copy of an optional string.
pub fn clone_opt_string(o: &Option<String>) -> (r: Option<String>)
    ensures
        opt_text(r) == opt_text(*o),
{
    match o {
        Some(s) => Some(s.clone()),
        None => None,
    }
}

/// A copy of a list of strings.
pub fn clone_strings(v: &Vec<String>) -> (r: Vec<String>)
    ensures
        text_list(r@) == text_list(v@),
{
    let mut r: Vec<String> = Vec::new();
    let mut i: usize = 0;
    while i < v.len()
        invariant
            i <= v.len(),
            r@ == v@.take(i as int),
        decreases v.len() - i,
    {
        r.push(v[i].clone());
        i = i + 1;
        proof {
            assert(r@ =~= v@.take(i as int));
        }
    }
    proof {
        assert(v@.take(v@.len() as int) =~= v@);
    }
    r
}

impl Default for SearchQuery {
    fn default() -> (q: SearchQuery)
        ensures
            q@ == default_query(),
    {
        SearchQuery {
            name: None,
            country: None,
            countrycode: None,
            state: None,
            language: None,
            tags: None,
            codec: None,
            bitrate_min: None,
            bitrate_max: None,
            order: Some(string_from_str("votes")),
            reverse: Some(true),
            hidebroken: Some(true),
            is_https: None,
            limit: DEFAULT_PAGE_SIZE,
            offset: 0,
        }
    }
}

impl SearchQuery {
    /// A copy of the query with the same content.
    pub fn duplicate(&self) -> (r: SearchQuery)
        ensures
            r@ == self@,
    {
        SearchQuery {
            name: clone_opt_string(&self.name),
            country: clone_opt_string(&self.country),
            countrycode: clone_opt_string(&self.countrycode),
            state: clone_opt_string(&self.state),
            language: clone_opt_string(&self.language),
            tags: match &self.tags {
                Some(t) => Some(clone_strings(t)),
                None => None,
            },
            codec: clone_opt_string(&self.codec),
            bitrate_min: self.bitrate_min,
            bitrate_max: self.bitrate_max,
            order: clone_opt_string(&self.order),
            reverse: self.reverse,
            hidebroken: self.hidebroken,
            is_https: self.is_https,
            limit: self.limit,
            offset: self.offset,
        }
    }

    /// Moves to the following page of results.
    pub fn next_page(&mut self)
        requires
            old(self).offset + old(self).limit <= usize::MAX,
        ensures
            final(self)@ == with_offset(old(self)@, old(self)@.offset + old(self)@.limit),
    {
        self.offset = self.offset + self.limit;
    }

    /// Moves to the preceding page of results, stopping at the first result.
    pub fn prev_page(&mut self)
        ensures
            final(self)@ == with_offset(
                old(self)@,
                if old(self)@.offset >= old(self)@.limit {
                    (old(self)@.offset - old(self)@.limit) as nat
                } else {
                    0
                },
            ),
    {
        self.offset = if self.offset >= self.limit {
            self.offset - self.limit
        } else {
            0
        };
    }

    /// The 1-based number of the page the query shows.
    pub fn current_page(&self) -> (p: usize)
        requires
            self.limit > 0,
            self.offset / self.limit < usize::MAX,
        ensures
            p == page_number(self@),
    {
        (self.offset / self.limit) + 1
    }

    /// Goes back to the first result.
    pub fn reset_pagination(&mut self)
        ensures
            final(self)@ == with_offset(old(self)@, 0),
    {
        self.offset = 0;
    }
}

/// Moving forward one page then back one page returns to the same query.
pub proof fn law_next_then_prev_page(q: QueryModel)
    ensures
        ({
            let n = with_offset(q, q.offset + q.limit);
            let back = if n.offset >= n.limit {
                (n.offset - n.limit) as nat
            } else {
                0
            };
            with_offset(n, back) == q
        }),
{
}

/// Moving forward one page raises the page number by one.
pub proof fn law_next_page_number(q: QueryModel)
    requires
        q.limit > 0,
    ensures
        page_number(with_offset(q, q.offset + q.limit)) == page_number(q) + 1,
{
    assert((q.offset + q.limit) as int / q.limit as int == q.offset as int / q.limit as int + 1)
        by (nonlinear_arith)
        requires
            q.limit > 0,
    {
        vstd::arithmetic::div_mod::lemma_div_plus_one(q.offset as int, q.limit as int);
    }
}

/// After a reset the query shows the first page.
pub proof fn law_reset_shows_first_page(q: QueryModel)
    requires
        q.limit > 0,
    ensures
        page_number(with_offset(q, 0)) == 1,
{
}

/// Why a query string was refused.
#[derive(Debug, Clone, PartialEq)]
pub enum ParseError {
    UnknownField(String),
    InvalidSyntax(String),
    InvalidValue { field: String, value: String, reason: String },
    MissingEquals(String),
}

/// The mathematical content of a [`ParseError`].
pub enum ParseErrorModel {
    UnknownField(Seq<char>),
    InvalidSyntax(Seq<char>),
    InvalidValue { field: Seq<char>, value: Seq<char>, reason: Seq<char> },
    MissingEquals(Seq<char>),
}

impl View for ParseError {
    type V = ParseErrorModel;

    open spec fn view(&self) -> ParseErrorModel {
        match self {
            ParseError::UnknownField(f) => ParseErrorModel::UnknownField(f@),
            ParseError::InvalidSyntax(m) => ParseErrorModel::InvalidSyntax(m@),
            ParseError::InvalidValue { field, value, reason } => ParseErrorModel::InvalidValue {
                field: field@,
                value: value@,
                reason: reason@,
            },
            ParseError::MissingEquals(f) => ParseErrorModel::MissingEquals(f@),
        }
    }
}

/// The message shown for a parse error.
pub open spec fn parse_error_message(e: ParseErrorModel) -> Seq<char> {
    match e {
        ParseErrorModel::UnknownField(f) => "Unknown field: '"@ + f + "'"@,
        ParseErrorModel::InvalidSyntax(m) => "Invalid syntax: "@ + m,
        ParseErrorModel::InvalidValue { field, value, reason } => "Invalid value '"@ + value
            + "' for field '"@ + field + "': "@ + reason,
        ParseErrorModel::MissingEquals(f) => "Missing '=' after field '"@ + f + "'"@,
    }
}

impl ParseError {
    /// The message shown to the user for this error.
    pub fn to_string(&self) -> (s: String)
        ensures
            s@ == parse_error_message(self@),
    {
        match self {
            ParseError::UnknownField(f) => {
                let mut s = string_from_str("Unknown field: '");
                string_append_str(&mut s, f.as_str());
                string_append_str(&mut s, "'");
                s
            },
            ParseError::InvalidSyntax(m) => {
                let mut s = string_from_str("Invalid syntax: ");
                string_append_str(&mut s, m.as_str());
                s
            },
            ParseError::InvalidValue { field, value, reason } => {
                let mut s = string_from_str("Invalid value '");
                string_append_str(&mut s, value.as_str());
                string_append_str(&mut s, "' for field '");
                string_append_str(&mut s, field.as_str());
                string_append_str(&mut s, "': ");
                string_append_str(&mut s, reason.as_str());
                s
            },
            ParseError::MissingEquals(f) => {
                let mut s = string_from_str("Missing '=' after field '");
                string_append_str(&mut s, f.as_str());
                string_append_str(&mut s, "'");
                s
            },
        }
    }
}

} // verus!
