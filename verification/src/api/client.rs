//! The requests made to the station directory: the servers it is reached
//! through, and the address of each request.

use vstd::prelude::*;
use vstd::utf8::encode_utf8;
use crate::search::types::{SearchQuery, QueryModel, opt_text};
use crate::search::parser::{opt_part, number_part, bool_text};
use crate::text::{
    string_from_str, string_append_str, push_decimal, decimal_string, join, join_strings,
    text_list, chars_of, string_of_range, contains_text,
};

verus! {

/// The bytes a URL carries as they are: ASCII letters and digits, `-`, `.`, `_` and `~`.
pub open spec fn is_unreserved(b: u8) -> bool {
    (48 <= b <= 57) || (65 <= b <= 90) || (97 <= b <= 122) || b == 45 || b == 46 || b == 95 || b == 126
}

/// The upper-case hexadecimal digit of a value below sixteen.
pub open spec fn hex_digit(d: u8) -> char {
    if d < 10 { (48 + d) as char } else { (55 + d) as char }
}

/// Percent-encoding of bytes: unreserved bytes stay as the character they
/// encode, every other byte becomes `%` and two upper-case hexadecimal digits.
pub open spec fn percent_encoded(bytes: Seq<u8>) -> Seq<char>
    decreases bytes.len(),
{
    if bytes.len() == 0 {
        Seq::empty()
    } else {
        let b = bytes[0];
        (if is_unreserved(b) {
            seq![b as char]
        } else {
            seq!['%', hex_digit(b / 16), hex_digit(b % 16)]
        }) + percent_encoded(bytes.drop_first())
    }
}

/// The percent-encoding of the UTF-8 bytes of a text.
pub open spec fn url_encoded(s: Seq<char>) -> Seq<char> {
    percent_encoded(encode_utf8(s))
}

/// Calls `urlencoding::encode`, which percent-encodes every byte of the
/// text's UTF-8 encoding except ASCII letters, digits, `-`, `_`, `.` and `~`,
/// writing each other byte as `%` and two upper-case hexadecimal digits
/// (urlencoding 2.1.3, `enc.rs`); the contract states exactly that.
#[verifier::external_body]
fn url_encode(s: &str) -> (r: String)
    ensures
        r@ == url_encoded(s@),
{
    urlencoding::encode(s).into_owned()
}

/// Percent-encodes a text for use in a request address.
pub fn encode_component(s: &str) -> (r: String)
    ensures
        r@ == url_encoded(s@),
{
    url_encode(s)
}

/// The filters every station list asks for: working stations, most voted first.
pub open spec fn list_options() -> Seq<char> {
    "&hidebroken=true&order=votes&reverse=true"@
}

/// The address of a name search.
pub open spec fn search_stations_path(query: Seq<char>, limit: nat) -> Seq<char> {
    "/json/stations/search?name="@ + url_encoded(query) + "&limit="@ + decimal_string(limit) + list_options()
}

/// The address of the most popular stations.
pub open spec fn popular_stations_path(limit: nat) -> Seq<char> {
    "/json/stations?limit="@ + decimal_string(limit) + list_options()
}

/// The address of the stations of one country, genre or language: `kind`
/// is the directory's word for the list (`bycountry`, `bytag`, `bylanguage`).
pub open spec fn stations_by_path(kind: Seq<char>, value: Seq<char>, limit: nat) -> Seq<char> {
    "/json/stations/"@ + kind + "/"@ + url_encoded(value) + "?limit="@ + decimal_string(limit) + list_options()
}

/// `s` followed by the decimal form of `n`.
fn with_decimal(s: &str, n: usize) -> (r: String)
    ensures
        r@ == s@ + decimal_string(n as nat),
{
    let mut r = string_from_str(s);
    push_decimal(&mut r, n as u64);
    r
}

/// The address of a search for stations by name.
pub fn search_stations_endpoint(query: &str, limit: usize) -> (r: String)
    ensures
        r@ == search_stations_path(query@, limit as nat),
{
    let mut r = string_from_str("/json/stations/search?name=");
    let e = url_encode(query);
    string_append_str(&mut r, e.as_str());
    string_append_str(&mut r, "&limit=");
    push_decimal(&mut r, limit as u64);
    string_append_str(&mut r, "&hidebroken=true&order=votes&reverse=true");
    r
}

/// The address of the most popular stations.
pub fn popular_stations_endpoint(limit: usize) -> (r: String)
    ensures
        r@ == popular_stations_path(limit as nat),
{
    let mut r = with_decimal("/json/stations?limit=", limit);
    string_append_str(&mut r, "&hidebroken=true&order=votes&reverse=true");
    r
}

/// The address of a list of stations selected by `kind`.
fn stations_by_endpoint(kind: &str, value: &str, limit: usize) -> (r: String)
    ensures
        r@ == stations_by_path(kind@, value@, limit as nat),
{
    let mut r = string_from_str("/json/stations/");
    string_append_str(&mut r, kind);
    string_append_str(&mut r, "/");
    let e = url_encode(value);
    string_append_str(&mut r, e.as_str());
    string_append_str(&mut r, "?limit=");
    push_decimal(&mut r, limit as u64);
    string_append_str(&mut r, "&hidebroken=true&order=votes&reverse=true");
    r
}

/// The address of the stations of a country.
pub fn stations_by_country_endpoint(country: &str, limit: usize) -> (r: String)
    ensures
        r@ == stations_by_path("bycountry"@, country@, limit as nat),
{
    stations_by_endpoint("bycountry", country, limit)
}

/// The address of the stations with a tag.
pub fn stations_by_tag_endpoint(tag: &str, limit: usize) -> (r: String)
    ensures
        r@ == stations_by_path("bytag"@, tag@, limit as nat),
{
    stations_by_endpoint("bytag", tag, limit)
}

/// The address of the stations in a language.
pub fn stations_by_language_endpoint(language: &str, limit: usize) -> (r: String)
    ensures
        r@ == stations_by_path("bylanguage"@, language@, limit as nat),
{
    stations_by_endpoint("bylanguage", language, limit)
}

/// The address of the countries, those with most stations first.
pub fn countries_endpoint() -> (r: String)
    ensures
        r@ == "/json/countries?order=stationcount&reverse=true"@,
{
    string_from_str("/json/countries?order=stationcount&reverse=true")
}

/// The address of the `limit` tags with most stations.
pub fn tags_endpoint(limit: usize) -> (r: String)
    ensures
        r@ == "/json/tags?limit="@ + decimal_string(limit as nat) + "&order=stationcount&reverse=true"@,
{
    let mut r = with_decimal("/json/tags?limit=", limit);
    string_append_str(&mut r, "&order=stationcount&reverse=true");
    r
}

/// The address of the languages, those with most stations first.
pub fn languages_endpoint() -> (r: String)
    ensures
        r@ == "/json/languages?order=stationcount&reverse=true"@,
{
    string_from_str("/json/languages?order=stationcount&reverse=true")
}

/// The address that counts a play of a station.
pub fn click_endpoint(station_uuid: &str) -> (r: String)
    ensures
        r@ == "/json/url/"@ + station_uuid@,
{
    let mut r = string_from_str("/json/url/");
    string_append_str(&mut r, station_uuid);
    r
}

/// The address that votes for a station.
pub fn vote_endpoint(station_uuid: &str) -> (r: String)
    ensures
        r@ == "/json/vote/"@ + station_uuid@,
{
    let mut r = string_from_str("/json/vote/");
    string_append_str(&mut r, station_uuid);
    r
}

/// `key` and the percent-encoded value, when there is a value.
pub open spec fn encoded_part(key: Seq<char>, o: Option<Seq<char>>) -> Seq<Seq<char>> {
    match o {
        Some(v) => seq![key + url_encoded(v)],
        None => Seq::empty(),
    }
}

/// `key` and `true` or `false`, when there is a flag.
pub open spec fn flag_part(key: Seq<char>, o: Option<bool>) -> Seq<Seq<char>> {
    match o {
        Some(b) => seq![key + bool_text(b)],
        None => Seq::empty(),
    }
}

/// The percent-encoding of each tag.
pub open spec fn encoded_tags(tags: Seq<Seq<char>>) -> Seq<Seq<char>> {
    tags.map_values(|t: Seq<char>| url_encoded(t))
}

/// The parameters of an advanced search, in this order: the text filters
/// (percent-encoded), all tags as one comma-separated list (each tag
/// encoded, the commas not), codec, bitrate bounds, order (as given),
/// direction, broken-station hiding and HTTPS, then page size and offset.
pub open spec fn search_params(q: QueryModel) -> Seq<Seq<char>> {
    encoded_part("name="@, q.name) + encoded_part("country="@, q.country)
        + encoded_part("countrycode="@, q.countrycode) + encoded_part("state="@, q.state)
        + encoded_part("language="@, q.language) + (match q.tags {
            Some(t) => seq!["tagList="@ + join(encoded_tags(t), ","@)],
            None => Seq::empty(),
        }) + encoded_part("codec="@, q.codec) + number_part("bitrateMin="@, q.bitrate_min)
        + number_part("bitrateMax="@, q.bitrate_max) + opt_part("order="@, q.order)
        + flag_part("reverse="@, q.reverse) + flag_part("hidebroken="@, q.hidebroken)
        + flag_part("is_https="@, q.is_https)
        + seq!["limit="@ + decimal_string(q.limit), "offset="@ + decimal_string(q.offset)]
}

/// The address of an advanced search: its parameters joined with `&`.
pub open spec fn advanced_search_path(q: QueryModel) -> Seq<char> {
    "/json/stations/search?"@ + join(search_params(q), "&"@)
}

/// Adds `key` and the encoded value to the parameters, when there is a value.
fn push_encoded_part(params: &mut Vec<String>, key: &str, o: &Option<String>)
    ensures
        text_list(final(params)@) == text_list(old(params)@) + encoded_part(key@, opt_text(*o)),
{
    if let Some(v) = o {
        let ghost before = params@;
        let mut s = string_from_str(key);
        let e = url_encode(v.as_str());
        string_append_str(&mut s, e.as_str());
        params.push(s);
        proof {
            assert(text_list(params@) =~= text_list(before) + encoded_part(key@, opt_text(*o)));
        }
    } else {
        proof {
            assert(text_list(params@) =~= text_list(params@) + encoded_part(key@, opt_text(*o)));
        }
    }
}

/// Adds `key` and the value as it is to the parameters, when there is a value.
fn push_plain_part(params: &mut Vec<String>, key: &str, o: &Option<String>)
    ensures
        text_list(final(params)@) == text_list(old(params)@) + opt_part(key@, opt_text(*o)),
{
    if let Some(v) = o {
        let ghost before = params@;
        let mut s = string_from_str(key);
        string_append_str(&mut s, v.as_str());
        params.push(s);
        proof {
            assert(text_list(params@) =~= text_list(before) + opt_part(key@, opt_text(*o)));
        }
    } else {
        proof {
            assert(text_list(params@) =~= text_list(params@) + opt_part(key@, opt_text(*o)));
        }
    }
}

/// Adds `key` and the number to the parameters, when there is a number.
fn push_number_param(params: &mut Vec<String>, key: &str, o: Option<u32>)
    ensures
        text_list(final(params)@) == text_list(old(params)@) + number_part(key@, o),
{
    if let Some(n) = o {
        let ghost before = params@;
        let mut s = string_from_str(key);
        push_decimal(&mut s, n as u64);
        params.push(s);
        proof {
            assert(text_list(params@) =~= text_list(before) + number_part(key@, o));
        }
    } else {
        proof {
            assert(text_list(params@) =~= text_list(params@) + number_part(key@, o));
        }
    }
}

/// Adds `key` and the flag to the parameters, when there is a flag.
fn push_flag_part(params: &mut Vec<String>, key: &str, o: Option<bool>)
    ensures
        text_list(final(params)@) == text_list(old(params)@) + flag_part(key@, o),
{
    if let Some(b) = o {
        let ghost before = params@;
        let mut s = string_from_str(key);
        if b {
            string_append_str(&mut s, "true");
        } else {
            string_append_str(&mut s, "false");
        }
        params.push(s);
        proof {
            assert(text_list(params@) =~= text_list(before) + flag_part(key@, o));
        }
    } else {
        proof {
            assert(text_list(params@) =~= text_list(params@) + flag_part(key@, o));
        }
    }
}

/// The tags, each percent-encoded, joined with commas.
fn encoded_tag_list(tags: &Vec<String>) -> (r: String)
    ensures
        r@ == join(encoded_tags(text_list(tags@)), ","@),
{
    let mut encoded: Vec<String> = Vec::new();
    let mut i: usize = 0;
    while i < tags.len()
        invariant
            i <= tags.len(),
            text_list(encoded@) == encoded_tags(text_list(tags@)).take(i as int),
        decreases tags.len() - i,
    {
        let e = url_encode(tags[i].as_str());
        let ghost before = encoded@;
        encoded.push(e);
        proof {
            assert(text_list(tags@)[i as int] == tags@[i as int]@);
            assert(encoded_tags(text_list(tags@))[i as int] == url_encoded(tags@[i as int]@));
            assert(encoded@ =~= before.push(e));
            assert(text_list(encoded@) =~= text_list(before).push(e@));
            assert(text_list(encoded@) =~= encoded_tags(text_list(tags@)).take(i + 1));
        }
        i = i + 1;
    }
    proof {
        assert(encoded_tags(text_list(tags@)).take(tags@.len() as int) =~= encoded_tags(text_list(tags@)));
    }
    join_strings(&encoded, ",")
}

/// The address of an advanced search for `query`.
pub fn advanced_search_endpoint(query: &SearchQuery) -> (r: String)
    ensures
        r@ == advanced_search_path(query@),
{
    let mut params: Vec<String> = Vec::new();
    let ghost q = query@;
    proof {
        assert(text_list(params@) =~= Seq::<Seq<char>>::empty());
    }
    push_encoded_part(&mut params, "name=", &query.name);
    push_encoded_part(&mut params, "country=", &query.country);
    push_encoded_part(&mut params, "countrycode=", &query.countrycode);
    push_encoded_part(&mut params, "state=", &query.state);
    push_encoded_part(&mut params, "language=", &query.language);
    let ghost p5 = text_list(params@);
    if let Some(tags) = &query.tags {
        let mut s = string_from_str("tagList=");
        let list = encoded_tag_list(tags);
        string_append_str(&mut s, list.as_str());
        params.push(s);
    }
    let ghost p6 = text_list(params@);
    proof {
        assert(p6 =~= p5 + (match q.tags {
            Some(t) => seq!["tagList="@ + join(encoded_tags(t), ","@)],
            None => Seq::empty(),
        }));
    }
    push_encoded_part(&mut params, "codec=", &query.codec);
    push_number_param(&mut params, "bitrateMin=", query.bitrate_min);
    push_number_param(&mut params, "bitrateMax=", query.bitrate_max);
    push_plain_part(&mut params, "order=", &query.order);
    push_flag_part(&mut params, "reverse=", query.reverse);
    push_flag_part(&mut params, "hidebroken=", query.hidebroken);
    push_flag_part(&mut params, "is_https=", query.is_https);
    let ghost p13 = text_list(params@);
    params.push(with_decimal("limit=", query.limit));
    params.push(with_decimal("offset=", query.offset));
    proof {
        assert(text_list(params@) =~= p13 + seq!["limit="@ + decimal_string(q.limit), "offset="@ + decimal_string(q.offset)]);
        assert(text_list(params@) =~= search_params(q));
    }
    let mut r = string_from_str("/json/stations/search?");
    let joined = join_strings(&params, "&");
    string_append_str(&mut r, joined.as_str());
    r
}

/// The servers of the directory and the one requests go to.
pub struct ServerList {
    base_urls: Vec<String>,
    current: usize,
}

impl ServerList {
    /// The server addresses, in the order they are tried.
    pub closed spec fn urls(&self) -> Seq<Seq<char>> {
        text_list(self.base_urls@)
    }

    /// The position of the server requests go to.
    pub closed spec fn current(&self) -> nat {
        self.current as nat
    }

    /// There is a server, and requests go to one of them.
    pub closed spec fn wf(&self) -> bool {
        self.current < self.base_urls.len()
    }

    /// A list that sends requests to the first of `base_urls`, or `None` when
    /// there is no server.
    pub fn new(base_urls: Vec<String>) -> (r: Option<ServerList>)
        ensures
            base_urls@.len() == 0 <==> r is None,
            r matches Some(l) ==> l.wf() && l.urls() == text_list(base_urls@) && l.current() == 0,
    {
        if base_urls.len() == 0 {
            None
        } else {
            Some(ServerList { base_urls, current: 0 })
        }
    }

    /// The address of the server requests go to.
    pub fn get_base_url(&self) -> (r: &str)
        requires
            self.wf(),
        ensures
            r@ == self.urls()[self.current() as int],
    {
        self.base_urls[self.current].as_str()
    }

    /// Moves on to the next server, from the last back to the first.
    pub fn rotate_server(&mut self)
        requires
            old(self).wf(),
        ensures
            final(self).wf(),
            final(self).urls() == old(self).urls(),
            final(self).current() == (old(self).current() + 1) % old(self).urls().len(),
    {
        self.current = (self.current + 1) % self.base_urls.len();
    }

    /// Records the outcome of a request: after a failed one, requests go to
    /// the next server.
    pub fn after_response(&mut self, success: bool)
        requires
            old(self).wf(),
        ensures
            final(self).wf(),
            final(self).urls() == old(self).urls(),
            final(self).current() == (if success {
                old(self).current()
            } else {
                (old(self).current() + 1) % old(self).urls().len()
            }),
    {
        if !success {
            self.rotate_server();
        }
    }

    /// The full address of a request to `endpoint` on the current server.
    pub fn request_url(&self, endpoint: &str) -> (r: String)
        requires
            self.wf(),
        ensures
            r@ == self.urls()[self.current() as int] + endpoint@,
    {
        let mut r = string_from_str(self.base_urls[self.current].as_str());
        string_append_str(&mut r, endpoint);
        r
    }
}

/// `s` without the dots at its end.
pub open spec fn without_trailing_dots(s: Seq<char>) -> Seq<char>
    decreases s.len(),
{
    if s.len() > 0 && s.last() == '.' {
        without_trailing_dots(s.drop_last())
    } else {
        s
    }
}

/// The server address for a host name found by reverse lookup: `https://`
/// and the name without its trailing dots.
pub fn server_url(hostname: &str) -> (r: String)
    ensures
        r@ == "https://"@ + without_trailing_dots(hostname@),
{
    let v = chars_of(hostname);
    let mut end: usize = v.len();
    proof {
        assert(v@.take(v@.len() as int) =~= v@);
    }
    while end > 0 && v[end - 1] == '.'
        invariant
            end <= v.len(),
            without_trailing_dots(v@) == without_trailing_dots(v@.take(end as int)),
        decreases end,
    {
        proof {
            assert(v@.take(end as int).drop_last() =~= v@.take(end - 1));
        }
        end = end - 1;
    }
    let mut r = string_from_str("https://");
    let name = string_of_range(&v, 0, end);
    proof {
        assert(v@.take(v@.len() as int) =~= v@);
        assert(name@ =~= v@.take(end as int));
    }
    string_append_str(&mut r, name.as_str());
    r
}

/// A server found by looking up the directory's name: its address in text,
/// and the host name a reverse lookup gave for it, if any.
#[derive(Debug)]
pub struct ResolvedServer {
    pub ip: String,
    pub hostname: Option<String>,
}

/// The base address requests to a found server use: `https://` and its host
/// name without trailing dots, or its address when it has no name.
pub open spec fn server_address(e: ResolvedServer) -> Seq<char> {
    match e.hostname {
        Some(h) => "https://"@ + without_trailing_dots(h@),
        None => "https://"@ + e.ip@,
    }
}

/// Puts the servers in a random order, to spread the load over them.
///
/// Calls `rand::seq::SliceRandom::shuffle` with `rand::thread_rng()`; the
/// shuffle only swaps elements, so the result holds the same servers. Which
/// order comes out is chance and is not stated; the thread's generator
/// panics if the system's entropy source cannot be read.
#[verifier::external_body]
fn shuffle_servers(v: &mut Vec<ResolvedServer>)
    ensures
        final(v)@.to_multiset() == old(v)@.to_multiset(),
{
    rand::seq::SliceRandom::shuffle(v.as_mut_slice(), &mut rand::thread_rng());
}

/// The base addresses of the found servers, in a random order.
pub fn discovered_servers(entries: Vec<ResolvedServer>) -> (r: Vec<String>)
    ensures
        exists|p: Seq<ResolvedServer>| #[trigger] p.to_multiset() == entries@.to_multiset()
            && text_list(r@) == p.map_values(|e: ResolvedServer| server_address(e)),
{
    let mut entries = entries;
    let ghost given = entries@;
    shuffle_servers(&mut entries);
    let mut r: Vec<String> = Vec::new();
    let mut i: usize = 0;
    while i < entries.len()
        invariant
            i <= entries.len(),
            text_list(r@) == entries@.take(i as int).map_values(|e: ResolvedServer| server_address(e)),
        decreases entries.len() - i,
    {
        let e = &entries[i];
        let url = match &e.hostname {
            Some(h) => server_url(h.as_str()),
            None => {
                let mut u = string_from_str("https://");
                string_append_str(&mut u, e.ip.as_str());
                u
            },
        };
        let ghost before = r@;
        r.push(url);
        proof {
            assert(text_list(r@) =~= text_list(before).push(url@));
            assert(entries@.take(i + 1) =~= entries@.take(i as int).push(entries@[i as int]));
            assert(text_list(r@) =~= entries@.take(i + 1).map_values(|e: ResolvedServer| server_address(e)));
        }
        i = i + 1;
    }
    proof {
        assert(entries@.take(entries@.len() as int) =~= entries@);
        assert(entries@.to_multiset() == given.to_multiset());
    }
    r
}

/// The server a list is on after `k` failed requests in a row, starting on
/// server `c` of `n`: each failure moves it one server on, round the list
/// (see `ServerList::after_response`).
pub open spec fn after_failures(c: nat, k: nat, n: nat) -> nat
    decreases k,
{
    if k == 0 {
        c
    } else {
        (after_failures(c, (k - 1) as nat, n) + 1) % n
    }
}

/// The server reached after `k` failures is `k` places on, round the list.
proof fn lemma_after_failures(c: nat, k: nat, n: nat)
    requires
        c < n,
    ensures
        after_failures(c, k, n) == ((c + k) as int) % (n as int),
    decreases k,
{
    if k > 0 {
        lemma_after_failures(c, (k - 1) as nat, n);
        let a = (c + k - 1) as int;
        vstd::arithmetic::div_mod::lemma_add_mod_noop_right(1, a, n as int);
        assert(a % (n as int) + 1 == 1 + a % (n as int));
        assert(1 + a == (c + k) as int);
        assert(after_failures(c, k, n) == (after_failures(c, (k - 1) as nat, n) + 1) % n);
    } else {
        vstd::arithmetic::div_mod::lemma_small_mod(c, n);
    }
}

/// Requests that keep failing try every server once before coming back: the
/// servers reached after 0, 1, ..., n - 1 failures are all different, and
/// after n failures the list is back on the server it started on.
pub proof fn law_failures_visit_every_server(c: nat, n: nat)
    requires
        c < n,
    ensures
        forall|i: nat, j: nat| i < j < n ==> after_failures(c, i, n) != after_failures(c, j, n),
        after_failures(c, n, n) == c,
{
    assert forall|i: nat, j: nat| i < j < n implies after_failures(c, i, n) != after_failures(c, j, n) by {
        lemma_after_failures(c, i, n);
        lemma_after_failures(c, j, n);
        lemma_wrapped(c + i, n);
        lemma_wrapped(c + j, n);
    }
    lemma_after_failures(c, n, n);
    lemma_wrapped(c + n, n);
}

/// A number below twice `n` taken modulo `n`: itself, or `n` less.
proof fn lemma_wrapped(x: nat, n: nat)
    requires
        0 < n,
        x < 2 * n,
    ensures
        (x as int) % (n as int) == (if x < n {
            x as int
        } else {
            x - n
        }),
{
    if x < n {
        vstd::arithmetic::div_mod::lemma_small_mod(x, n);
    } else {
        vstd::arithmetic::div_mod::lemma_small_mod((x - n) as nat, n);
        vstd::arithmetic::div_mod::lemma_mod_add_multiples_vanish((x - n) as int, n as int);
    }
}

/// `p` is one of the parameters of the advanced search for `q`, and it
/// stands in the request's address.
pub open spec fn sends_param(q: QueryModel, p: Seq<char>) -> bool {
    search_params(q).contains(p) && contains_text(advanced_search_path(q), p)
}

/// A text found in `b` is found in `a + b` too.
proof fn lemma_contains_text_after(a: Seq<char>, b: Seq<char>, p: Seq<char>)
    requires
        contains_text(b, p),
    ensures
        contains_text(a + b, p),
{
    let k = choose|k: int| 0 <= k && k + p.len() <= b.len() && #[trigger] b.subrange(k, k + p.len()) == p;
    assert((a + b).subrange(k + a.len(), k + a.len() + p.len()) =~= b.subrange(k, k + p.len()));
}

/// Every part of a joined text stands in it.
proof fn lemma_join_contains_part(parts: Seq<Seq<char>>, sep: Seq<char>, i: int)
    requires
        0 <= i < parts.len(),
    ensures
        contains_text(join(parts, sep), parts[i]),
    decreases parts.len(),
{
    let p = parts[i];
    if parts.len() == 1 {
        let k: int = 0;
        assert(join(parts, sep).subrange(k, k + p.len()) =~= p);
    } else {
        let init = parts.drop_last();
        let j = join(init, sep);
        assert(join(parts, sep) == j + sep + parts.last());
        if i == parts.len() - 1 {
            let k: int = (j.len() + sep.len()) as int;
            assert(join(parts, sep).subrange(k, k + p.len()) =~= p);
        } else {
            assert(init[i] == p);
            lemma_join_contains_part(init, sep, i);
            let k = choose|k: int| 0 <= k && k + p.len() <= j.len() && #[trigger] j.subrange(k, k + p.len()) == p;
            assert(join(parts, sep).subrange(k, k + p.len()) =~= j.subrange(k, k + p.len()));
        }
    }
}

/// Each parameter of the search stands in its address.
proof fn lemma_param_in_path(q: QueryModel, p: Seq<char>)
    requires
        search_params(q).contains(p),
    ensures
        sends_param(q, p),
{
    let i = choose|i: int| 0 <= i < search_params(q).len() && search_params(q)[i] == p;
    lemma_join_contains_part(search_params(q), "&"@, i);
    lemma_contains_text_after("/json/stations/search?"@, join(search_params(q), "&"@), p);
}

/// The parameter that a filter of `q` makes is one of its search
/// parameters, and so stands in the address.
#[verifier::rlimit(40)]
proof fn lemma_param_sent(q: QueryModel, p: Seq<char>)
    requires
        ({
        ||| (q.name matches Some(v) && p == "name="@ + url_encoded(v))
        ||| (q.country matches Some(v) && p == "country="@ + url_encoded(v))
        ||| (q.countrycode matches Some(v) && p == "countrycode="@ + url_encoded(v))
        ||| (q.state matches Some(v) && p == "state="@ + url_encoded(v))
        ||| (q.language matches Some(v) && p == "language="@ + url_encoded(v))
        ||| (q.tags matches Some(t) && p == "tagList="@ + join(encoded_tags(t), ","@))
        ||| (q.codec matches Some(v) && p == "codec="@ + url_encoded(v))
        ||| (q.bitrate_min matches Some(n) && p == "bitrateMin="@ + decimal_string(n as nat))
        ||| (q.bitrate_max matches Some(n) && p == "bitrateMax="@ + decimal_string(n as nat))
        ||| (q.order matches Some(v) && p == "order="@ + v)
        ||| (q.reverse matches Some(b) && p == "reverse="@ + bool_text(b))
        ||| (q.hidebroken matches Some(b) && p == "hidebroken="@ + bool_text(b))
        ||| (q.is_https matches Some(b) && p == "is_https="@ + bool_text(b))
        ||| p == "limit="@ + decimal_string(q.limit)
        ||| p == "offset="@ + decimal_string(q.offset)
        }),
    ensures
        sends_param(q, p),
{
    broadcast use vstd::seq_lib::lemma_seq_concat_contains_all_elements;
    assert(seq![p][0] == p);
    assert(seq![p].contains(p));
    let last = seq!["limit="@ + decimal_string(q.limit), "offset="@ + decimal_string(q.offset)];
    assert(last[0] == "limit="@ + decimal_string(q.limit));
    assert(last[1] == "offset="@ + decimal_string(q.offset));
    assert(search_params(q).contains(p));
    lemma_param_in_path(q, p);
}

/// Every filter set in the query is sent: the advanced search asks the
/// directory for each of them as a parameter of the request, the text
/// filters percent-encoded, the tags as one comma-separated list, and the
/// page size and offset always.
pub proof fn law_filters_are_sent(q: QueryModel)
    ensures
        q.name matches Some(v) ==> sends_param(q, "name="@ + url_encoded(v)),
        q.country matches Some(v) ==> sends_param(q, "country="@ + url_encoded(v)),
        q.countrycode matches Some(v) ==> sends_param(q, "countrycode="@ + url_encoded(v)),
        q.state matches Some(v) ==> sends_param(q, "state="@ + url_encoded(v)),
        q.language matches Some(v) ==> sends_param(q, "language="@ + url_encoded(v)),
        q.tags matches Some(t) ==> sends_param(q, "tagList="@ + join(encoded_tags(t), ","@)),
        q.codec matches Some(v) ==> sends_param(q, "codec="@ + url_encoded(v)),
        q.bitrate_min matches Some(n) ==> sends_param(q, "bitrateMin="@ + decimal_string(n as nat)),
        q.bitrate_max matches Some(n) ==> sends_param(q, "bitrateMax="@ + decimal_string(n as nat)),
        q.order matches Some(v) ==> sends_param(q, "order="@ + v),
        q.reverse matches Some(b) ==> sends_param(q, "reverse="@ + bool_text(b)),
        q.hidebroken matches Some(b) ==> sends_param(q, "hidebroken="@ + bool_text(b)),
        q.is_https matches Some(b) ==> sends_param(q, "is_https="@ + bool_text(b)),
        sends_param(q, "limit="@ + decimal_string(q.limit)),
        sends_param(q, "offset="@ + decimal_string(q.offset)),
{
    if let Some(v) = q.name { lemma_param_sent(q, "name="@ + url_encoded(v)); }
    if let Some(v) = q.country { lemma_param_sent(q, "country="@ + url_encoded(v)); }
    if let Some(v) = q.countrycode { lemma_param_sent(q, "countrycode="@ + url_encoded(v)); }
    if let Some(v) = q.state { lemma_param_sent(q, "state="@ + url_encoded(v)); }
    if let Some(v) = q.language { lemma_param_sent(q, "language="@ + url_encoded(v)); }
    if let Some(t) = q.tags { lemma_param_sent(q, "tagList="@ + join(encoded_tags(t), ","@)); }
    if let Some(v) = q.codec { lemma_param_sent(q, "codec="@ + url_encoded(v)); }
    if let Some(n) = q.bitrate_min { lemma_param_sent(q, "bitrateMin="@ + decimal_string(n as nat)); }
    if let Some(n) = q.bitrate_max { lemma_param_sent(q, "bitrateMax="@ + decimal_string(n as nat)); }
    if let Some(v) = q.order { lemma_param_sent(q, "order="@ + v); }
    if let Some(b) = q.reverse { lemma_param_sent(q, "reverse="@ + bool_text(b)); }
    if let Some(b) = q.hidebroken { lemma_param_sent(q, "hidebroken="@ + bool_text(b)); }
    if let Some(b) = q.is_https { lemma_param_sent(q, "is_https="@ + bool_text(b)); }
    lemma_param_sent(q, "limit="@ + decimal_string(q.limit));
    lemma_param_sent(q, "offset="@ + decimal_string(q.offset));
}

} // verus!
