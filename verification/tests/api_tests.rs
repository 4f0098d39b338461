use lazyradio::api::client::{
    advanced_search_endpoint, click_endpoint, countries_endpoint, discovered_servers, encode_component,
    languages_endpoint, popular_stations_endpoint, search_stations_endpoint, server_url,
    stations_by_country_endpoint, stations_by_language_endpoint, stations_by_tag_endpoint, tags_endpoint,
    vote_endpoint, ResolvedServer, ServerList,
};
use lazyradio::search::types::SearchQuery;

#[test]
fn components_are_percent_encoded() {
    assert_eq!(encode_component("hello world"), "hello%20world");
    assert_eq!(encode_component("a-b_c.d~e"), "a-b_c.d~e");
    assert_eq!(encode_component("caf\u{e9}"), "caf%C3%A9");
    assert_eq!(encode_component("a,b&c=d"), "a%2Cb%26c%3Dd");
}

#[test]
fn station_list_endpoints() {
    assert_eq!(
        search_stations_endpoint("jazz fm", 10),
        "/json/stations/search?name=jazz%20fm&limit=10&hidebroken=true&order=votes&reverse=true"
    );
    assert_eq!(popular_stations_endpoint(100), "/json/stations?limit=100&hidebroken=true&order=votes&reverse=true");
    assert_eq!(
        stations_by_country_endpoint("United States", 5),
        "/json/stations/bycountry/United%20States?limit=5&hidebroken=true&order=votes&reverse=true"
    );
    assert_eq!(stations_by_tag_endpoint("rock", 5), "/json/stations/bytag/rock?limit=5&hidebroken=true&order=votes&reverse=true");
    assert_eq!(
        stations_by_language_endpoint("german", 7),
        "/json/stations/bylanguage/german?limit=7&hidebroken=true&order=votes&reverse=true"
    );
    assert_eq!(countries_endpoint(), "/json/countries?order=stationcount&reverse=true");
    assert_eq!(tags_endpoint(200), "/json/tags?limit=200&order=stationcount&reverse=true");
    assert_eq!(languages_endpoint(), "/json/languages?order=stationcount&reverse=true");
    assert_eq!(click_endpoint("abc"), "/json/url/abc");
    assert_eq!(vote_endpoint("abc"), "/json/vote/abc");
}

#[test]
fn advanced_search_lists_parameters_in_order() {
    let q = SearchQuery::default();
    assert_eq!(
        advanced_search_endpoint(&q),
        "/json/stations/search?order=votes&reverse=true&hidebroken=true&limit=12&offset=0"
    );
    let mut q = SearchQuery::default();
    q.name = Some("jazz fm".to_string());
    q.tags = Some(vec!["smooth jazz".to_string(), "lounge".to_string()]);
    q.bitrate_min = Some(128);
    q.is_https = Some(true);
    q.order = None;
    q.reverse = None;
    q.hidebroken = None;
    q.offset = 24;
    assert_eq!(
        advanced_search_endpoint(&q),
        "/json/stations/search?name=jazz%20fm&tagList=smooth%20jazz,lounge&bitrateMin=128&is_https=true&limit=12&offset=24"
    );
}

#[test]
fn servers_rotate_after_failures() {
    assert!(ServerList::new(Vec::new()).is_none());
    let mut l = ServerList::new(vec!["https://a".to_string(), "https://b".to_string()]).unwrap();
    assert_eq!(l.get_base_url(), "https://a");
    assert_eq!(l.request_url("/json/x"), "https://a/json/x");
    l.after_response(true);
    assert_eq!(l.get_base_url(), "https://a");
    l.after_response(false);
    assert_eq!(l.get_base_url(), "https://b");
    l.rotate_server();
    assert_eq!(l.get_base_url(), "https://a");
}

#[test]
fn found_servers_become_addresses() {
    assert_eq!(server_url("de1.api.radio-browser.info."), "https://de1.api.radio-browser.info");
    let mut urls = discovered_servers(vec![
        ResolvedServer { ip: "10.0.0.1".to_string(), hostname: Some("a.example..".to_string()) },
        ResolvedServer { ip: "10.0.0.2".to_string(), hostname: None },
    ]);
    urls.sort();
    assert_eq!(urls, vec!["https://10.0.0.2".to_string(), "https://a.example".to_string()]);
}

#[test]
fn failed_requests_try_every_server_once() {
    let urls = vec!["https://a".to_string(), "https://b".to_string(), "https://c".to_string()];
    let mut l = ServerList::new(urls).unwrap();
    let mut seen = vec![l.get_base_url().to_string()];
    for _ in 0..2 {
        l.after_response(false);
        seen.push(l.get_base_url().to_string());
    }
    seen.sort();
    assert_eq!(seen, vec!["https://a", "https://b", "https://c"]);
    l.after_response(false);
    assert_eq!(l.get_base_url(), "https://a");
    l.after_response(true);
    assert_eq!(l.get_base_url(), "https://a");
}
