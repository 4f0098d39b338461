use lazyradio::api::models::{copy_stations, Station};
use lazyradio::storage::favorites::FavoriteStation;
use lazyradio::storage::history::HistoryStation;
use lazyradio::tui::navigation::reload_tab;
use lazyradio::tui::Tab;
use lazyradio::storage::autovote::{AutovoteData, AutovoteManager};
use lazyradio::storage::cache::{CacheManager, CachedStations};
use lazyradio::storage::favorites::{FavoritesData, FavoritesManager};
use lazyradio::storage::history::{HistoryData, HistoryManager};
use lazyradio::storage::search_history::{SearchHistoryData, SearchHistoryManager};
use lazyradio::storage::votes::{VoteManager, VoteRecord, VotesData, VOTE_TTL_NANOS};

fn station(uuid: &str, name: &str) -> Station {
    Station {
        station_uuid: uuid.to_string(),
        change_uuid: String::new(),
        name: name.to_string(),
        url: format!("http://{}.example/stream", uuid),
        url_resolved: format!("http://{}.example/live", uuid),
        homepage: String::new(),
        favicon: String::new(),
        tags: "jazz,blues".to_string(),
        country: "France".to_string(),
        country_code: "FR".to_string(),
        state: String::new(),
        language: "french".to_string(),
        language_codes: "fr".to_string(),
        votes: 10,
        codec: "MP3".to_string(),
        bitrate: 128,
        hls: 0,
        last_check_ok: 1,
        last_check_time: String::new(),
        last_check_ok_time: String::new(),
        click_timestamp: String::new(),
        click_count: 0,
        click_trend: 0,
    }
}

#[test]
fn added_favorite_is_a_favorite_until_removed() {
    let mut m = FavoritesManager::new("favorites.json".to_string(), FavoritesData { stations: Vec::new() });
    assert!(m.add_at(&station("a", "Alpha"), 5));
    assert!(m.is_favorite("a"));
    assert!(!m.add_at(&station("a", "Alpha"), 6));
    assert_eq!(m.get_all().len(), 1);
    assert_eq!(m.get_all()[0].url, "http://a.example/live");
    assert_eq!(m.get_all()[0].added_at, 5);
    m.remove("a");
    assert!(!m.is_favorite("a"));
    assert!(m.get_all().is_empty());
    assert_eq!(m.file_path(), "favorites.json");
}

#[test]
fn favorites_keep_their_order() {
    let mut m = FavoritesManager::new("f".to_string(), FavoritesData { stations: Vec::new() });
    m.add_at(&station("a", "A"), 1);
    m.add_at(&station("b", "B"), 2);
    m.add_at(&station("c", "C"), 3);
    m.remove("b");
    let names: Vec<&str> = m.get_all().iter().map(|f| f.name.as_str()).collect();
    assert_eq!(names, vec!["A", "C"]);
}

#[test]
fn autovote_entries_are_added_once_and_removed() {
    let mut m = AutovoteManager::new("autovote.json".to_string(), AutovoteData { stations: Vec::new() });
    assert!(m.add_at(&station("x", "X"), 1));
    assert!(!m.add_at(&station("x", "X"), 2));
    assert!(m.contains("x"));
    m.remove("x");
    assert!(!m.contains("x"));
}

#[test]
fn search_history_moves_a_repeated_query_to_the_front() {
    let mut m = SearchHistoryManager::new("h".to_string(), SearchHistoryData { queries: Vec::new() });
    m.add_query_at("jazz".to_string(), Some(3), 1);
    m.add_query_at("rock".to_string(), None, 2);
    m.add_query_at("jazz".to_string(), Some(5), 3);
    let all = m.get_all();
    assert_eq!(all.len(), 2);
    assert_eq!(all[0].query, "jazz");
    assert_eq!(all[0].result_count, Some(5));
    assert_eq!(all[1].query, "rock");
    let recent = m.get_recent_queries(1);
    assert_eq!(recent.len(), 1);
    assert_eq!(recent[0].query, "jazz");
}

#[test]
fn search_history_keeps_fifty_queries() {
    let mut m = SearchHistoryManager::new("h".to_string(), SearchHistoryData { queries: Vec::new() });
    for i in 0..60 {
        m.add_query_at(format!("q{}", i), None, i);
    }
    assert_eq!(m.get_all().len(), 50);
    assert_eq!(m.get_all()[0].query, "q59");
}

#[test]
fn history_counts_plays_and_orders_by_recency() {
    let mut m = HistoryManager::new("h".to_string(), HistoryData { stations: Vec::new() }, 2);
    m.add_at(&station("a", "A"), 10);
    m.add_at(&station("b", "B"), 20);
    m.add_at(&station("a", "A"), 30);
    let all = m.get_all();
    assert_eq!(all.len(), 2);
    assert_eq!(all[0].uuid, "a");
    assert_eq!(all[0].play_count, 2);
    assert_eq!(all[0].last_played, 30);
    assert_eq!(all[1].uuid, "b");
    m.add_at(&station("c", "C"), 40);
    assert_eq!(m.get_all().len(), 2);
    assert_eq!(m.get_all()[0].uuid, "c");
    m.clear();
    assert!(m.get_all().is_empty());
}

#[test]
fn votes_are_recent_for_a_day() {
    let now: i128 = 1_000 * VOTE_TTL_NANOS;
    let mut m = VoteManager::new_at("v".to_string(), VotesData { votes: Vec::new() }, now);
    assert!(!m.has_voted_recently_at("a", now));
    m.record_vote_at("a", now);
    assert!(m.has_voted_recently_at("a", now + 1));
    assert!(!m.has_voted_recently_at("a", now + VOTE_TTL_NANOS + 1));
    assert!(m.cleanup_expired_at(now + VOTE_TTL_NANOS + 1));
    assert!(!m.has_voted_recently_at("a", now + 1));
}

#[test]
fn stale_votes_are_dropped_on_load() {
    let now: i128 = 1_000 * VOTE_TTL_NANOS;
    let data = VotesData {
        votes: vec![
            VoteRecord { station_uuid: "old".to_string(), voted_at: now - 2 * VOTE_TTL_NANOS },
            VoteRecord { station_uuid: "new".to_string(), voted_at: now - 1 },
        ],
    };
    let m = VoteManager::new_at("v".to_string(), data, now);
    assert!(m.has_voted_recently_at("new", now));
    assert!(!m.has_voted_recently_at("old", now));
}

#[test]
fn cached_lists_expire_after_their_duration() {
    let m = CacheManager::new("cache".to_string(), 60);
    let sec: i128 = 1_000_000_000;
    assert!(m.is_fresh_at(0, 59 * sec));
    assert!(!m.is_fresh_at(0, 60 * sec));
    assert!(!m.is_fresh_at(10, 0));
    assert_eq!(m.file_name("popular"), "popular.json");
    let cached = CachedStations { stations: vec![station("a", "A")], cached_at: 0, cache_key: "popular".to_string() };
    let hit = m.lookup_at(cached, sec);
    assert_eq!(hit.map(|v| v.len()), Some(1));
    let cached = CachedStations { stations: vec![station("a", "A")], cached_at: 0, cache_key: "popular".to_string() };
    assert!(m.lookup_at(cached, 61 * sec).is_none());
}

#[test]
fn station_helpers_format_fields() {
    let mut s = station("a", "A");
    assert!(s.is_online());
    assert_eq!(s.get_tags(), vec!["jazz".to_string(), "blues".to_string()]);
    assert_eq!(s.get_languages(), vec!["french".to_string()]);
    assert_eq!(s.format_bitrate(), "128 kbps");
    assert_eq!(s.format_codec(), "MP3");
    s.bitrate = 0;
    s.codec = String::new();
    s.tags = " a , ,b ".to_string();
    assert_eq!(s.format_bitrate(), "\u{2014}");
    assert_eq!(s.format_codec(), "\u{2014}");
    assert_eq!(s.get_tags(), vec!["a".to_string(), "b".to_string()]);
}

#[test]
fn cache_entry_reads_back_until_expiry() {
    let m = CacheManager::new("cache".to_string(), 60);
    let now: i128 = 1_700_000_000_000_000_000;
    let e = m.entry_at("genre_jazz", vec![station("a", "A")], now);
    assert_eq!(e.cache_key, "genre_jazz");
    assert_eq!(e.cached_at, now);
    let back = m.lookup_at(e, now + 59_000_000_000).expect("still valid");
    assert_eq!(back.len(), 1);
    assert_eq!(back[0].station_uuid, "a");
    let e = m.entry_at("genre_jazz", vec![station("a", "A")], now);
    assert!(m.lookup_at(e, now + 60_000_000_000).is_none());
    let e = m.entry("popular", vec![]);
    assert_eq!(e.cache_key, "popular");
    assert!(m.lookup(e).is_some());
}

#[test]
fn reloading_tabs_shows_their_lists() {
    let browse = vec![station("a", "Alpha"), station("b", "Beta")];
    let favs = vec![FavoriteStation::from_station(&station("f", "Fav"), 1)];
    let hist = vec![
        HistoryStation::from_station(&station("h1", "One"), 1),
        HistoryStation::from_station(&station("h2", "Two"), 2),
    ];
    let (s, sel) = reload_tab(Tab::Browse, &browse, &favs, &hist, 1);
    assert_eq!(s.len(), 2);
    assert_eq!(s[1].name, "Beta");
    assert_eq!(sel, 1);
    let (s, sel) = reload_tab(Tab::Favorites, &browse, &favs, &hist, 5);
    assert_eq!(s.len(), 1);
    assert_eq!(s[0].station_uuid, "f");
    assert_eq!(s[0].url, "http://f.example/live");
    assert_eq!(sel, 0);
    let (s, sel) = reload_tab(Tab::History, &browse, &favs, &hist, 1);
    assert_eq!(s.len(), 2);
    assert_eq!(s[0].name, "One");
    assert_eq!(sel, 0);
    let (s, sel) = reload_tab(Tab::Autovote, &browse, &favs, &hist, 1);
    assert!(s.is_empty());
    assert_eq!(sel, 0);
    let copy = copy_stations(&browse);
    assert_eq!(copy.len(), 2);
    assert_eq!(copy[0].url_resolved, browse[0].url_resolved);
    assert_eq!(browse[1].duplicate().votes, 10);
}

#[test]
fn a_vote_counts_for_a_whole_day_and_once_per_station() {
    let t0: i128 = 2_000 * VOTE_TTL_NANOS;
    let mut m = VoteManager::new_at("v".to_string(), VotesData { votes: Vec::new() }, t0);
    m.record_vote_at("a", t0 - 5);
    m.record_vote_at("b", t0 - 3);
    m.record_vote_at("a", t0);
    assert_eq!(m.data().votes.len(), 2);
    assert_eq!(m.data().votes[1].station_uuid, "a");
    for now in [t0, t0 + 1, t0 + VOTE_TTL_NANOS / 2, t0 + VOTE_TTL_NANOS - 1] {
        assert!(m.has_voted_recently_at("a", now));
    }
    assert!(!m.has_voted_recently_at("a", t0 + VOTE_TTL_NANOS));
    m.record_vote("c");
    assert!(m.has_voted_recently("c"));
}
