use lazyradio::api::models::Station;
use lazyradio::cli::args::parse_search_args;
use lazyradio::cli::commands::{
    load_progress, nothing_found, offset_after_choice, parse_command, play_outcome, query_from_prompts,
    state_label, station_label, stop_outcome, uses_daemon, CliCommand, LoadProgress, PlayOutcome, StopOutcome,
};
use lazyradio::cli::session::{
    menu_choice, result_menu, session_key_action, SearchAction, SearchCache, SessionAction, SessionKey,
};
use lazyradio::player::PlayerState;
use lazyradio::search::types::SearchQuery;

fn args(list: &[&str]) -> Vec<String> {
    list.iter().map(|s| s.to_string()).collect()
}

fn station(name: &str) -> Station {
    Station {
        station_uuid: format!("id-{}", name),
        change_uuid: String::new(),
        name: name.to_string(),
        url: String::new(),
        url_resolved: format!("http://{}.example/", name),
        homepage: String::new(),
        favicon: String::new(),
        tags: String::new(),
        country: "France".to_string(),
        country_code: String::new(),
        state: String::new(),
        language: "french".to_string(),
        language_codes: String::new(),
        votes: 0,
        codec: String::new(),
        bitrate: 0,
        hls: 0,
        last_check_ok: 1,
        last_check_time: String::new(),
        last_check_ok_time: String::new(),
        click_timestamp: String::new(),
        click_count: 0,
        click_trend: 0,
    }
}

#[test]
fn search_args_set_filters() {
    let q = parse_search_args(&args(&[
        "rad", "find", "jazz", "--country", "France", "--tags", "smooth", "--bitrate-min", "128",
        "--limit", "20", "--skip", "40", "--no-reverse", "--show-broken", "--https-only",
    ]));
    assert_eq!(q.name, Some("jazz".to_string()));
    assert_eq!(q.country, Some("France".to_string()));
    assert_eq!(q.tags, Some(vec!["smooth".to_string()]));
    assert_eq!(q.bitrate_min, Some(128));
    assert_eq!(q.limit, 20);
    assert_eq!(q.offset, 40);
    assert_eq!(q.reverse, Some(false));
    assert_eq!(q.hidebroken, Some(false));
    assert_eq!(q.is_https, Some(true));
    assert_eq!(q.order, Some("votes".to_string()));
}

#[test]
fn search_args_ignore_bad_numbers_and_unknown_options() {
    let q = parse_search_args(&args(&["rad", "find", "--limit", "many", "--bitrate-max", "-5", "--frobnicate", "--name"]));
    assert_eq!(q, SearchQuery::default());
}

#[test]
fn first_bare_word_is_the_name_unless_one_is_set() {
    let q = parse_search_args(&args(&["rad", "find", "--name", "blues", "jazz"]));
    assert_eq!(q.name, Some("blues".to_string()));
    let q = parse_search_args(&args(&["rad", "find", "jazz", "rock"]));
    assert_eq!(q.name, Some("jazz".to_string()));
    let q = parse_search_args(&args(&["rad", "find", "--limit", "+7"]));
    assert_eq!(q.limit, 7);
}

#[test]
fn search_cache_reports_more_pages_for_a_full_page() {
    let mut c = SearchCache::new();
    assert!(!c.has_more());
    c.update(vec![station("a"), station("b")], 2, 10);
    assert!(c.has_more());
    assert_eq!(c.next_offset(), 12);
    assert_eq!(c.offset(), 10);
    c.update(vec![station("a")], 2, 12);
    assert!(!c.has_more());
}

#[test]
fn result_menu_lists_stations_then_paging_entries() {
    let results = vec![station("a"), station("b")];
    let mut q = SearchQuery::default();
    q.limit = 2;
    q.offset = 2;
    let items = result_menu(&results, &q);
    assert_eq!(items.len(), 4);
    assert_eq!(items[0].label, "a");
    assert_eq!(items[0].hint, "France \u{2022} french");
    assert_eq!(items[2].index, 2);
    assert_eq!(items[2].label, "\u{2192} See next stations");
    assert_eq!(items[3].index, 3);
    assert_eq!(items[3].label, "\u{2190} See previous stations");
    assert!(matches!(menu_choice(&results, &q, 1), Some(SearchAction::Play(n, u)) if n == "b" && u == "http://b.example/"));
    assert!(matches!(menu_choice(&results, &q, 2), Some(SearchAction::NextPage)));
    assert!(matches!(menu_choice(&results, &q, 3), Some(SearchAction::PrevPage)));
    assert!(menu_choice(&results, &q, 4).is_none());
    q.limit = 5;
    let items = result_menu(&results, &q);
    assert_eq!(items.len(), 3);
    assert_eq!(items[2].index, 2);
    assert!(matches!(menu_choice(&results, &q, 2), Some(SearchAction::PrevPage)));
}

#[test]
fn session_keys_move_and_act() {
    assert_eq!(session_key_action(SessionKey::Down, 0, 3, false), SessionAction::Select(1));
    assert_eq!(session_key_action(SessionKey::Down, 2, 3, false), SessionAction::Ignore);
    assert_eq!(session_key_action(SessionKey::Up, 0, 3, false), SessionAction::Ignore);
    assert_eq!(session_key_action(SessionKey::Play, 1, 3, false), SessionAction::Play(1));
    assert_eq!(session_key_action(SessionKey::Next, 1, 3, false), SessionAction::Ignore);
    assert_eq!(session_key_action(SessionKey::Next, 1, 3, true), SessionAction::LoadNextPage);
    assert_eq!(session_key_action(SessionKey::Quit, 1, 3, true), SessionAction::Quit);
    assert_eq!(session_key_action(SessionKey::Favorite, 5, 3, true), SessionAction::Ignore);
}

#[test]
fn commands_are_recognised() {
    assert_eq!(parse_command(&args(&["rad"])), CliCommand::Info);
    assert_eq!(parse_command(&args(&["rad", "find"])), CliCommand::InteractiveFind);
    assert_eq!(parse_command(&args(&["rad", "find", "jazz"])), CliCommand::DirectFind);
    assert_eq!(parse_command(&args(&["rad", "-h"])), CliCommand::Help);
    assert_eq!(parse_command(&args(&["rad", "volume"])), CliCommand::VolumeShow);
    assert_eq!(parse_command(&args(&["rad", "volume", "--up", "5"])), CliCommand::VolumeUp);
    assert_eq!(parse_command(&args(&["rad", "volume", "--down"])), CliCommand::VolumeDown);
    assert_eq!(parse_command(&args(&["rad", "volume", "40"])), CliCommand::VolumeSet);
    assert_eq!(parse_command(&args(&["rad", "dance"])), CliCommand::Unknown);
    assert!(!uses_daemon(CliCommand::Help));
    assert!(uses_daemon(CliCommand::Stop));
}

#[test]
fn play_and_stop_follow_the_player_state() {
    assert_eq!(stop_outcome(PlayerState::Paused), StopOutcome::AlreadyPaused);
    assert_eq!(stop_outcome(PlayerState::Playing), StopOutcome::Pause);
    assert_eq!(play_outcome(PlayerState::Paused, false), PlayOutcome::Resume);
    assert_eq!(play_outcome(PlayerState::Stopped, true), PlayOutcome::PlayLast);
    assert_eq!(play_outcome(PlayerState::Stopped, false), PlayOutcome::NothingToPlay);
    assert_eq!(play_outcome(PlayerState::Loading, true), PlayOutcome::AlreadyPlaying);
    assert_eq!(state_label(PlayerState::Loading), "Loading");
    assert_eq!(station_label("", "playback"), "playback");
    assert_eq!(station_label("Jazz FM", "playback"), "Jazz FM");
}

#[test]
fn prompts_build_a_query() {
    let q = query_from_prompts(
        "jazz".to_string(), String::new(), "France".to_string(), "smooth".to_string(),
        String::new(), String::new(), false,
    );
    assert_eq!(q.name, Some("jazz".to_string()));
    assert_eq!(q.language, None);
    assert_eq!(q.country, Some("France".to_string()));
    assert_eq!(q.tags, Some(vec!["smooth".to_string()]));
    assert_eq!(q.order, Some("votes".to_string()));
    assert_eq!(q.hidebroken, Some(false));
}

#[test]
fn paging_choices_move_the_offset() {
    assert_eq!(offset_after_choice(&SearchAction::NextPage, 10, 10), 20);
    assert_eq!(offset_after_choice(&SearchAction::PrevPage, 5, 10), 0);
    assert_eq!(offset_after_choice(&SearchAction::Play("a".to_string(), "b".to_string()), 5, 10), 5);
    assert!(nothing_found(0, 0));
    assert!(!nothing_found(0, 10));
}

#[test]
fn loading_a_station_waits_a_bounded_time() {
    assert_eq!(load_progress(Some(PlayerState::Playing), 3), LoadProgress::Started);
    assert_eq!(load_progress(Some(PlayerState::Error), 3), LoadProgress::Failed);
    assert_eq!(load_progress(Some(PlayerState::Loading), 3), LoadProgress::Wait);
    assert_eq!(load_progress(None, 50), LoadProgress::TimedOut);
}
