use lazyradio::config::StartupTab;
use lazyradio::player::PlayerState;
use lazyradio::search::autocomplete::{get_suggestions, AutocompleteContext, AutocompleteData};
use lazyradio::tui::keys::{key_action, next_log_filter, Key, KeyAction, KeyContext, KeyWarning, LogLevel};
use lazyradio::tui::layout::{antenna_arms, display_col, list_layout, page_indicator, page_size_change, signal_phase, station_marker, visible_station_rows, PageSizeChange};
use lazyradio::tui::log_file::{format_log_line, format_persisted_log, parse_log_line, parse_persisted_log, PersistedLogEntry};
use lazyradio::tui::navigation::{
    autovote_selection_after_removal, clamp_selection, initial_page_size, next_animation_frame, next_tab, prev_tab,
    selection_after_favorite_removal, startup_tab_to_tab, AutovoteSelection, ListCursor, StatusLog,
};
use lazyradio::tui::paging::{page_offset, Paging};
use lazyradio::api::models::{Country, Language, Station, Tag};
use lazyradio::tui::browse::{browse_pick, country_names, language_names, loaded_status, tag_names, BrowsePick, BrowseSource};
use lazyradio::config::{DefaultSearchOrder, Preferences};
use lazyradio::player::PlayerState as PanelPlayerState;
use lazyradio::storage::autovote::AutovoteStation;
use lazyradio::tui::panels::{
    station_count_suffix, autovote_row, confirm_delete_text, hints_line, log_window, player_spacing,
    player_state_title, settings_rows, station_row, empty_list_message, station_line, status_hints, toast_duration_label, HintContext,
};
use lazyradio::tui::ConfirmDelete;
use lazyradio::tui::highlight::{highlight_query, HighlightSpan, SpanStyle};
use lazyradio::tui::search_popup::{open_search_popup, SearchPopup, SearchSubmit};
use lazyradio::tui::actions::{play_choice, playing_status, restored_play, PlayChoice};
use lazyradio::search::parser::parse_query;
use lazyradio::search::types::SearchQuery;
use lazyradio::tui::{BrowseMode, HelpTab, Tab};

fn context() -> KeyContext {
    KeyContext {
        ctrl: false,
        help_popup: false,
        help_tab: HelpTab::Keys,
        help_log_scroll: 0,
        status_log_len: 0,
        settings_selected: 0,
        message_popup: false,
        confirm_delete: false,
        search_popup: false,
        autocomplete_shown: false,
        current_tab: Tab::Browse,
        selected_index: 0,
        stations_len: 3,
        autovote_selected: 0,
        autovote_len: 0,
        player_state: PlayerState::Stopped,
        has_station_url: false,
        autovote_enabled: true,
        is_last_page: false,
        current_page: 1,
    }
}

#[test]
fn tabs_cycle_and_skip_the_autovote_tab_when_off() {
    assert_eq!(next_tab(Tab::History, true), Tab::Autovote);
    assert_eq!(next_tab(Tab::History, false), Tab::Browse);
    assert_eq!(prev_tab(Tab::Browse, true), Tab::Autovote);
    assert_eq!(prev_tab(Tab::Browse, false), Tab::History);
    for t in [Tab::Browse, Tab::Favorites, Tab::History] {
        assert_eq!(prev_tab(next_tab(t, false), false), t);
    }
    assert_eq!(startup_tab_to_tab(StartupTab::Search), Tab::Browse);
}

#[test]
fn list_cursor_moves_within_bounds() {
    let mut c = ListCursor::new();
    c.select_next(0, 0, 0, 3);
    c.select_next(0, 0, 0, 3);
    c.select_next(0, 0, 0, 3);
    assert_eq!(c.selected_index, 2);
    c.page_up(10);
    assert_eq!(c.selected_index, 0);
    c.page_down(0, 0, 0, 30, 10);
    assert_eq!(c.selected_index, 10);
    c.page_down(0, 0, 0, 12, 10);
    assert_eq!(c.selected_index, 11);
    c.set_browse_mode(BrowseMode::ByGenre);
    assert!(c.browse_list_mode);
    c.select_next(5, 2, 1, 12);
    c.select_next(5, 2, 1, 12);
    assert_eq!(c.browse_list_index, 1);
    c.select_prev();
    assert_eq!(c.browse_list_index, 0);
    assert_eq!(c.selected_index, 11);
    assert_eq!(clamp_selection(7, 3), 2);
    assert_eq!(clamp_selection(7, 0), 0);
}

#[test]
fn status_log_keeps_the_last_hundred() {
    let mut l = StatusLog::new();
    for i in 0..105 {
        l.add(format!("entry {}", i));
    }
    assert_eq!(l.entries().len(), 100);
    assert_eq!(l.entries()[0], "entry 5");
    assert_eq!(l.scroll(), 99);
    l.scroll_down();
    assert_eq!(l.scroll(), 99);
    l.scroll_up();
    assert_eq!(l.scroll(), 98);
}

#[test]
fn removal_selection_rules() {
    assert_eq!(autovote_selection_after_removal(3, 0, true, true), AutovoteSelection::LeaveForFavorites);
    assert_eq!(autovote_selection_after_removal(3, 0, false, true), AutovoteSelection::Select(3));
    assert_eq!(autovote_selection_after_removal(3, 0, false, false), AutovoteSelection::LeaveForFavorites);
    assert_eq!(autovote_selection_after_removal(3, 2, true, true), AutovoteSelection::Select(1));
    assert_eq!(selection_after_favorite_removal(4, 4), 3);
    assert_eq!(selection_after_favorite_removal(0, 0), 0);
    assert_eq!(initial_page_size(30), 19);
    assert_eq!(initial_page_size(5), 1);
    assert_eq!(next_animation_frame(47), 0);
}

#[test]
fn keys_map_to_actions() {
    let mut ctx = context();
    assert_eq!(key_action(&ctx, Key::Char('q')), KeyAction::Quit);
    assert_eq!(key_action(&ctx, Key::Char('/')), KeyAction::OpenSearch);
    assert_eq!(key_action(&ctx, Key::Char(' ')), KeyAction::Resume);
    ctx.has_station_url = true;
    assert_eq!(key_action(&ctx, Key::Char(' ')), KeyAction::PlayRestored);
    ctx.player_state = PlayerState::Playing;
    assert_eq!(key_action(&ctx, Key::Char(' ')), KeyAction::Pause);
    assert_eq!(key_action(&ctx, Key::End), KeyAction::SelectStation(2));
    assert_eq!(key_action(&ctx, Key::Char('n')), KeyAction::RequestPage(true));
    assert_eq!(key_action(&ctx, Key::Char('p')), KeyAction::Warn(KeyWarning::AlreadyFirstPage));
    assert_eq!(key_action(&ctx, Key::Char('1')), KeyAction::Nothing);
    assert_eq!(key_action(&ctx, Key::Char('4')), KeyAction::SwitchTab(Tab::Autovote));
    ctx.current_tab = Tab::Favorites;
    assert_eq!(key_action(&ctx, Key::Char('n')), KeyAction::Warn(KeyWarning::NoPagination));
    assert_eq!(key_action(&ctx, Key::Char('d')), KeyAction::AskDeleteFavorite(0));
    ctx.search_popup = true;
    assert_eq!(key_action(&ctx, Key::Char('q')), KeyAction::SearchType('q'));
    assert_eq!(key_action(&ctx, Key::Esc), KeyAction::CloseSearch);
    ctx.autocomplete_shown = true;
    assert_eq!(key_action(&ctx, Key::Esc), KeyAction::HideCompletions);
    ctx.confirm_delete = true;
    assert_eq!(key_action(&ctx, Key::Char('y')), KeyAction::ConfirmDeletion);
    ctx.message_popup = true;
    assert_eq!(key_action(&ctx, Key::Char('y')), KeyAction::Nothing);
    assert_eq!(key_action(&ctx, Key::Enter), KeyAction::DismissMessage);
    ctx.help_popup = true;
    ctx.help_tab = HelpTab::Settings;
    assert_eq!(key_action(&ctx, Key::Down), KeyAction::SelectSetting(1));
    assert_eq!(key_action(&ctx, Key::Left), KeyAction::ChangeSetting(0, false));
    assert_eq!(key_action(&ctx, Key::Tab), KeyAction::ShowHelpTab(HelpTab::Log));
    ctx.ctrl = true;
    assert_eq!(key_action(&ctx, Key::Char('c')), KeyAction::Quit);
}

#[test]
fn log_filter_cycles() {
    let mut f = None;
    let mut seen = Vec::new();
    for _ in 0..5 {
        f = next_log_filter(f);
        seen.push(f);
    }
    assert_eq!(seen, vec![Some(LogLevel::Error), Some(LogLevel::Warning), Some(LogLevel::Info), Some(LogLevel::Debug), None]);
}

#[test]
fn search_popup_edits_and_completes() {
    let mut p = SearchPopup::new("co".to_string());
    assert_eq!(p.cursor_position, 2);
    let data = AutocompleteData::default();
    let suggestions = get_suggestions(p.get_query(), p.cursor_position, &data);
    p.update_autocomplete(suggestions);
    assert!(p.autocomplete_shown);
    assert_eq!(p.autocomplete_context, AutocompleteContext::FieldName);
    let picked = p.accept_autocomplete().unwrap();
    assert!(p.get_query().starts_with(&picked));
    assert_eq!(p.get_query(), format!("{}=", picked));
    assert_eq!(p.cursor_position, p.get_query().len());
    assert!(!p.autocomplete_shown);
    p.insert_char('x');
    assert_eq!(p.get_query(), format!("{}=x", picked));
    p.delete_char();
    assert_eq!(p.get_query(), format!("{}=", picked));
    p.move_cursor_left();
    p.move_cursor_right();
    p.move_cursor_right();
    assert_eq!(p.cursor_position, p.get_query().len());
}

#[test]
fn search_popup_quotes_completions_with_spaces() {
    let mut p = SearchPopup::new("country=fr".to_string());
    p.update_autocomplete(vec!["french guiana".to_string(), "france".to_string()]);
    p.autocomplete_next();
    p.autocomplete_prev();
    p.autocomplete_prev();
    assert_eq!(p.autocomplete_selected, 1);
    p.autocomplete_next();
    assert_eq!(p.accept_autocomplete(), Some("french guiana".to_string()));
    assert_eq!(p.get_query(), "country=\"french guiana\"");
}

#[test]
fn search_popup_shows_parse_errors_without_a_pending_pause() {
    let mut p = SearchPopup::new("countrx=france".to_string());
    p.validate();
    assert!(p.parse_error.is_some());
    let mut p = SearchPopup::new("country=france".to_string());
    p.validate();
    assert!(p.parse_error.is_none());
    p.insert_char(',');
    assert!(p.error_debounce_timer.is_some());
    p.apply_validation(Some(10));
    assert!(p.parse_error.is_none());
    p.apply_validation(Some(300));
    assert!(p.parse_error.is_some());
}

#[test]
fn columns_are_cut_and_padded() {
    assert_eq!(display_col("Jazz", 6), "Jazz  ");
    assert_eq!(display_col("Jazz Radio", 4), "Jazz");
    assert_eq!(display_col("\u{4e2d}\u{6587}", 3), "\u{4e2d} ");
    assert_eq!(visible_station_rows(20), 18);
    assert_eq!(visible_station_rows(1), 1);
    assert_eq!(page_size_change(10, 10, Tab::Browse), PageSizeChange::Keep);
    assert_eq!(page_size_change(9, 10, Tab::History), PageSizeChange::Resize { search: false });
    assert_eq!(page_indicator(3, false), " Page 3 ... ");
    assert_eq!(page_indicator(3, true), " Page 3 ");
    assert_eq!(station_marker(PlayerState::Paused, "u", "u", false), '\u{25b6}');
    assert_eq!(station_marker(PlayerState::Stopped, "u", "u", true), '\u{25cf}');
    assert_eq!(station_marker(PlayerState::Playing, "u", "v", false), '\u{25cb}');
    assert_eq!(list_layout(120, 20, true), (80, true));
    assert_eq!(list_layout(100, 20, true), (80, false));
    assert_eq!(signal_phase(5), 2);
    assert_eq!(signal_phase(7), 1);
}

#[test]
fn paging_caches_pages_and_forgets_the_farthest() {
    let mut p = Paging::new();
    p.start_search(vec![], 10);
    assert_eq!(p.current_page(), 1);
    assert!(p.is_last_page());
    let mut p = Paging::new();
    p.start_search(Vec::new(), 0);
    for page in 2..=6 {
        p.store_fetched(page, Vec::new(), 0);
    }
    assert!(p.show_cached(1, 0).is_none());
    assert!(p.show_cached(2, 0).is_some());
    assert_eq!(p.current_page(), 2);
    assert_eq!(p.prev_page_target(), Some(1));
    assert_eq!(p.first_page_target(), Some(1));
    assert_eq!(p.next_page_target(), Some(3));
    assert_eq!(page_offset(3, 12), 24);
}

#[test]
fn saved_log_lines_read_back() {
    let e = PersistedLogEntry { unix_secs: 1000, level: LogLevel::Warning, timestamp: "12:00:01".to_string(), message: "a|b".to_string() };
    let line = format_log_line(&e);
    assert_eq!(line, "1000|W|12:00:01|a|b");
    let back = parse_log_line(&line, 2000).unwrap();
    assert_eq!(back.unix_secs, 1000);
    assert_eq!(back.level, LogLevel::Warning);
    assert_eq!(back.timestamp, "12:00:01");
    assert_eq!(back.message, "a|b");
    assert!(parse_log_line(&line, 1000 + 86401).is_none());
    assert!(parse_log_line("1000|X|t|m", 1000).is_none());
    assert!(parse_log_line("abc|I|t|m", 1000).is_none());
    assert!(parse_log_line("1000|I|t", 1000).is_none());
    let text = format_persisted_log(&vec![e.clone(), e]);
    assert_eq!(parse_persisted_log(&text, 2000).len(), 2);
    assert_eq!(parse_persisted_log("junk\r\n5|E|t|boom\r\n", 10).len(), 1);
}

fn pieces(spans: &[HighlightSpan]) -> Vec<(String, SpanStyle)> {
    spans.iter().map(|s| (s.text.clone(), s.style)).collect()
}

fn piece(t: &str, style: SpanStyle) -> (String, SpanStyle) {
    (t.to_string(), style)
}

#[test]
fn highlight_marks_fields_and_commas() {
    let got = pieces(&highlight_query("Country=de,at  tag=jazz foo"));
    let want = vec![
        piece("Country", SpanStyle::Valid),
        piece("=", SpanStyle::Plain),
        piece("d", SpanStyle::Plain),
        piece("e", SpanStyle::Plain),
        piece(",", SpanStyle::Invalid),
        piece("a", SpanStyle::Plain),
        piece("t", SpanStyle::Plain),
        piece("  ", SpanStyle::Plain),
        piece("tag", SpanStyle::Valid),
        piece("=jazz", SpanStyle::Plain),
        piece(" ", SpanStyle::Plain),
        piece("foo", SpanStyle::Incomplete),
    ];
    assert_eq!(got, want);
}

#[test]
fn highlight_unknown_field_and_bare_field() {
    assert_eq!(
        pieces(&highlight_query(" bogus=1 name")),
        vec![
            piece(" ", SpanStyle::Plain),
            piece("bogus", SpanStyle::Invalid),
            piece("=1", SpanStyle::Plain),
            piece(" ", SpanStyle::Plain),
            piece("name", SpanStyle::Valid),
        ]
    );
    assert_eq!(
        pieces(&highlight_query("tag=a,b")),
        vec![piece("tag", SpanStyle::Valid), piece("=a,b", SpanStyle::Plain)]
    );
}

#[test]
fn highlight_empty_line_is_one_empty_span() {
    assert_eq!(pieces(&highlight_query("")), vec![piece("", SpanStyle::Plain)]);
    let p = SearchPopup::new("=x ".to_string());
    assert_eq!(
        pieces(&p.highlight_syntax()),
        vec![piece("", SpanStyle::Invalid), piece("=x", SpanStyle::Plain), piece(" ", SpanStyle::Plain)]
    );
}

#[test]
fn highlight_keeps_text() {
    for line in ["country=a,b  lang", "\tname=x\u{2003}y", "", "   "] {
        let joined: String = highlight_query(line).iter().map(|s| s.text.as_str()).collect();
        assert_eq!(joined, line);
    }
}

#[test]
fn browse_lists_keep_names_with_stations() {
    let countries = vec![
        Country { name: "Germany".to_string(), iso_3166_1: "DE".to_string(), station_count: 12 },
        Country { name: "Atlantis".to_string(), iso_3166_1: "XA".to_string(), station_count: 0 },
        Country { name: "France".to_string(), iso_3166_1: "FR".to_string(), station_count: 3 },
    ];
    assert_eq!(country_names(&countries), vec!["Germany".to_string(), "France".to_string()]);
    let tags = vec![
        Tag { name: "jazz".to_string(), station_count: 5 },
        Tag { name: "broken".to_string(), station_count: -1 },
    ];
    assert_eq!(tag_names(&tags), vec!["jazz".to_string()]);
    let languages = vec![
        Language { name: "none".to_string(), iso_639: None, station_count: 0 },
        Language { name: "english".to_string(), iso_639: Some("en".to_string()), station_count: 40 },
    ];
    assert_eq!(language_names(&languages), vec!["english".to_string()]);
}

#[test]
fn browse_pick_builds_cache_key() {
    let countries = vec!["Germany".to_string()];
    let genres = vec!["jazz".to_string(), "rock".to_string()];
    let languages = vec!["english".to_string()];
    match browse_pick(BrowseMode::ByGenre, true, &countries, &genres, &languages, 1) {
        BrowsePick::Fetch(f) => {
            assert_eq!(f.source, BrowseSource::Tag);
            assert_eq!(f.name, "rock");
            assert_eq!(f.cache_key, "genre_rock");
        }
        other => panic!("unexpected {:?}", other),
    }
    match browse_pick(BrowseMode::ByCountry, true, &countries, &genres, &languages, 0) {
        BrowsePick::Fetch(f) => assert_eq!(f.cache_key, "country_Germany"),
        other => panic!("unexpected {:?}", other),
    }
    match browse_pick(BrowseMode::ByLanguage, true, &countries, &genres, &languages, 0) {
        BrowsePick::Fetch(f) => assert_eq!(f.cache_key, "language_english"),
        other => panic!("unexpected {:?}", other),
    }
    assert!(matches!(
        browse_pick(BrowseMode::ByCountry, true, &countries, &genres, &languages, 1),
        BrowsePick::Nothing
    ));
    assert!(matches!(
        browse_pick(BrowseMode::Popular, true, &countries, &genres, &languages, 0),
        BrowsePick::Nothing
    ));
    assert!(matches!(
        browse_pick(BrowseMode::ByCountry, false, &countries, &genres, &languages, 0),
        BrowsePick::NotListing
    ));
    assert_eq!(loaded_status(42), "Loaded 42 stations");
    assert_eq!(loaded_status(0), "Loaded 0 stations");
}

#[test]
fn popup_flags_make_has_popup() {
    let mut c = context();
    assert!(!c.has_popup());
    c.confirm_delete = true;
    assert!(c.has_popup());
    let mut d = context();
    d.message_popup = true;
    assert!(d.has_popup());
}

fn hint_context() -> HintContext {
    HintContext {
        error_popup: false,
        warning_popup: false,
        help_popup: false,
        help_tab: HelpTab::Keys,
        search_popup: false,
        has_stations: true,
        player_state: PanelPlayerState::Stopped,
    }
}

#[test]
fn status_hints_follow_top_layer() {
    let mut h = hint_context();
    h.error_popup = true;
    h.warning_popup = true;
    assert_eq!(status_hints(&h), vec![("Esc/Enter", ":Close"), ("Ctrl+C", ":Quit")]);
    let mut h = hint_context();
    h.help_popup = true;
    h.help_tab = HelpTab::Log;
    assert_eq!(status_hints(&h), vec![("\u{2191}\u{2193}", ":Scroll"), ("Tab", ":Keys"), ("Esc", ":Close")]);
    let mut h = hint_context();
    h.has_stations = false;
    let hs = status_hints(&h);
    assert_eq!(hs, vec![("/", ":Search"), ("F1", ":Popular"), ("?", ":Help"), ("Ctrl+C", ":Quit")]);
    assert_eq!(hints_line(&hs), "/:Search | F1:Popular | ?:Help | Ctrl+C:Quit");
    let mut h = hint_context();
    h.player_state = PanelPlayerState::Loading;
    let hs = status_hints(&h);
    assert_eq!(hs.len(), 12);
    assert_eq!(hs[2], ("s", ":Stop"));
    assert_eq!(hs[3], ("+-", ":Vol"));
    h.player_state = PanelPlayerState::Paused;
    assert_eq!(status_hints(&h).len(), 14);
}

#[test]
fn settings_page_rows() {
    let p = Preferences {
        startup_tab: lazyradio::config::StartupTab::History,
        default_search_order: DefaultSearchOrder::ClickCount,
        play_at_startup: true,
        auto_vote_favorites: false,
        show_logo: true,
        toast_duration_secs: 0,
    };
    let rows = settings_rows(&p);
    assert_eq!(rows.len(), 6);
    assert_eq!(rows[0], (format!("  Startup Tab{}", " ".repeat(11)), "[ History ]".to_string()));
    assert_eq!(rows[1], ("  Default Search Order  ".to_string(), "[ Click Count ]".to_string()));
    assert_eq!(rows[2].1, "[ On ]");
    assert_eq!(rows[3].1, "[ Off ]");
    assert_eq!(rows[5].1, "[ Off ]");
    for (left, _) in &rows {
        assert_eq!(left.len(), 24);
    }
    assert_eq!(toast_duration_label(5), "5s");
    assert_eq!(toast_duration_label(0), "Off");
}

#[test]
fn log_page_window() {
    assert_eq!(log_window(100, 10, 95), (90, 100));
    assert_eq!(log_window(100, 10, 3), (3, 13));
    assert_eq!(log_window(4, 10, 2), (0, 4));
    assert_eq!(log_window(0, 10, 0), (0, 0));
}

#[test]
fn autovote_rows_and_title() {
    let s = AutovoteStation {
        uuid: "u".to_string(),
        name: "Jazz FM".to_string(),
        url: "http://x".to_string(),
        country: "UK".to_string(),
        codec: String::new(),
        bitrate: 128,
        added_at: 0,
    };
    let row = autovote_row(&s);
    let want = format!(
        "    Jazz FM{}  UK{}  \u{2014}{}  128 kbps",
        " ".repeat(33),
        " ".repeat(16),
        " ".repeat(5)
    );
    assert_eq!(row, want);
    let t = AutovoteStation { codec: "MP3".to_string(), bitrate: 0, ..s };
    assert!(autovote_row(&t).ends_with("MP3     \u{2014}"));
    assert_eq!(station_count_suffix(3), " (3 stations)");
    assert_eq!(station_count_suffix(0), "");
}

#[test]
fn delete_prompt_and_player_lines() {
    let (q, t) = confirm_delete_text(&ConfirmDelete::Favorite("id".to_string(), "Radio X".to_string()));
    assert_eq!(q, "Remove Radio X from Favorites?");
    assert_eq!(t, " Remove from Favorites ");
    let (q, t) = confirm_delete_text(&ConfirmDelete::Autovote("id".to_string(), "Y".to_string()));
    assert_eq!(q, "Remove Y from Autovote?");
    assert_eq!(t, " Remove from Autovote ");
    assert_eq!(player_state_title(PanelPlayerState::Loading), "Loading...");
    assert_eq!(station_line("", 40), "No station selected");
    assert_eq!(station_line("Short", 40), "Short");
    assert_eq!(station_line("A rather long station name", 14), "A rathe...");
    assert_eq!(station_line("abcdef", 10), "abcdef");
    assert_eq!(station_line("abcdefg", 10), "abc...");
    assert_eq!(player_spacing(40, 10, 12), 14);
    assert_eq!(player_spacing(20, 10, 12), 2);
}

#[test]
fn search_popup_opens_on_current_query() {
    let mut data = AutocompleteData::default();
    data.countries = vec!["france".to_string(), "germany".to_string()];
    let p = open_search_popup(&SearchQuery::default(), &data);
    assert_eq!(p.get_query(), "");
    assert_eq!(p.cursor_position, 0);
    assert!(p.autocomplete_shown);
    assert!(p.autocomplete_items.contains(&"country".to_string()));
    let q = parse_query("country=fr").unwrap();
    let p = open_search_popup(&q, &data);
    assert_eq!(p.get_query(), "country=fr");
    assert_eq!(p.cursor_position, 10);
    assert_eq!(p.autocomplete_items, vec!["france".to_string()]);
}

#[test]
fn play_key_choices() {
    let st = Station {
        station_uuid: "u1".to_string(),
        change_uuid: String::new(),
        name: "Radio One".to_string(),
        url: "http://one/raw".to_string(),
        url_resolved: "http://one/live".to_string(),
        homepage: String::new(),
        favicon: String::new(),
        tags: String::new(),
        country: String::new(),
        country_code: String::new(),
        state: String::new(),
        language: String::new(),
        language_codes: String::new(),
        votes: 0,
        codec: String::new(),
        bitrate: 0,
        hls: 0,
        last_check_ok: 1,
        last_check_time: String::new(),
        last_check_ok_time: String::new(),
        click_timestamp: String::new(),
        click_count: 0,
        click_trend: 0,
    };
    assert!(matches!(play_choice(&vec![], 0), PlayChoice::NoStations));
    let list = vec![st];
    assert!(matches!(play_choice(&list, 3), PlayChoice::NoneSelected));
    match play_choice(&list, 0) {
        PlayChoice::Play(p) => {
            assert_eq!(p.station_name, "Radio One");
            assert_eq!(p.url, "http://one/live");
        }
        other => panic!("unexpected {:?}", other),
    }
    assert!(restored_play(&"Old".to_string(), &String::new()).is_none());
    let r = restored_play(&"Old".to_string(), &"http://old".to_string()).unwrap();
    assert_eq!((r.station_name.as_str(), r.url.as_str()), ("Old", "http://old"));
    assert_eq!(playing_status("Jazz"), "Playing: Jazz");
}

#[test]
fn station_list_rows() {
    let st = Station {
        station_uuid: "u".to_string(),
        change_uuid: String::new(),
        name: "Jazz".to_string(),
        url: String::new(),
        url_resolved: String::new(),
        homepage: String::new(),
        favicon: String::new(),
        tags: String::new(),
        country: "France".to_string(),
        country_code: String::new(),
        state: String::new(),
        language: String::new(),
        language_codes: String::new(),
        votes: 0,
        codec: "AAC".to_string(),
        bitrate: 0,
        hls: 0,
        last_check_ok: 1,
        last_check_time: String::new(),
        last_check_ok_time: String::new(),
        click_timestamp: String::new(),
        click_count: 0,
        click_trend: 0,
    };
    let row = station_row(&st, true, '\u{25cf}');
    let want = format!(
        "* \u{25cf} Jazz{}  France{}  AAC     \u{2014}",
        " ".repeat(28),
        " ".repeat(8)
    );
    assert_eq!(row, want);
    assert!(station_row(&st, false, '\u{25b6}').starts_with("  \u{25b6} Jazz"));
    assert_eq!(empty_list_message(true), "Loading stations...");
    assert_eq!(empty_list_message(false), "No stations found.");
}

#[test]
fn completion_list_lines_and_title() {
    let mut p = SearchPopup::new("co".to_string());
    p.update_autocomplete(vec!["country".to_string(), "codec".to_string()]);
    assert_eq!(p.completion_lines(), vec!["\u{1f30d} country".to_string(), "\u{1f3b5} codec".to_string()]);
    assert_eq!(p.completion_title(), " Showing 2 of 2 ");
    let mut q = SearchPopup::new("country=".to_string());
    let many: Vec<String> = (0..20).map(|i| format!("c{}", i)).collect();
    q.update_autocomplete(many);
    let lines = q.completion_lines();
    assert_eq!(lines.len(), 14);
    assert_eq!(lines[0], "c0");
    assert_eq!(q.completion_title(), " Showing 14 of 20 ");
    let mut e = SearchPopup::new(String::new());
    e.update_autocomplete(vec![]);
    assert_eq!(e.completion_title(), " No suggestions ");
}

#[test]
fn bracket_keys_page_like_n_and_p() {
    let mut ctx = context();
    assert_eq!(key_action(&ctx, Key::Char(']')), KeyAction::RequestPage(true));
    assert_eq!(key_action(&ctx, Key::Char('[')), KeyAction::Warn(KeyWarning::AlreadyFirstPage));
    ctx.current_page = 3;
    assert_eq!(key_action(&ctx, Key::Char('[')), KeyAction::RequestPage(false));
    ctx.is_last_page = true;
    assert_eq!(key_action(&ctx, Key::Char(']')), KeyAction::Warn(KeyWarning::AlreadyLastPage));
    ctx.current_tab = Tab::History;
    assert_eq!(key_action(&ctx, Key::Char('[')), KeyAction::Warn(KeyWarning::NoPagination));
}

#[test]
fn delete_after_insert_restores_text() {
    for (text, cursor, c) in [("country=fr", 7usize, 'x'), ("ab", 0, 'é'), ("ab", 2, ' '), ("", 0, 'q')] {
        let mut p = SearchPopup::new(text.to_string());
        while p.cursor_position > cursor {
            p.move_cursor_left();
        }
        p.insert_char(c);
        p.delete_char();
        assert_eq!(p.get_query(), text);
        assert_eq!(p.cursor_position, cursor);
        assert!(p.parse_error.is_none());
    }
}

#[test]
fn submit_runs_or_reports() {
    let p = SearchPopup::new("country=france jazz".to_string());
    match p.submit() {
        Some(SearchSubmit::Run(q)) => {
            assert_eq!(q.country, Some("france".to_string()));
            assert_eq!(q.name, Some("jazz".to_string()));
        }
        other => panic!("unexpected {:?}", other),
    }
    let bad = SearchPopup::new("colour=red".to_string());
    match bad.submit() {
        Some(SearchSubmit::Invalid(m)) => assert!(m.starts_with("Invalid query: ")),
        other => panic!("unexpected {:?}", other),
    }
    let huge = SearchPopup::new("page=18446744073709551615".to_string());
    assert!(huge.submit().is_none());
}

#[test]
fn antenna_arms_follow_state_and_frame() {
    assert_eq!(antenna_arms(PlayerState::Playing, 0), Some(("(  ", "  )")));
    assert_eq!(antenna_arms(PlayerState::Playing, 4), Some((". (  (  ", "  )  ) .")));
    assert_eq!(antenna_arms(PlayerState::Playing, 14), Some(("(  (  ", "  )  )")));
    assert_eq!(antenna_arms(PlayerState::Loading, 13), Some(("", "  )  )")));
    assert_eq!(antenna_arms(PlayerState::Error, 3), Some(("\\  ", "  /")));
    assert_eq!(antenna_arms(PlayerState::Paused, 3), None);
}
