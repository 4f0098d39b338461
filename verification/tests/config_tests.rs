use lazyradio::config::{
    log_file_expired, next_toast_duration, toast_lifetime_millis, prev_toast_duration, DefaultSearchOrder, Preferences,
    SettingFollowUp, StartupTab,
};
use lazyradio::tui::Tab;

#[test]
fn test_startup_tab_labels() {
    assert_eq!(StartupTab::Search.label(), "Search");
    assert_eq!(StartupTab::Favorites.label(), "Favorites");
    assert_eq!(StartupTab::History.label(), "History");
}

#[test]
fn test_startup_tab_cycle_next() {
    assert_eq!(StartupTab::Search.cycle_next(), StartupTab::Favorites);
    assert_eq!(StartupTab::Favorites.cycle_next(), StartupTab::History);
    assert_eq!(StartupTab::History.cycle_next(), StartupTab::Search);
}

#[test]
fn test_startup_tab_cycle_prev() {
    assert_eq!(StartupTab::Search.cycle_prev(), StartupTab::History);
    assert_eq!(StartupTab::Favorites.cycle_prev(), StartupTab::Search);
    assert_eq!(StartupTab::History.cycle_prev(), StartupTab::Favorites);
}

#[test]
fn test_startup_tab_next_then_prev_is_identity() {
    for tab in [StartupTab::Search, StartupTab::Favorites, StartupTab::History] {
        assert_eq!(tab.cycle_next().cycle_prev(), tab);
        assert_eq!(tab.cycle_prev().cycle_next(), tab);
    }
}

#[test]
fn test_default_search_order_as_api_str() {
    assert_eq!(DefaultSearchOrder::Votes.as_api_str(), "votes");
    assert_eq!(DefaultSearchOrder::Name.as_api_str(), "name");
    assert_eq!(DefaultSearchOrder::ClickCount.as_api_str(), "clickcount");
    assert_eq!(DefaultSearchOrder::Bitrate.as_api_str(), "bitrate");
    assert_eq!(DefaultSearchOrder::Random.as_api_str(), "random");
}

#[test]
fn test_default_search_order_labels() {
    assert_eq!(DefaultSearchOrder::Votes.label(), "Votes");
    assert_eq!(DefaultSearchOrder::Name.label(), "Name");
    assert_eq!(DefaultSearchOrder::ClickCount.label(), "Click Count");
    assert_eq!(DefaultSearchOrder::Bitrate.label(), "Bitrate");
    assert_eq!(DefaultSearchOrder::Random.label(), "Random");
}

#[test]
fn test_default_search_order_cycle_next_full_rotation() {
    assert_eq!(DefaultSearchOrder::Votes.cycle_next(), DefaultSearchOrder::Name);
    assert_eq!(DefaultSearchOrder::Name.cycle_next(), DefaultSearchOrder::ClickCount);
    assert_eq!(DefaultSearchOrder::ClickCount.cycle_next(), DefaultSearchOrder::Bitrate);
    assert_eq!(DefaultSearchOrder::Bitrate.cycle_next(), DefaultSearchOrder::Random);
    assert_eq!(DefaultSearchOrder::Random.cycle_next(), DefaultSearchOrder::Votes);
}

#[test]
fn test_default_search_order_cycle_prev_full_rotation() {
    assert_eq!(DefaultSearchOrder::Votes.cycle_prev(), DefaultSearchOrder::Random);
    assert_eq!(DefaultSearchOrder::Name.cycle_prev(), DefaultSearchOrder::Votes);
    assert_eq!(DefaultSearchOrder::ClickCount.cycle_prev(), DefaultSearchOrder::Name);
    assert_eq!(DefaultSearchOrder::Bitrate.cycle_prev(), DefaultSearchOrder::ClickCount);
    assert_eq!(DefaultSearchOrder::Random.cycle_prev(), DefaultSearchOrder::Bitrate);
}

#[test]
fn test_default_search_order_next_then_prev_is_identity() {
    let variants = [
        DefaultSearchOrder::Votes,
        DefaultSearchOrder::Name,
        DefaultSearchOrder::ClickCount,
        DefaultSearchOrder::Bitrate,
        DefaultSearchOrder::Random,
    ];
    for order in variants {
        assert_eq!(order.cycle_next().cycle_prev(), order);
        assert_eq!(order.cycle_prev().cycle_next(), order);
    }
}

#[test]
fn defaults_of_the_preference_enums() {
    assert_eq!(StartupTab::default(), StartupTab::Search);
    assert_eq!(DefaultSearchOrder::default(), DefaultSearchOrder::Votes);
}

#[test]
fn toast_durations_cycle_through_the_choices() {
    assert_eq!(next_toast_duration(0), 1);
    assert_eq!(next_toast_duration(3), 5);
    assert_eq!(next_toast_duration(10), 0);
    assert_eq!(next_toast_duration(4), 0);
    assert_eq!(prev_toast_duration(0), 10);
    assert_eq!(prev_toast_duration(5), 3);
    assert_eq!(prev_toast_duration(4), 10);
    for d in [0u64, 1, 2, 3, 5, 10] {
        assert_eq!(prev_toast_duration(next_toast_duration(d)), d);
    }
}

#[test]
fn only_rotated_logs_older_than_the_limit_expire() {
    let day = 86400;
    assert!(log_file_expired("radm.log.2026-03-01", 0, 8 * day, 7));
    assert!(!log_file_expired("radm.log.2026-03-01", 0, 7 * day, 7));
    assert!(!log_file_expired("radm.log", 0, 30 * day, 7));
    assert!(!log_file_expired("radm.log.2026-03-01", 10 * day, 0, 7));
}

fn preferences() -> Preferences {
    Preferences {
        startup_tab: StartupTab::Search,
        default_search_order: DefaultSearchOrder::Votes,
        play_at_startup: false,
        auto_vote_favorites: true,
        show_logo: true,
        toast_duration_secs: 3,
    }
}

#[test]
fn settings_change_and_report_follow_ups() {
    let mut p = preferences();
    assert_eq!(p.change_setting(0, true, Tab::Browse), SettingFollowUp::Nothing);
    assert_eq!(p.startup_tab, StartupTab::Favorites);
    assert_eq!(p.change_setting(1, false, Tab::Browse), SettingFollowUp::SetQueryOrder(DefaultSearchOrder::Random));
    assert_eq!(p.change_setting(3, true, Tab::Autovote), SettingFollowUp::LeaveAutovoteTab);
    assert!(!p.auto_vote_favorites);
    assert_eq!(p.change_setting(3, true, Tab::Autovote), SettingFollowUp::Nothing);
    assert!(p.auto_vote_favorites);
    p.change_setting(7, true, Tab::Browse);
    assert_eq!(p.toast_duration_secs, 5);
    p.change_setting(7, false, Tab::Browse);
    assert_eq!(p.toast_duration_secs, 3);
}

#[test]
fn setting_change_forward_then_back_restores() {
    for index in 0..7 {
        let before = preferences();
        let mut p = preferences();
        p.change_setting(index, true, Tab::Browse);
        p.change_setting(index, false, Tab::Browse);
        assert_eq!(p.startup_tab, before.startup_tab);
        assert_eq!(p.default_search_order, before.default_search_order);
        assert_eq!(p.play_at_startup, before.play_at_startup);
        assert_eq!(p.auto_vote_favorites, before.auto_vote_favorites);
        assert_eq!(p.show_logo, before.show_logo);
        assert_eq!(p.toast_duration_secs, before.toast_duration_secs);
    }
}

#[test]
fn toast_lifetime_follows_setting() {
    assert_eq!(toast_lifetime_millis(0), None);
    assert_eq!(toast_lifetime_millis(3), Some(3000));
    assert_eq!(toast_lifetime_millis(10), Some(10000));
}
