use lazyradio::clock::now_nanos;
use lazyradio::daemon::{
    adjacent_favorite_index, connection_mode, idle_decision, is_busy, media_toggle_command, one_shot_reply,
    player_command, subscription_step, ConnectionMode, IdleDecision, OneShotReply, RequestKind, SubscriptionStep,
};
use lazyradio::ipc_client::{
    connect_decision, frame_message, join_path_str, split_frame, ConnectDecision, ConnectPhase, PlayerDaemonClient,
};
use lazyradio::player::{get_player_icon, Playback, PlayerState, PlayerStateDto, SinkState};
use lazyradio::playlist::{is_playlist_url, stream_url_in_playlist};

#[test]
fn playlists_give_their_first_stream() {
    let m3u = "#EXTM3U\n#EXTINF:-1,Radio\n  http://stream.example/live  \n";
    assert_eq!(stream_url_in_playlist("http://x/list.m3u", m3u), Some("http://stream.example/live".to_string()));
    let header_only = "#EXTM3U\r\n//cdn.example/a\r\n";
    assert_eq!(stream_url_in_playlist("http://x/list", header_only), Some("//cdn.example/a".to_string()));
    let pls = "[playlist]\nNumberOfEntries=1\nFile1= http://pls.example/x \nTitle1=Radio\n";
    assert_eq!(stream_url_in_playlist("http://x/list.pls", pls), Some("http://pls.example/x".to_string()));
    assert_eq!(stream_url_in_playlist("http://x/list.pls", "File1=a=b\n"), Some("a".to_string()));
    assert_eq!(stream_url_in_playlist("http://x/list.txt", "http://a\n"), None);
    assert_eq!(stream_url_in_playlist("http://x/list.m3u", "# nothing\nftp://a\n"), None);
    assert!(is_playlist_url("http://x/a.m3u"));
    assert!(is_playlist_url("http://x/a.pls"));
    assert!(!is_playlist_url("http://x/a.mp3"));
}

#[test]
fn daemon_answers_requests() {
    assert_eq!(connection_mode(RequestKind::Subscribe), ConnectionMode::Subscription);
    assert_eq!(connection_mode(RequestKind::Play), ConnectionMode::OneShot);
    assert_eq!(one_shot_reply(RequestKind::GetStatus), OneShotReply::Status);
    assert_eq!(one_shot_reply(RequestKind::Shutdown), OneShotReply::Shutdown);
    assert_eq!(one_shot_reply(RequestKind::SetVolume), OneShotReply::ExecuteThenStatus);
    assert_eq!(one_shot_reply(RequestKind::Subscribe), OneShotReply::Unknown);
    assert_eq!(subscription_step(RequestKind::Pause), SubscriptionStep::ExecuteAndBroadcast);
    assert_eq!(subscription_step(RequestKind::GetStatus), SubscriptionStep::Ignore);
    assert!(player_command(RequestKind::Reload));
    assert!(!player_command(RequestKind::GetStatus));
}

#[test]
fn daemon_exits_only_when_idle_too_long() {
    assert!(is_busy(PlayerState::Loading));
    assert!(!is_busy(PlayerState::Paused));
    assert_eq!(idle_decision(true, 100_000), IdleDecision::MarkActive);
    assert_eq!(idle_decision(false, 1800), IdleDecision::Wait);
    assert_eq!(idle_decision(false, 1801), IdleDecision::Shutdown);
    assert_eq!(media_toggle_command(PlayerState::Playing), RequestKind::Pause);
    assert_eq!(media_toggle_command(PlayerState::Stopped), RequestKind::Resume);
}

#[test]
fn media_keys_walk_the_favorites() {
    let urls = vec!["a".to_string(), "b".to_string(), "c".to_string()];
    assert_eq!(adjacent_favorite_index(&urls, "b", true), Some(2));
    assert_eq!(adjacent_favorite_index(&urls, "c", true), Some(0));
    assert_eq!(adjacent_favorite_index(&urls, "a", false), Some(2));
    assert_eq!(adjacent_favorite_index(&urls, "z", true), Some(0));
    assert_eq!(adjacent_favorite_index(&urls, "z", false), Some(2));
    assert_eq!(adjacent_favorite_index(&Vec::new(), "a", true), None);
}

#[test]
fn client_finds_the_socket_and_retries() {
    let c = PlayerDaemonClient::new("/home/u/.local/share/radm");
    assert_eq!(c.socket_path(), "/home/u/.local/share/radm/.radm-player.sock");
    assert_eq!(join_path_str("/tmp/", "x"), "/tmp/x");
    assert_eq!(join_path_str("", "x"), "x");
    assert_eq!(connect_decision(ConnectPhase::Existing, true, true), ConnectDecision::Use);
    assert_eq!(connect_decision(ConnectPhase::Existing, true, false), ConnectDecision::RestartDaemon);
    assert_eq!(connect_decision(ConnectPhase::Existing, false, false), ConnectDecision::StartDaemon);
    assert_eq!(connect_decision(ConnectPhase::Started(3), false, false), ConnectDecision::Retry(4));
    assert_eq!(connect_decision(ConnectPhase::Started(9), false, false), ConnectDecision::GiveUp);
    assert_eq!(connect_decision(ConnectPhase::Started(9), true, false), ConnectDecision::Use);
}

#[test]
fn playback_follows_commands() {
    let mut p = Playback::new();
    assert!(p.is_stopped());
    assert!(p.reload_target().is_none());
    p.play("Jazz".to_string(), "http://j".to_string());
    assert_eq!(p.state, PlayerState::Loading);
    assert_eq!(p.station_name, "Jazz");
    p.pause();
    assert_eq!(p.state, PlayerState::Loading);
    p.started();
    assert!(p.is_playing());
    p.pause();
    assert_eq!(p.state, PlayerState::Paused);
    assert_eq!(p.sink, SinkState::Paused);
    p.resume();
    assert_eq!(p.state, PlayerState::Playing);
    assert_eq!(p.reload_target(), Some(("Jazz".to_string(), "http://j".to_string())));
    p.failed("boom".to_string());
    assert_eq!(p.error_message, Some("boom".to_string()));
    p.clear_error();
    assert_eq!(p.error_message, None);
    p.stop();
    assert!(p.is_stopped());
    assert_eq!(p.station_url, "");
}

#[test]
fn player_states_travel_as_messages() {
    for s in [PlayerState::Stopped, PlayerState::Playing, PlayerState::Paused, PlayerState::Loading, PlayerState::Error] {
        let d = PlayerStateDto::from(s);
        assert_eq!(PlayerState::from(d), s);
    }
    assert_eq!(get_player_icon(PlayerState::Playing, 5), "\u{25d3}");
    assert_eq!(get_player_icon(PlayerState::Loading, 9), "\u{28fd}");
    assert_eq!(get_player_icon(PlayerState::Error, 0), "\u{274c}");
}

#[test]
fn the_clock_reads_after_the_epoch() {
    assert!(now_nanos() > 1_600_000_000_000_000_000);
}

#[test]
fn messages_are_framed_by_newlines() {
    let json = "{\"Play\":{\"station_name\":\"A\",\"url\":\"u\"}}";
    let framed = frame_message(json);
    assert_eq!(framed, format!("{}\n", json));
    let received = format!("{}{{\"Stop\":null}}\n", framed);
    let (first, rest) = split_frame(&received).unwrap();
    assert_eq!(first, json);
    let (second, tail) = split_frame(&rest).unwrap();
    assert_eq!(second, "{\"Stop\":null}");
    assert_eq!(tail, "");
    assert!(split_frame("{\"partial\"").is_none());
}
