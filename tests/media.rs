use cosmic_monitor::media::{
    extract_json_number, extract_json_string, is_playing_from_response, now_playing_usable,
    parse_cider_response, seek_body, MediaInfo, MediaMonitor, PlaybackStatus,
};

const REPLY: &str = "{\"status\":\"ok\",\"info\":{\"albumName\":\"Blue\",\"artistName\":\"Joni\",\"artwork\":{\"url\":\"https://img/a.jpg\"},\"durationInMillis\":200000,\"name\":\"River\",\"currentPlaybackTime\": 12.3456 }}";

#[test]
fn reply_fields_are_read_by_key() {
    let info = parse_cider_response(REPLY, true).expect("media");
    assert_eq!(info.player_name, "Cider");
    assert_eq!(info.title, "River");
    assert_eq!(info.artist, "Joni");
    assert_eq!(info.album, "Blue");
    assert_eq!(info.art_url.as_deref(), Some("https://img/a.jpg"));
    assert_eq!(info.duration, 200000);
    assert_eq!(info.position, 12345);
    assert_eq!(info.status, PlaybackStatus::Playing);
    assert!(info.can_play && info.can_pause && info.can_go_next && info.can_go_previous && info.can_seek);
    assert!(info.is_active());
}

#[test]
fn not_playing_reads_as_paused() {
    let info = parse_cider_response(REPLY, false).expect("media");
    assert_eq!(info.status, PlaybackStatus::Paused);
}

#[test]
fn empty_title_is_no_media() {
    let reply = "{\"status\":\"ok\",\"info\":{\"albumName\":\"Blue\",\"artistName\":\"Joni\",\"durationInMillis\":200000,\"name\":\"\",\"currentPlaybackTime\":3}}";
    assert!(parse_cider_response(reply, true).is_none());
    let mut m = MediaMonitor::new(None);
    m.apply_poll(parse_cider_response(reply, true));
    assert!(!m.get_media_info().is_active());
}

#[test]
fn missing_title_is_no_media() {
    let reply = "{\"status\":\"ok\",\"info\":{\"artistName\":\"Joni\"}}";
    assert!(parse_cider_response(reply, true).is_none());
}

#[test]
fn reply_without_ok_status_is_no_media() {
    let reply = "{\"status\":\"error\",\"info\":{\"name\":\"River\"}}";
    assert!(parse_cider_response(reply, true).is_none());
}

#[test]
fn unreadable_numbers_read_as_zero() {
    let reply = "{\"status\":\"ok\",\"name\":\"T\",\"durationInMillis\":\"x\",\"currentPlaybackTime\":-4.5}";
    let info = parse_cider_response(reply, true).expect("media");
    assert_eq!(info.duration, 0);
    assert_eq!(info.position, 0);
    assert_eq!(info.art_url, None);
    assert_eq!(info.artist, "");
}

#[test]
fn extract_string_stops_at_next_quote() {
    assert_eq!(extract_json_string("{\"k\":\"abc\",\"z\":1}", "\"k\":\"").as_deref(), Some("abc"));
    assert_eq!(extract_json_string("{\"k\":\"abc", "\"k\":\""), None);
    assert_eq!(extract_json_string("{}", "\"k\":\""), None);
}

#[test]
fn extract_number_stops_at_delimiter_and_trims() {
    assert_eq!(extract_json_number("{\"n\": 42 ,\"m\":1}", "\"n\":").as_deref(), Some("42"));
    assert_eq!(extract_json_number("[\"n\":7]", "\"n\":").as_deref(), Some("7"));
    assert_eq!(extract_json_number("\"n\":7", "\"n\":"), None);
}

#[test]
fn error_marker_makes_reply_unusable() {
    assert!(now_playing_usable(true, "{\"status\":\"ok\"}"));
    assert!(!now_playing_usable(true, "{\"error\":\"no token\"}"));
    assert!(!now_playing_usable(false, "{\"status\":\"ok\"}"));
}

#[test]
fn is_playing_defaults_to_true_when_unreachable() {
    assert!(is_playing_from_response(false, ""));
    assert!(is_playing_from_response(true, "{\"is_playing\":true}"));
    assert!(!is_playing_from_response(true, "{\"is_playing\":false}"));
}

#[test]
fn positions_format_as_minutes_and_seconds() {
    let mut info = MediaInfo::default();
    info.position = 125_000;
    info.duration = 3_600_999;
    assert_eq!(info.position_str(), "2:05");
    assert_eq!(info.duration_str(), "60:00");
    info.position = 0;
    assert_eq!(info.position_str(), "0:00");
    info.position = 59_999;
    assert_eq!(info.position_str(), "0:59");
}

#[test]
fn default_media_is_inactive_and_stopped() {
    let info = MediaInfo::default();
    assert!(!info.is_active());
    assert_eq!(info.status, PlaybackStatus::Stopped);
    assert_eq!(PlaybackStatus::default(), PlaybackStatus::Stopped);
}

#[test]
fn seek_to_half_of_200000_ms_is_100_seconds() {
    let mut m = MediaMonitor::new(None);
    let mut info = MediaInfo::default();
    info.duration = 200_000;
    info.title = "T".to_string();
    m.apply_poll(Some(info));
    let target = m.seek_to_progress(500_000);
    assert_eq!(target, 100_000);
    assert_eq!(seek_body(target), "{\"position\": 100}");
}

#[test]
fn seek_progress_is_clamped() {
    let mut m = MediaMonitor::new(None);
    let mut info = MediaInfo::default();
    info.duration = 200_000;
    m.apply_poll(Some(info));
    assert_eq!(m.seek_to_progress(-3), 0);
    assert_eq!(m.seek_to_progress(2_000_000), 200_000);
}

#[test]
fn seek_moves_position_only_when_sent() {
    let mut m = MediaMonitor::new(None);
    assert!(m.seek(42_000, true));
    assert_eq!(m.get_media_info().position, 42_000);
    assert!(!m.seek(1_000, false));
    assert_eq!(m.get_media_info().position, 42_000);
}

#[test]
fn play_pause_toggles_when_sent() {
    let mut m = MediaMonitor::new(None);
    m.play_pause(true);
    assert_eq!(m.get_media_info().status, PlaybackStatus::Playing);
    m.play_pause(true);
    assert_eq!(m.get_media_info().status, PlaybackStatus::Paused);
    m.play_pause(false);
    assert_eq!(m.get_media_info().status, PlaybackStatus::Paused);
    m.play_pause(true);
    assert_eq!(m.get_media_info().status, PlaybackStatus::Playing);
}

#[test]
fn next_and_previous_force_playing() {
    let mut m = MediaMonitor::new(None);
    m.next();
    assert_eq!(m.get_media_info().status, PlaybackStatus::Playing);
    m.play_pause(true);
    m.previous();
    assert_eq!(m.get_media_info().status, PlaybackStatus::Playing);
}

#[test]
fn failed_poll_resets_to_no_media() {
    let mut m = MediaMonitor::new(None);
    m.apply_poll(parse_cider_response(REPLY, true));
    assert!(m.get_media_info().is_active());
    m.apply_poll(None);
    let info = m.get_media_info();
    assert!(!info.is_active());
    assert_eq!(info.status, PlaybackStatus::Stopped);
}

#[test]
fn empty_token_counts_as_none() {
    assert_eq!(MediaMonitor::new(Some(String::new())).cider_token(), None);
    let mut m = MediaMonitor::new(Some("abc".to_string()));
    assert_eq!(m.cider_token().as_deref(), Some("abc"));
    m.set_cider_token(None);
    assert_eq!(m.cider_token(), None);
}
