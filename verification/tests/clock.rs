use sonix_lyrics::config::Config;
use sonix_lyrics::navidrome::Timestamp;
use sonix_lyrics::playback::{position, tick, update_clock, AppState};

fn at(secs: i64, nanos: u32) -> Timestamp {
    Timestamp { secs, nanos }
}

fn settings(karaoke: bool) -> Config {
    Config {
        navidrome_url: String::from("http://host"),
        navidrome_user: String::from("user"),
        navidrome_token: String::from("token"),
        navidrome_salt: String::from("salt"),
        refresh_interval: 2,
        karaoke_enabled: karaoke,
    }
}

#[test]
fn position_is_time_since_start() {
    assert_eq!(position(Some(at(100, 0)), at(113, 200_000_000), 300), 13200);
    assert_eq!(position(Some(at(100, 900_000_000)), at(101, 100_000_000), 300), 200);
    assert_eq!(position(Some(at(100, 0)), at(100, 999_999), 300), 0);
    assert_eq!(position(Some(at(100, 0)), at(100, 1_000_000), 300), 1);
}

#[test]
fn position_without_start_is_zero() {
    assert_eq!(position(None, at(5_000, 0), 300), 0);
}

#[test]
fn position_is_clamped_below() {
    assert_eq!(position(Some(at(100, 0)), at(50, 0), 300), 0);
    assert_eq!(position(Some(at(i64::MAX, 0)), at(i64::MIN, 0), 300), 0);
}

#[test]
fn position_is_clamped_above() {
    assert_eq!(position(Some(at(100, 0)), at(100_000, 0), 300), 300_000);
    assert_eq!(position(Some(at(i64::MIN, 0)), at(i64::MAX, u32::MAX), u32::MAX), u32::MAX as u64 * 1000);
    assert_eq!(position(Some(at(100, 0)), at(200, 0), 0), 0);
}

#[test]
fn clock_sets_seconds_within_duration() {
    let mut app = AppState::new(settings(false));
    app.duration_seconds = 10;
    app.start_timestamp_utc = Some(at(1_000, 0));
    update_clock(&mut app, at(1_003, 700_000_000));
    assert_eq!(app.progress_seconds, 3);
    assert_eq!(app.progress_ms, 3700);
    update_clock(&mut app, at(2_000, 0));
    assert_eq!(app.progress_seconds, 10);
    assert_eq!(app.progress_ms, 10_000);
    update_clock(&mut app, at(0, 0));
    assert_eq!(app.progress_seconds, 0);
    assert_eq!(app.progress_ms, 0);
}

#[test]
fn new_state_shows_placeholder() {
    let app = AppState::new(settings(true));
    assert!(app.track.is_none());
    assert_eq!(app.raw_lyrics, vec![String::from("No lyrics loaded")]);
    assert!(app.synced.is_empty());
    assert_eq!(app.current_line, 0);
    assert_eq!(app.scroll, 0);
    assert_eq!(app.current_word, None);
    assert_eq!(app.status, "Press r to refresh \u{b7} q to quit \u{b7} j/k scroll");
}

#[test]
fn tick_reads_clock_then_places_cursor() {
    let mut app = AppState::new(settings(true));
    app.synced = sonix_lyrics::lyrics::parse_lrc(
        "[00:01.00]<00:01.00>one\n[00:02.00]<00:02.00>two\n[00:03.00]<00:03.00>three",
    );
    app.duration_seconds = 60;
    app.start_timestamp_utc = Some(at(500, 0));
    tick(&mut app, at(502, 500_000_000));
    assert_eq!(app.progress_seconds, 2);
    assert_eq!(app.current_line, 1);
    assert_eq!(app.current_word.as_deref(), Some("two"));
}
