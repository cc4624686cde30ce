use std::cell::RefCell;

use sonix_lyrics::config::Config;
use sonix_lyrics::coordinator::{
    accept_sample, apply_track_update, install_lyrics, manual_refetch, refetch,
};
use sonix_lyrics::lyrics::{LrcLibResult, LyricsData, LyricsError};
use sonix_lyrics::navidrome::{Entry, NavidromeError, NowPlayingWrapper, Timestamp, Track};
use sonix_lyrics::playback::AppState;

fn fresh() -> AppState {
    AppState::new(Config {
        navidrome_url: String::from("http://host"),
        navidrome_user: String::from("u"),
        navidrome_token: String::from("t"),
        navidrome_salt: String::from("s"),
        refresh_interval: 2,
        karaoke_enabled: true,
    })
}

fn sample(title: &str, start: i64) -> Track {
    Track {
        title: String::from(title),
        artist: String::from("Artist"),
        album: String::from("Album"),
        duration: 200,
        played_timestamp: Some(Timestamp { secs: start, nanos: 0 }),
    }
}

fn found() -> Result<Vec<LrcLibResult>, LyricsError> {
    Ok(vec![LrcLibResult {
        track: String::from("t"),
        artist: String::from("a"),
        plain: Some(String::from("la\nla")),
        synced: Some(String::from("[00:01.00]la\n[00:02.00]la")),
    }])
}

#[test]
fn repeat_restart_and_new_song_in_sequence() {
    let fetches = RefCell::new(0u32);
    let request = |_url: &str| -> Result<Vec<LrcLibResult>, LyricsError> {
        *fetches.borrow_mut() += 1;
        found()
    };
    let mut app = fresh();
    apply_track_update(&mut app, sample("A", 1), &request);
    assert_eq!(*fetches.borrow(), 1);
    app.progress_seconds = 42;
    app.progress_ms = 42_500;
    app.current_line = 1;
    app.scroll = 3;

    apply_track_update(&mut app, sample("A", 1), &request);
    assert_eq!(*fetches.borrow(), 1);
    assert_eq!(app.progress_seconds, 42);
    assert_eq!(app.progress_ms, 42_500);
    assert_eq!(app.current_line, 1);
    assert_eq!(app.scroll, 3);

    apply_track_update(&mut app, sample("A", 2), &request);
    assert_eq!(*fetches.borrow(), 1);
    assert_eq!(app.progress_seconds, 0);
    assert_eq!(app.progress_ms, 0);
    assert_eq!(app.current_line, 1);
    assert_eq!(app.scroll, 3);
    assert_eq!(app.start_timestamp_utc, Some(Timestamp { secs: 2, nanos: 0 }));

    app.progress_seconds = 7;
    app.progress_ms = 7_000;
    apply_track_update(&mut app, sample("B", 2), &request);
    assert_eq!(*fetches.borrow(), 2);
    assert_eq!(app.progress_seconds, 0);
    assert_eq!(app.progress_ms, 0);
    assert_eq!(app.current_line, 0);
    assert_eq!(app.scroll, 0);
    assert_eq!(app.status, "Now playing: B");
    assert_eq!(app.track.as_ref().unwrap().title, "B");
}

#[test]
fn same_sample_twice_changes_nothing() {
    let request = |_url: &str| -> Result<Vec<LrcLibResult>, LyricsError> { found() };
    let mut app = fresh();
    apply_track_update(&mut app, sample("A", 1), &request);
    let before = format!("{:?}", app);
    let refuse = |_url: &str| -> Result<Vec<LrcLibResult>, LyricsError> {
        panic!("no lookup is due for a sample that repeats")
    };
    apply_track_update(&mut app, sample("A", 1), &refuse);
    assert_eq!(format!("{:?}", app), before);
}

#[test]
fn first_sample_installs_lyrics() {
    let request = |_url: &str| -> Result<Vec<LrcLibResult>, LyricsError> { found() };
    let mut app = fresh();
    apply_track_update(&mut app, sample("A", 1), &request);
    assert_eq!(app.raw_lyrics, vec!["la", "la"]);
    assert_eq!(app.synced.len(), 2);
    assert_eq!(app.duration_seconds, 200);
    assert_eq!(app.status, "Now playing: A");
}

#[test]
fn artist_change_alone_is_no_new_song() {
    let request = |_url: &str| -> Result<Vec<LrcLibResult>, LyricsError> { found() };
    let mut app = fresh();
    apply_track_update(&mut app, sample("A", 1), &request);
    let mut other = sample("A", 1);
    other.artist = String::from("Somebody Else");
    app.progress_seconds = 9;
    let changed = accept_sample(&mut app, other);
    assert!(!changed);
    assert_eq!(app.progress_seconds, 9);
    assert_eq!(app.track.as_ref().unwrap().artist, "Somebody Else");
}

#[test]
fn failed_lookup_installs_placeholder() {
    let request = |_url: &str| -> Result<Vec<LrcLibResult>, LyricsError> {
        Err(LyricsError::Http(String::from("unreachable")))
    };
    let mut app = fresh();
    app.current_line = 4;
    app.scroll = 2;
    apply_track_update(&mut app, sample("A", 1), &request);
    assert_eq!(app.raw_lyrics, vec!["No lyrics found"]);
    assert!(app.synced.is_empty());
    assert_eq!(app.status, "Lyrics not found (HTTP: unreachable)");
    assert_eq!(app.current_line, 4);
    assert_eq!(app.scroll, 2);
    assert_eq!(app.track.as_ref().unwrap().title, "A");
}

#[test]
fn install_puts_lyrics_and_status_in_place() {
    let mut app = fresh();
    app.current_line = 4;
    app.scroll = 2;
    let data = LyricsData { lines: vec![String::from("x")], synced: Vec::new() };
    install_lyrics(&mut app, "T", Ok(data));
    assert_eq!(app.raw_lyrics, vec!["x"]);
    assert_eq!(app.current_line, 0);
    assert_eq!(app.scroll, 0);
    assert_eq!(app.status, "Now playing: T");
    install_lyrics(&mut app, "T", Err(LyricsError::NotFound));
    assert_eq!(app.raw_lyrics, vec!["No lyrics found"]);
    assert_eq!(app.status, "Lyrics not found (Not found)");
}

#[test]
fn refetch_looks_up_even_when_title_is_the_same() {
    let fetches = RefCell::new(0u32);
    let request = |_url: &str| -> Result<Vec<LrcLibResult>, LyricsError> {
        *fetches.borrow_mut() += 1;
        found()
    };
    let mut app = fresh();
    apply_track_update(&mut app, sample("A", 1), &request);
    app.current_line = 1;
    app.progress_seconds = 5;
    refetch(&mut app, sample("A", 1), &request);
    assert_eq!(*fetches.borrow(), 2);
    assert_eq!(app.current_line, 0);
    assert_eq!(app.progress_seconds, 5);
}

#[test]
fn manual_refetch_asks_server_then_looks_up() {
    let request = |_url: &str| -> Result<Vec<LrcLibResult>, LyricsError> { found() };
    let ask = |url: &str| -> Result<NowPlayingWrapper, NavidromeError> {
        assert_eq!(url, "http://host/rest/getNowPlaying?u=u&t=t&s=s&v=1.16.1&c=sonix&f=json");
        Ok(NowPlayingWrapper {
            status: String::from("ok"),
            now_playing: Some(vec![Entry {
                title: Some(String::from("Z")),
                artist: None,
                album: None,
                duration: Some(90),
                played: None,
            }]),
        })
    };
    let mut app = fresh();
    manual_refetch(&mut app, &ask, &request);
    assert_eq!(app.track.as_ref().unwrap().title, "Z");
    assert_eq!(app.duration_seconds, 90);
    assert_eq!(app.status, "Now playing: Z");

    let nothing = |_url: &str| -> Result<NowPlayingWrapper, NavidromeError> {
        Err(NavidromeError::Http(String::from("down")))
    };
    let before = format!("{:?}", app);
    manual_refetch(&mut app, &nothing, &request);
    assert_eq!(format!("{:?}", app), before);
}
