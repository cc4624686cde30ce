use sonix_lyrics::config::Config;
use sonix_lyrics::navidrome::{
    get_current_track, now_playing_url, track_from_response, Entry, NavidromeError,
    NowPlayingWrapper, Timestamp,
};

fn settings() -> Config {
    Config {
        navidrome_url: String::from("https://music.example"),
        navidrome_user: String::from("ann"),
        navidrome_token: String::from("0123abcd"),
        navidrome_salt: String::from("qwertyuiopas"),
        refresh_interval: 2,
        karaoke_enabled: false,
    }
}

fn entry(played: Option<&str>) -> Entry {
    Entry {
        title: Some(String::from("Song")),
        artist: Some(String::from("Band")),
        album: Some(String::from("Record")),
        duration: Some(245),
        played: played.map(String::from),
    }
}

fn answer(status: &str, entries: Option<Vec<Entry>>) -> NowPlayingWrapper {
    NowPlayingWrapper { status: String::from(status), now_playing: entries }
}

#[test]
fn url_names_account_and_client() {
    assert_eq!(
        now_playing_url(&settings()),
        "https://music.example/rest/getNowPlaying?u=ann&t=0123abcd&s=qwertyuiopas&v=1.16.1&c=sonix&f=json"
    );
}

#[test]
fn first_entry_is_the_track() {
    let track = track_from_response(&answer(
        "ok",
        Some(vec![entry(Some("2024-01-02T03:04:05.5Z")), entry(None)]),
    ))
    .unwrap();
    assert_eq!(track.title, "Song");
    assert_eq!(track.artist, "Band");
    assert_eq!(track.album, "Record");
    assert_eq!(track.duration, 245);
    assert_eq!(track.played_timestamp, Some(Timestamp { secs: 1_704_164_645, nanos: 500_000_000 }));
}

#[test]
fn start_is_the_same_instant_in_any_zone() {
    let a = track_from_response(&answer("ok", Some(vec![entry(Some("2024-01-02T04:04:05+01:00"))])))
        .unwrap();
    let b = track_from_response(&answer("ok", Some(vec![entry(Some("2024-01-02T03:04:05Z"))])))
        .unwrap();
    assert_eq!(a.played_timestamp, b.played_timestamp);
    assert_eq!(a.played_timestamp, Some(Timestamp { secs: 1_704_164_645, nanos: 0 }));
}

#[test]
fn unreadable_start_is_left_out() {
    let track = track_from_response(&answer("ok", Some(vec![entry(Some("yesterday"))]))).unwrap();
    assert_eq!(track.played_timestamp, None);
    let track = track_from_response(&answer("ok", Some(vec![entry(None)]))).unwrap();
    assert_eq!(track.played_timestamp, None);
}

#[test]
fn missing_fields_are_empty() {
    let bare = Entry { title: None, artist: None, album: None, duration: None, played: None };
    let track = track_from_response(&answer("ok", Some(vec![bare]))).unwrap();
    assert_eq!(track.title, "");
    assert_eq!(track.artist, "");
    assert_eq!(track.album, "");
    assert_eq!(track.duration, 0);
}

#[test]
fn status_other_than_ok_is_invalid() {
    let err = track_from_response(&answer("failed", Some(vec![entry(None)]))).unwrap_err();
    assert!(matches!(err, NavidromeError::InvalidResponse));
    assert_eq!(err.message(), "Invalid response");
    assert!(matches!(
        track_from_response(&answer("OK", Some(vec![entry(None)]))),
        Err(NavidromeError::InvalidResponse)
    ));
}

#[test]
fn no_list_or_empty_list_means_no_track() {
    let err = track_from_response(&answer("ok", None)).unwrap_err();
    assert!(matches!(err, NavidromeError::NoTrack));
    assert_eq!(err.message(), "No song playing");
    assert!(matches!(
        track_from_response(&answer("ok", Some(Vec::new()))),
        Err(NavidromeError::NoTrack)
    ));
}

#[test]
fn request_error_is_handed_on() {
    let request = |_url: &str| -> Result<NowPlayingWrapper, NavidromeError> {
        Err(NavidromeError::Http(String::from("refused")))
    };
    let err = get_current_track(&settings(), &request).unwrap_err();
    assert_eq!(err.message(), "HTTP: refused");
}

#[test]
fn request_gets_the_settings_address() {
    let request = |url: &str| -> Result<NowPlayingWrapper, NavidromeError> {
        assert!(url.starts_with("https://music.example/rest/getNowPlaying?u=ann&"));
        Ok(answer("ok", Some(vec![entry(None)])))
    };
    let track = get_current_track(&settings(), &request).unwrap();
    assert_eq!(track.title, "Song");
}
