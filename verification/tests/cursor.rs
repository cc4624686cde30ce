use sonix_lyrics::config::Config;
use sonix_lyrics::lyrics::parse_lrc;
use sonix_lyrics::playback::{
    current_word, find_line, handle_key, update_cursor, AppState, Key, KeyAction,
};

fn state(karaoke: bool, lyrics: &str) -> AppState {
    let mut app = AppState::new(Config {
        navidrome_url: String::new(),
        navidrome_user: String::new(),
        navidrome_token: String::new(),
        navidrome_salt: String::new(),
        refresh_interval: 2,
        karaoke_enabled: karaoke,
    });
    app.synced = parse_lrc(lyrics);
    app
}

fn twelve_lines() -> String {
    let mut text = String::new();
    for i in 0..12 {
        text.push_str(&format!("[00:{:02}.00]line {}\n", i * 10, i));
    }
    text
}

#[test]
fn word_in_progress_on_single_line() {
    let mut app = state(true, "[00:12.50]Hello <00:12.50>Hello <00:13.00>world");
    update_cursor(&mut app, 13200);
    assert_eq!(app.current_line, 0);
    assert_eq!(app.current_word.as_deref(), Some("world"));
}

#[test]
fn word_is_none_without_karaoke() {
    let mut app = state(false, "[00:12.50]<00:12.50>Hello <00:13.00>world");
    app.current_word = Some(String::from("stale"));
    update_cursor(&mut app, 13200);
    assert_eq!(app.current_word, None);
}

#[test]
fn word_is_none_before_first_word() {
    let mut app = state(true, "[00:12.50]<00:12.50>Hello <00:13.00>world");
    app.current_word = Some(String::from("stale"));
    update_cursor(&mut app, 12499);
    assert_eq!(app.current_word, None);
    update_cursor(&mut app, 12500);
    assert_eq!(app.current_word.as_deref(), Some("Hello"));
}

#[test]
fn word_is_sought_across_all_started_lines() {
    let lines = parse_lrc("[00:01.00]<00:01.00>early <00:09.00>late\n[00:05.00]no words here");
    assert_eq!(current_word(&lines, 6000).as_deref(), Some("early"));
    assert_eq!(current_word(&lines, 9000).as_deref(), Some("late"));
    assert_eq!(current_word(&lines, 500), None);
}

#[test]
fn line_in_progress_is_last_started() {
    let lines = parse_lrc(&twelve_lines());
    assert_eq!(find_line(&lines, 0), 0);
    assert_eq!(find_line(&lines, 9_999), 0);
    assert_eq!(find_line(&lines, 10_000), 1);
    assert_eq!(find_line(&lines, 95_000), 9);
    assert_eq!(find_line(&lines, u32::MAX), 11);
    assert_eq!(find_line(&Vec::new(), 5), 0);
    let late = parse_lrc("[00:05.00]a");
    assert_eq!(find_line(&late, 100), 0);
}

#[test]
fn scroll_recentres_only_on_line_change() {
    let mut app = state(false, &twelve_lines());
    update_cursor(&mut app, 25_000);
    assert_eq!(app.current_line, 2);
    assert_eq!(app.scroll, 0);
    update_cursor(&mut app, 95_000);
    assert_eq!(app.current_line, 9);
    assert_eq!(app.scroll, 4);
    assert_eq!(handle_key(&mut app, Key::Up), KeyAction::Continue);
    assert_eq!(app.scroll, 3);
    update_cursor(&mut app, 96_000);
    assert_eq!(app.current_line, 9);
    assert_eq!(app.scroll, 3);
    update_cursor(&mut app, 100_000);
    assert_eq!(app.current_line, 10);
    assert_eq!(app.scroll, 5);
}

#[test]
fn cursor_leaves_line_alone_without_timed_lines() {
    let mut app = state(true, "");
    app.current_line = 7;
    app.scroll = 3;
    update_cursor(&mut app, 1_000);
    assert_eq!(app.current_line, 7);
    assert_eq!(app.scroll, 3);
    assert_eq!(app.current_word, None);
}

#[test]
fn keys_scroll_and_report_actions() {
    let mut app = state(false, "");
    assert_eq!(handle_key(&mut app, Key::Up), KeyAction::Continue);
    assert_eq!(app.scroll, 0);
    assert_eq!(handle_key(&mut app, Key::Down), KeyAction::Continue);
    assert_eq!(handle_key(&mut app, Key::Down), KeyAction::Continue);
    assert_eq!(app.scroll, 2);
    assert_eq!(handle_key(&mut app, Key::Other), KeyAction::Continue);
    assert_eq!(handle_key(&mut app, Key::Quit), KeyAction::Quit);
    assert_eq!(handle_key(&mut app, Key::Refetch), KeyAction::Refetch);
    assert_eq!(app.scroll, 2);
    app.scroll = u16::MAX;
    handle_key(&mut app, Key::Down);
    assert_eq!(app.scroll, u16::MAX);
}
