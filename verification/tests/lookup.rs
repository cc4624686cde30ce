use std::cell::RefCell;

use sonix_lyrics::lyrics::{
    fetch_lyrics, plain_lines, search_url, select_lyrics, strip_tags, LrcLibResult, LyricsError,
};

fn record(plain: Option<&str>, synced: Option<&str>) -> LrcLibResult {
    LrcLibResult {
        track: String::from("My Song"),
        artist: String::from("Artist"),
        plain: plain.map(String::from),
        synced: synced.map(String::from),
    }
}

#[test]
fn search_url_percent_encodes_the_query() {
    assert_eq!(search_url("plain"), "https://lrclib.net/api/search?q=plain");
    assert_eq!(
        search_url("a b&c/\u{e9}~-_.Z9"),
        "https://lrclib.net/api/search?q=a%20b%26c%2F%C3%A9~-_.Z9"
    );
    assert_eq!(search_url(""), "https://lrclib.net/api/search?q=");
}

#[test]
fn lookup_by_title_is_enough_when_it_finds_records() {
    let asked: RefCell<Vec<String>> = RefCell::new(Vec::new());
    let request = |url: &str| -> Result<Vec<LrcLibResult>, LyricsError> {
        asked.borrow_mut().push(url.to_string());
        Ok(vec![record(Some("one\ntwo"), Some("[00:01.00]one")), record(Some("other"), None)])
    };
    let data = fetch_lyrics("Artist", "My Song", &request).unwrap();
    assert_eq!(data.lines, vec![String::from("one"), String::from("two")]);
    assert_eq!(data.synced.len(), 1);
    assert_eq!(data.synced[0].time_ms, 1000);
    assert_eq!(*asked.borrow(), vec![String::from("https://lrclib.net/api/search?q=My%20Song")]);
}

#[test]
fn lookup_retries_with_artist_when_title_finds_nothing() {
    let asked: RefCell<Vec<String>> = RefCell::new(Vec::new());
    let request = |url: &str| -> Result<Vec<LrcLibResult>, LyricsError> {
        asked.borrow_mut().push(url.to_string());
        if url.ends_with("q=Artist%20My%20Song") {
            Ok(vec![record(None, Some("[00:02.00]second try"))])
        } else {
            Ok(Vec::new())
        }
    };
    let data = fetch_lyrics("Artist", "My Song", &request).unwrap();
    assert_eq!(data.lines, vec![String::from("second try")]);
    assert_eq!(data.synced[0].text, "second try");
    assert_eq!(
        *asked.borrow(),
        vec![
            String::from("https://lrclib.net/api/search?q=My%20Song"),
            String::from("https://lrclib.net/api/search?q=Artist%20My%20Song"),
        ]
    );
}

#[test]
fn lookup_retries_with_artist_when_title_fails() {
    let calls = RefCell::new(0u32);
    let request = |_url: &str| -> Result<Vec<LrcLibResult>, LyricsError> {
        *calls.borrow_mut() += 1;
        if *calls.borrow() == 1 {
            Err(LyricsError::Http(String::from("timed out")))
        } else {
            Ok(vec![record(Some("found"), None)])
        }
    };
    let data = fetch_lyrics("Artist", "My Song", &request).unwrap();
    assert_eq!(data.lines, vec![String::from("found")]);
    assert!(data.synced.is_empty());
    assert_eq!(*calls.borrow(), 2);
}

#[test]
fn lookup_is_not_found_when_both_searches_find_nothing() {
    let request = |_url: &str| -> Result<Vec<LrcLibResult>, LyricsError> { Ok(Vec::new()) };
    let err = fetch_lyrics("Artist", "My Song", &request).unwrap_err();
    assert!(matches!(err, LyricsError::NotFound));
    assert_eq!(err.message(), "Not found");
}

#[test]
fn lookup_gives_the_error_of_the_last_search() {
    let calls = RefCell::new(0u32);
    let request = |_url: &str| -> Result<Vec<LrcLibResult>, LyricsError> {
        *calls.borrow_mut() += 1;
        if *calls.borrow() == 1 {
            Err(LyricsError::Http(String::from("first")))
        } else {
            Err(LyricsError::Json(String::from("second")))
        }
    };
    let err = fetch_lyrics("Artist", "My Song", &request).unwrap_err();
    assert!(matches!(err, LyricsError::Json(_)));
    assert_eq!(err.message(), "JSON: second");
    assert_eq!(LyricsError::Http(String::from("down")).message(), "HTTP: down");
}

#[test]
fn record_without_any_text_gives_empty_lyrics() {
    let data = select_lyrics(&vec![record(None, None)]).unwrap();
    assert!(data.lines.is_empty());
    assert!(data.synced.is_empty());
    assert!(matches!(select_lyrics(&Vec::new()), Err(LyricsError::NotFound)));
}

#[test]
fn plain_text_is_split_at_line_ends() {
    assert_eq!(plain_lines("a\nb\r\nc"), vec!["a", "b", "c"]);
    assert_eq!(plain_lines("a\n\nb\n"), vec!["a", "", "b"]);
    assert_eq!(plain_lines("tail\r"), vec!["tail\r"]);
    assert_eq!(plain_lines("\n"), vec![""]);
    assert!(plain_lines("").is_empty());
}

#[test]
fn timed_text_loses_its_leading_tags() {
    assert_eq!(
        strip_tags("[00:01.00] first \n[bad]second\nthird\n[open\nfo]ur"),
        vec!["first", "second", "third", "[open", "fo]ur"]
    );
}
