use sonix_lyrics::lyrics::{parse_karaoke_words, parse_lrc};
use sonix_lyrics::timestamp::parse_ts;

#[test]
fn timestamp_with_two_fraction_digits() {
    assert_eq!(parse_ts("00:12.50"), Some(12500));
    assert_eq!(parse_ts("3:07.25"), Some(3 * 60000 + 7250));
}

#[test]
fn timestamp_rounds_to_nearest_millisecond() {
    assert_eq!(parse_ts("0:1.2344"), Some(1234));
    assert_eq!(parse_ts("0:1.2345"), Some(1235));
    assert_eq!(parse_ts("0:1.9995"), Some(2000));
}

#[test]
fn timestamp_rejects_non_numeric_fields() {
    assert_eq!(parse_ts("bad"), None);
    assert_eq!(parse_ts("a:10"), None);
    assert_eq!(parse_ts("1:xx"), None);
    assert_eq!(parse_ts(":10"), None);
    assert_eq!(parse_ts("1:"), None);
    assert_eq!(parse_ts("1:."), None);
}

#[test]
fn timestamp_too_large_is_rejected() {
    assert_eq!(parse_ts("71582:47.295"), Some(u32::MAX));
    assert_eq!(parse_ts("71582:47.296"), None);
    assert_eq!(parse_ts("99999999:00"), None);
}

#[test]
fn line_with_karaoke_words() {
    let lines = parse_lrc("[00:12.50]Hello <00:12.50>Hello <00:13.00>world");
    assert_eq!(lines.len(), 1);
    assert_eq!(lines[0].time_ms, 12500);
    assert_eq!(lines[0].text, "Hello world");
    assert_eq!(lines[0].words.len(), 2);
    assert_eq!(lines[0].words[0].time_ms, 12500);
    assert_eq!(lines[0].words[0].word, "Hello");
    assert_eq!(lines[0].words[1].time_ms, 13000);
    assert_eq!(lines[0].words[1].word, "world");
}

#[test]
fn malformed_line_is_dropped() {
    let lines = parse_lrc("[bad]text\n[00:01.00]fine");
    assert_eq!(lines.len(), 1);
    assert_eq!(lines[0].time_ms, 1000);
    assert_eq!(lines[0].text, "fine");
    assert!(lines[0].words.is_empty());
}

#[test]
fn lines_come_out_in_order_of_time() {
    let lines = parse_lrc("[00:05.00]c\r\n[00:01.00]a\r\n[00:05.00]d\n[00:03.00]b\nno tag\n[00:09.00");
    let got: Vec<(u32, &str)> = lines.iter().map(|l| (l.time_ms, l.text.as_str())).collect();
    assert_eq!(got, vec![(1000, "a"), (3000, "b"), (5000, "c"), (5000, "d")]);
}

#[test]
fn unclosed_word_tag_ends_the_scan() {
    let words = parse_karaoke_words("<00:01.00>one <00:02.00>two <00:03.00");
    assert_eq!(words.len(), 2);
    assert_eq!(words[1].word, "two");
}

#[test]
fn malformed_word_tag_is_passed_over() {
    let words = parse_karaoke_words("<oops>one <00:02.00> two  <00:03.00>   <00:04.00>four");
    let got: Vec<(u32, &str)> = words.iter().map(|w| (w.time_ms, w.word.as_str())).collect();
    assert_eq!(got, vec![(2000, "two"), (4000, "four")]);
}

#[test]
fn empty_text_gives_no_lines() {
    assert!(parse_lrc("").is_empty());
    assert!(parse_karaoke_words("").is_empty());
}

#[test]
fn token_without_colon_is_rejected() {
    assert_eq!(parse_ts("1250"), None);
    assert_eq!(parse_ts(""), None);
}

#[test]
fn token_fields_after_second_colon_are_ignored() {
    assert_eq!(parse_ts("1:02:03"), Some(62000));
}

#[test]
fn seconds_may_lack_whole_or_fraction_digits() {
    assert_eq!(parse_ts("0:.5"), Some(500));
    assert_eq!(parse_ts("0:7."), Some(7000));
    assert_eq!(parse_ts("2:75"), Some(2 * 60000 + 75000));
}

#[test]
fn line_without_words_keeps_its_body() {
    let lines = parse_lrc("[01:00]   plain body   ");
    assert_eq!(lines.len(), 1);
    assert_eq!(lines[0].time_ms, 60000);
    assert_eq!(lines[0].text, "plain body");
}

#[test]
fn parsing_never_fails_on_odd_input() {
    for text in ["[", "]", "[]", "[:]", "<", "[00:01]<", "[00:01]<>", "\r\n\r\n", "[0:0]\u{3000}"] {
        let lines = parse_lrc(text);
        for pair in lines.windows(2) {
            assert!(pair[0].time_ms <= pair[1].time_ms);
        }
    }
    assert_eq!(parse_lrc("[0:0]\u{3000}")[0].text, "");
}
