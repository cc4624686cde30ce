//! The state on display, the playback clock that places the position within
//! the track, and the cursor that finds the line and the word in progress.

use vstd::prelude::*;
use vstd::string::StringExecFns;
use crate::config::{Config, ConfigView};
use crate::lyrics::{
    lines_view, ordered_by_time, strings_view, words_view, KaraokeWord, LineView, SyncedLine,
    WordView,
};
use crate::navidrome::{Timestamp, Track, TrackView};

verus! {

/// Everything the display shows and the engine keeps between two cycles.
#[derive(Debug)]
pub struct AppState {
    pub config: Config,
    pub track: Option<Track>,
    /// The length of the track in seconds.
    pub duration_seconds: u32,
    /// When the track started to play.
    pub start_timestamp_utc: Option<Timestamp>,
    /// The whole seconds played.
    pub progress_seconds: u32,
    /// The milliseconds played; at most the length of the track.
    pub progress_ms: u64,
    /// The untimed lines.
    pub raw_lyrics: Vec<String>,
    /// The timed lines.
    pub synced: Vec<SyncedLine>,
    /// The index of the line in progress.
    pub current_line: u16,
    /// The first line shown.
    pub scroll: u16,
    /// The word in progress.
    pub current_word: Option<String>,
    pub status: String,
}

/// The state as a mathematical value.
pub struct StateView {
    pub config: ConfigView,
    pub track: Option<TrackView>,
    pub duration_seconds: u32,
    pub start_timestamp_utc: Option<Timestamp>,
    pub progress_seconds: u32,
    pub progress_ms: u64,
    pub raw_lyrics: Seq<Seq<char>>,
    pub synced: Seq<LineView>,
    pub current_line: u16,
    pub scroll: u16,
    pub current_word: Option<Seq<char>>,
    pub status: Seq<char>,
}

/// The value of an optional string.
pub open spec fn text_view(s: Option<String>) -> Option<Seq<char>> {
    match s {
        Some(s) => Some(s@),
        None => None,
    }
}

/// The value of an optional track.
pub open spec fn track_view(t: Option<Track>) -> Option<TrackView> {
    match t {
        Some(t) => Some(t@),
        None => None,
    }
}

impl View for AppState {
    type V = StateView;

    open spec fn view(&self) -> StateView {
        StateView {
            config: self.config@,
            track: track_view(self.track),
            duration_seconds: self.duration_seconds,
            start_timestamp_utc: self.start_timestamp_utc,
            progress_seconds: self.progress_seconds,
            progress_ms: self.progress_ms,
            raw_lyrics: strings_view(self.raw_lyrics@),
            synced: lines_view(self.synced@),
            current_line: self.current_line,
            scroll: self.scroll,
            current_word: text_view(self.current_word),
            status: self.status@,
        }
    }
}

/// The state before any track is known.
pub open spec fn initial_state(config: ConfigView) -> StateView {
    StateView {
        config,
        track: None,
        duration_seconds: 0,
        start_timestamp_utc: None,
        progress_seconds: 0,
        progress_ms: 0,
        raw_lyrics: seq!["No lyrics loaded"@],
        synced: Seq::empty(),
        current_line: 0,
        scroll: 0,
        current_word: None,
        status: "Press r to refresh \u{b7} q to quit \u{b7} j/k scroll"@,
    }
}

impl AppState {
    /// The state before any track is known.
    pub fn new(config: Config) -> (out: Self)
        ensures
            out@ == initial_state(config@),
    {
        let mut raw_lyrics: Vec<String> = Vec::new();
        raw_lyrics.push(String::from_str("No lyrics loaded"));
        let out = AppState {
            config,
            track: None,
            duration_seconds: 0,
            start_timestamp_utc: None,
            progress_seconds: 0,
            progress_ms: 0,
            raw_lyrics,
            synced: Vec::new(),
            current_line: 0,
            scroll: 0,
            current_word: None,
            status: String::from_str("Press r to refresh \u{b7} q to quit \u{b7} j/k scroll"),
        };
        assert(out@.raw_lyrics =~= seq!["No lyrics loaded"@]);
        assert(out@.synced =~= Seq::<LineView>::empty());
        out
    }
}

/// The whole milliseconds from `start` to `now`; negative where `now` is
/// the earlier.
pub open spec fn elapsed_ms(start: Timestamp, now: Timestamp) -> int {
    ((now.secs - start.secs) * 1_000_000_000 + (now.nanos - start.nanos)) / 1_000_000
}

/// The position within the track in milliseconds: the time since the start,
/// held to the span from 0 to the length of the track; 0 where the start is
/// not known.
pub open spec fn position_ms(start: Option<Timestamp>, now: Timestamp, duration_seconds: u32) -> int {
    match start {
        None => 0,
        Some(s) => {
            let e = elapsed_ms(s, now);
            if e < 0 {
                0
            } else if e > duration_seconds * 1000 {
                duration_seconds * 1000
            } else {
                e
            }
        },
    }
}

/// The position within the track in milliseconds.
pub fn position(start: Option<Timestamp>, now: Timestamp, duration_seconds: u32) -> (ms: u64)
    ensures
        ms == position_ms(start, now, duration_seconds),
        0 <= ms / 1000 <= duration_seconds,
        start is None ==> ms == 0,
{
    match start {
        None => 0,
        Some(s) => {
            let secs: i128 = now.secs as i128 - s.secs as i128;
            let nanos: i128 = secs * 1_000_000_000 + (now.nanos as i128 - s.nanos as i128);
            let limit: u64 = duration_seconds as u64 * 1000;
            if nanos <= 0 {
                0
            } else {
                let e: i128 = nanos / 1_000_000;
                if e > limit as i128 {
                    limit
                } else {
                    e as u64
                }
            }
        },
    }
}

/// The position as the cursor takes it: in milliseconds, and the largest
/// number of 32 bits where it is beyond that.
pub open spec fn cursor_ms(ms: u64) -> u32 {
    if ms > u32::MAX {
        u32::MAX
    } else {
        ms as u32
    }
}

/// The index of the last line that has started at `ms`, or 0 where none has.
pub open spec fn last_started(lines: Seq<LineView>, ms: u32) -> int
    decreases lines.len(),
{
    if lines.len() == 0 {
        0
    } else if lines.last().time_ms <= ms {
        lines.len() - 1
    } else {
        last_started(lines.drop_last(), ms)
    }
}

/// The text of the last of `words` that has started at `ms`.
pub open spec fn last_word_started(words: Seq<WordView>, ms: u32) -> Option<Seq<char>>
    decreases words.len(),
{
    if words.len() == 0 {
        None
    } else if words.last().time_ms <= ms {
        Some(words.last().word)
    } else {
        last_word_started(words.drop_last(), ms)
    }
}

/// The word in progress at `ms`: of all lines that have started, in their
/// order, and of all their words that have started, the text of the last.
pub open spec fn word_at(lines: Seq<LineView>, ms: u32) -> Option<Seq<char>>
    decreases lines.len(),
{
    if lines.len() == 0 {
        None
    } else {
        let found = if lines.last().time_ms <= ms {
            last_word_started(lines.last().words, ms)
        } else {
            None
        };
        match found {
            Some(w) => Some(w),
            None => word_at(lines.drop_last(), ms),
        }
    }
}

/// A line index as the state holds it: in 16 bits, so that an index of
/// 65536 or more starts again from 0.
pub open spec fn line_number(index: int) -> u16 {
    (index % 65536) as u16
}

/// The first line shown once `line` has come into progress: five lines
/// above it, or the first line.
pub open spec fn recentred(line: u16) -> u16 {
    if line < 5 {
        0
    } else {
        (line - 5) as u16
    }
}

/// The state after the cursor has been placed at `ms`. The word in progress
/// is found anew, or is none where karaoke is off. Where there are timed
/// lines, the line in progress is the last that has started, and the view is
/// recentred only if that line is another than before.
pub open spec fn cursor_at(s: StateView, ms: u32) -> StateView {
    let line = if s.synced.len() > 0 {
        line_number(last_started(s.synced, ms))
    } else {
        s.current_line
    };
    StateView {
        current_word: if s.config.karaoke_enabled {
            word_at(s.synced, ms)
        } else {
            None
        },
        current_line: line,
        scroll: if line != s.current_line {
            recentred(line)
        } else {
            s.scroll
        },
        ..s
    }
}

/// The state after the clock has been read at `now`.
pub open spec fn clock_at(s: StateView, now: Timestamp) -> StateView {
    let ms = position_ms(s.start_timestamp_utc, now, s.duration_seconds);
    StateView { progress_seconds: (ms / 1000) as u32, progress_ms: ms as u64, ..s }
}

/// The index of the last line that has started at `ms`, or 0.
pub fn find_line(lines: &Vec<SyncedLine>, ms: u32) -> (at: usize)
    ensures
        at == last_started(lines_view(lines@), ms),
        lines@.len() > 0 ==> at < lines@.len(),
{
    let ghost all = lines_view(lines@);
    let mut i: usize = lines.len();
    assert(all.take(i as int) =~= all);
    while i > 0
        invariant
            i <= lines@.len(),
            all == lines_view(lines@),
            last_started(all.take(i as int), ms) == last_started(all, ms),
        decreases i,
    {
        if lines[i - 1].time_ms <= ms {
            return i - 1;
        }
        assert(all.take(i as int).drop_last() =~= all.take(i - 1));
        i -= 1;
    }
    0
}

/// The index of the last of `words` that has started at `ms`.
pub fn find_word(words: &Vec<KaraokeWord>, ms: u32) -> (at: Option<usize>)
    ensures
        match at {
            Some(i) => i < words@.len() && last_word_started(words_view(words@), ms) == Some(
                words@[i as int].word@,
            ),
            None => last_word_started(words_view(words@), ms) is None,
        },
{
    let ghost all = words_view(words@);
    let mut i: usize = words.len();
    assert(all.take(i as int) =~= all);
    while i > 0
        invariant
            i <= words@.len(),
            all == words_view(words@),
            last_word_started(all.take(i as int), ms) == last_word_started(all, ms),
        decreases i,
    {
        if words[i - 1].time_ms <= ms {
            return Some(i - 1);
        }
        assert(all.take(i as int).drop_last() =~= all.take(i - 1));
        i -= 1;
    }
    None
}

/// The word in progress at `ms`.
pub fn current_word(lines: &Vec<SyncedLine>, ms: u32) -> (out: Option<String>)
    ensures
        text_view(out) == word_at(lines_view(lines@), ms),
{
    let ghost all = lines_view(lines@);
    let mut i: usize = lines.len();
    assert(all.take(i as int) =~= all);
    while i > 0
        invariant
            i <= lines@.len(),
            all == lines_view(lines@),
            word_at(all.take(i as int), ms) == word_at(all, ms),
        decreases i,
    {
        let line = &lines[i - 1];
        assert(all.take(i as int).last() == line@);
        assert(all.take(i as int).drop_last() =~= all.take(i - 1));
        if line.time_ms <= ms {
            match find_word(&line.words, ms) {
                Some(j) => {
                    return Some(line.words[j].word.clone());
                },
                None => {},
            }
        }
        i -= 1;
    }
    None
}

/// Places the cursor at `ms`: finds the word and the line in progress, and
/// recentres the view where the line has changed.
pub fn update_cursor(app: &mut AppState, ms: u32)
    ensures
        final(app)@ == cursor_at(old(app)@, ms),
{
    app.current_word = if app.config.karaoke_enabled {
        current_word(&app.synced, ms)
    } else {
        None
    };
    if app.synced.len() > 0 {
        let at = find_line(&app.synced, ms);
        let line: u16 = (at % 65536) as u16;
        if line != app.current_line {
            app.current_line = line;
            app.scroll = if line < 5 {
                0
            } else {
                line - 5
            };
        }
    }
}

/// Reads the clock at `now`: sets the time played, held to the span from 0
/// to the length of the track.
pub fn update_clock(app: &mut AppState, now: Timestamp)
    ensures
        final(app)@ == clock_at(old(app)@, now),
        final(app).progress_seconds <= final(app).duration_seconds,
        final(app).progress_ms <= final(app).duration_seconds * 1000,
{
    let ms = position(app.start_timestamp_utc, now, app.duration_seconds);
    app.progress_ms = ms;
    app.progress_seconds = (ms / 1000) as u32;
}

/// One cycle of the engine: reads the clock at `now`, then places the cursor
/// at the position read.
pub fn tick(app: &mut AppState, now: Timestamp)
    ensures
        final(app)@ == cursor_at(
            clock_at(old(app)@, now),
            cursor_ms(clock_at(old(app)@, now).progress_ms),
        ),
        final(app).progress_seconds <= final(app).duration_seconds,
{
    update_clock(app, now);
    let ms: u32 = if app.progress_ms > 4294967295 {
        4294967295
    } else {
        app.progress_ms as u32
    };
    update_cursor(app, ms);
}

/// A key as the engine takes it while lyrics are shown.
#[derive(Debug, Clone, Copy, PartialEq, Eq, Structural)]
pub enum Key {
    /// `q`
    Quit,
    /// `r`
    Refetch,
    /// `j` or the down arrow
    Down,
    /// `k` or the up arrow
    Up,
    Other,
}

/// What the program does after a key.
#[derive(Debug, Clone, Copy, PartialEq, Eq, Structural)]
pub enum KeyAction {
    /// Go on with the next cycle.
    Continue,
    /// Ask the server what is playing and look its lyrics up again.
    Refetch,
    /// End the program.
    Quit,
}

/// The state after a key: the down key shows one line further down, the up
/// key one line further up, as far as the first line. No other key changes
/// the state.
pub open spec fn key_pressed(s: StateView, key: Key) -> StateView {
    match key {
        Key::Down => StateView {
            scroll: if s.scroll < u16::MAX {
                (s.scroll + 1) as u16
            } else {
                s.scroll
            },
            ..s
        },
        Key::Up => StateView {
            scroll: if s.scroll > 0 {
                (s.scroll - 1) as u16
            } else {
                0
            },
            ..s
        },
        _ => s,
    }
}

/// What the program does after a key.
pub open spec fn action_of(key: Key) -> KeyAction {
    match key {
        Key::Quit => KeyAction::Quit,
        Key::Refetch => KeyAction::Refetch,
        _ => KeyAction::Continue,
    }
}

/// Takes a key: scrolls where the key asks for it, and says what the
/// program does next.
pub fn handle_key(app: &mut AppState, key: Key) -> (action: KeyAction)
    ensures
        final(app)@ == key_pressed(old(app)@, key),
        action == action_of(key),
{
    match key {
        Key::Quit => KeyAction::Quit,
        Key::Refetch => KeyAction::Refetch,
        Key::Down => {
            if app.scroll < u16::MAX {
                app.scroll += 1;
            }
            KeyAction::Continue
        },
        Key::Up => {
            if app.scroll > 0 {
                app.scroll -= 1;
            }
            KeyAction::Continue
        },
        Key::Other => KeyAction::Continue,
    }
}

/// Whatever the clocks say, the position lies within the track: the time
/// played is never negative and never more than the length of the track.
pub proof fn lemma_position_within_track(
    start: Option<Timestamp>,
    now: Timestamp,
    duration_seconds: u32,
)
    ensures
        0 <= position_ms(start, now, duration_seconds) <= duration_seconds * 1000,
        0 <= position_ms(start, now, duration_seconds) / 1000 <= duration_seconds,
        start is None ==> position_ms(start, now, duration_seconds) == 0,
{
}

/// Among lines in order of time, the last line that has started divides
/// them: it and every line before it have started, and no line after it
/// has. Where no line has started, the index is 0.
pub proof fn lemma_last_started_divides(lines: Seq<LineView>, ms: u32)
    requires
        ordered_by_time(lines),
    ensures
        lines.len() > 0 ==> 0 <= last_started(lines, ms) < lines.len(),
        forall|i: int|
            last_started(lines, ms) < i < lines.len() ==> (#[trigger] lines[i]).time_ms > ms,
        lines.len() > 0 && lines[last_started(lines, ms)].time_ms <= ms ==> forall|i: int|
            0 <= i <= last_started(lines, ms) ==> (#[trigger] lines[i]).time_ms <= ms,
        (forall|i: int| 0 <= i < lines.len() ==> (#[trigger] lines[i]).time_ms > ms)
            ==> last_started(lines, ms) == 0,
    decreases lines.len(),
{
    if lines.len() > 0 && lines.last().time_ms > ms {
        let front = lines.drop_last();
        assert(ordered_by_time(front)) by {
            assert forall|i: int, j: int| 0 <= i < j < front.len() implies front[i].time_ms
                <= front[j].time_ms by {
                assert(front[i] == lines[i] && front[j] == lines[j]);
            }
        }
        lemma_last_started_divides(front, ms);
        assert forall|i: int| last_started(lines, ms) < i < lines.len() implies (
        #[trigger] lines[i]).time_ms > ms by {
            if i < front.len() {
                assert(front[i] == lines[i]);
            }
        }
        if front.len() > 0 {
            assert(front[last_started(front, ms)] == lines[last_started(front, ms)]);
        }
    }
}

/// The view follows the line in progress only when that line changes: it
/// is then five lines above the new line, or at the first line; while the
/// line stays, the view stays where it was put.
pub proof fn lemma_scroll_follows_line_change(s: StateView, ms: u32)
    ensures
        cursor_at(s, ms).current_line != s.current_line ==> cursor_at(s, ms).scroll == if cursor_at(
            s,
            ms,
        ).current_line >= 5 {
            cursor_at(s, ms).current_line - 5
        } else {
            0
        },
        cursor_at(s, ms).current_line == s.current_line ==> cursor_at(s, ms).scroll == s.scroll,
        s.synced.len() == 0 ==> cursor_at(s, ms).current_line == s.current_line,
{
}

} // verus!
