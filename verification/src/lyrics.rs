//! Timed lyrics: the data model, and the parser that turns timestamped lyric
//! text into lines ordered by time, each with its karaoke words.

use vstd::prelude::*;
use vstd::seq_lib::{to_multiset_build, to_multiset_insert};
use vstd::string::StringExecFns;
use vstd::utf8::encode_utf8;
use crate::text::{
    chars_of, find_from, lemma_next_index_bounds, lines_of, next_index, slice_of, split_lines,
    string_of, trim, trimmed,
};
use crate::timestamp::{parse_ts_chars, timestamp_ms};

verus! {

/// One word of a line with the time at which it starts.
#[derive(Debug)]
pub struct KaraokeWord {
    pub time_ms: u32,
    pub word: String,
}

/// A karaoke word as a mathematical value.
pub struct WordView {
    pub time_ms: u32,
    pub word: Seq<char>,
}

/// One line of lyrics with the time at which it starts and its karaoke
/// words, in the order in which they stand in the line.
#[derive(Debug)]
pub struct SyncedLine {
    pub time_ms: u32,
    pub text: String,
    pub words: Vec<KaraokeWord>,
}

/// A timed line as a mathematical value.
pub struct LineView {
    pub time_ms: u32,
    pub text: Seq<char>,
    pub words: Seq<WordView>,
}

/// The lyrics of one track: the untimed lines, and the timed lines ordered by
/// time. Either may be empty.
#[derive(Debug)]
pub struct LyricsData {
    pub lines: Vec<String>,
    pub synced: Vec<SyncedLine>,
}

/// Lyrics as a mathematical value.
pub struct LyricsView {
    pub lines: Seq<Seq<char>>,
    pub synced: Seq<LineView>,
}

impl View for KaraokeWord {
    type V = WordView;

    open spec fn view(&self) -> WordView {
        WordView { time_ms: self.time_ms, word: self.word@ }
    }
}

/// The values of a sequence of karaoke words.
pub open spec fn words_view(words: Seq<KaraokeWord>) -> Seq<WordView> {
    words.map_values(|w: KaraokeWord| w@)
}

impl View for SyncedLine {
    type V = LineView;

    open spec fn view(&self) -> LineView {
        LineView { time_ms: self.time_ms, text: self.text@, words: words_view(self.words@) }
    }
}

/// The values of a sequence of timed lines.
pub open spec fn lines_view(lines: Seq<SyncedLine>) -> Seq<LineView> {
    lines.map_values(|l: SyncedLine| l@)
}

/// The values of a sequence of strings.
pub open spec fn strings_view(strings: Seq<String>) -> Seq<Seq<char>> {
    strings.map_values(|s: String| s@)
}

impl View for LyricsData {
    type V = LyricsView;

    open spec fn view(&self) -> LyricsView {
        LyricsView { lines: strings_view(self.lines@), synced: lines_view(self.synced@) }
    }
}

/// Whether the lines are in non-decreasing order of time.
pub open spec fn ordered_by_time(lines: Seq<LineView>) -> bool {
    forall|i: int, j: int| 0 <= i < j < lines.len() ==> lines[i].time_ms <= lines[j].time_ms
}

/// The karaoke words of a line body from position `i` on. A word tag is a
/// timestamp between `<` and the next `>`; the word is the text from the tag
/// to the next `<` or the end of the body, trimmed. A tag that is not closed
/// ends the scan; a tag that holds no timestamp is passed over; a word that
/// is empty after trimming is left out.
pub open spec fn words_from(body: Seq<char>, i: int) -> Seq<WordView>
    decreases body.len() - i,
{
    if i < 0 || i >= body.len() {
        Seq::empty()
    } else if body[i] != '<' {
        words_from(body, i + 1)
    } else {
        let close = next_index(body, '>', i + 1);
        if close >= body.len() {
            Seq::empty()
        } else {
            let next = next_index(body, '<', close + 1);
            proof {
                lemma_next_index_bounds(body, '>', i + 1);
                lemma_next_index_bounds(body, '<', close + 1);
            }
            match timestamp_ms(body.subrange(i + 1, close)) {
                None => words_from(body, close + 1),
                Some(t) => {
                    let word = trimmed(body.subrange(close + 1, next));
                    if word.len() > 0 {
                        seq![WordView { time_ms: t, word }] + words_from(body, next)
                    } else {
                        words_from(body, next)
                    }
                },
            }
        }
    }
}

/// The karaoke words of a line body.
pub open spec fn words_of(body: Seq<char>) -> Seq<WordView> {
    words_from(body, 0)
}

/// The texts of the words, joined by single spaces.
pub open spec fn joined(words: Seq<WordView>) -> Seq<char>
    decreases words.len(),
{
    if words.len() == 0 {
        Seq::empty()
    } else if words.len() == 1 {
        words[0].word
    } else {
        joined(words.drop_last()) + seq![' '] + words.last().word
    }
}

/// The body of a timed line: what follows the first `]`, trimmed.
pub open spec fn line_body(line: Seq<char>) -> Seq<char> {
    trimmed(line.subrange(next_index(line, ']', 0) + 1, line.len() as int))
}

/// The timed line that a line of text stands for, if any. The line must
/// start with `[`, hold a `]`, and have a timestamp between the two. The
/// text of the timed line is its karaoke words joined by single spaces, or
/// the whole body where it has no karaoke words.
pub open spec fn line_entry(line: Seq<char>) -> Option<LineView> {
    let close = next_index(line, ']', 0);
    if line.len() == 0 || line[0] != '[' || close >= line.len() {
        None
    } else {
        match timestamp_ms(line.subrange(1, close)) {
            None => None,
            Some(t) => {
                let body = line_body(line);
                let words = words_of(body);
                Some(
                    LineView {
                        time_ms: t,
                        text: if words.len() > 0 {
                            joined(words)
                        } else {
                            body
                        },
                        words,
                    },
                )
            },
        }
    }
}

/// The timed lines that the lines of text stand for, in the order of the
/// text. Lines that stand for none are left out.
pub open spec fn entries_of(lines: Seq<Seq<char>>) -> Seq<LineView>
    decreases lines.len(),
{
    if lines.len() == 0 {
        Seq::empty()
    } else {
        match line_entry(lines.last()) {
            Some(e) => entries_of(lines.drop_last()).push(e),
            None => entries_of(lines.drop_last()),
        }
    }
}

/// Where a line with time `t` goes into `lines`: behind every line at the
/// end of `lines` that is not later than `t`.
pub open spec fn insert_position(lines: Seq<LineView>, t: u32) -> int
    decreases lines.len(),
{
    if lines.len() > 0 && lines.last().time_ms > t {
        insert_position(lines.drop_last(), t)
    } else {
        lines.len() as int
    }
}

/// The lines in order of time, lines of equal time in the order they came in.
pub open spec fn sorted_by_time(lines: Seq<LineView>) -> Seq<LineView>
    decreases lines.len(),
{
    if lines.len() == 0 {
        Seq::empty()
    } else {
        let front = sorted_by_time(lines.drop_last());
        front.insert(insert_position(front, lines.last().time_ms), lines.last())
    }
}

/// The timed lines of a lyrics text, ordered by time.
pub open spec fn timed_lines(text: Seq<char>) -> Seq<LineView> {
    sorted_by_time(entries_of(lines_of(text)))
}

/// The insert position lies within the lines; every line from it on is later
/// than `t`, and the line before it is not.
pub proof fn lemma_insert_position(lines: Seq<LineView>, t: u32)
    ensures
        0 <= insert_position(lines, t) <= lines.len(),
        forall|i: int| insert_position(lines, t) <= i < lines.len() ==> lines[i].time_ms > t,
        insert_position(lines, t) > 0 ==> lines[insert_position(lines, t) - 1].time_ms <= t,
    decreases lines.len(),
{
    if lines.len() > 0 && lines.last().time_ms > t {
        let front = lines.drop_last();
        lemma_insert_position(front, t);
        assert forall|i: int| insert_position(lines, t) <= i < lines.len() implies lines[i].time_ms
            > t by {
            if i < front.len() {
                assert(front[i] == lines[i]);
            }
        }
    }
}

/// Sorting keeps the number of lines, and its result is in order of time.
pub proof fn lemma_sorted_by_time(lines: Seq<LineView>)
    ensures
        sorted_by_time(lines).len() == lines.len(),
        ordered_by_time(sorted_by_time(lines)),
    decreases lines.len(),
{
    if lines.len() > 0 {
        let front = sorted_by_time(lines.drop_last());
        let t = lines.last().time_ms;
        let at = insert_position(front, t);
        lemma_sorted_by_time(lines.drop_last());
        lemma_insert_position(front, t);
        let all = front.insert(at, lines.last());
        assert forall|i: int, j: int| 0 <= i < j < all.len() implies all[i].time_ms
            <= all[j].time_ms by {
            if i < at && j > at {
                assert(front[i].time_ms <= front[at - 1].time_ms);
            }
        }
    }
}

/// The lines of `lines` that start at `t`, in their order.
pub open spec fn lines_at(lines: Seq<LineView>, t: u32) -> Seq<LineView> {
    lines.filter(|l: LineView| l.time_ms == t)
}

/// Sorting neither adds nor loses a line.
pub proof fn lemma_sorted_keeps_lines(lines: Seq<LineView>)
    ensures
        sorted_by_time(lines).to_multiset() == lines.to_multiset(),
    decreases lines.len(),
{
    if lines.len() > 0 {
        let front = sorted_by_time(lines.drop_last());
        lemma_sorted_keeps_lines(lines.drop_last());
        lemma_insert_position(front, lines.last().time_ms);
        to_multiset_insert(front, insert_position(front, lines.last().time_ms), lines.last());
        to_multiset_build(lines.drop_last(), lines.last());
        assert(lines.drop_last().push(lines.last()) =~= lines);
    } else {
        assert(lines =~= Seq::<LineView>::empty());
    }
}

/// Sorting is stable: the lines that start at one time keep the order that
/// they had.
pub proof fn lemma_sorted_is_stable(lines: Seq<LineView>, t: u32)
    ensures
        lines_at(sorted_by_time(lines), t) == lines_at(lines, t),
    decreases lines.len(),
{
    if lines.len() > 0 {
        let pred = |l: LineView| l.time_ms == t;
        let rest = lines.drop_last();
        let last = lines.last();
        let front = sorted_by_time(rest);
        let at = insert_position(front, last.time_ms);
        lemma_sorted_is_stable(rest, t);
        lemma_insert_position(front, last.time_ms);
        let head = front.take(at);
        let tail = front.skip(at);
        assert(front.insert(at, last) =~= head + seq![last] + tail);
        assert(front =~= head + tail);
        Seq::filter_distributes_over_add(head + seq![last], tail, pred);
        Seq::filter_distributes_over_add(head, seq![last], pred);
        Seq::filter_distributes_over_add(head, tail, pred);
        assert(seq![last] =~= Seq::<LineView>::empty().push(last));
        Seq::<LineView>::empty().lemma_filter_push(last, pred);
        assert(Seq::<LineView>::empty().filter(pred) =~= Seq::<LineView>::empty()) by {
            reveal(Seq::filter);
        }
        rest.lemma_filter_push(last, pred);
        assert(rest.push(last) =~= lines);
        if last.time_ms == t {
            assert(tail.all(|x: LineView| !pred(x))) by {
                assert forall|i: int| 0 <= i < tail.len() implies !pred(#[trigger] tail[i]) by {
                    assert(tail[i] == front[at + i]);
                }
            }
            tail.lemma_all_neg_filter_empty(pred);
            assert(tail.filter(pred) =~= Seq::<LineView>::empty());
            assert(head.filter(pred) + seq![last] + Seq::<LineView>::empty() =~= (head.filter(pred)
                + Seq::<LineView>::empty()).push(last));
        } else {
            assert(head.filter(pred) + Seq::<LineView>::empty() + tail.filter(pred)
                =~= head.filter(pred) + tail.filter(pred));
        }
    }
}

impl Clone for KaraokeWord {
    fn clone(&self) -> (out: Self)
        ensures
            out@ == self@,
    {
        KaraokeWord { time_ms: self.time_ms, word: self.word.clone() }
    }
}

/// A copy of the words.
pub fn clone_words(words: &Vec<KaraokeWord>) -> (out: Vec<KaraokeWord>)
    ensures
        words_view(out@) == words_view(words@),
{
    let mut out: Vec<KaraokeWord> = Vec::new();
    let mut i: usize = 0;
    while i < words.len()
        invariant
            i <= words@.len(),
            out@.len() == i,
            forall|k: int| 0 <= k < i ==> (#[trigger] out@[k])@ == words@[k]@,
        decreases words@.len() - i,
    {
        out.push(words[i].clone());
        i += 1;
    }
    assert(words_view(out@) =~= words_view(words@));
    out
}

impl Clone for SyncedLine {
    fn clone(&self) -> (out: Self)
        ensures
            out@ == self@,
    {
        SyncedLine {
            time_ms: self.time_ms,
            text: self.text.clone(),
            words: clone_words(&self.words),
        }
    }
}

/// A copy of the lines.
pub fn clone_lines(lines: &Vec<SyncedLine>) -> (out: Vec<SyncedLine>)
    ensures
        lines_view(out@) == lines_view(lines@),
{
    let mut out: Vec<SyncedLine> = Vec::new();
    let mut i: usize = 0;
    while i < lines.len()
        invariant
            i <= lines@.len(),
            out@.len() == i,
            forall|k: int| 0 <= k < i ==> (#[trigger] out@[k])@ == lines@[k]@,
        decreases lines@.len() - i,
    {
        out.push(lines[i].clone());
        i += 1;
    }
    assert(lines_view(out@) =~= lines_view(lines@));
    out
}

/// A copy of the strings.
pub fn clone_strings(strings: &Vec<String>) -> (out: Vec<String>)
    ensures
        strings_view(out@) == strings_view(strings@),
{
    let mut out: Vec<String> = Vec::new();
    let mut i: usize = 0;
    while i < strings.len()
        invariant
            i <= strings@.len(),
            out@.len() == i,
            forall|k: int| 0 <= k < i ==> (#[trigger] out@[k])@ == strings@[k]@,
        decreases strings@.len() - i,
    {
        out.push(strings[i].clone());
        i += 1;
    }
    assert(strings_view(out@) =~= strings_view(strings@));
    out
}

impl Clone for LyricsData {
    fn clone(&self) -> (out: Self)
        ensures
            out@ == self@,
    {
        LyricsData { lines: clone_strings(&self.lines), synced: clone_lines(&self.synced) }
    }
}

/// The karaoke words of a line body given as characters.
pub fn parse_words_chars(body: &Vec<char>) -> (out: Vec<KaraokeWord>)
    ensures
        words_view(out@) == words_of(body@),
{
    let mut out: Vec<KaraokeWord> = Vec::new();
    let mut i: usize = 0;
    assert(words_view(out@) + words_from(body@, 0) =~= words_of(body@));
    while i < body.len()
        invariant
            i <= body@.len(),
            words_view(out@) + words_from(body@, i as int) == words_of(body@),
        decreases body@.len() - i,
    {
        if body[i] == '<' {
            let close = find_from(body, '>', i + 1);
            if close >= body.len() {
                assert(words_view(out@) + Seq::<WordView>::empty() =~= words_view(out@));
                return out;
            }
            let token = slice_of(body, i + 1, close);
            match parse_ts_chars(&token) {
                None => {
                    i = close + 1;
                },
                Some(t) => {
                    let next = find_from(body, '<', close + 1);
                    let raw = slice_of(body, close + 1, next);
                    let word = trim(&raw);
                    if word.len() > 0 {
                        let ghost before = words_view(out@);
                        let item = KaraokeWord { time_ms: t, word: string_of(&word) };
                        let ghost rest = words_from(body@, next as int);
                        assert(before.push(item@) + rest =~= before + (seq![item@] + rest));
                        out.push(item);
                        assert(words_view(out@) =~= before.push(item@));
                    }
                    i = next;
                },
            }
        } else {
            i += 1;
        }
    }
    assert(words_view(out@) + Seq::<WordView>::empty() =~= words_view(out@));
    out
}

/// The karaoke words of a line body: for each well-formed word tag
/// `<minutes:seconds>`, the trimmed text that follows it up to the next tag,
/// with the tag's time.
pub fn parse_karaoke_words(text: &str) -> (out: Vec<KaraokeWord>)
    ensures
        words_view(out@) == words_of(text@),
{
    let body = chars_of(text);
    parse_words_chars(&body)
}

/// The texts of the words, joined by single spaces.
pub fn join_words(words: &Vec<KaraokeWord>) -> (out: String)
    ensures
        out@ == joined(words_view(words@)),
{
    let mut out = String::new();
    let mut i: usize = 0;
    while i < words.len()
        invariant
            i <= words@.len(),
            out@ == joined(words_view(words@.take(i as int))),
        decreases words@.len() - i,
    {
        let ghost before = words_view(words@.take(i as int));
        let ghost after = words_view(words@.take(i + 1));
        assert(after.drop_last() =~= before);
        assert(after.last() == words@[i as int]@);
        if i > 0 {
            out.push(' ');
        }
        out.append(words[i].word.as_str());
        assert(out@ =~= joined(after));
        i += 1;
    }
    assert(words@.take(i as int) =~= words@);
    out
}

/// The timed line that a line of text stands for, if any.
pub fn parse_line(line: &Vec<char>) -> (r: Option<SyncedLine>)
    ensures
        match r {
            Some(l) => line_entry(line@) == Some(l@),
            None => line_entry(line@) is None,
        },
{
    if line.len() == 0 || line[0] != '[' {
        return None;
    }
    let close = find_from(line, ']', 0);
    if close >= line.len() {
        return None;
    }
    let token = slice_of(line, 1, close);
    match parse_ts_chars(&token) {
        None => None,
        Some(t) => {
            let rest = slice_of(line, close + 1, line.len());
            let body = trim(&rest);
            let words = parse_words_chars(&body);
            let text = if words.len() > 0 {
                join_words(&words)
            } else {
                string_of(&body)
            };
            Some(SyncedLine { time_ms: t, text, words })
        },
    }
}

/// Puts `line` into `lines` behind the lines that are not later than it.
pub fn insert_line(lines: &mut Vec<SyncedLine>, line: SyncedLine)
    ensures
        lines_view(final(lines)@) == lines_view(old(lines)@).insert(
            insert_position(lines_view(old(lines)@), line.time_ms),
            line@,
        ),
{
    let ghost before = lines_view(lines@);
    let t = line.time_ms;
    let mut at: usize = lines.len();
    assert(before.take(at as int) =~= before);
    while at > 0 && lines[at - 1].time_ms > t
        invariant
            at <= lines@.len(),
            before == lines_view(lines@),
            insert_position(before.take(at as int), t) == insert_position(before, t),
        decreases at,
    {
        assert(before.take(at as int).drop_last() =~= before.take(at - 1));
        at -= 1;
    }
    lines.insert(at, line);
    assert(lines_view(lines@) =~= before.insert(at as int, line@));
}

/// The timed lines of a lyrics text, in non-decreasing order of time; lines
/// of equal time keep the order of the text. Lines that do not start with a
/// bracketed timestamp are left out; nothing is an error.
pub fn parse_lrc(text: &str) -> (out: Vec<SyncedLine>)
    ensures
        lines_view(out@) == timed_lines(text@),
        ordered_by_time(lines_view(out@)),
{
    let chars = chars_of(text);
    let lines = split_lines(&chars);
    let ghost all = lines_of(text@);
    let mut out: Vec<SyncedLine> = Vec::new();
    let mut i: usize = 0;
    assert(lines_view(out@) =~= sorted_by_time(entries_of(all.take(0))));
    while i < lines.len()
        invariant
            i <= lines@.len(),
            lines@.len() == all.len(),
            forall|k: int| 0 <= k < lines@.len() ==> (#[trigger] lines@[k])@ == all[k],
            lines_view(out@) == sorted_by_time(entries_of(all.take(i as int))),
        decreases lines@.len() - i,
    {
        proof {
            assert(all.take(i + 1).drop_last() =~= all.take(i as int));
            assert(all.take(i + 1).last() == lines@[i as int]@);
        }
        match parse_line(&lines[i]) {
            Some(line) => {
                assert(entries_of(all.take(i + 1)).drop_last() =~= entries_of(all.take(i as int)));
                insert_line(&mut out, line);
            },
            None => {},
        }
        i += 1;
    }
    proof {
        assert(all.take(i as int) =~= all);
        lemma_sorted_by_time(entries_of(all));
    }
    out
}

/// A line of timed text without its leading bracketed tag: where the line
/// starts with `[` and holds a `]`, what follows the first `]`, trimmed;
/// otherwise the line as it is.
pub open spec fn untagged(line: Seq<char>) -> Seq<char> {
    if line.len() > 0 && line[0] == '[' && next_index(line, ']', 0) < line.len() {
        line_body(line)
    } else {
        line
    }
}

/// The lines of a timed text, each without its leading tag.
pub open spec fn untagged_lines(text: Seq<char>) -> Seq<Seq<char>> {
    lines_of(text).map_values(|l: Seq<char>| untagged(l))
}

/// The lines of an untimed lyrics text.
pub fn plain_lines(text: &str) -> (out: Vec<String>)
    ensures
        strings_view(out@) == lines_of(text@),
{
    let chars = chars_of(text);
    let lines = split_lines(&chars);
    let mut out: Vec<String> = Vec::new();
    let mut i: usize = 0;
    while i < lines.len()
        invariant
            i <= lines@.len(),
            out@.len() == i,
            forall|k: int| 0 <= k < i ==> (#[trigger] out@[k])@ == lines@[k]@,
        decreases lines@.len() - i,
    {
        out.push(string_of(&lines[i]));
        i += 1;
    }
    assert(strings_view(out@) =~= lines_of(text@));
    out
}

/// The lines of a timed lyrics text for display without times: each line
/// without its leading bracketed tag.
pub fn strip_tags(text: &str) -> (out: Vec<String>)
    ensures
        strings_view(out@) == untagged_lines(text@),
{
    let chars = chars_of(text);
    let lines = split_lines(&chars);
    let mut out: Vec<String> = Vec::new();
    let mut i: usize = 0;
    while i < lines.len()
        invariant
            i <= lines@.len(),
            out@.len() == i,
            forall|k: int| 0 <= k < i ==> (#[trigger] out@[k])@ == untagged(lines@[k]@),
        decreases lines@.len() - i,
    {
        let line = &lines[i];
        let close = find_from(line, ']', 0);
        if line.len() > 0 && line[0] == '[' && close < line.len() {
            let rest = slice_of(line, close + 1, line.len());
            let body = trim(&rest);
            out.push(string_of(&body));
        } else {
            out.push(string_of(line));
        }
        i += 1;
    }
    assert(strings_view(out@) =~= untagged_lines(text@));
    out
}

/// Why lyrics could not be had.
#[derive(Debug)]
pub enum LyricsError {
    /// The request did not reach the service or was refused; with the
    /// transport's own words.
    Http(String),
    /// The answer was not of the expected shape; with the decoder's own
    /// words.
    Json(String),
    /// The service knows no lyrics for the track.
    NotFound,
}

impl LyricsError {
    /// The text of the error, for display.
    pub open spec fn text(self) -> Seq<char> {
        match self {
            LyricsError::Http(m) => "HTTP: "@ + m@,
            LyricsError::Json(m) => "JSON: "@ + m@,
            LyricsError::NotFound => "Not found"@,
        }
    }

    /// The text of the error, for display.
    pub fn message(&self) -> (out: String)
        ensures
            out@ == self.text(),
    {
        match self {
            LyricsError::Http(m) => String::from_str("HTTP: ").concat(m.as_str()),
            LyricsError::Json(m) => String::from_str("JSON: ").concat(m.as_str()),
            LyricsError::NotFound => String::from_str("Not found"),
        }
    }
}

/// One record of the lyrics service's answer to a search.
#[derive(Debug)]
pub struct LrcLibResult {
    pub track: String,
    pub artist: String,
    pub plain: Option<String>,
    pub synced: Option<String>,
}

/// A record of the lyrics service as a mathematical value.
pub struct RecordView {
    pub track: Seq<char>,
    pub artist: Seq<char>,
    pub plain: Option<Seq<char>>,
    pub synced: Option<Seq<char>>,
}

impl View for LrcLibResult {
    type V = RecordView;

    open spec fn view(&self) -> RecordView {
        RecordView {
            track: self.track@,
            artist: self.artist@,
            plain: match self.plain {
                Some(p) => Some(p@),
                None => None,
            },
            synced: match self.synced {
                Some(s) => Some(s@),
                None => None,
            },
        }
    }
}

/// The lyrics that a record holds. The untimed lines are those of the plain
/// text where the record has one, else the lines of the timed text without
/// their tags, else none. The timed lines are those of the timed text.
pub open spec fn lyrics_of(record: RecordView) -> LyricsView {
    LyricsView {
        lines: match record.plain {
            Some(p) => lines_of(p),
            None => match record.synced {
                Some(s) => untagged_lines(s),
                None => Seq::empty(),
            },
        },
        synced: match record.synced {
            Some(s) => timed_lines(s),
            None => Seq::empty(),
        },
    }
}

/// What a search's outcome comes to: the lyrics of the first record; not
/// found where there is no record; the search's own error where it failed.
pub open spec fn chosen(
    outcome: Result<Vec<LrcLibResult>, LyricsError>,
    r: Result<LyricsData, LyricsError>,
) -> bool {
    match outcome {
        Ok(records) => if records@.len() == 0 {
            r == Err::<LyricsData, LyricsError>(LyricsError::NotFound)
        } else {
            r matches Ok(data) && data@ == lyrics_of(records@[0]@)
        },
        Err(e) => r == Err::<LyricsData, LyricsError>(e),
    }
}

/// The lyrics of the first record of a search's answer, or not found where
/// the answer is empty.
pub fn select_lyrics(records: &Vec<LrcLibResult>) -> (r: Result<LyricsData, LyricsError>)
    ensures
        records@.len() == 0 ==> r == Err::<LyricsData, LyricsError>(LyricsError::NotFound),
        records@.len() > 0 ==> (r matches Ok(data) && data@ == lyrics_of(records@[0]@)),
        r matches Ok(data) ==> ordered_by_time(data@.synced),
{
    if records.len() == 0 {
        return Err(LyricsError::NotFound);
    }
    let best = &records[0];
    let lines = match &best.plain {
        Some(p) => plain_lines(p.as_str()),
        None => match &best.synced {
            Some(s) => strip_tags(s.as_str()),
            None => Vec::new(),
        },
    };
    let synced = match &best.synced {
        Some(s) => parse_lrc(s.as_str()),
        None => Vec::new(),
    };
    assert(strings_view(Seq::<String>::empty()) =~= Seq::<Seq<char>>::empty());
    assert(lines_view(Seq::<SyncedLine>::empty()) =~= Seq::<LineView>::empty());
    Ok(LyricsData { lines, synced })
}

/// Whether `b` is a byte that stands for itself in a query: a letter or
/// digit of ASCII, or one of `-`, `.`, `_`, `~`.
pub open spec fn is_unreserved(b: u8) -> bool {
    (0x30 <= b <= 0x39) || (0x41 <= b <= 0x5A) || (0x61 <= b <= 0x7A) || b == 0x2D || b == 0x2E
        || b == 0x5F || b == 0x7E
}

/// The upper-case hexadecimal digit for `n`, which is below 16.
pub open spec fn hex_digit(n: u8) -> char {
    if n < 10 {
        ((0x30 + n) as u8) as char
    } else {
        ((0x41 - 10 + n) as u8) as char
    }
}

/// One byte in percent-encoding: itself where it is unreserved, else `%` and
/// its two hexadecimal digits.
pub open spec fn percent_encoded_byte(b: u8) -> Seq<char> {
    if is_unreserved(b) {
        seq![b as char]
    } else {
        seq!['%', hex_digit(b / 16), hex_digit(b % 16)]
    }
}

/// The bytes in percent-encoding.
pub open spec fn percent_encoded(bytes: Seq<u8>) -> Seq<char>
    decreases bytes.len(),
{
    if bytes.len() == 0 {
        Seq::empty()
    } else {
        percent_encoded(bytes.drop_last()) + percent_encoded_byte(bytes.last())
    }
}

/// The address at which the lyrics service answers a search for `query`.
pub open spec fn search_url_of(query: Seq<char>) -> Seq<char> {
    "https://lrclib.net/api/search?q="@ + percent_encoded(encode_utf8(query))
}

/// The query that names both artist and title.
pub open spec fn combined_query(artist: Seq<char>, title: Seq<char>) -> Seq<char> {
    artist + seq![' '] + title
}

/// `urlencoding::encode`: the UTF-8 bytes of `query`, each unreserved byte as
/// it is and every other byte as `%` and two upper-case hexadecimal digits.
#[verifier::external_body]
fn url_encode(query: &str) -> (out: String)
    ensures
        out@ == percent_encoded(encode_utf8(query@)),
{
    urlencoding::encode(query).into_owned()
}

/// The address at which the lyrics service answers a search for `query`.
pub fn search_url(query: &str) -> (out: String)
    ensures
        out@ == search_url_of(query@),
{
    let encoded = url_encode(query);
    String::from_str("https://lrclib.net/api/search?q=").concat(encoded.as_str())
}

/// Whether a search has to be tried again with another query: it failed, or
/// it found nothing.
pub open spec fn needs_retry(outcome: Result<Vec<LrcLibResult>, LyricsError>) -> bool {
    match outcome {
        Ok(records) => records@.len() == 0,
        Err(_) => true,
    }
}

/// Whether `r` is what a lookup for `artist` and `title` comes to with some
/// answers that `request` can give: to the search by title, and, where that
/// one has to be tried again, to the search by artist and title.
pub open spec fn fetch_outcome<F: Fn(&str) -> Result<Vec<LrcLibResult>, LyricsError>>(
    request: &F,
    artist: Seq<char>,
    title: Seq<char>,
    r: Result<LyricsData, LyricsError>,
) -> bool {
    exists|url: &str, first: Result<Vec<LrcLibResult>, LyricsError>|
        {
            &&& url@ == search_url_of(title)
            &&& #[trigger] request.ensures((url,), first)
            &&& !needs_retry(first) ==> chosen(first, r)
            &&& needs_retry(first) ==> exists|
                again: &str,
                second: Result<Vec<LrcLibResult>, LyricsError>,
            |
                {
                    &&& again@ == search_url_of(combined_query(artist, title))
                    &&& #[trigger] request.ensures((again,), second)
                    &&& chosen(second, r)
                }
        }
}

/// Looks up the lyrics of a track. `request` asks the lyrics service: it
/// takes the address of a search and gives the records found. The search
/// goes by the title alone first; where that fails or finds nothing, by
/// artist and title. The lyrics are those of the first record found. Where
/// the last search made finds nothing the result is not found, and where it
/// fails, its error.
pub fn fetch_lyrics<F: Fn(&str) -> Result<Vec<LrcLibResult>, LyricsError>>(
    artist: &str,
    title: &str,
    request: &F,
) -> (r: Result<LyricsData, LyricsError>)
    requires
        forall|url: &str| #[trigger] request.requires((url,)),
    ensures
        fetch_outcome(request, artist@, title@, r),
        r matches Ok(data) ==> ordered_by_time(data@.synced),
{
    let url = search_url(title);
    let first = request(url.as_str());
    let retry = match &first {
        Ok(records) => records.len() == 0,
        Err(_) => true,
    };
    if !retry {
        return lyrics_of_outcome(first);
    }
    let mut query = String::from_str(artist);
    query.push(' ');
    query.append(title);
    assert(query@ =~= combined_query(artist@, title@));
    let again = search_url(query.as_str());
    let second = request(again.as_str());
    lyrics_of_outcome(second)
}

/// What a search's outcome comes to: the lyrics of the first record; not
/// found where there is no record; the search's own error where it failed.
pub fn lyrics_of_outcome(outcome: Result<Vec<LrcLibResult>, LyricsError>) -> (r: Result<
    LyricsData,
    LyricsError,
>)
    ensures
        chosen(outcome, r),
        r matches Ok(data) ==> ordered_by_time(data@.synced),
{
    match outcome {
        Ok(records) => select_lyrics(&records),
        Err(e) => Err(e),
    }
}

} // verus!
