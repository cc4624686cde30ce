//! The coordinator that takes in the track reports as they arrive: it tells
//! a new song from a restart and from a mere refresh, resets the counters,
//! and has the lyrics looked up when the song has changed.

use vstd::prelude::*;
use vstd::string::StringExecFns;
use crate::lyrics::{
    fetch_lyrics, fetch_outcome, lines_view, strings_view, LineView, LrcLibResult, LyricsData,
    LyricsError, LyricsView,
};
use crate::navidrome::{
    get_current_track, track_outcome, NavidromeError, NowPlayingWrapper, Timestamp, Track,
    TrackView,
};
use crate::playback::{AppState, StateView};

verus! {

/// Whether the report names another song than the one held: the titles
/// differ, or no track is held. Artist and album play no part.
pub open spec fn title_changed(held: Option<TrackView>, new: TrackView) -> bool {
    match held {
        Some(t) => t.title != new.title,
        None => true,
    }
}

/// When the track held started to play, if that is known.
pub open spec fn held_start(held: Option<TrackView>) -> Option<Timestamp> {
    match held {
        Some(t) => t.played_timestamp,
        None => None,
    }
}

/// Whether the report gives another start than the track held has.
pub open spec fn restarted(held: Option<TrackView>, new: TrackView) -> bool {
    held_start(held) != new.played_timestamp
}

/// The state once a report is taken in, before any lookup of lyrics: the
/// track, its length and its start are those of the report; the time played
/// is back at 0 where the song has changed or has started again.
pub open spec fn accepted(s: StateView, new: TrackView) -> StateView {
    let reset = title_changed(s.track, new) || restarted(s.track, new);
    StateView {
        track: Some(new),
        duration_seconds: new.duration,
        start_timestamp_utc: new.played_timestamp,
        progress_seconds: if reset {
            0
        } else {
            s.progress_seconds
        },
        progress_ms: if reset {
            0
        } else {
            s.progress_ms
        },
        ..s
    }
}

/// What a lookup came to, as a mathematical value: the lyrics, or the text
/// of the error.
pub open spec fn outcome_view(outcome: Result<LyricsData, LyricsError>) -> Result<
    LyricsView,
    Seq<char>,
> {
    match outcome {
        Ok(data) => Ok(data@),
        Err(e) => Err(e.text()),
    }
}

/// The state once a lookup for the song `title` has ended. Lyrics found are
/// put in place, with the cursor and the view back at the first line. Where
/// none were found, one line that says so takes their place.
pub open spec fn installed(s: StateView, title: Seq<char>, outcome: Result<LyricsView, Seq<char>>) -> StateView {
    match outcome {
        Ok(data) => StateView {
            raw_lyrics: data.lines,
            synced: data.synced,
            current_line: 0,
            scroll: 0,
            status: "Now playing: "@ + title,
            ..s
        },
        Err(text) => StateView {
            raw_lyrics: seq!["No lyrics found"@],
            synced: Seq::empty(),
            status: "Lyrics not found ("@ + text + ")"@,
            ..s
        },
    }
}

/// Takes a report in, short of looking up lyrics, and says whether the song
/// has changed, which is when lyrics have to be looked up.
pub fn accept_sample(app: &mut AppState, track: Track) -> (changed: bool)
    ensures
        final(app)@ == accepted(old(app)@, track@),
        changed == title_changed(old(app)@.track, track@),
{
    let changed = match &app.track {
        Some(held) => held.title != track.title,
        None => true,
    };
    let held_start = match &app.track {
        Some(held) => held.played_timestamp,
        None => None,
    };
    let restarted = held_start != track.played_timestamp;
    app.duration_seconds = track.duration;
    app.start_timestamp_utc = track.played_timestamp;
    app.track = Some(track);
    if changed || restarted {
        app.progress_seconds = 0;
        app.progress_ms = 0;
    }
    changed
}

/// Puts the outcome of a lookup for the song `title` in place.
pub fn install_lyrics(app: &mut AppState, title: &str, outcome: Result<LyricsData, LyricsError>)
    ensures
        final(app)@ == installed(old(app)@, title@, outcome_view(outcome)),
{
    match outcome {
        Ok(data) => {
            app.raw_lyrics = data.lines;
            app.synced = data.synced;
            app.current_line = 0;
            app.scroll = 0;
            app.status = String::from_str("Now playing: ").concat(title);
        },
        Err(e) => {
            let mut lines: Vec<String> = Vec::new();
            lines.push(String::from_str("No lyrics found"));
            assert(strings_view(lines@) =~= seq!["No lyrics found"@]);
            app.raw_lyrics = lines;
            app.synced = Vec::new();
            assert(lines_view(app.synced@) =~= Seq::<LineView>::empty());
            let text = e.message();
            app.status = String::from_str("Lyrics not found (").concat(text.as_str()).concat(")");
        },
    }
}

/// Takes a track report in. The track held is replaced in every case. Where
/// the title or the start differs from the track held, the time played goes
/// back to 0. Where the title differs, the lyrics are looked up through
/// `request` and put in place; otherwise `request` is not called and lyrics,
/// cursor and view stay as they are.
pub fn apply_track_update<F: Fn(&str) -> Result<Vec<LrcLibResult>, LyricsError>>(
    app: &mut AppState,
    track: Track,
    request: &F,
)
    requires
        forall|url: &str| #[trigger] request.requires((url,)),
    ensures
        !title_changed(old(app)@.track, track@) ==> final(app)@ == accepted(old(app)@, track@),
        title_changed(old(app)@.track, track@) ==> exists|outcome: Result<LyricsData, LyricsError>|
            {
                &&& #[trigger] fetch_outcome(request, track@.artist, track@.title, outcome)
                &&& final(app)@ == installed(
                    accepted(old(app)@, track@),
                    track@.title,
                    outcome_view(outcome),
                )
            },
{
    let artist = track.artist.clone();
    let title = track.title.clone();
    let changed = accept_sample(app, track);
    if changed {
        let outcome = fetch_lyrics(artist.as_str(), title.as_str(), request);
        assert(fetch_outcome(request, track@.artist, track@.title, outcome));
        install_lyrics(app, title.as_str(), outcome);
        assert(app@ == installed(accepted(old(app)@, track@), track@.title, outcome_view(outcome)));
    }
}

/// Takes a track report in and looks up its lyrics whether or not the title
/// has changed: the way to try again after a lookup that failed.
pub fn refetch<F: Fn(&str) -> Result<Vec<LrcLibResult>, LyricsError>>(
    app: &mut AppState,
    track: Track,
    request: &F,
)
    requires
        forall|url: &str| #[trigger] request.requires((url,)),
    ensures
        exists|outcome: Result<LyricsData, LyricsError>|
            {
                &&& #[trigger] fetch_outcome(request, track@.artist, track@.title, outcome)
                &&& final(app)@ == installed(
                    accepted(old(app)@, track@),
                    track@.title,
                    outcome_view(outcome),
                )
            },
{
    let artist = track.artist.clone();
    let title = track.title.clone();
    let _ = accept_sample(app, track);
    let outcome = fetch_lyrics(artist.as_str(), title.as_str(), request);
    assert(fetch_outcome(request, track@.artist, track@.title, outcome));
    install_lyrics(app, title.as_str(), outcome);
    assert(app@ == installed(accepted(old(app)@, track@), track@.title, outcome_view(outcome)));
}

/// The answer to the refresh key: asks the server what is playing through
/// `ask`, and where it names a track, takes it in and looks up its lyrics
/// through `request`, whether or not the title has changed. Where the server
/// names no track, nothing changes.
pub fn manual_refetch<
    A: Fn(&str) -> Result<NowPlayingWrapper, NavidromeError>,
    F: Fn(&str) -> Result<Vec<LrcLibResult>, LyricsError>,
>(app: &mut AppState, ask: &A, request: &F)
    requires
        forall|url: &str| #[trigger] ask.requires((url,)),
        forall|url: &str| #[trigger] request.requires((url,)),
    ensures
        exists|reply: Result<Track, NavidromeError>|
            {
                &&& #[trigger] track_outcome(ask, old(app)@.config, reply)
                &&& match reply {
                    Err(_) => final(app)@ == old(app)@,
                    Ok(track) => exists|outcome: Result<LyricsData, LyricsError>|
                        {
                            &&& #[trigger] fetch_outcome(
                                request,
                                track@.artist,
                                track@.title,
                                outcome,
                            )
                            &&& final(app)@ == installed(
                                accepted(old(app)@, track@),
                                track@.title,
                                outcome_view(outcome),
                            )
                        },
                }
            },
{
    let reply = get_current_track(&app.config, ask);
    assert(track_outcome(ask, old(app)@.config, reply));
    match reply {
        Ok(track) => {
            refetch(app, track, request);
        },
        Err(_) => {},
    }
}

/// The state after a report, given what a lookup would come to: the lookup
/// counts only where the song has changed.
pub open spec fn after_sample(s: StateView, new: TrackView, outcome: Result<LyricsView, Seq<char>>) -> StateView {
    if title_changed(s.track, new) {
        installed(accepted(s, new), new.title, outcome)
    } else {
        accepted(s, new)
    }
}

/// A report that comes a second time changes nothing: whatever the state
/// was before the first, and whatever the lookups come to, the second is
/// neither a new song nor a restart, no lyrics are looked up for it, and
/// the state stays as the first left it.
pub proof fn lemma_same_sample_twice(
    s: StateView,
    sample: TrackView,
    first: Result<LyricsView, Seq<char>>,
    second: Result<LyricsView, Seq<char>>,
)
    ensures
        !title_changed(after_sample(s, sample, first).track, sample),
        !restarted(after_sample(s, sample, first).track, sample),
        after_sample(after_sample(s, sample, first), sample, second) == after_sample(
            s,
            sample,
            first,
        ),
{
}

/// A report with the title and the start of the track held resets nothing:
/// the time played, the lyrics, the cursor and the view stay as they are,
/// and no lyrics are looked up.
pub proof fn lemma_refresh_keeps_counters(s: StateView, sample: TrackView)
    requires
        s.track matches Some(held) && held.title == sample.title && held.played_timestamp
            == sample.played_timestamp,
    ensures
        !title_changed(s.track, sample),
        accepted(s, sample) == (StateView {
            track: Some(sample),
            duration_seconds: sample.duration,
            start_timestamp_utc: sample.played_timestamp,
            ..s
        }),
{
}

/// A report with the title of the track held but another start sets the
/// time played back to 0, and leaves lyrics, cursor and view as they are.
pub proof fn lemma_restart_resets_clock(s: StateView, sample: TrackView)
    requires
        s.track matches Some(held) && held.title == sample.title && held.played_timestamp
            != sample.played_timestamp,
    ensures
        !title_changed(s.track, sample),
        accepted(s, sample) == (StateView {
            track: Some(sample),
            duration_seconds: sample.duration,
            start_timestamp_utc: sample.played_timestamp,
            progress_seconds: 0,
            progress_ms: 0,
            ..s
        }),
{
}

} // verus!
