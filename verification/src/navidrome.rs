//! The track that the media server reports as playing.

use vstd::prelude::*;
use vstd::string::StringExecFns;
use crate::config::{Config, ConfigView};

verus! {

/// An instant: whole seconds since the start of 1970 in universal time, and
/// the nanoseconds past that second.
#[derive(Debug, Clone, Copy, PartialEq, Eq, Structural)]
pub struct Timestamp {
    pub secs: i64,
    pub nanos: u32,
}

/// One report of the track that is playing.
#[derive(Debug)]
pub struct Track {
    pub title: String,
    pub artist: String,
    pub album: String,
    /// The length of the track in seconds.
    pub duration: u32,
    /// When the track started to play, where the server says so.
    pub played_timestamp: Option<Timestamp>,
}

/// A track report as a mathematical value.
pub struct TrackView {
    pub title: Seq<char>,
    pub artist: Seq<char>,
    pub album: Seq<char>,
    pub duration: u32,
    pub played_timestamp: Option<Timestamp>,
}

impl View for Track {
    type V = TrackView;

    open spec fn view(&self) -> TrackView {
        TrackView {
            title: self.title@,
            artist: self.artist@,
            album: self.album@,
            duration: self.duration,
            played_timestamp: self.played_timestamp,
        }
    }
}

impl Clone for Track {
    fn clone(&self) -> (out: Self)
        ensures
            out@ == self@,
    {
        Track {
            title: self.title.clone(),
            artist: self.artist.clone(),
            album: self.album.clone(),
            duration: self.duration,
            played_timestamp: self.played_timestamp,
        }
    }
}

/// Why the track that is playing could not be had.
#[derive(Debug)]
pub enum NavidromeError {
    /// The request did not reach the server, was refused, or its answer
    /// could not be read; with the transport's own words.
    Http(String),
    /// The server answered, but not with an `ok`.
    InvalidResponse,
    /// Nothing is playing.
    NoTrack,
}

impl NavidromeError {
    /// The text of the error, for display.
    pub open spec fn text(self) -> Seq<char> {
        match self {
            NavidromeError::Http(m) => "HTTP: "@ + m@,
            NavidromeError::InvalidResponse => "Invalid response"@,
            NavidromeError::NoTrack => "No song playing"@,
        }
    }

    /// The text of the error, for display.
    pub fn message(&self) -> (out: String)
        ensures
            out@ == self.text(),
    {
        match self {
            NavidromeError::Http(m) => String::from_str("HTTP: ").concat(m.as_str()),
            NavidromeError::InvalidResponse => String::from_str("Invalid response"),
            NavidromeError::NoTrack => String::from_str("No song playing"),
        }
    }
}

/// One entry of the server's list of what is playing. The server may leave
/// any field out.
#[derive(Debug)]
pub struct Entry {
    pub title: Option<String>,
    pub artist: Option<String>,
    pub album: Option<String>,
    pub duration: Option<u32>,
    /// When the track started to play, as the server writes it.
    pub played: Option<String>,
}

/// The server's answer to the question what is playing.
#[derive(Debug)]
pub struct NowPlayingWrapper {
    pub status: String,
    /// The entries, where the answer has the list at all.
    pub now_playing: Option<Vec<Entry>>,
}

/// The instant that a date and time written as in RFC 3339 stands for, as
/// seconds since the start of 1970 in universal time and nanoseconds past
/// the second; none where the text is no such date and time.
pub uninterp spec fn rfc3339_instant(text: Seq<char>) -> Option<(i64, u32)>;

/// `chrono::DateTime::parse_from_rfc3339`, with the instant found handed
/// back through `DateTime::timestamp` and `DateTime::timestamp_subsec_nanos`:
/// the result depends on the text alone.
#[verifier::external_body]
fn parse_rfc3339(text: &str) -> (out: Option<Timestamp>)
    ensures
        out == match rfc3339_instant(text@) {
            Some((secs, nanos)) => Some((Timestamp { secs, nanos })),
            None => None,
        },
{
    match chrono::DateTime::parse_from_rfc3339(text) {
        Ok(at) => Some(Timestamp { secs: at.timestamp(), nanos: at.timestamp_subsec_nanos() }),
        Err(_) => None,
    }
}

/// The text of an optional string, empty where there is none.
pub open spec fn text_or_empty(s: Option<String>) -> Seq<char> {
    match s {
        Some(s) => s@,
        None => Seq::empty(),
    }
}

/// The start that an entry reports: none where it gives no time or one that
/// cannot be read.
pub open spec fn start_of(played: Option<String>) -> Option<Timestamp> {
    match played {
        Some(p) => match rfc3339_instant(p@) {
            Some((secs, nanos)) => Some((Timestamp { secs, nanos })),
            None => None,
        },
        None => None,
    }
}

/// The track that an entry reports: fields left out are empty, a length
/// left out is 0.
pub open spec fn track_of(e: Entry) -> TrackView {
    TrackView {
        title: text_or_empty(e.title),
        artist: text_or_empty(e.artist),
        album: text_or_empty(e.album),
        duration: match e.duration {
            Some(d) => d,
            None => 0,
        },
        played_timestamp: start_of(e.played),
    }
}

/// Whether `r` is what the server's answer comes to. An answer whose status
/// is not `ok` is invalid; one without a list, or with an empty list, means
/// that nothing is playing; otherwise the first entry is the track.
pub open spec fn reported(answer: NowPlayingWrapper, r: Result<Track, NavidromeError>) -> bool {
    if answer.status@ != "ok"@ {
        r == Err::<Track, NavidromeError>(NavidromeError::InvalidResponse)
    } else if answer.now_playing is None || answer.now_playing->0@.len() == 0 {
        r == Err::<Track, NavidromeError>(NavidromeError::NoTrack)
    } else {
        r matches Ok(t) && t@ == track_of(answer.now_playing->0@[0])
    }
}

/// A copy of the text, or the empty text.
fn text_or_default(s: &Option<String>) -> (out: String)
    ensures
        out@ == text_or_empty(*s),
{
    match s {
        Some(s) => s.clone(),
        None => String::new(),
    }
}

/// The track that the server's answer reports.
pub fn track_from_response(answer: &NowPlayingWrapper) -> (r: Result<Track, NavidromeError>)
    ensures
        reported(*answer, r),
{
    if answer.status != String::from_str("ok") {
        return Err(NavidromeError::InvalidResponse);
    }
    let entries = match &answer.now_playing {
        Some(entries) => entries,
        None => {
            return Err(NavidromeError::NoTrack);
        },
    };
    if entries.len() == 0 {
        return Err(NavidromeError::NoTrack);
    }
    let e = &entries[0];
    let played_timestamp = match &e.played {
        Some(p) => parse_rfc3339(p.as_str()),
        None => None,
    };
    Ok(
        Track {
            title: text_or_default(&e.title),
            artist: text_or_default(&e.artist),
            album: text_or_default(&e.album),
            duration: match e.duration {
                Some(d) => d,
                None => 0,
            },
            played_timestamp,
        },
    )
}

/// The address at which the server says what is playing, for the account
/// that the settings name.
pub open spec fn now_playing_url_of(cfg: ConfigView) -> Seq<char> {
    cfg.navidrome_url + "/rest/getNowPlaying?u="@ + cfg.navidrome_user + "&t="@
        + cfg.navidrome_token + "&s="@ + cfg.navidrome_salt + "&v=1.16.1&c=sonix&f=json"@
}

/// The address at which the server says what is playing.
pub fn now_playing_url(cfg: &Config) -> (out: String)
    ensures
        out@ == now_playing_url_of(cfg@),
{
    let mut out = cfg.navidrome_url.clone();
    out.append("/rest/getNowPlaying?u=");
    out.append(cfg.navidrome_user.as_str());
    out.append("&t=");
    out.append(cfg.navidrome_token.as_str());
    out.append("&s=");
    out.append(cfg.navidrome_salt.as_str());
    out.append("&v=1.16.1&c=sonix&f=json");
    out
}

/// Whether `r` is what asking the server comes to with some answer that
/// `request` can give for the settings' address: the track reported, or the
/// error of the request.
pub open spec fn track_outcome<F: Fn(&str) -> Result<NowPlayingWrapper, NavidromeError>>(
    request: &F,
    cfg: ConfigView,
    r: Result<Track, NavidromeError>,
) -> bool {
    exists|url: &str, answer: Result<NowPlayingWrapper, NavidromeError>|
        {
            &&& url@ == now_playing_url_of(cfg)
            &&& #[trigger] request.ensures((url,), answer)
            &&& match answer {
                Ok(a) => reported(a, r),
                Err(e) => r == Err::<Track, NavidromeError>(e),
            }
        }
}

/// Asks the media server what is playing. `request` does the asking: it
/// takes the address and gives the server's answer. The result is the first
/// track of the answer; that nothing is playing; that the answer is invalid;
/// or the error of the request.
pub fn get_current_track<F: Fn(&str) -> Result<NowPlayingWrapper, NavidromeError>>(
    cfg: &Config,
    request: &F,
) -> (r: Result<Track, NavidromeError>)
    requires
        forall|url: &str| #[trigger] request.requires((url,)),
    ensures
        track_outcome(request, cfg@, r),
{
    let url = now_playing_url(cfg);
    match request(url.as_str()) {
        Ok(answer) => track_from_response(&answer),
        Err(e) => Err(e),
    }
}

} // verus!
