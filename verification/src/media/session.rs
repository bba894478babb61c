//! The media state published to the overlay and the decisions of the
//! media-session worker: normalising session snapshots, tracking the active
//! session, requesting lyrics for new tracks, synchronising them with the
//! playback position and hiding the widget when nothing plays.
//!
//! Times are milliseconds on a monotonic clock chosen by the caller.
use vstd::prelude::*;

use base64::Engine;

use std::collections::{HashMap, HashSet};

use crate::lyrics::lrc::sorted_by_time;
use crate::lyrics::{
    bare_lyrics, context_at, copy_opt_text, lines_view, opt_text, ready_model, synchronize,
    LyricLine, LyricsState, LyricsStateModel, LyricsStatus,
};
use crate::text::{
    chars_of, contains_chars, contains_seq, decimal, push_decimal, push_str, spec_to_lowercase,
    to_lowercase, trim, trimmed,
};

verus! {

/// Why no media session is available.
#[derive(Clone, Copy, Debug, PartialEq, Eq, Structural)]
pub enum MediaStateErrorCode {
    SessionManagerUnavailable,
    SessionManagerDisconnected,
}

/// A media-session error, as published.
#[derive(Clone, Copy, Debug, PartialEq, Eq, Structural)]
pub struct MediaStateError {
    pub code: MediaStateErrorCode,
}

/// The state published to the overlay.
#[derive(Clone, Debug, PartialEq, Eq)]
pub struct MediaState {
    pub track_id: Option<String>,
    pub title: String,
    pub artist: String,
    pub album: Option<String>,
    pub source_app: Option<String>,
    pub playback_status: String,
    pub position_ms: u64,
    pub duration_ms: u64,
    pub artwork_url: Option<String>,
    pub lyrics: LyricsState,
    pub error: Option<MediaStateError>,
}

/// The model of a `MediaState`.
pub struct MediaStateModel {
    pub track_id: Option<Seq<char>>,
    pub title: Seq<char>,
    pub artist: Seq<char>,
    pub album: Option<Seq<char>>,
    pub source_app: Option<Seq<char>>,
    pub playback_status: Seq<char>,
    pub position_ms: u64,
    pub duration_ms: u64,
    pub artwork_url: Option<Seq<char>>,
    pub lyrics: LyricsStateModel,
    pub error: Option<MediaStateError>,
}

impl View for MediaState {
    type V = MediaStateModel;

    open spec fn view(&self) -> MediaStateModel {
        MediaStateModel {
            track_id: opt_text(self.track_id),
            title: self.title@,
            artist: self.artist@,
            album: opt_text(self.album),
            source_app: opt_text(self.source_app),
            playback_status: self.playback_status@,
            position_ms: self.position_ms,
            duration_ms: self.duration_ms,
            artwork_url: opt_text(self.artwork_url),
            lyrics: self.lyrics@,
            error: self.error,
        }
    }
}

/// The state with no media: empty metadata, status `NoMedia`, idle lyrics.
pub open spec fn no_media() -> MediaStateModel {
    MediaStateModel {
        track_id: None,
        title: Seq::empty(),
        artist: Seq::empty(),
        album: None,
        source_app: None,
        playback_status: "NoMedia"@,
        position_ms: 0,
        duration_ms: 0,
        artwork_url: None,
        lyrics: bare_lyrics(crate::lyrics::LyricsStatus::Idle),
        error: None,
    }
}

/// The no-media state carrying an error.
pub open spec fn no_media_with_error(code: MediaStateErrorCode) -> MediaStateModel {
    MediaStateModel { error: Some(MediaStateError { code }), ..no_media() }
}

impl Default for MediaState {
    fn default() -> (s: Self)
        ensures
            s@ == no_media(),
    {
        MediaState {
            track_id: None,
            title: String::new(),
            artist: String::new(),
            album: None,
            source_app: None,
            playback_status: "NoMedia".to_owned(),
            position_ms: 0,
            duration_ms: 0,
            artwork_url: None,
            lyrics: LyricsState::default(),
            error: None,
        }
    }
}

/// A platform-independent input used to normalize incomplete session data.
#[derive(Debug)]
pub struct SessionSnapshot {
    pub session_id: usize,
    pub title: String,
    pub artist: String,
    pub album: Option<String>,
    pub source_app: String,
    pub playback_status: String,
    pub position_ms: i64,
    pub duration_ms: i64,
}

/// A trimmed text, or nothing when it is blank or absent.
pub open spec fn optional_text_spec(value: Option<Seq<char>>) -> Option<Seq<char>> {
    match value {
        Some(v) => if trim(v).len() == 0 {
            None
        } else {
            Some(trim(v))
        },
        None => None,
    }
}

/// A trimmed text, or nothing when it is blank or absent.
pub fn optional_text(value: Option<String>) -> (r: Option<String>)
    ensures
        opt_text(r) == optional_text_spec(opt_text(value)),
{
    match value {
        None => None,
        Some(v) => {
            let t = trimmed(v.as_str());
            if t.as_str().is_empty() {
                None
            } else {
                Some(t)
            }
        },
    }
}

/// The trimmed text, or `fallback` when it is blank.
pub fn non_empty_or(value: String, fallback: &str) -> (r: String)
    ensures
        r@ == match optional_text_spec(Some(value@)) {
            Some(t) => t,
            None => fallback@,
        },
{
    match optional_text(Some(value)) {
        Some(t) => t,
        None => fallback.to_owned(),
    }
}

/// A signed millisecond count clamped at zero.
pub fn milliseconds(value: i64) -> (r: u64)
    ensures
        r == if value < 0 {
            0
        } else {
            value
        },
{
    if value < 0 {
        0
    } else {
        value as u64
    }
}

/// Converts 100-nanosecond Windows timeline ticks to milliseconds,
/// truncating toward zero.
pub fn windows_ticks_to_milliseconds(value: i64) -> (r: i64)
    ensures
        r == ticks_to_ms(value),
{
    if value >= 0 {
        value / 10000
    } else {
        let magnitude = (-(value as i128)) / 10000;
        -(magnitude as i64)
    }
}

/// The published state of a session snapshot: trimmed metadata, blank
/// optional fields dropped, status `Unknown` when blank, negative times
/// clamped to zero, no artwork, idle lyrics and no error.
pub open spec fn snapshot_model(s: SessionSnapshot) -> MediaStateModel {
    MediaStateModel {
        track_id: Some(decimal(s.session_id as nat)),
        title: trim(s.title@),
        artist: trim(s.artist@),
        album: optional_text_spec(opt_text(s.album)),
        source_app: optional_text_spec(Some(s.source_app@)),
        playback_status: match optional_text_spec(Some(s.playback_status@)) {
            Some(t) => t,
            None => "Unknown"@,
        },
        position_ms: if s.position_ms < 0 {
            0
        } else {
            s.position_ms as u64
        },
        duration_ms: if s.duration_ms < 0 {
            0
        } else {
            s.duration_ms as u64
        },
        artwork_url: None,
        lyrics: bare_lyrics(crate::lyrics::LyricsStatus::Idle),
        error: None,
    }
}

impl MediaState {
    fn with_error(code: MediaStateErrorCode) -> (s: Self)
        ensures
            s@ == no_media_with_error(code),
    {
        MediaState { error: Some(MediaStateError { code }), ..MediaState::default() }
    }

    /// The state published when the session manager cannot be created.
    pub fn session_manager_unavailable() -> (s: Self)
        ensures
            s@ == no_media_with_error(MediaStateErrorCode::SessionManagerUnavailable),
    {
        Self::with_error(MediaStateErrorCode::SessionManagerUnavailable)
    }

    /// The state published when the session manager's events stop.
    pub fn session_manager_disconnected() -> (s: Self)
        ensures
            s@ == no_media_with_error(MediaStateErrorCode::SessionManagerDisconnected),
    {
        Self::with_error(MediaStateErrorCode::SessionManagerDisconnected)
    }

    /// The published state of a session snapshot (see `snapshot_model`).
    pub fn from_session_snapshot(snapshot: SessionSnapshot) -> (s: Self)
        ensures
            s@ == snapshot_model(snapshot),
    {
        let ghost snap = snapshot;
        let mut track_id = String::new();
        push_decimal(&mut track_id, snapshot.session_id as u64);
        assert(track_id@ =~= decimal(snap.session_id as nat));
        MediaState {
            track_id: Some(track_id),
            title: trimmed(snapshot.title.as_str()),
            artist: trimmed(snapshot.artist.as_str()),
            album: optional_text(snapshot.album),
            source_app: optional_text(Some(snapshot.source_app)),
            playback_status: non_empty_or(snapshot.playback_status, "Unknown"),
            position_ms: milliseconds(snapshot.position_ms),
            duration_ms: milliseconds(snapshot.duration_ms),
            artwork_url: None,
            lyrics: LyricsState::default(),
            error: None,
        }
    }

    /// A copy of this state.
    pub fn copy(&self) -> (r: Self)
        ensures
            r == *self,
    {
        MediaState {
            track_id: copy_opt_text(&self.track_id),
            title: self.title.clone(),
            artist: self.artist.clone(),
            album: copy_opt_text(&self.album),
            source_app: copy_opt_text(&self.source_app),
            playback_status: self.playback_status.clone(),
            position_ms: self.position_ms,
            duration_ms: self.duration_ms,
            artwork_url: copy_opt_text(&self.artwork_url),
            lyrics: self.lyrics.copy(),
            error: self.error,
        }
    }
}

/// Applies an artwork update: `Some(url)` replaces the artwork (clearing it
/// when `url` is `None`); no update keeps the previous artwork.
pub open spec fn merged_artwork(previous: Option<Seq<char>>, update: Option<Option<Seq<char>>>) -> Option<Seq<char>> {
    match update {
        Some(a) => a,
        None => previous,
    }
}

/// The model of an optional artwork update.
pub open spec fn opt_opt_text(o: Option<Option<String>>) -> Option<Option<Seq<char>>> {
    match o {
        Some(a) => Some(opt_text(a)),
        None => None,
    }
}

/// The published state of a snapshot with the artwork update applied.
pub fn merge_media_state(
    snapshot: SessionSnapshot,
    previous_artwork_url: Option<String>,
    artwork_url: Option<Option<String>>,
) -> (s: MediaState)
    ensures
        s@ == (MediaStateModel {
            artwork_url: merged_artwork(opt_text(previous_artwork_url), opt_opt_text(artwork_url)),
            ..snapshot_model(snapshot)
        }),
{
    let mut state = MediaState::from_session_snapshot(snapshot);
    state.artwork_url = match artwork_url {
        Some(artwork_url) => artwork_url,
        None => previous_artwork_url,
    };
    state
}

/// Whether the track differs: title, artist or album changed.
pub open spec fn identity_changed(previous: MediaStateModel, next: MediaStateModel) -> bool {
    previous.title != next.title || previous.artist != next.artist || previous.album != next.album
}

/// Whether the track differs: title, artist or album changed.
pub fn track_identity_changed(previous: &MediaState, next: &MediaState) -> (r: bool)
    ensures
        r == identity_changed(previous@, next@),
{
    !previous.title.eq(&next.title) || !previous.artist.eq(&next.artist)
        || !crate::lyrics::same_opt_text(&previous.album, &next.album)
}

// ---------------------------------------------------------------------------
// Playback position and sources.
// ---------------------------------------------------------------------------

/// ASCII lower-casing of one character.
pub open spec fn ascii_lower(c: char) -> char {
    if 'A' <= c && c <= 'Z' {
        ((c as u32) + 32) as char
    } else {
        c
    }
}

/// `str::eq_ignore_ascii_case`.
pub open spec fn eq_ignore_ascii_case_spec(a: Seq<char>, b: Seq<char>) -> bool {
    a.len() == b.len() && forall|i: int| 0 <= i < a.len() ==> ascii_lower(#[trigger] a[i]) == ascii_lower(b[i])
}

/// `ascii_lower` on a concrete character.
fn lower_ascii(c: char) -> (r: char)
    ensures
        r == ascii_lower(c),
{
    if 'A' <= c && c <= 'Z' {
        ((c as u8) + 32) as char
    } else {
        c
    }
}

/// Whether `a` and `b` are equal up to ASCII case.
pub fn eq_ignore_ascii_case(a: &str, b: &str) -> (r: bool)
    ensures
        r == eq_ignore_ascii_case_spec(a@, b@),
{
    let x = chars_of(a);
    let y = chars_of(b);
    if x.len() != y.len() {
        return false;
    }
    let mut i: usize = 0;
    while i < x.len()
        invariant
            x@ == a@,
            y@ == b@,
            x@.len() == y@.len(),
            i <= x@.len(),
            forall|j: int| 0 <= j < i ==> ascii_lower(#[trigger] x@[j]) == ascii_lower(y@[j]),
        decreases x@.len() - i,
    {
        if lower_ascii(x[i]) != lower_ascii(y[i]) {
            return false;
        }
        i = i + 1;
    }
    true
}

/// The position at which lyrics are synchronised: a playing track advances
/// by the elapsed time since the position was sampled; the result never
/// passes a known duration.
pub open spec fn projected_position(position_ms: u64, duration_ms: u64, playing: bool, elapsed_ms: u64) -> u64 {
    let projected = if playing {
        crate::lyrics::lrc::sat(position_ms + elapsed_ms)
    } else {
        position_ms
    };
    if duration_ms == 0 || projected <= duration_ms {
        projected
    } else {
        duration_ms
    }
}

/// The position at which lyrics are synchronised (see `projected_position`;
/// the status is "playing" in any ASCII case).
pub fn projected_position_ms(position_ms: u64, duration_ms: u64, playback_status: &str, elapsed_ms: u64) -> (r: u64)
    ensures
        r == projected_position(
            position_ms,
            duration_ms,
            eq_ignore_ascii_case_spec(playback_status@, "playing"@),
            elapsed_ms,
        ),
{
    let projected = if eq_ignore_ascii_case(playback_status, "playing") {
        match position_ms.checked_add(elapsed_ms) {
            Some(p) => p,
            None => u64::MAX,
        }
    } else {
        position_ms
    };
    if duration_ms == 0 || projected <= duration_ms {
        projected
    } else {
        duration_ms
    }
}

/// Whether a media source is followed: its trimmed, lower-cased identifier
/// mentions Spotify.
pub open spec fn is_supported_source_spec(source: Seq<char>) -> bool {
    contains_seq(spec_to_lowercase(trim(source)), "spotify"@)
}

/// Whether a media source is followed (see `is_supported_source_spec`).
pub fn is_supported_media_source(source: &str) -> (r: bool)
    ensures
        r == is_supported_source_spec(source@),
{
    let t = trimmed(source);
    let lower = to_lowercase(t.as_str());
    let v = chars_of(lower.as_str());
    let needle = chars_of("spotify");
    contains_chars(&v, &needle)
}

// ---------------------------------------------------------------------------
// Artwork.
// ---------------------------------------------------------------------------

/// The character of a six-bit value in the standard base64 alphabet
/// (`A`-`Z`, `a`-`z`, `0`-`9`, `+`, `/`).
pub open spec fn base64_digit(n: int) -> char {
    if n < 26 {
        ('A' as int + n) as char
    } else if n < 52 {
        ('a' as int + (n - 26)) as char
    } else if n < 62 {
        ('0' as int + (n - 52)) as char
    } else if n == 62 {
        '+'
    } else {
        '/'
    }
}

/// Standard base64 with padding (RFC 4648): every group of three bytes
/// becomes four characters of six bits each; a final group of one or two
/// bytes is filled with zero bits and padded with `=` to four characters.
pub open spec fn base64_standard(data: Seq<u8>) -> Seq<char>
    decreases data.len(),
{
    if data.len() == 0 {
        Seq::empty()
    } else if data.len() == 1 {
        let b0 = data[0] as int;
        seq![base64_digit(b0 / 4), base64_digit((b0 % 4) * 16), '=', '=']
    } else if data.len() == 2 {
        let b0 = data[0] as int;
        let b1 = data[1] as int;
        seq![base64_digit(b0 / 4), base64_digit((b0 % 4) * 16 + b1 / 16), base64_digit((b1 % 16) * 4), '=']
    } else {
        let b0 = data[0] as int;
        let b1 = data[1] as int;
        let b2 = data[2] as int;
        seq![
            base64_digit(b0 / 4),
            base64_digit((b0 % 4) * 16 + b1 / 16),
            base64_digit((b1 % 16) * 4 + b2 / 64),
            base64_digit(b2 % 64),
        ] + base64_standard(data.skip(3))
    }
}

/// Whether the padded base64 length of `n` bytes fits in a `usize` (the
/// crate's `encoded_len` returns `None`, and `encode` panics, otherwise).
pub open spec fn base64_len_fits(n: nat) -> bool {
    if n % 3 == 0 {
        n / 3 * 4 <= usize::MAX
    } else {
        n / 3 * 4 + 4 <= usize::MAX
    }
}

/// Calls `base64::engine::general_purpose::STANDARD.encode`, the standard
/// alphabet with padding, whose output the contract states (see
/// `base64_standard`) together with its length, four characters per started
/// group of three bytes as the crate's `encoded_len` computes it.  Inputs for
/// which that length overflows, on which the crate panics, are excluded.
#[verifier::external_body]
fn base64_standard_encode(data: &[u8]) -> (r: String)
    requires
        base64_len_fits(data@.len()),
    ensures
        r@ == base64_standard(data@),
        r@.len() == (data@.len() + 2) / 3 * 4,
{
    base64::engine::general_purpose::STANDARD.encode(data)
}

/// Album artwork as delivered by the media session.
#[derive(Clone, Debug, PartialEq, Eq)]
pub struct ArtworkImage {
    pub content_type: String,
    pub data: Vec<u8>,
}

/// Whether the artwork is small enough for its encoded length to be
/// computed (the encoder panics otherwise).
pub fn artwork_is_encodable(image: &ArtworkImage) -> (r: bool)
    ensures
        r == base64_len_fits(image.data@.len()),
{
    let n = image.data.len();
    match (n / 3).checked_mul(4) {
        None => false,
        Some(full) => if n % 3 == 0 {
            true
        } else {
            full.checked_add(4).is_some()
        },
    }
}

/// A `data:` URL embedding the artwork.
pub open spec fn artwork_url_spec(content_type: Seq<char>, data: Seq<u8>) -> Seq<char> {
    "data:"@ + content_type + ";base64,"@ + base64_standard(data)
}

/// Encodes artwork as a `data:` URL.
pub fn encode_artwork_url(image: &ArtworkImage) -> (r: String)
    requires
        base64_len_fits(image.data@.len()),
    ensures
        r@ == artwork_url_spec(image.content_type@, image.data@),
{
    let mut url = String::new();
    push_str(&mut url, "data:");
    push_str(&mut url, image.content_type.as_str());
    push_str(&mut url, ";base64,");
    let encoded = base64_standard_encode(image.data.as_slice());
    push_str(&mut url, encoded.as_str());
    assert(url@ =~= artwork_url_spec(image.content_type@, image.data@));
    url
}


// ---------------------------------------------------------------------------
// The media-session worker.
// ---------------------------------------------------------------------------

/// How long the widget stays visible without an active track (5 minutes).
pub const WIDGET_IDLE_TIMEOUT_MS: u64 = 300000;

/// A playback position and when it was sampled.
#[derive(Clone, Copy, Debug, PartialEq, Eq, Structural)]
pub struct TimelineSample {
    pub position_ms: u64,
    pub sampled_at_ms: u64,
}

/// A request for the lyrics of a session's track; `generation` tells a
/// current answer from a stale one.
#[derive(Clone, Debug, PartialEq, Eq)]
pub struct LyricsRequest {
    pub session_id: usize,
    pub generation: u64,
    pub title: String,
    pub artist: String,
    pub album: Option<String>,
    pub duration_ms: u64,
}

/// What the worker knows about the media sessions.
pub struct WorkerState {
    pub active_session_id: Option<usize>,
    pub supported_session_ids: HashSet<usize>,
    pub sessions: HashMap<usize, MediaState>,
    pub lyrics_lines: HashMap<usize, Vec<LyricLine>>,
    pub lyrics_generations: HashMap<usize, u64>,
    pub timeline_samples: HashMap<usize, TimelineSample>,
    pub no_active_track_since: Option<u64>,
    pub widget_hidden: bool,
}

impl WorkerState {
    /// Every stored lyric list is sorted by timestamp.
    pub open spec fn wf(&self) -> bool {
        forall|id: usize| #[trigger] self.lyrics_lines@.contains_key(id) ==> sorted_by_time(lines_view(self.lyrics_lines@[id]@))
    }

    /// The lyrics generation of a session (zero before the first request).
    pub open spec fn generation_of(&self, id: usize) -> u64 {
        if self.lyrics_generations@.contains_key(id) {
            self.lyrics_generations@[id]
        } else {
            0
        }
    }

    /// Whether the active session has a track with a title.
    pub open spec fn has_active_track(&self) -> bool {
        match self.active_session_id {
            Some(id) => self.sessions@.contains_key(id) && self.sessions@[id].title@.len() > 0,
            None => false,
        }
    }
}

impl Default for WorkerState {
    fn default() -> (w: Self)
        ensures
            w.wf(),
            w.active_session_id is None,
            w.supported_session_ids@ == Set::<usize>::empty(),
            w.sessions@ == Map::<usize, MediaState>::empty(),
            w.lyrics_lines@ == Map::<usize, Vec<LyricLine>>::empty(),
            w.lyrics_generations@ == Map::<usize, u64>::empty(),
            w.timeline_samples@ == Map::<usize, TimelineSample>::empty(),
            w.no_active_track_since is None,
            !w.widget_hidden,
    {
        WorkerState {
            active_session_id: None,
            supported_session_ids: HashSet::new(),
            sessions: HashMap::new(),
            lyrics_lines: HashMap::new(),
            lyrics_generations: HashMap::new(),
            timeline_samples: HashMap::new(),
            no_active_track_since: None,
            widget_hidden: false,
        }
    }
}

/// The idle start after an "idle now" event: kept when already idle.
pub open spec fn idle_since(since: Option<u64>, now_ms: u64) -> Option<u64> {
    match since {
        Some(t) => Some(t),
        None => Some(now_ms),
    }
}

/// `u64::saturating_add(1)`.
pub open spec fn bump(g: u64) -> u64 {
    if g == u64::MAX {
        g
    } else {
        (g + 1) as u64
    }
}

/// Starts a new lyrics generation for a session and returns it.
pub fn next_lyrics_generation(worker: &mut WorkerState, session_id: usize) -> (g: u64)
    ensures
        g == bump(old(worker).generation_of(session_id)),
        final(worker).lyrics_generations@ == old(worker).lyrics_generations@.insert(session_id, g),
        final(worker).active_session_id == old(worker).active_session_id,
        final(worker).supported_session_ids == old(worker).supported_session_ids,
        final(worker).sessions == old(worker).sessions,
        final(worker).lyrics_lines == old(worker).lyrics_lines,
        final(worker).timeline_samples == old(worker).timeline_samples,
        final(worker).no_active_track_since == old(worker).no_active_track_since,
        final(worker).widget_hidden == old(worker).widget_hidden,
{
    broadcast use vstd::std_specs::hash::group_hash_axioms;

    let current = match worker.lyrics_generations.get(&session_id) {
        Some(g) => *g,
        None => 0,
    };
    let g = if current == u64::MAX {
        current
    } else {
        current + 1
    };
    worker.lyrics_generations.insert(session_id, g);
    g
}

/// The model of a lyrics request.
pub open spec fn request_for(session_id: usize, generation: u64, state: MediaStateModel) -> (usize, u64, Seq<char>, Seq<char>, Option<Seq<char>>, u64) {
    (session_id, generation, state.title, state.artist, state.album, state.duration_ms)
}

impl LyricsRequest {
    /// The request as plain values, in field order.
    pub open spec fn model(&self) -> (usize, u64, Seq<char>, Seq<char>, Option<Seq<char>>, u64) {
        (self.session_id, self.generation, self.title@, self.artist@, opt_text(self.album), self.duration_ms)
    }
}

/// The request for the track of `state`.
pub fn lyrics_request_from_state(session_id: usize, generation: u64, state: &MediaState) -> (r: LyricsRequest)
    ensures
        r.model() == request_for(session_id, generation, state@),
{
    LyricsRequest {
        session_id,
        generation,
        title: state.title.clone(),
        artist: state.artist.clone(),
        album: copy_opt_text(&state.album),
        duration_ms: state.duration_ms,
    }
}

/// A copy of a session's stored state.
fn stored_state(worker: &WorkerState, session_id: usize) -> (r: Option<MediaState>)
    ensures
        match r {
            Some(s) => worker.sessions@.contains_key(session_id) && s == worker.sessions@[session_id],
            None => !worker.sessions@.contains_key(session_id),
        },
{
    broadcast use vstd::std_specs::hash::group_hash_axioms;

    match worker.sessions.get(&session_id) {
        Some(s) => Some(s.copy()),
        None => None,
    }
}

/// Whether the widget should now be hidden because no track has been active
/// for the idle timeout; records when idleness began and that the widget
/// is hidden.  An active track resets the idle clock.
pub fn should_hide_idle_widget(worker: &mut WorkerState, now_ms: u64) -> (hide: bool)
    ensures
        final(worker).active_session_id == old(worker).active_session_id,
        final(worker).supported_session_ids == old(worker).supported_session_ids,
        final(worker).sessions == old(worker).sessions,
        final(worker).lyrics_lines == old(worker).lyrics_lines,
        final(worker).lyrics_generations == old(worker).lyrics_generations,
        final(worker).timeline_samples == old(worker).timeline_samples,
        old(worker).has_active_track() ==> !hide && final(worker).no_active_track_since is None
            && final(worker).widget_hidden == old(worker).widget_hidden,
        !old(worker).has_active_track() ==> {
            let since = idle_since(old(worker).no_active_track_since, now_ms)->0;
            &&& final(worker).no_active_track_since == Some(since)
            &&& hide == (!old(worker).widget_hidden && crate::lyrics::cache::age(since, now_ms)
                >= WIDGET_IDLE_TIMEOUT_MS)
            &&& final(worker).widget_hidden == (old(worker).widget_hidden || hide)
        },
{
    broadcast use vstd::std_specs::hash::group_hash_axioms;

    let has_active_track = match worker.active_session_id {
        Some(id) => match worker.sessions.get(&id) {
            Some(state) => !state.title.as_str().is_empty(),
            None => false,
        },
        None => false,
    };
    if has_active_track {
        worker.no_active_track_since = None;
        return false;
    }
    let since = match worker.no_active_track_since {
        Some(t) => t,
        None => now_ms,
    };
    worker.no_active_track_since = Some(since);
    let idle_for = if now_ms >= since {
        now_ms - since
    } else {
        0
    };
    if !worker.widget_hidden && idle_for >= WIDGET_IDLE_TIMEOUT_MS {
        worker.widget_hidden = true;
        true
    } else {
        false
    }
}


/// The artwork a session had before an update.
pub open spec fn previous_artwork(w: WorkerState, id: usize) -> Option<Seq<char>> {
    if w.sessions@.contains_key(id) {
        opt_text(w.sessions@[id].artwork_url)
    } else {
        None
    }
}

/// The state of a session update before its lyrics are decided.
pub open spec fn merged_update(
    w: WorkerState,
    id: usize,
    snapshot: SessionSnapshot,
    artwork: Option<Option<Seq<char>>>,
) -> MediaStateModel {
    MediaStateModel {
        artwork_url: merged_artwork(previous_artwork(w, id), artwork),
        ..snapshot_model(snapshot)
    }
}

/// Whether an update brings a new track to the session: the session was
/// unknown or its title, artist or album changed.
pub open spec fn track_changed(w: WorkerState, id: usize, next: MediaStateModel) -> bool {
    !w.sessions@.contains_key(id) || identity_changed(w.sessions@[id]@, next)
}

/// Whether an update keeps the session's known track: the session is known
/// and its title, artist and album are unchanged.
pub open spec fn same_track(w: WorkerState, id: usize, next: MediaStateModel) -> bool {
    &&& w.sessions@.contains_key(id)
    &&& w.sessions@[id]@.title == next.title
    &&& w.sessions@[id]@.artist == next.artist
    &&& w.sessions@[id]@.album == next.album
}

/// Whether the track of a state can be looked up: it has a title and an
/// artist.
pub open spec fn lookup_ready(s: MediaStateModel) -> bool {
    s.title.len() > 0 && s.artist.len() > 0
}

/// The lyrics a session update publishes.  A new track on the active
/// session starts loading lyrics; a new track without title or artist has
/// none; a new track on an inactive session stays idle.  The same track
/// re-synchronises known lyrics at the new position, or keeps what it had
/// (an empty lyric list that is no longer loading stays as it was, and
/// becomes unavailable otherwise).
pub open spec fn update_lyrics(w: WorkerState, id: usize, next: MediaStateModel) -> LyricsStateModel {
    if track_changed(w, id, next) {
        if w.active_session_id == Some(id) && lookup_ready(next) {
            bare_lyrics(LyricsStatus::Loading)
        } else if !lookup_ready(next) {
            bare_lyrics(LyricsStatus::Unavailable)
        } else {
            next.lyrics
        }
    } else if w.lyrics_lines@.contains_key(id) {
        if w.lyrics_lines@[id]@.len() > 0 {
            ready_model(context_at(lines_view(w.lyrics_lines@[id]@), next.position_ms))
        } else if w.sessions@[id].lyrics.status != LyricsStatus::Loading {
            w.sessions@[id].lyrics@
        } else {
            bare_lyrics(LyricsStatus::Unavailable)
        }
    } else {
        w.sessions@[id].lyrics@
    }
}

/// Applies a session update: stores the normalised state with its artwork
/// and lyrics, samples the timeline, starts a new lyrics generation when the
/// track changed (with a lyrics request when the session is active and the
/// track can be looked up), and tracks whether the active session has a
/// track.  Returns whether the session is the active one, the new state,
/// the lyrics request and whether the hidden widget must be shown again.
pub fn update_session_state(
    worker: &mut WorkerState,
    session_id: usize,
    snapshot: SessionSnapshot,
    artwork_url: Option<Option<String>>,
    now_ms: u64,
) -> (r: (bool, MediaState, Option<LyricsRequest>, bool))
    requires
        old(worker).wf(),
    ensures
        final(worker).wf(),
        ({
            let w = *old(worker);
            let merged = merged_update(w, session_id, snapshot, opt_opt_text(artwork_url));
            let changed = track_changed(w, session_id, merged);
            let active = w.active_session_id == Some(session_id);
            let state = r.1;
            &&& r.0 == active
            &&& state@ == (MediaStateModel { lyrics: update_lyrics(w, session_id, merged), ..merged })
            &&& final(worker).sessions@ == w.sessions@.insert(session_id, state)
            &&& final(worker).timeline_samples@ == w.timeline_samples@.insert(
                session_id,
                TimelineSample { position_ms: state.position_ms, sampled_at_ms: now_ms },
            )
            &&& changed ==> final(worker).lyrics_lines@ == w.lyrics_lines@.remove(session_id)
                && final(worker).lyrics_generations@ == w.lyrics_generations@.insert(
                session_id,
                bump(w.generation_of(session_id)),
            )
            &&& !changed ==> final(worker).lyrics_lines == w.lyrics_lines
                && final(worker).lyrics_generations == w.lyrics_generations
            &&& (r.2 is Some <==> changed && active && lookup_ready(merged))
            &&& same_track(w, session_id, merged) && !w.lyrics_lines@.contains_key(session_id)
                ==> state.lyrics@ == w.sessions@[session_id].lyrics@
            &&& same_track(w, session_id, merged) && w.lyrics_lines@.contains_key(session_id)
                && w.lyrics_lines@[session_id]@.len() > 0 ==> state.lyrics.status == LyricsStatus::Ready
            &&& same_track(w, session_id, merged) && w.lyrics_lines@.contains_key(session_id)
                && w.lyrics_lines@[session_id]@.len() == 0 ==> (if w.sessions@[session_id].lyrics.status
                == LyricsStatus::Loading {
                state.lyrics@ == bare_lyrics(LyricsStatus::Unavailable)
            } else {
                state.lyrics@ == w.sessions@[session_id].lyrics@
            })
            &&& !same_track(w, session_id, merged) && active && merged.title.len() > 0
                && merged.artist.len() > 0 ==> state.lyrics.status == LyricsStatus::Loading
            &&& !same_track(w, session_id, merged) && (merged.title.len() == 0 || merged.artist.len()
                == 0) ==> state.lyrics.status == LyricsStatus::Unavailable
            &&& match r.2 {
                Some(q) => q.model() == request_for(session_id, bump(w.generation_of(session_id)), state@),
                None => true,
            }
            &&& final(worker).active_session_id == w.active_session_id
            &&& final(worker).supported_session_ids == w.supported_session_ids
            &&& active && merged.title.len() > 0 ==> final(worker).no_active_track_since is None
                && !final(worker).widget_hidden && r.3 == w.widget_hidden
            &&& active && merged.title.len() == 0 ==> final(worker).no_active_track_since
                == idle_since(w.no_active_track_since, now_ms) && final(worker).widget_hidden
                == w.widget_hidden && !r.3
            &&& !active ==> final(worker).no_active_track_since == w.no_active_track_since
                && final(worker).widget_hidden == w.widget_hidden && !r.3
        }),
{
    broadcast use vstd::std_specs::hash::group_hash_axioms;

    let ghost w = *worker;
    let ghost art = opt_opt_text(artwork_url);
    let previous = stored_state(worker, session_id);
    let previous_artwork_url = match &previous {
        Some(p) => copy_opt_text(&p.artwork_url),
        None => None,
    };
    let mut media_state = merge_media_state(snapshot, previous_artwork_url, artwork_url);
    let ghost merged = merged_update(w, session_id, snapshot, art);
    assert(media_state@ == merged);
    worker.timeline_samples.insert(
        session_id,
        TimelineSample { position_ms: media_state.position_ms, sampled_at_ms: now_ms },
    );
    let changed = match &previous {
        None => true,
        Some(p) => track_identity_changed(p, &media_state),
    };
    let is_active = match worker.active_session_id {
        Some(a) => a == session_id,
        None => false,
    };
    let has_title = !media_state.title.as_str().is_empty();
    let has_artist = !media_state.artist.as_str().is_empty();
    let lyrics_request = if changed {
        worker.lyrics_lines.remove(&session_id);
        let generation = next_lyrics_generation(worker, session_id);
        if is_active && has_title && has_artist {
            media_state.lyrics = LyricsState::loading();
            Some(lyrics_request_from_state(session_id, generation, &media_state))
        } else if !has_title || !has_artist {
            media_state.lyrics = LyricsState::unavailable();
            None
        } else {
            None
        }
    } else {
        match worker.lyrics_lines.get(&session_id) {
            Some(lines) => {
                assert(w.lyrics_lines@.contains_key(session_id));
                if lines.len() > 0 {
                    media_state.lyrics = LyricsState::ready(synchronize(lines.as_slice(), media_state.position_ms));
                } else {
                    match &previous {
                        Some(p) => {
                            if p.lyrics.status != LyricsStatus::Loading {
                                media_state.lyrics = p.lyrics.copy();
                            } else {
                                media_state.lyrics = LyricsState::unavailable();
                            }
                        },
                        None => {
                            media_state.lyrics = LyricsState::unavailable();
                        },
                    }
                }
            },
            None => {
                match &previous {
                    Some(p) => {
                        media_state.lyrics = p.lyrics.copy();
                    },
                    None => {},
                }
            },
        }
        None
    };
    let should_show = if is_active && has_title {
        worker.no_active_track_since = None;
        if worker.widget_hidden {
            worker.widget_hidden = false;
            true
        } else {
            false
        }
    } else if is_active {
        let since = match worker.no_active_track_since {
            Some(t) => t,
            None => now_ms,
        };
        worker.no_active_track_since = Some(since);
        false
    } else {
        false
    };
    let stored = media_state.copy();
    worker.sessions.insert(session_id, stored);
    (is_active, media_state, lyrics_request, should_show)
}


/// Records a new media session; only supported sources are followed.
/// Returns whether the source is supported.
pub fn register_session(worker: &mut WorkerState, session_id: usize, source: &str) -> (supported: bool)
    ensures
        supported == is_supported_source_spec(source@),
        supported ==> final(worker).supported_session_ids@ == old(worker).supported_session_ids@.insert(session_id),
        !supported ==> final(worker).supported_session_ids == old(worker).supported_session_ids,
        final(worker).active_session_id == old(worker).active_session_id,
        final(worker).sessions == old(worker).sessions,
        final(worker).lyrics_lines == old(worker).lyrics_lines,
        final(worker).lyrics_generations == old(worker).lyrics_generations,
        final(worker).timeline_samples == old(worker).timeline_samples,
        final(worker).no_active_track_since == old(worker).no_active_track_since,
        final(worker).widget_hidden == old(worker).widget_hidden,
{
    broadcast use vstd::std_specs::hash::group_hash_axioms;

    let supported = is_supported_media_source(source);
    if supported {
        worker.supported_session_ids.insert(session_id);
    }
    supported
}

/// Forgets a removed session.  Returns whether it was the active one, in
/// which case no session is active any more and the idle clock starts.
pub fn remove_session(worker: &mut WorkerState, session_id: usize, now_ms: u64) -> (was_active: bool)
    requires
        old(worker).wf(),
    ensures
        final(worker).wf(),
        final(worker).sessions@ == old(worker).sessions@.remove(session_id),
        final(worker).supported_session_ids@ == old(worker).supported_session_ids@.remove(session_id),
        final(worker).lyrics_lines@ == old(worker).lyrics_lines@.remove(session_id),
        final(worker).lyrics_generations@ == old(worker).lyrics_generations@.remove(session_id),
        final(worker).timeline_samples@ == old(worker).timeline_samples@.remove(session_id),
        final(worker).widget_hidden == old(worker).widget_hidden,
        was_active == (old(worker).active_session_id == Some(session_id)),
        was_active ==> final(worker).active_session_id is None
            && final(worker).no_active_track_since == idle_since(old(worker).no_active_track_since, now_ms),
        !was_active ==> final(worker).active_session_id == old(worker).active_session_id
            && final(worker).no_active_track_since == old(worker).no_active_track_since,
{
    broadcast use vstd::std_specs::hash::group_hash_axioms;

    worker.sessions.remove(&session_id);
    worker.supported_session_ids.remove(&session_id);
    worker.lyrics_lines.remove(&session_id);
    worker.lyrics_generations.remove(&session_id);
    worker.timeline_samples.remove(&session_id);
    let was_active = match worker.active_session_id {
        Some(a) => a == session_id,
        None => false,
    };
    if was_active {
        worker.active_session_id = None;
        let since = match worker.no_active_track_since {
            Some(t) => t,
            None => now_ms,
        };
        worker.no_active_track_since = Some(since);
    }
    was_active
}

/// The session that becomes active: the announced one, when it is followed.
pub open spec fn followed(w: WorkerState, session_id: Option<usize>) -> Option<usize> {
    match session_id {
        Some(id) => if w.supported_session_ids@.contains(id) {
            Some(id)
        } else {
            None
        },
        None => None,
    }
}

/// The stored state of a session, or the no-media state.
pub open spec fn known_state(w: WorkerState, id: usize) -> MediaStateModel {
    if w.sessions@.contains_key(id) {
        w.sessions@[id]@
    } else {
        no_media()
    }
}

/// Whether activating a session must fetch its lyrics: it has an
/// identified track with title and artist and no lyrics are known for it.
pub open spec fn activation_needs_lyrics(w: WorkerState, id: usize) -> bool {
    let s = known_state(w, id);
    s.track_id is Some && lookup_ready(s) && !w.lyrics_lines@.contains_key(id)
}

/// Makes the announced session the active one (none when it is not
/// followed).  Returns the state to publish (`None` when no followed session
/// is active), the lyrics request for a track whose lyrics are not known
/// yet, and whether the hidden widget must be shown again.
pub fn activate_session(worker: &mut WorkerState, session_id: Option<usize>, now_ms: u64) -> (r: (
    Option<MediaState>,
    Option<LyricsRequest>,
    bool,
))
    requires
        old(worker).wf(),
    ensures
        final(worker).wf(),
        ({
            let w = *old(worker);
            &&& final(worker).active_session_id == followed(w, session_id)
            &&& final(worker).supported_session_ids == w.supported_session_ids
            &&& final(worker).lyrics_lines == w.lyrics_lines
            &&& final(worker).timeline_samples == w.timeline_samples
            &&& match followed(w, session_id) {
                None => {
                    &&& r.0 is None && r.1 is None && !r.2
                    &&& final(worker).no_active_track_since == idle_since(w.no_active_track_since, now_ms)
                    &&& final(worker).widget_hidden == w.widget_hidden
                    &&& final(worker).sessions == w.sessions
                    &&& final(worker).lyrics_generations == w.lyrics_generations
                },
                Some(id) => {
                    let base = known_state(w, id);
                    let needs = activation_needs_lyrics(w, id);
                    &&& r.0 is Some
                    &&& needs ==> {
                        let g = bump(w.generation_of(id));
                        &&& r.0->0@ == (MediaStateModel { lyrics: bare_lyrics(LyricsStatus::Loading), ..base })
                        &&& final(worker).sessions@ == w.sessions@.insert(id, r.0->0)
                        &&& final(worker).lyrics_generations@ == w.lyrics_generations@.insert(id, g)
                        &&& r.1 is Some && r.1->0.model() == request_for(id, g, r.0->0@)
                    }
                    &&& !needs ==> {
                        &&& r.0->0@ == base
                        &&& final(worker).sessions == w.sessions
                        &&& final(worker).lyrics_generations == w.lyrics_generations
                        &&& r.1 is None
                    }
                    &&& base.title.len() > 0 ==> final(worker).no_active_track_since is None
                        && !final(worker).widget_hidden && r.2 == w.widget_hidden
                    &&& base.title.len() == 0 ==> final(worker).no_active_track_since
                        == w.no_active_track_since && final(worker).widget_hidden == w.widget_hidden
                        && !r.2
                },
            }
        }),
{
    broadcast use vstd::std_specs::hash::group_hash_axioms;

    let followed_id = match session_id {
        Some(id) => if worker.supported_session_ids.contains(&id) {
            Some(id)
        } else {
            None
        },
        None => None,
    };
    worker.active_session_id = followed_id;
    let id = match followed_id {
        None => {
            let since = match worker.no_active_track_since {
                Some(t) => t,
                None => now_ms,
            };
            worker.no_active_track_since = Some(since);
            return (None, None, false);
        },
        Some(id) => id,
    };
    let mut current_state = match stored_state(worker, id) {
        Some(s) => s,
        None => MediaState::default(),
    };
    let lyrics_request = if current_state.track_id.is_some() && !current_state.title.as_str().is_empty()
        && !current_state.artist.as_str().is_empty() && !worker.lyrics_lines.contains_key(&id) {
        let generation = next_lyrics_generation(worker, id);
        current_state.lyrics = LyricsState::loading();
        worker.sessions.insert(id, current_state.copy());
        Some(lyrics_request_from_state(id, generation, &current_state))
    } else {
        None
    };
    let should_show = if !current_state.title.as_str().is_empty() {
        worker.no_active_track_since = None;
        if worker.widget_hidden {
            worker.widget_hidden = false;
            true
        } else {
            false
        }
    } else {
        false
    };
    (Some(current_state), lyrics_request, should_show)
}

/// The answer of a lyrics lookup: the lyrics found (`None` when the track
/// has none), or a provider failure.
pub type LyricsLookup = Result<Option<Vec<LyricLine>>, ()>;

/// Whether a lookup answers the request that is current: the session is
/// still active, no newer generation was started and the session is known.
pub open spec fn answers_current_request(w: WorkerState, session_id: usize, generation: u64) -> bool {
    &&& w.active_session_id == Some(session_id)
    &&& w.lyrics_generations@.contains_key(session_id)
    &&& w.lyrics_generations@[session_id] == generation
    &&& w.sessions@.contains_key(session_id)
}

/// The lyrics state a lookup answer leads to at a position.
pub open spec fn lookup_lyrics(result: LyricsLookup, position_ms: u64) -> LyricsStateModel {
    match result {
        Ok(Some(lines)) => if lines@.len() > 0 {
            ready_model(context_at(lines_view(lines@), position_ms))
        } else {
            bare_lyrics(LyricsStatus::Unavailable)
        },
        Ok(None) => bare_lyrics(LyricsStatus::Unavailable),
        Err(_) => LyricsStateModel {
            error: Some("providerUnavailable"@),
            ..bare_lyrics(LyricsStatus::Error)
        },
    }
}

/// Applies the answer of a lyrics lookup.  A stale answer (see
/// `answers_current_request`) changes nothing.  Otherwise found lyrics are
/// kept and synchronised, a track without lyrics is remembered as having
/// none, and a failure forgets the lyrics so that they are fetched again;
/// the session's updated state is returned.
pub fn apply_lyrics_result(worker: &mut WorkerState, session_id: usize, generation: u64, result: LyricsLookup) -> (r:
    Option<MediaState>)
    requires
        old(worker).wf(),
        result matches Ok(Some(lines)) ==> sorted_by_time(lines_view(lines@)),
    ensures
        final(worker).wf(),
        ({
            let w = *old(worker);
            &&& final(worker).active_session_id == w.active_session_id
            &&& final(worker).supported_session_ids == w.supported_session_ids
            &&& final(worker).lyrics_generations == w.lyrics_generations
            &&& final(worker).timeline_samples == w.timeline_samples
            &&& final(worker).no_active_track_since == w.no_active_track_since
            &&& final(worker).widget_hidden == w.widget_hidden
            &&& !answers_current_request(w, session_id, generation) ==> r is None
                && final(worker).sessions == w.sessions && final(worker).lyrics_lines == w.lyrics_lines
            &&& answers_current_request(w, session_id, generation) ==> {
                let before = w.sessions@[session_id]@;
                &&& r is Some
                &&& r->0@ == (MediaStateModel { lyrics: lookup_lyrics(result, before.position_ms), ..before })
                &&& final(worker).sessions@ == w.sessions@.insert(session_id, r->0)
                &&& match result {
                    Ok(Some(lines)) => if lines@.len() > 0 {
                        final(worker).lyrics_lines@ == w.lyrics_lines@.insert(session_id, lines)
                    } else {
                        final(worker).lyrics_lines@.remove(session_id) == w.lyrics_lines@.remove(session_id)
                            && final(worker).lyrics_lines@.contains_key(session_id)
                            && final(worker).lyrics_lines@[session_id]@.len() == 0
                    },
                    Ok(None) => final(worker).lyrics_lines@.remove(session_id) == w.lyrics_lines@.remove(session_id)
                        && final(worker).lyrics_lines@.contains_key(session_id)
                        && final(worker).lyrics_lines@[session_id]@.len() == 0,
                    Err(_) => final(worker).lyrics_lines@ == w.lyrics_lines@.remove(session_id),
                }
                &&& r->0.lyrics.status == match result {
                    Ok(Some(lines)) => if lines@.len() > 0 {
                        LyricsStatus::Ready
                    } else {
                        LyricsStatus::Unavailable
                    },
                    Ok(None) => LyricsStatus::Unavailable,
                    Err(_) => LyricsStatus::Error,
                }
                &&& result is Ok ==> r->0.lyrics.error is None
                &&& result is Err ==> r->0@.lyrics.error == Some("providerUnavailable"@)
                &&& r->0.lyrics.status != LyricsStatus::Ready ==> r->0.lyrics.current_line is None
                    && r->0.lyrics.current_line_index is None
            }
        }),
{
    broadcast use vstd::std_specs::hash::group_hash_axioms;

    let ghost w = *worker;
    let is_active = match worker.active_session_id {
        Some(a) => a == session_id,
        None => false,
    };
    let current_generation = match worker.lyrics_generations.get(&session_id) {
        Some(g) => *g == generation,
        None => false,
    };
    if !is_active || !current_generation {
        return None;
    }
    let mut media_state = match stored_state(worker, session_id) {
        Some(s) => s,
        None => return None,
    };
    let ghost before = media_state@;
    match result {
        Ok(Some(lines)) => {
            if lines.len() > 0 {
                media_state.lyrics = LyricsState::ready(synchronize(lines.as_slice(), media_state.position_ms));
                worker.lyrics_lines.insert(session_id, lines);
            } else {
                worker.lyrics_lines.insert(session_id, Vec::new());
                media_state.lyrics = LyricsState::unavailable();
                assert(worker.lyrics_lines@.remove(session_id) =~= w.lyrics_lines@.remove(session_id));
            }
        },
        Ok(None) => {
            worker.lyrics_lines.insert(session_id, Vec::new());
            media_state.lyrics = LyricsState::unavailable();
            assert(worker.lyrics_lines@.remove(session_id) =~= w.lyrics_lines@.remove(session_id));
        },
        Err(_) => {
            worker.lyrics_lines.remove(&session_id);
            media_state.lyrics = LyricsState::error("providerUnavailable");
        },
    }
    worker.sessions.insert(session_id, media_state.copy());
    Some(media_state)
}

/// Every answer of a lookup settles the lyrics: lyrics found become ready,
/// a track without lyrics (no lyrics, or an empty list) becomes unavailable
/// with no lines and no error, and a failure becomes a provider error.  No
/// answer leaves the lyrics idle or loading.
pub proof fn lookup_answers_settle_the_lyrics(result: LyricsLookup, position_ms: u64)
    ensures
        lookup_lyrics(result, position_ms).status != LyricsStatus::Idle,
        lookup_lyrics(result, position_ms).status != LyricsStatus::Loading,
        (result matches Ok(Some(lines)) && lines@.len() > 0) ==> lookup_lyrics(result, position_ms).status
            == LyricsStatus::Ready && lookup_lyrics(result, position_ms).error is None,
        (result is Ok && !(result matches Ok(Some(lines)) && lines@.len() > 0)) ==> {
            let l = lookup_lyrics(result, position_ms);
            &&& l.status == LyricsStatus::Unavailable
            &&& l.previous_line is None && l.current_line is None && l.next_line is None
            &&& l.current_line_index is None && l.error is None
        },
        result is Err ==> lookup_lyrics(result, position_ms).status == LyricsStatus::Error
            && lookup_lyrics(result, position_ms).error == Some("providerUnavailable"@)
            && lookup_lyrics(result, position_ms).current_line is None,
{
}

/// An update that keeps the session's track keeps its lyrics state when no
/// lyric lines are known, re-synchronises known lines (ready), and for a
/// track known to have none keeps the settled state (a lookup still marked
/// loading becomes unavailable).
pub proof fn same_track_updates_keep_the_lyrics(w: WorkerState, id: usize, next: MediaStateModel)
    requires
        same_track(w, id, next),
    ensures
        !w.lyrics_lines@.contains_key(id) ==> update_lyrics(w, id, next) == w.sessions@[id].lyrics@,
        w.lyrics_lines@.contains_key(id) && w.lyrics_lines@[id]@.len() > 0 ==> update_lyrics(w, id, next).status
            == LyricsStatus::Ready && update_lyrics(w, id, next).error is None,
        w.lyrics_lines@.contains_key(id) && w.lyrics_lines@[id]@.len() == 0
            && w.sessions@[id].lyrics.status != LyricsStatus::Loading ==> update_lyrics(w, id, next)
            == w.sessions@[id].lyrics@,
        w.lyrics_lines@.contains_key(id) && w.lyrics_lines@[id]@.len() == 0
            && w.sessions@[id].lyrics.status == LyricsStatus::Loading ==> update_lyrics(w, id, next).status
            == LyricsStatus::Unavailable,
{
}

/// An update that brings a new track starts loading lyrics on the active
/// session when title and artist are known, marks lyrics unavailable when
/// either is missing, and leaves an inactive session's lyrics as the new
/// state has them.
pub proof fn new_track_updates_restart_the_lyrics(w: WorkerState, id: usize, next: MediaStateModel)
    requires
        !same_track(w, id, next),
    ensures
        w.active_session_id == Some(id) && next.title.len() > 0 && next.artist.len() > 0 ==> update_lyrics(
            w,
            id,
            next,
        ).status == LyricsStatus::Loading,
        next.title.len() == 0 || next.artist.len() == 0 ==> update_lyrics(w, id, next).status
            == LyricsStatus::Unavailable && update_lyrics(w, id, next).current_line is None,
        w.active_session_id != Some(id) && next.title.len() > 0 && next.artist.len() > 0
            ==> update_lyrics(w, id, next) == next.lyrics,
{
}

/// The lyrics the ticker shows for the active session at `now_ms`, when it
/// has a timeline sample and non-empty lyrics: the context at the projected
/// position.
pub open spec fn tick_lyrics_model(w: WorkerState, id: usize, now_ms: u64) -> LyricsStateModel {
    let sample = w.timeline_samples@[id];
    let state = w.sessions@[id];
    let position = projected_position(
        sample.position_ms,
        state.duration_ms,
        eq_ignore_ascii_case_spec(state.playback_status@, "playing"@),
        crate::lyrics::cache::age(sample.sampled_at_ms, now_ms) as u64,
    );
    ready_model(context_at(lines_view(w.lyrics_lines@[id]@), position))
}

/// Whether the ticker has something to synchronise for the active session.
pub open spec fn tick_applies(w: WorkerState) -> bool {
    match w.active_session_id {
        Some(id) => {
            &&& w.timeline_samples@.contains_key(id)
            &&& w.lyrics_lines@.contains_key(id)
            &&& w.lyrics_lines@[id]@.len() > 0
            &&& w.sessions@.contains_key(id)
        },
        None => false,
    }
}

/// Re-synchronises the active session's lyrics with its projected playback
/// position.  Returns the updated state when the lyrics changed.
pub fn tick_active_lyrics(worker: &mut WorkerState, now_ms: u64) -> (r: Option<MediaState>)
    requires
        old(worker).wf(),
    ensures
        final(worker).wf(),
        ({
            let w = *old(worker);
            &&& final(worker).active_session_id == w.active_session_id
            &&& final(worker).supported_session_ids == w.supported_session_ids
            &&& final(worker).lyrics_lines == w.lyrics_lines
            &&& final(worker).lyrics_generations == w.lyrics_generations
            &&& final(worker).timeline_samples == w.timeline_samples
            &&& final(worker).no_active_track_since == w.no_active_track_since
            &&& final(worker).widget_hidden == w.widget_hidden
            &&& !tick_applies(w) ==> r is None && final(worker).sessions == w.sessions
            &&& tick_applies(w) ==> {
                let id = w.active_session_id->0;
                let next = tick_lyrics_model(w, id, now_ms);
                let before = w.sessions@[id]@;
                &&& before.lyrics == next ==> r is None && final(worker).sessions == w.sessions
                &&& before.lyrics != next ==> r is Some && r->0@ == (MediaStateModel { lyrics: next, ..before })
                    && final(worker).sessions@ == w.sessions@.insert(id, r->0)
            }
        }),
{
    broadcast use vstd::std_specs::hash::group_hash_axioms;

    let id = match worker.active_session_id {
        Some(id) => id,
        None => return None,
    };
    let sample = match worker.timeline_samples.get(&id) {
        Some(s) => *s,
        None => return None,
    };
    let mut media_state = match stored_state(worker, id) {
        Some(s) => s,
        None => {
            return None;
        },
    };
    let next_lyrics = match worker.lyrics_lines.get(&id) {
        None => return None,
        Some(lines) => {
            if lines.len() == 0 {
                return None;
            }
            let elapsed_ms = if now_ms >= sample.sampled_at_ms {
                now_ms - sample.sampled_at_ms
            } else {
                0
            };
            let position_ms = projected_position_ms(
                sample.position_ms,
                media_state.duration_ms,
                media_state.playback_status.as_str(),
                elapsed_ms,
            );
            LyricsState::ready(synchronize(lines.as_slice(), position_ms))
        },
    };
    if media_state.lyrics.same_as(&next_lyrics) {
        return None;
    }
    media_state.lyrics = next_lyrics;
    worker.sessions.insert(id, media_state.copy());
    Some(media_state)
}


// ---------------------------------------------------------------------------
// Snapshots from session models.
// ---------------------------------------------------------------------------

/// The track metadata of a session model.
pub struct MediaInfo {
    pub title: String,
    pub artist: String,
    pub album_title: Option<String>,
}

/// The timeline of a session model, in 100-nanosecond ticks.
#[derive(Clone, Copy, Debug, PartialEq, Eq, Structural)]
pub struct TimelineTicks {
    pub start: i64,
    pub end: i64,
    pub position: i64,
}

/// `i64::saturating_sub`.
pub open spec fn saturating_sub_i64(a: i64, b: i64) -> i64 {
    if a - b > i64::MAX {
        i64::MAX
    } else if a - b < i64::MIN {
        i64::MIN
    } else {
        (a - b) as i64
    }
}

/// Truncating division of ticks into milliseconds.
pub open spec fn ticks_to_ms(value: i64) -> i64 {
    if value >= 0 {
        (value / 10000) as i64
    } else {
        (-((-value) / 10000)) as i64
    }
}

/// The snapshot of a session model: absent metadata is empty, an absent
/// playback status is `Unknown`, and the duration is the timeline's length.
pub fn snapshot_from_model(
    session_id: usize,
    media: Option<MediaInfo>,
    source: String,
    playback_status: Option<String>,
    timeline: Option<TimelineTicks>,
) -> (s: SessionSnapshot)
    ensures
        s.session_id == session_id,
        s.title@ == match media {
            Some(m) => m.title@,
            None => Seq::empty(),
        },
        s.artist@ == match media {
            Some(m) => m.artist@,
            None => Seq::empty(),
        },
        opt_text(s.album) == match media {
            Some(m) => opt_text(m.album_title),
            None => None,
        },
        s.source_app == source,
        s.playback_status@ == match playback_status {
            Some(p) => p@,
            None => "Unknown"@,
        },
        s.position_ms == match timeline {
            Some(t) => ticks_to_ms(t.position),
            None => 0,
        },
        s.duration_ms == match timeline {
            Some(t) => ticks_to_ms(saturating_sub_i64(t.end, t.start)),
            None => 0,
        },
{
    let (title, artist, album) = match media {
        Some(m) => (m.title, m.artist, m.album_title),
        None => (String::new(), String::new(), None),
    };
    let playback_status = match playback_status {
        Some(p) => p,
        None => "Unknown".to_owned(),
    };
    let (position_ms, duration_ms) = match timeline {
        Some(t) => {
            let length = match t.end.checked_sub(t.start) {
                Some(d) => d,
                None => if t.start < 0 {
                    i64::MAX
                } else {
                    i64::MIN
                },
            };
            (windows_ticks_to_milliseconds(t.position), windows_ticks_to_milliseconds(length))
        },
        None => (0, 0),
    };
    SessionSnapshot {
        session_id,
        title,
        artist,
        album,
        source_app: source,
        playback_status,
        position_ms,
        duration_ms,
    }
}


// ---------------------------------------------------------------------------
// Laws of the worker.
// ---------------------------------------------------------------------------

/// Once a session starts a new lyrics generation, an answer to a request of
/// the previous generation is stale and changes nothing.
pub proof fn stale_lyrics_answers_are_ignored(before: WorkerState, after: WorkerState, session_id: usize)
    requires
        before.generation_of(session_id) < u64::MAX,
        after.lyrics_generations@ == before.lyrics_generations@.insert(
            session_id,
            bump(before.generation_of(session_id)),
        ),
    ensures
        !answers_current_request(after, session_id, before.generation_of(session_id)),
{
}

/// A new track on the active session always starts a fresh lyrics lookup
/// when it can be looked up, and the request carries the new generation, so
/// that only its answer is applied.
pub proof fn new_track_requests_current_generation(
    before: WorkerState,
    after: WorkerState,
    session_id: usize,
    state: MediaState,
    request: LyricsRequest,
)
    requires
        after.lyrics_generations@ == before.lyrics_generations@.insert(
            session_id,
            bump(before.generation_of(session_id)),
        ),
        after.sessions@ == before.sessions@.insert(session_id, state),
        after.active_session_id == Some(session_id),
        request.model() == request_for(session_id, bump(before.generation_of(session_id)), state@),
    ensures
        answers_current_request(after, request.session_id, request.generation),
{
}

/// The lyrics position never passes the end of a track of known length, and
/// a track that is not playing does not advance.
pub proof fn projection_stays_within_track(position_ms: u64, duration_ms: u64, playing: bool, elapsed_ms: u64)
    ensures
        duration_ms > 0 ==> projected_position(position_ms, duration_ms, playing, elapsed_ms) <= duration_ms,
        !playing && (duration_ms == 0 || position_ms <= duration_ms) ==> projected_position(
            position_ms,
            duration_ms,
            playing,
            elapsed_ms,
        ) == position_ms,
        playing ==> projected_position(position_ms, duration_ms, playing, elapsed_ms) >= (if duration_ms
            == 0 || position_ms <= duration_ms {
            position_ms
        } else {
            duration_ms
        }),
{
}

} // verus!
