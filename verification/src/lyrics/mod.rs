//! Lyrics: the timed-line model, LRC parsing, synchronisation with the
//! playback position, provider record matching and the lyrics cache.
pub mod lrc;
pub mod matching;
pub mod cache;
pub mod fetch;

use vstd::prelude::*;

use crate::text::{decimal, digit_char, push_char, push_decimal};

pub use lrc::parse_lrc;

verus! {

/// One timed lyric line.
#[derive(Clone, Debug, PartialEq, Eq)]
pub struct LyricLine {
    pub timestamp_ms: u64,
    pub text: String,
}

impl View for LyricLine {
    type V = (u64, Seq<char>);

    open spec fn view(&self) -> (u64, Seq<char>) {
        (self.timestamp_ms, self.text@)
    }
}

/// The model of a list of lyric lines.
pub open spec fn lines_view(s: Seq<LyricLine>) -> Seq<(u64, Seq<char>)> {
    s.map_values(|l: LyricLine| l@)
}

/// The model of an optional text.
pub open spec fn opt_text(o: Option<String>) -> Option<Seq<char>> {
    match o {
        Some(s) => Some(s@),
        None => None,
    }
}

/// A copy of an optional text.
pub fn copy_opt_text(o: &Option<String>) -> (r: Option<String>)
    ensures
        r == *o,
{
    match o {
        Some(s) => Some(s.clone()),
        None => None,
    }
}

/// Whether two optional texts hold the same characters.
pub fn same_opt_text(a: &Option<String>, b: &Option<String>) -> (r: bool)
    ensures
        r == (opt_text(*a) == opt_text(*b)),
{
    match (a, b) {
        (Some(x), Some(y)) => x.eq(y),
        (None, None) => true,
        _ => false,
    }
}

/// Where the lyrics of the current track stand.
#[derive(Clone, Copy, Debug, PartialEq, Eq, Structural)]
pub enum LyricsStatus {
    Idle,
    Loading,
    Ready,
    Unavailable,
    Error,
}

impl Default for LyricsStatus {
    fn default() -> (s: Self)
        ensures
            s == LyricsStatus::Idle,
    {
        LyricsStatus::Idle
    }
}

/// The lyrics state that `LyricsState::ready` builds from a context.
pub open spec fn ready_lyrics(context: LyricsContext) -> LyricsStateModel {
    LyricsStateModel {
        status: LyricsStatus::Ready,
        previous_line: opt_text(context.previous_line),
        current_line: opt_text(context.current_line),
        next_line: opt_text(context.next_line),
        current_line_index: context.current_line_index,
        error: None,
    }
}

/// The lyrics part of the published media state.
#[derive(Clone, Debug, PartialEq, Eq)]
pub struct LyricsState {
    pub status: LyricsStatus,
    pub previous_line: Option<String>,
    pub current_line: Option<String>,
    pub next_line: Option<String>,
    pub current_line_index: Option<usize>,
    pub error: Option<String>,
}

/// The model of a `LyricsState`.
pub struct LyricsStateModel {
    pub status: LyricsStatus,
    pub previous_line: Option<Seq<char>>,
    pub current_line: Option<Seq<char>>,
    pub next_line: Option<Seq<char>>,
    pub current_line_index: Option<usize>,
    pub error: Option<Seq<char>>,
}

impl View for LyricsState {
    type V = LyricsStateModel;

    open spec fn view(&self) -> LyricsStateModel {
        LyricsStateModel {
            status: self.status,
            previous_line: opt_text(self.previous_line),
            current_line: opt_text(self.current_line),
            next_line: opt_text(self.next_line),
            current_line_index: self.current_line_index,
            error: opt_text(self.error),
        }
    }
}

/// A lyrics state with the given status and no lines, index or error.
pub open spec fn bare_lyrics(status: LyricsStatus) -> LyricsStateModel {
    LyricsStateModel {
        status,
        previous_line: None,
        current_line: None,
        next_line: None,
        current_line_index: None,
        error: None,
    }
}

impl Default for LyricsState {
    fn default() -> (s: Self)
        ensures
            s@ == bare_lyrics(LyricsStatus::Idle),
    {
        LyricsState {
            status: LyricsStatus::Idle,
            previous_line: None,
            current_line: None,
            next_line: None,
            current_line_index: None,
            error: None,
        }
    }
}

impl LyricsState {
    /// Lyrics are being fetched.
    pub fn loading() -> (s: Self)
        ensures
            s@ == bare_lyrics(LyricsStatus::Loading),
    {
        LyricsState { status: LyricsStatus::Loading, ..LyricsState::default() }
    }

    /// The track has no synchronised lyrics.
    pub fn unavailable() -> (s: Self)
        ensures
            s@ == bare_lyrics(LyricsStatus::Unavailable),
    {
        LyricsState { status: LyricsStatus::Unavailable, ..LyricsState::default() }
    }

    /// The lyrics provider failed; `code` says how.
    pub fn error(code: &str) -> (s: Self)
        ensures
            s@ == (LyricsStateModel { error: Some(code@), ..bare_lyrics(LyricsStatus::Error) }),
    {
        LyricsState {
            status: LyricsStatus::Error,
            error: Some(code.to_owned()),
            ..LyricsState::default()
        }
    }

    /// Lyrics are available; `context` holds the lines around the playback
    /// position.
    pub fn ready(context: LyricsContext) -> (s: Self)
        ensures
            s@ == ready_lyrics(context),
    {
        LyricsState {
            status: LyricsStatus::Ready,
            previous_line: context.previous_line,
            current_line: context.current_line,
            next_line: context.next_line,
            current_line_index: context.current_line_index,
            error: None,
        }
    }

    /// A copy of this state.
    pub fn copy(&self) -> (r: Self)
        ensures
            r == *self,
    {
        LyricsState {
            status: self.status,
            previous_line: copy_opt_text(&self.previous_line),
            current_line: copy_opt_text(&self.current_line),
            next_line: copy_opt_text(&self.next_line),
            current_line_index: self.current_line_index,
            error: copy_opt_text(&self.error),
        }
    }

    /// Whether two states hold the same values (`==`).
    pub fn same_as(&self, other: &Self) -> (r: bool)
        ensures
            r == (self@ == other@),
    {
        self.status == other.status && same_opt_text(&self.previous_line, &other.previous_line)
            && same_opt_text(&self.current_line, &other.current_line) && same_opt_text(
            &self.next_line,
            &other.next_line,
        ) && self.current_line_index == other.current_line_index && same_opt_text(
            &self.error,
            &other.error,
        )
    }
}

/// The lyric lines around a playback position.
#[derive(Clone, Debug, Default, PartialEq, Eq)]
pub struct LyricsContext {
    pub previous_line: Option<String>,
    pub current_line: Option<String>,
    pub next_line: Option<String>,
    pub current_line_index: Option<usize>,
}

/// The model of a `LyricsContext`.
pub struct ContextModel {
    pub previous_line: Option<Seq<char>>,
    pub current_line: Option<Seq<char>>,
    pub next_line: Option<Seq<char>>,
    pub current_line_index: Option<usize>,
}

impl View for LyricsContext {
    type V = ContextModel;

    open spec fn view(&self) -> ContextModel {
        ContextModel {
            previous_line: opt_text(self.previous_line),
            current_line: opt_text(self.current_line),
            next_line: opt_text(self.next_line),
            current_line_index: self.current_line_index,
        }
    }
}

/// How many lines start at or before `position_ms`.
pub open spec fn started_count(s: Seq<(u64, Seq<char>)>, position_ms: u64) -> nat
    decreases s.len(),
{
    if s.len() == 0 {
        0
    } else {
        started_count(s.drop_last(), position_ms) + if s.last().0 <= position_ms {
            1nat
        } else {
            0nat
        }
    }
}

/// The lyric context at `position_ms`: the last line that has started, the
/// one before it and the one after it.
pub open spec fn context_at(s: Seq<(u64, Seq<char>)>, position_ms: u64) -> ContextModel {
    let k = started_count(s, position_ms) as int;
    ContextModel {
        previous_line: if k >= 2 {
            Some(s[k - 2].1)
        } else {
            None
        },
        current_line: if k >= 1 {
            Some(s[k - 1].1)
        } else {
            None
        },
        next_line: if k < s.len() {
            Some(s[k].1)
        } else {
            None
        },
        current_line_index: if k >= 1 {
            Some((k - 1) as usize)
        } else {
            None
        },
    }
}

/// In sorted lines, the lines that have started are exactly a prefix.
pub proof fn lemma_started_count(s: Seq<(u64, Seq<char>)>, position_ms: u64, p: int)
    requires
        0 <= p <= s.len(),
        forall|i: int| 0 <= i < p ==> (#[trigger] s[i]).0 <= position_ms,
        forall|i: int| p <= i < s.len() ==> (#[trigger] s[i]).0 > position_ms,
    ensures
        started_count(s, position_ms) == p,
    decreases s.len(),
{
    if s.len() > 0 {
        let t = s.drop_last();
        if p == s.len() {
            assert(s[s.len() - 1].0 <= position_ms);
            assert forall|i: int| 0 <= i < p - 1 implies (#[trigger] t[i]).0 <= position_ms by {
                assert(t[i] == s[i]);
            }
            lemma_started_count(t, position_ms, p - 1);
        } else {
            assert(s[s.len() - 1].0 > position_ms);
            assert forall|i: int| 0 <= i < p implies (#[trigger] t[i]).0 <= position_ms by {
                assert(t[i] == s[i]);
            }
            assert forall|i: int| p <= i < t.len() implies (#[trigger] t[i]).0 > position_ms by {
                assert(t[i] == s[i]);
            }
            lemma_started_count(t, position_ms, p);
        }
    }
}

/// Playing on never moves the lyrics backwards: at a later position the
/// current line is the same or a later one (and seeking back moves it back).
pub proof fn later_position_never_earlier_line(s: Seq<(u64, Seq<char>)>, p1: u64, p2: u64)
    requires
        p1 <= p2,
    ensures
        started_count(s, p1) <= started_count(s, p2),
        started_count(s, p2) <= s.len(),
    decreases s.len(),
{
    if s.len() > 0 {
        later_position_never_earlier_line(s.drop_last(), p1, p2);
    }
}

/// The lyrics state `LyricsState::ready` builds from a context model.
pub open spec fn ready_model(c: ContextModel) -> LyricsStateModel {
    LyricsStateModel {
        status: LyricsStatus::Ready,
        previous_line: c.previous_line,
        current_line: c.current_line,
        next_line: c.next_line,
        current_line_index: c.current_line_index,
        error: None,
    }
}

/// Whether `idx` is the line being sung at `position_ms` in the time-sorted
/// lines `s`: the last line that starts at or before the position, or none
/// when no line has started yet.
pub open spec fn is_current_index(s: Seq<(u64, Seq<char>)>, position_ms: u64, idx: Option<usize>) -> bool {
    match idx {
        None => s.len() == 0 || s[0].0 > position_ms,
        Some(i) => i < s.len() && s[i as int].0 <= position_ms && (i + 1 == s.len() || s[i + 1].0
            > position_ms),
    }
}

/// The lyric context of the time-sorted `lines` at `position_ms`: the
/// current line (the last one that has started), the one before it, and the
/// one after it (the first line when none has started).
pub fn synchronize(lines: &[LyricLine], position_ms: u64) -> (ctx: LyricsContext)
    requires
        lrc::sorted_by_time(lines_view(lines@)),
    ensures
        is_current_index(lines_view(lines@), position_ms, ctx.current_line_index),
        ctx@ == context_at(lines_view(lines@), position_ms),
        opt_text(ctx.current_line) == match ctx.current_line_index {
            Some(i) => Some(lines@[i as int].text@),
            None => None,
        },
        opt_text(ctx.previous_line) == match ctx.current_line_index {
            Some(i) => if i >= 1 {
                Some(lines@[i - 1].text@)
            } else {
                None
            },
            None => None,
        },
        opt_text(ctx.next_line) == match ctx.current_line_index {
            Some(i) => if i + 1 < lines@.len() {
                Some(lines@[i + 1].text@)
            } else {
                None
            },
            None => if lines@.len() > 0 {
                Some(lines@[0].text@)
            } else {
                None
            },
        },
{
    let ghost s = lines_view(lines@);
    // partition_point: the number of lines that start at or before the position.
    let mut lo: usize = 0;
    let mut hi: usize = lines.len();
    while lo < hi
        invariant
            0 <= lo <= hi <= lines@.len(),
            s == lines_view(lines@),
            lrc::sorted_by_time(s),
            forall|i: int| 0 <= i < lo ==> (#[trigger] s[i]).0 <= position_ms,
            forall|i: int| hi <= i < s.len() ==> (#[trigger] s[i]).0 > position_ms,
        decreases hi - lo,
    {
        let mid = lo + (hi - lo) / 2;
        if lines[mid].timestamp_ms <= position_ms {
            assert(s[mid as int].0 <= position_ms);
            assert forall|i: int| 0 <= i < mid + 1 implies (#[trigger] s[i]).0 <= position_ms by {
                assert(s[i].0 <= s[mid as int].0);
            }
            lo = mid + 1;
        } else {
            assert(s[mid as int].0 > position_ms);
            assert forall|i: int| mid <= i < s.len() implies (#[trigger] s[i]).0 > position_ms by {
                assert(s[mid as int].0 <= s[i].0);
            }
            hi = mid;
        }
    }
    let current_line_index: Option<usize> = if lo == 0 {
        None
    } else {
        Some(lo - 1)
    };
    let previous_line = if lo >= 2 {
        Some(lines[lo - 2].text.clone())
    } else {
        None
    };
    let current_line = if lo >= 1 {
        Some(lines[lo - 1].text.clone())
    } else {
        None
    };
    let next_line = if lo < lines.len() {
        Some(lines[lo].text.clone())
    } else {
        None
    };
    if lo < lines.len() {
        assert(s[lo as int].0 > position_ms);
    }
    if lo > 0 {
        assert(s[lo - 1].0 <= position_ms);
    }
    proof {
        lemma_started_count(s, position_ms, lo as int);
    }
    LyricsContext { previous_line, current_line, next_line, current_line_index }
}

// ---------------------------------------------------------------------------
// Provider query.
// ---------------------------------------------------------------------------

/// A duration in milliseconds written as seconds with three decimals
/// (`{:.3}` of the seconds).
pub open spec fn seconds_text(ms: u64) -> Seq<char> {
    decimal((ms / 1000) as nat) + seq![
        '.',
        crate::text::digit_char_spec(((ms % 1000) / 100) as int),
        crate::text::digit_char_spec(((ms % 100) / 10) as int),
        crate::text::digit_char_spec((ms % 10) as int),
    ]
}

/// The duration text of a provider query denotes the duration: the digits
/// before the point are the whole seconds and the three after it the
/// milliseconds.
pub proof fn seconds_text_reads_back(ms: u64)
    ensures
        seconds_text(ms).len() >= 5,
        seconds_text(ms)[seconds_text(ms).len() - 4] == '.',
        lrc::all_digits(seconds_text(ms).take(seconds_text(ms).len() - 4)),
        lrc::digits_value(seconds_text(ms).take(seconds_text(ms).len() - 4)) == ms / 1000,
        lrc::all_digits(seconds_text(ms).skip(seconds_text(ms).len() - 3)),
        lrc::digits_value(seconds_text(ms).skip(seconds_text(ms).len() - 3)) == ms % 1000,
{
    let w = decimal((ms / 1000) as nat);
    let d1 = crate::text::digit_char_spec(((ms % 1000) / 100) as int);
    let d2 = crate::text::digit_char_spec(((ms % 100) / 10) as int);
    let d3 = crate::text::digit_char_spec((ms % 10) as int);
    let t = seconds_text(ms);
    lrc::rendered_decimal_reads_back((ms / 1000) as nat);
    lrc::digit_chars_are_ascii_digits(((ms % 1000) / 100) as int);
    lrc::digit_chars_are_ascii_digits(((ms % 100) / 10) as int);
    lrc::digit_chars_are_ascii_digits((ms % 10) as int);
    let n = t.len();
    assert(t.take(n - 4) =~= w);
    let f = t.skip(n - 3);
    assert(f =~= seq![d1, d2, d3]);
    assert(f.drop_last() =~= seq![d1, d2]);
    assert(f.drop_last().drop_last() =~= seq![d1]);
    assert(f.drop_last().drop_last().drop_last() =~= Seq::<char>::empty());
    reveal_with_fuel(lrc::digits_value, 4);
    assert(lrc::digits_value(f) == ((ms % 1000) / 100 * 10 + (ms % 100) / 10) * 10 + ms % 10);
    assert(((ms % 1000) / 100 * 10 + (ms % 100) / 10) * 10 + ms % 10 == ms % 1000);
}

/// The query parameters of a provider request: the title, the artist and
/// the duration in seconds.  The album is deliberately left out so that a
/// player's album label cannot prevent a match.
pub fn build_search_query(title: &str, artist: &str, _album: Option<&str>, duration_ms: u64) -> (q:
    Vec<(String, String)>)
    ensures
        q@.len() == 3,
        q@[0].0@ == "track_name"@,
        q@[0].1@ == title@,
        q@[1].0@ == "artist_name"@,
        q@[1].1@ == artist@,
        q@[2].0@ == "duration"@,
        q@[2].1@ == seconds_text(duration_ms),
{
    let mut duration = String::new();
    push_decimal(&mut duration, duration_ms / 1000);
    push_char(&mut duration, '.');
    push_char(&mut duration, digit_char((duration_ms % 1000) / 100));
    push_char(&mut duration, digit_char((duration_ms % 100) / 10));
    push_char(&mut duration, digit_char(duration_ms % 10));
    assert(duration@ =~= seconds_text(duration_ms));
    let mut q: Vec<(String, String)> = Vec::new();
    q.push(("track_name".to_owned(), title.to_owned()));
    q.push(("artist_name".to_owned(), artist.to_owned()));
    q.push(("duration".to_owned(), duration));
    q
}

} // verus!
