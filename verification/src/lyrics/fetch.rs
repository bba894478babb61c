//! The decisions of a lyrics lookup with the provider.  The caller performs
//! each requested action (an HTTP request, reading a JSON body) and reports
//! its outcome as the next event.
use vstd::prelude::*;

use crate::lyrics::lrc::Entry;
use crate::lyrics::matching::{opt_lines, search_or_exact_lyrics, resolve_search_or_exact, LrclibRecord};
use crate::lyrics::{build_search_query, seconds_text, LyricLine};

verus! {

/// The track whose lyrics are looked up.
#[derive(Clone, Debug, PartialEq, Eq)]
pub struct LyricsQuery {
    pub title: String,
    pub artist: String,
    pub album: Option<String>,
    pub duration_ms: u64,
}

/// What happened since the last action.
pub enum LyricsFetchEvent {
    /// The lookup begins.
    Start,
    /// The search request was answered with this HTTP status.
    SearchResponse(u16),
    /// The search response body held these records.
    SearchRecords(Vec<LrclibRecord>),
    /// The exact-match request was answered with this HTTP status.
    ExactResponse(u16),
    /// The exact-match response body held this record.
    ExactRecord(LrclibRecord),
}

/// What the caller does next.
pub enum LyricsFetchAction {
    /// Send the search request with these query parameters.
    RequestSearch(Vec<(String, String)>),
    /// Read the search response body as a list of records.
    ReadSearchRecords,
    /// Send the exact-match request with these query parameters.
    RequestExact(Vec<(String, String)>),
    /// Read the exact-match response body as one record.
    ReadExactRecord,
    /// The lookup is over: the lyrics (`None` when the track has none), or
    /// the HTTP status of a failed request.
    Finish(Result<Option<Vec<LyricLine>>, u16>),
}

/// Whether an HTTP status is a success (2xx).
pub open spec fn is_success(status: u16) -> bool {
    200 <= status <= 299
}

/// The track's duration as a signed count for record matching.
pub open spec fn signed_duration(duration_ms: u64) -> i64 {
    if duration_ms > i64::MAX {
        i64::MAX
    } else {
        duration_ms as i64
    }
}

/// Whether a query parameter list is the provider query of the track.
pub open spec fn is_query_for(q: Seq<(String, String)>, query: LyricsQuery) -> bool {
    &&& q.len() == 3
    &&& q[0].0@ == "track_name"@ && q[0].1@ == query.title@
    &&& q[1].0@ == "artist_name"@ && q[1].1@ == query.artist@
    &&& q[2].0@ == "duration"@ && q[2].1@ == seconds_text(query.duration_ms)
}

/// The model of a finished lookup.
pub open spec fn finish_model(r: Result<Option<Vec<LyricLine>>, u16>) -> Result<Option<Seq<Entry>>, u16> {
    match r {
        Ok(l) => Ok(opt_lines(l)),
        Err(s) => Err(s),
    }
}

/// `signed_duration` on a concrete duration.
fn signed(duration_ms: u64) -> (d: i64)
    ensures
        d == signed_duration(duration_ms),
{
    if duration_ms > i64::MAX as u64 {
        i64::MAX
    } else {
        duration_ms as i64
    }
}

/// The next action of a lookup.  The search comes first; a failed search
/// request ends the lookup with its status, a missing search result counts
/// as no records.  When no search record yields lyrics, the exact-match
/// request follows: not found means no lyrics, another failure ends the
/// lookup with its status, and otherwise the exact record decides.
pub fn next_fetch_action(query: &LyricsQuery, event: LyricsFetchEvent) -> (a: LyricsFetchAction)
    ensures
        match event {
            LyricsFetchEvent::Start => a matches LyricsFetchAction::RequestSearch(q) && is_query_for(q@, *query),
            LyricsFetchEvent::SearchResponse(status) => if status == 404 {
                (search_or_exact_lyrics(Seq::empty(), None, query.title@, query.artist@, signed_duration(query.duration_ms)) is None)
                    && (a matches LyricsFetchAction::RequestExact(q) && is_query_for(q@, *query))
            } else if !is_success(status) {
                a matches LyricsFetchAction::Finish(r) && r == Err::<Option<Vec<LyricLine>>, u16>(status)
            } else {
                a is ReadSearchRecords
            },
            LyricsFetchEvent::SearchRecords(records) => {
                let found = search_or_exact_lyrics(records@, None, query.title@, query.artist@, signed_duration(query.duration_ms));
                match found {
                    Some(l) => a matches LyricsFetchAction::Finish(r) && finish_model(r) == Ok::<Option<Seq<Entry>>, u16>(Some(l)),
                    None => a matches LyricsFetchAction::RequestExact(q) && is_query_for(q@, *query),
                }
            },
            LyricsFetchEvent::ExactResponse(status) => if status == 404 {
                a matches LyricsFetchAction::Finish(r) && r matches Ok(None)
            } else if !is_success(status) {
                a matches LyricsFetchAction::Finish(r) && r == Err::<Option<Vec<LyricLine>>, u16>(status)
            } else {
                a is ReadExactRecord
            },
            LyricsFetchEvent::ExactRecord(record) => a matches LyricsFetchAction::Finish(r)
                && finish_model(r) == Ok::<Option<Seq<Entry>>, u16>(search_or_exact_lyrics(
                Seq::empty(),
                Some(record),
                query.title@,
                query.artist@,
                signed_duration(query.duration_ms),
            )),
        },
{
    let duration = signed(query.duration_ms);
    match event {
        LyricsFetchEvent::Start => LyricsFetchAction::RequestSearch(
            build_search_query(query.title.as_str(), query.artist.as_str(), None, query.duration_ms),
        ),
        LyricsFetchEvent::SearchResponse(status) => {
            if status == 404 {
                // Not found: no records, so the search resolves to nothing.
                let records: Vec<LrclibRecord> = Vec::new();
                assert(records@ =~= Seq::<LrclibRecord>::empty());
                let none = resolve_search_or_exact(
                    records,
                    None,
                    query.title.as_str(),
                    query.artist.as_str(),
                    duration,
                );
                match none {
                    Some(lines) => LyricsFetchAction::Finish(Ok(Some(lines))),
                    None => LyricsFetchAction::RequestExact(
                        build_search_query(query.title.as_str(), query.artist.as_str(), None, query.duration_ms),
                    ),
                }
            } else if !(200 <= status && status <= 299) {
                LyricsFetchAction::Finish(Err(status))
            } else {
                LyricsFetchAction::ReadSearchRecords
            }
        },
        LyricsFetchEvent::SearchRecords(records) => {
            match resolve_search_or_exact(records, None, query.title.as_str(), query.artist.as_str(), duration) {
                Some(lines) => LyricsFetchAction::Finish(Ok(Some(lines))),
                None => LyricsFetchAction::RequestExact(
                    build_search_query(query.title.as_str(), query.artist.as_str(), None, query.duration_ms),
                ),
            }
        },
        LyricsFetchEvent::ExactResponse(status) => {
            if status == 404 {
                LyricsFetchAction::Finish(Ok(None))
            } else if !(200 <= status && status <= 299) {
                LyricsFetchAction::Finish(Err(status))
            } else {
                LyricsFetchAction::ReadExactRecord
            }
        },
        LyricsFetchEvent::ExactRecord(record) => {
            let empty: Vec<LrclibRecord> = Vec::new();
            assert(empty@ =~= Seq::<LrclibRecord>::empty());
            LyricsFetchAction::Finish(
                Ok(resolve_search_or_exact(empty, Some(record), query.title.as_str(), query.artist.as_str(), duration)),
            )
        },
    }
}

} // verus!
