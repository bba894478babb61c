use lyricrail::lyrics::cache::{
    begin_cached_lookup, finish_cached_lookup, LyricsCache, LyricsCacheKey,
};
use lyricrail::lyrics::fetch::{next_fetch_action, LyricsFetchAction, LyricsFetchEvent, LyricsQuery};
use lyricrail::lyrics::matching::{
    normalize_for_match, resolve_records, resolve_search_or_exact, select_best_record, LrclibRecord,
};
use lyricrail::lyrics::{
    build_search_query, parse_lrc, synchronize, LyricLine, LyricsContext, LyricsState, LyricsStatus,
};

fn record(track: &str, artist: &str, duration_ms: Option<i64>, synced: Option<&str>) -> LrclibRecord {
    LrclibRecord {
        track_name: track.into(),
        artist_name: artist.into(),
        duration_ms,
        synced_lyrics: synced.map(|s| s.to_owned()),
    }
}

#[test]
fn parses_and_sorts_lrc_timestamps() {
    let lines = parse_lrc("[00:01.20]Second\n[00:00.05]Short fraction\n[00:00.00]First\n[00:01.205]Almost second\n[bad]Ignored");

    assert_eq!(
        lines
            .iter()
            .map(|line| (line.timestamp_ms, line.text.as_str()))
            .collect::<Vec<_>>(),
        vec![
            (0, "First"),
            (50, "Short fraction"),
            (1_200, "Second"),
            (1_205, "Almost second"),
        ]
    );
}

#[test]
fn synchronizes_previous_current_and_next_context_at_boundaries() {
    let lines = parse_lrc("[00:10.00]First\n[00:20.00]Second\n[00:30.00]Third");

    let before_first = synchronize(&lines, 9_999);
    assert_eq!(before_first.previous_line, None);
    assert_eq!(before_first.current_line, None);
    assert_eq!(before_first.next_line.as_deref(), Some("First"));

    let at_first = synchronize(&lines, 10_000);
    assert_eq!(at_first.previous_line, None);
    assert_eq!(at_first.current_line.as_deref(), Some("First"));
    assert_eq!(at_first.next_line.as_deref(), Some("Second"));

    let between_lines = synchronize(&lines, 25_000);
    assert_eq!(between_lines.previous_line.as_deref(), Some("First"));
    assert_eq!(between_lines.current_line.as_deref(), Some("Second"));
    assert_eq!(between_lines.next_line.as_deref(), Some("Third"));

    let after_last = synchronize(&lines, 31_000);
    assert_eq!(after_last.previous_line.as_deref(), Some("Second"));
    assert_eq!(after_last.current_line.as_deref(), Some("Third"));
    assert_eq!(after_last.next_line, None);
}

#[test]
fn synchronizing_empty_lyrics_returns_empty_context() {
    let context = synchronize(&[], 42_000);

    assert_eq!(context.previous_line, None);
    assert_eq!(context.current_line, None);
    assert_eq!(context.next_line, None);
    assert_eq!(context.current_line_index, None);
}

#[test]
fn chooses_the_synced_result_with_the_closest_duration() {
    let records = vec![
        record("Track", "Artist", Some(240_000), Some("[00:00.00]Far")),
        record("Track", "Artist", Some(180_000), Some("[00:00.00]Near")),
    ];

    let selected = select_best_record(records, "Track", "Artist", 181_000)
        .expect("a matching record should be selected");

    assert_eq!(selected.duration_ms, Some(180_000));
    assert_eq!(selected.synced_lyrics.as_deref(), Some("[00:00.00]Near"));
}

#[test]
fn matches_common_metadata_variants_without_matching_wrong_duration() {
    let records = vec![
        record(
            "Fall Into You (Live at Studio)",
            "Ash-Anders",
            Some(211_000),
            Some("[00:00.00]Wrong duration"),
        ),
        record(
            "Fall Into You [Remastered 2024]",
            "Ash Anders",
            Some(180_500),
            Some("[00:00.00]Matching lyrics"),
        ),
    ];

    let selected = select_best_record(records, " fall-into-you ", "ASH   ANDERS", 181_000)
        .expect("metadata variants should still match");

    assert_eq!(selected.duration_ms, Some(180_500));
    assert_eq!(
        selected.synced_lyrics.as_deref(),
        Some("[00:00.00]Matching lyrics")
    );
}

#[test]
fn empty_search_response_resolves_to_unavailable_without_loading() {
    let lyrics = resolve_records(Vec::new(), "Track", "Artist", 180_000);

    assert_eq!(lyrics, None);
}

#[test]
fn malformed_synced_lyrics_resolve_to_unavailable() {
    let lyrics = resolve_records(
        vec![record("Track", "Artist", Some(180_000), Some("not an lrc document"))],
        "Track",
        "Artist",
        180_000,
    );

    assert_eq!(lyrics, None);
}

#[test]
fn provider_query_does_not_require_spotify_album_label_to_match() {
    let query = build_search_query("deserve", "Jake Clark", Some("wrong album"), 170_000);

    assert_eq!(
        query,
        vec![
            ("track_name".to_owned(), "deserve".to_owned()),
            ("artist_name".to_owned(), "Jake Clark".to_owned()),
            ("duration".to_owned(), "170.000".to_owned()),
        ]
    );
}

#[test]
fn lyrics_cache_keeps_unavailable_results_and_expires_them() {
    let mut cache = LyricsCache::new(2, 30_000);
    let key = LyricsCacheKey::new("  Track (Remastered) ", "Artist", Some("Album"), 180_000);
    let start: u64 = 1_000_000;

    cache.insert(key.clone(), None, start);

    assert_eq!(cache.get(&key, start + 29_000), Some(None));
    assert_eq!(cache.get(&key, start + 31_000), None);
}

#[test]
fn lyrics_cache_evicts_the_oldest_entry_at_capacity() {
    let mut cache = LyricsCache::new(2, 30_000);
    let first = LyricsCacheKey::new("First", "Artist", None, 100_000);
    let second = LyricsCacheKey::new("Second", "Artist", None, 100_000);
    let third = LyricsCacheKey::new("Third", "Artist", None, 100_000);
    let start: u64 = 1_000_000;

    cache.insert(first.clone(), Some(Vec::new()), start);
    cache.insert(second.clone(), Some(Vec::new()), start + 1_000);
    cache.insert(third.clone(), Some(Vec::new()), start + 2_000);

    assert_eq!(cache.get(&first, start + 3_000), None);
    assert_eq!(cache.get(&second, start + 3_000), Some(Some(Vec::new())));
    assert_eq!(cache.get(&third, start + 3_000), Some(Some(Vec::new())));
}

#[test]
fn accepts_a_reasonable_duration_drift_for_an_alternate_cut() {
    let selected = select_best_record(
        vec![record("Maybe Next Time", "Jamie Miller", Some(188_000), Some("[00:18.00]Lyrics"))],
        "Maybe Next Time",
        "Jamie Miller",
        180_000,
    );

    assert!(selected.is_some());
}

#[test]
fn exact_record_fallback_resolves_when_search_has_no_usable_match() {
    let lyrics = resolve_search_or_exact(
        Vec::new(),
        Some(record("Maybe Next Time", "Jamie Miller", Some(188_000), Some("[00:18.00]Lyrics"))),
        "Maybe Next Time",
        "Jamie Miller",
        180_000,
    );

    assert_eq!(
        lyrics.map(|lines| lines[0].text.clone()),
        Some("Lyrics".to_owned())
    );
}

// ---------------------------------------------------------------------------
// Further cases.
// ---------------------------------------------------------------------------

#[test]
fn multiple_time_tags_repeat_the_line_and_equal_times_keep_document_order() {
    let lines = parse_lrc("[00:02.00][00:01.00]Chorus\n[00:01.00]Other\n");
    assert_eq!(
        lines
            .iter()
            .map(|line| (line.timestamp_ms, line.text.as_str()))
            .collect::<Vec<_>>(),
        vec![(1_000, "Chorus"), (1_000, "Other"), (2_000, "Chorus")]
    );
}

#[test]
fn timestamps_accept_tenths_minutes_past_an_hour_and_reject_bad_seconds() {
    let lines = parse_lrc(
        "[00:01.5]Tenths\n[75:00]Long\n[00:60.00]Bad seconds\n[00:10.00]   \n[00:03.123456]Truncated\r\n[+1:02]Plus\n[ar:Someone]Metadata tag",
    );
    assert_eq!(
        lines
            .iter()
            .map(|line| (line.timestamp_ms, line.text.as_str()))
            .collect::<Vec<_>>(),
        vec![
            (1_500, "Tenths"),
            (3_123, "Truncated"),
            (62_000, "Plus"),
            (4_500_000, "Long"),
        ]
    );
}

#[test]
fn unclosed_tag_discards_the_line() {
    assert_eq!(parse_lrc("[00:01.00]Kept\n[00:02.00"), vec![LyricLine { timestamp_ms: 1_000, text: "Kept".to_owned() }]);
    assert_eq!(parse_lrc(""), Vec::new());
}

#[test]
fn synchronize_reports_the_current_index() {
    let lines = parse_lrc("[00:10.00]First\n[00:20.00]Second\n[00:30.00]Third");
    assert_eq!(synchronize(&lines, 20_000).current_line_index, Some(1));
    assert_eq!(synchronize(&lines, 0).current_line_index, None);
}

#[test]
fn lyrics_state_constructors_set_status_and_error() {
    assert_eq!(LyricsState::loading().status, LyricsStatus::Loading);
    assert_eq!(LyricsState::unavailable().status, LyricsStatus::Unavailable);
    let error = LyricsState::error("providerUnavailable");
    assert_eq!(error.status, LyricsStatus::Error);
    assert_eq!(error.error.as_deref(), Some("providerUnavailable"));
    assert_eq!(error.current_line, None);
    let ready = LyricsState::ready(LyricsContext {
        previous_line: Some("Previous".into()),
        current_line: Some("Current".into()),
        next_line: Some("Next".into()),
        current_line_index: Some(1),
    });
    assert_eq!(ready.status, LyricsStatus::Ready);
    assert_eq!(ready.previous_line.as_deref(), Some("Previous"));
    assert_eq!(ready.current_line.as_deref(), Some("Current"));
    assert_eq!(ready.next_line.as_deref(), Some("Next"));
    assert_eq!(ready.current_line_index, Some(1));
    assert_eq!(ready.error, None);
    assert_eq!(LyricsState::default().status, LyricsStatus::Idle);
}

#[test]
fn normalization_strips_metadata_and_punctuation() {
    assert_eq!(normalize_for_match(" Fall Into You (Live at Studio) "), "fall into you");
    assert_eq!(normalize_for_match("Fall Into You [Remastered 2024]"), "fall into you");
    assert_eq!(normalize_for_match("Song (feat. Someone)"), "song");
    assert_eq!(normalize_for_match("Rock & Roll (Radio Edit) (Mono)"), "rock roll");
    assert_eq!(normalize_for_match("ASH   ANDERS"), "ash anders");
    assert_eq!(normalize_for_match(""), "");
}

#[test]
fn wrong_duration_and_missing_lyrics_do_not_match() {
    assert!(select_best_record(
        vec![record("Track", "Artist", Some(200_000), Some("[00:00.00]Late"))],
        "Track",
        "Artist",
        180_000,
    )
    .is_none());
    assert!(select_best_record(
        vec![record("Track", "Artist", Some(180_000), Some("   "))],
        "Track",
        "Artist",
        180_000,
    )
    .is_none());
    assert!(select_best_record(
        vec![record("Track", "Artist", Some(180_000), None)],
        "Track",
        "Artist",
        180_000,
    )
    .is_none());
    // Without a known track length any duration matches.
    assert!(select_best_record(
        vec![record("Track", "Artist", Some(999_000), Some("[00:00.00]Any"))],
        "Track",
        "Artist",
        0,
    )
    .is_some());
}

#[test]
fn equally_close_records_resolve_to_the_first() {
    let selected = select_best_record(
        vec![
            record("Track", "Artist", Some(179_000), Some("[00:00.00]Early")),
            record("Track", "Artist", Some(181_000), Some("[00:00.00]Late")),
        ],
        "Track",
        "Artist",
        180_000,
    )
    .expect("a record should match");
    assert_eq!(selected.synced_lyrics.as_deref(), Some("[00:00.00]Early"));
}

#[test]
fn cache_replaces_an_existing_key_and_zero_capacity_stores_nothing() {
    let mut cache = LyricsCache::new(1, 30_000);
    let key = LyricsCacheKey::new("Track", "Artist", None, 1);
    cache.insert(key.clone(), None, 0);
    let lines = vec![LyricLine { timestamp_ms: 5, text: "Hi".into() }];
    cache.insert(key.clone(), Some(lines.clone()), 10);
    assert_eq!(cache.get(&key, 20), Some(Some(lines)));

    let mut empty = LyricsCache::new(0, 30_000);
    empty.insert(key.clone(), None, 0);
    assert_eq!(empty.get(&key, 0), None);
}

#[test]
fn cache_keys_compare_normalised_metadata() {
    let a = LyricsCacheKey::new("  Track (Remastered) ", "ARTIST", None, 5);
    let b = LyricsCacheKey::new("track", "artist", Some(""), 5);
    assert_eq!(a, b);
    assert_eq!(a.title, "track");
}

#[test]
fn fetch_plan_searches_then_falls_back_to_the_exact_record() {
    let query = LyricsQuery {
        title: "Maybe Next Time".into(),
        artist: "Jamie Miller".into(),
        album: None,
        duration_ms: 180_000,
    };
    match next_fetch_action(&query, LyricsFetchEvent::Start) {
        LyricsFetchAction::RequestSearch(q) => assert_eq!(q[2].1, "180.000"),
        _ => panic!("the lookup starts with a search"),
    }
    assert!(matches!(
        next_fetch_action(&query, LyricsFetchEvent::SearchResponse(500)),
        LyricsFetchAction::Finish(Err(500))
    ));
    assert!(matches!(
        next_fetch_action(&query, LyricsFetchEvent::SearchResponse(404)),
        LyricsFetchAction::RequestExact(_)
    ));
    assert!(matches!(
        next_fetch_action(&query, LyricsFetchEvent::SearchResponse(200)),
        LyricsFetchAction::ReadSearchRecords
    ));
    assert!(matches!(
        next_fetch_action(&query, LyricsFetchEvent::SearchRecords(Vec::new())),
        LyricsFetchAction::RequestExact(_)
    ));
    assert!(matches!(
        next_fetch_action(&query, LyricsFetchEvent::ExactResponse(404)),
        LyricsFetchAction::Finish(Ok(None))
    ));
    assert!(matches!(
        next_fetch_action(&query, LyricsFetchEvent::ExactResponse(503)),
        LyricsFetchAction::Finish(Err(503))
    ));
    match next_fetch_action(
        &query,
        LyricsFetchEvent::ExactRecord(record("Maybe Next Time", "Jamie Miller", Some(188_000), Some("[00:18.00]Lyrics"))),
    ) {
        LyricsFetchAction::Finish(Ok(Some(lines))) => assert_eq!(lines[0].timestamp_ms, 18_000),
        _ => panic!("the exact record resolves"),
    }
    match next_fetch_action(
        &query,
        LyricsFetchEvent::SearchRecords(vec![record("Maybe Next Time", "Jamie Miller", Some(180_000), Some("[00:01.00]Found"))]),
    ) {
        LyricsFetchAction::Finish(Ok(Some(lines))) => assert_eq!(lines[0].text, "Found"),
        _ => panic!("the search record resolves"),
    }
}

#[test]
fn search_query_renders_milliseconds_with_three_decimals() {
    let query = build_search_query("a", "b", None, 5);
    assert_eq!(query[2].1, "0.005");
    let query = build_search_query("a", "b", None, 1_234_567);
    assert_eq!(query[2].1, "1234.567");
}

#[test]
fn ready_state_serializes_all_three_lyrics_context_lines() {
    let state = LyricsState::ready(LyricsContext {
        previous_line: Some("Previous".into()),
        current_line: Some("Current".into()),
        next_line: Some("Next".into()),
        current_line_index: Some(1),
    });

    assert_eq!(state.status, LyricsStatus::Ready);
    assert_eq!(state.previous_line.as_deref(), Some("Previous"));
    assert_eq!(state.current_line.as_deref(), Some("Current"));
    assert_eq!(state.next_line.as_deref(), Some("Next"));
    assert_eq!(state.current_line_index, Some(1));
}

#[test]
fn normalization_drops_featured_artists_and_dash_metadata() {
    assert_eq!(normalize_for_match("Song"), "song");
    assert_eq!(normalize_for_match("Song (feat. Artist)"), normalize_for_match("Song"));
    assert_eq!(normalize_for_match("Song - Live"), normalize_for_match("Song"));
    assert_eq!(normalize_for_match("Song [ft. Someone]"), "song");
    assert_eq!(normalize_for_match("Song (Featuring Someone) - Remastered 2011"), "song");
    assert_eq!(normalize_for_match("Song - Live (feat. Artist)"), "song");
    assert_eq!(normalize_for_match("Re-Mix"), "re mix");
    assert_eq!(normalize_for_match("Song - Part Two"), "song part two");
    assert_eq!(normalize_for_match("Song (Feature Film)"), "song feature film");
}

#[test]
fn cached_lookup_stores_answers_but_not_failures() {
    let mut cache = LyricsCache::new(4, 60_000);
    let lines = vec![LyricLine { timestamp_ms: 0, text: "Hello".into() }];

    let (key, hit) = begin_cached_lookup(&mut cache, "Song (Live)", "Artist", None, 180_000, 1_000);
    assert_eq!(hit, None);
    let failed: Result<Option<Vec<LyricLine>>, &str> = Err("offline");
    assert_eq!(finish_cached_lookup(&mut cache, key, failed, 1_000), Err("offline"));
    let (key, hit) = begin_cached_lookup(&mut cache, "Song", "Artist", None, 180_000, 2_000);
    assert_eq!(hit, None);

    let found: Result<Option<Vec<LyricLine>>, &str> = Ok(Some(lines.clone()));
    assert_eq!(finish_cached_lookup(&mut cache, key, found, 2_000), Ok(Some(lines.clone())));
    let (_, hit) = begin_cached_lookup(&mut cache, "song - live", "ARTIST", None, 180_000, 3_000);
    assert_eq!(hit, Some(Some(lines)));

    let (key, _) = begin_cached_lookup(&mut cache, "Other", "Artist", None, 180_000, 3_000);
    let none: Result<Option<Vec<LyricLine>>, &str> = Ok(None);
    assert_eq!(finish_cached_lookup(&mut cache, key, none, 3_000), Ok(None));
    let (_, hit) = begin_cached_lookup(&mut cache, "Other", "Artist", None, 180_000, 62_999);
    assert_eq!(hit, Some(None));
    let (_, hit) = begin_cached_lookup(&mut cache, "Other", "Artist", None, 180_000, 63_000);
    assert_eq!(hit, None);
}

#[test]
fn normalised_keys_are_stable_and_single_spaced() {
    for value in [
        "  Fall Into You (Live at Studio) ",
        "Song (feat. Artist) - Remastered",
        "Rock & Roll -- Part 2",
        "ΣΊΣΥΦΟΣ",
        "",
        "   ",
        "(Live)",
    ] {
        let key = normalize_for_match(value);
        assert_eq!(normalize_for_match(&key), key);
        assert_eq!(key.trim(), key);
        assert!(!key.contains("  "));
        assert!(key.chars().all(|c| c == ' ' || c.is_alphanumeric()));
    }
}
