use lyricrail::lyrics::{LyricLine, LyricsState, LyricsStatus};
use lyricrail::media::controls::{key_presses, send_outcome, virtual_key, KeyEvent, MediaControl};
use lyricrail::media::session::{
    activate_session, apply_lyrics_result, encode_artwork_url, is_supported_media_source,
    merge_media_state, milliseconds, projected_position_ms, register_session, remove_session,
    should_hide_idle_widget, snapshot_from_model, tick_active_lyrics, update_session_state,
    windows_ticks_to_milliseconds, ArtworkImage, MediaInfo, MediaStateErrorCode, TimelineTicks,
    WorkerState,
};
use lyricrail::media::{MediaState, SessionSnapshot};

fn snapshot(id: usize, title: &str, artist: &str, position_ms: i64) -> SessionSnapshot {
    SessionSnapshot {
        session_id: id,
        title: title.into(),
        artist: artist.into(),
        album: None,
        source_app: "Spotify.exe".into(),
        playback_status: "Playing".into(),
        position_ms,
        duration_ms: 200_000,
    }
}

#[test]
fn default_media_state_represents_no_active_session() {
    let state = MediaState::default();

    assert_eq!(state.track_id, None);
    assert_eq!(state.title, "");
    assert_eq!(state.artist, "");
    assert_eq!(state.album, None);
    assert_eq!(state.source_app, None);
    assert_eq!(state.playback_status, "NoMedia");
    assert_eq!(state.position_ms, 0);
    assert_eq!(state.duration_ms, 0);
}

#[test]
fn session_snapshot_normalizes_empty_optional_metadata() {
    let state = MediaState::from_session_snapshot(SessionSnapshot {
        session_id: 42,
        title: "  A Track  ".into(),
        artist: "".into(),
        album: Some("   ".into()),
        source_app: "Spotify.exe".into(),
        playback_status: "Playing".into(),
        position_ms: -50,
        duration_ms: 210_000,
    });

    assert_eq!(state.track_id.as_deref(), Some("42"));
    assert_eq!(state.title, "A Track");
    assert_eq!(state.artist, "");
    assert_eq!(state.album, None);
    assert_eq!(state.source_app.as_deref(), Some("Spotify.exe"));
    assert_eq!(state.playback_status, "Playing");
    assert_eq!(state.position_ms, 0);
    assert_eq!(state.duration_ms, 210_000);
}

#[test]
fn model_only_updates_preserve_artwork_while_media_updates_can_clear_it() {
    let snap = SessionSnapshot {
        session_id: 99,
        title: "Song".into(),
        artist: "Artist".into(),
        album: None,
        source_app: "Spotify.exe".into(),
        playback_status: "Playing".into(),
        position_ms: 1_000,
        duration_ms: 2_000,
    };
    let previous_artwork_url: Option<String> = Some("data:image/png;base64,AAAA".into());

    let preserved = merge_media_state(snap, previous_artwork_url.clone(), None);
    assert_eq!(preserved.artwork_url, previous_artwork_url);
    assert_eq!(preserved.error, None);

    let cleared = merge_media_state(
        SessionSnapshot {
            session_id: 99,
            title: "Song".into(),
            artist: "Artist".into(),
            album: None,
            source_app: "Spotify.exe".into(),
            playback_status: "Playing".into(),
            position_ms: 1_000,
            duration_ms: 2_000,
        },
        previous_artwork_url,
        Some(None),
    );
    assert_eq!(cleared.artwork_url, None);
    assert_eq!(cleared.error, None);
}

#[test]
fn image_bytes_are_encoded_as_a_data_url() {
    let image = ArtworkImage {
        content_type: "image/jpeg".into(),
        data: vec![0x66, 0x6f, 0x6f],
    };

    assert_eq!(encode_artwork_url(&image), "data:image/jpeg;base64,Zm9v");
}

#[test]
fn converts_windows_timeline_ticks_to_milliseconds() {
    assert_eq!(windows_ticks_to_milliseconds(1_880_000_000), 188_000);
    assert_eq!(windows_ticks_to_milliseconds(10_000), 1);
    assert_eq!(windows_ticks_to_milliseconds(-10_000), -1);
}

#[test]
fn projects_playing_position_forward_for_lyric_sync() {
    assert_eq!(
        projected_position_ms(12_000, 180_000, "Playing", 750),
        12_750
    );
}

#[test]
fn does_not_project_paused_position_forward() {
    assert_eq!(
        projected_position_ms(12_000, 180_000, "Paused", 750),
        12_000
    );
}

#[test]
fn clamps_projected_position_to_track_duration() {
    assert_eq!(
        projected_position_ms(179_900, 180_000, "Playing", 750),
        180_000
    );
}

#[test]
fn accepts_supported_media_sources() {
    assert!(is_supported_media_source(
        "SpotifyAB.SpotifyMusic_zpdnekdrzrea0"
    ));
}

#[test]
fn rejects_unrelated_media_sources() {
    assert!(!is_supported_media_source("foobar.video.player"));
    assert!(!is_supported_media_source("Windows Media Player"));
    assert!(!is_supported_media_source("Google Chrome"));
    assert!(!is_supported_media_source("Microsoft Edge"));
    assert!(!is_supported_media_source("YouTube Music"));
    assert!(!is_supported_media_source("YouTube"));
}

#[test]
fn idle_widget_hides_only_after_five_minutes_without_an_active_track() {
    let mut worker = WorkerState::default();
    let start: u64 = 1_000_000;

    assert!(!should_hide_idle_widget(&mut worker, start));
    assert!(!should_hide_idle_widget(&mut worker, start + 299_000));
    assert!(should_hide_idle_widget(&mut worker, start + 300_000));
}

#[test]
fn maps_controls_to_windows_media_virtual_keys() {
    assert_eq!(virtual_key(MediaControl::Previous), 0xB1);
    assert_eq!(virtual_key(MediaControl::PlayPause), 0xB3);
    assert_eq!(virtual_key(MediaControl::Next), 0xB0);
}

// ---------------------------------------------------------------------------
// Further cases.
// ---------------------------------------------------------------------------

#[test]
fn default_media_state_has_no_artwork_and_normalizes_metadata() {
    let state = MediaState::default();

    assert_eq!(state.track_id, None);
    assert_eq!(state.title, "");
    assert_eq!(state.artist, "");
    assert_eq!(state.album, None);
    assert_eq!(state.source_app, None);
    assert_eq!(state.playback_status, "NoMedia");
    assert_eq!(state.position_ms, 0);
    assert_eq!(state.duration_ms, 0);
    assert_eq!(state.artwork_url, None);
    assert_eq!(state.lyrics, LyricsState::default());
    assert_eq!(state.error, None);

    let normalized = MediaState::from_session_snapshot(SessionSnapshot {
        session_id: 7,
        title: "  Track Title  ".into(),
        artist: "  Artist Name  ".into(),
        album: Some("   ".into()),
        source_app: "  Spotify.exe  ".into(),
        playback_status: " Playing ".into(),
        position_ms: -10,
        duration_ms: 123_456,
    });

    assert_eq!(normalized.track_id.as_deref(), Some("7"));
    assert_eq!(normalized.title, "Track Title");
    assert_eq!(normalized.artist, "Artist Name");
    assert_eq!(normalized.album, None);
    assert_eq!(normalized.source_app.as_deref(), Some("Spotify.exe"));
    assert_eq!(normalized.playback_status, "Playing");
    assert_eq!(normalized.position_ms, 0);
    assert_eq!(normalized.duration_ms, 123_456);
    assert_eq!(normalized.artwork_url, None);
    assert_eq!(normalized.lyrics, LyricsState::default());
    assert_eq!(normalized.error, None);
}

#[test]
fn session_manager_error_states_keep_no_media_defaults_and_serialize_typed_codes() {
    let unavailable = MediaState::session_manager_unavailable();
    let disconnected = MediaState::session_manager_disconnected();

    for (state, expected_code) in [
        (unavailable, MediaStateErrorCode::SessionManagerUnavailable),
        (disconnected, MediaStateErrorCode::SessionManagerDisconnected),
    ] {
        assert_eq!(state.track_id, None);
        assert_eq!(state.title, "");
        assert_eq!(state.artist, "");
        assert_eq!(state.album, None);
        assert_eq!(state.source_app, None);
        assert_eq!(state.playback_status, "NoMedia");
        assert_eq!(state.position_ms, 0);
        assert_eq!(state.duration_ms, 0);
        assert_eq!(state.artwork_url, None);
        assert_eq!(state.error.map(|error| error.code), Some(expected_code));
    }
}

#[test]
fn blank_playback_status_becomes_unknown_and_ticks_truncate_toward_zero() {
    let state = MediaState::from_session_snapshot(SessionSnapshot {
        session_id: 0,
        title: "T".into(),
        artist: "A".into(),
        album: Some(" Album ".into()),
        source_app: "  ".into(),
        playback_status: "  ".into(),
        position_ms: 5,
        duration_ms: -1,
    });
    assert_eq!(state.track_id.as_deref(), Some("0"));
    assert_eq!(state.playback_status, "Unknown");
    assert_eq!(state.album.as_deref(), Some("Album"));
    assert_eq!(state.source_app, None);
    assert_eq!(state.duration_ms, 0);
    assert_eq!(windows_ticks_to_milliseconds(-15_000), -1);
    assert_eq!(milliseconds(-1), 0);
    assert_eq!(milliseconds(7), 7);
}

#[test]
fn snapshots_are_built_from_session_models() {
    let s = snapshot_from_model(
        3,
        Some(MediaInfo { title: "T".into(), artist: "A".into(), album_title: None }),
        "Spotify.exe".into(),
        None,
        Some(TimelineTicks { start: 10_000, end: 2_010_000, position: 25_000 }),
    );
    assert_eq!(s.playback_status, "Unknown");
    assert_eq!(s.position_ms, 2);
    assert_eq!(s.duration_ms, 200);
    let empty = snapshot_from_model(4, None, "x".into(), Some("Paused".into()), None);
    assert_eq!(empty.title, "");
    assert_eq!(empty.position_ms, 0);
    assert_eq!(empty.playback_status, "Paused");
}

#[test]
fn playing_status_is_matched_in_any_ascii_case_and_positions_saturate() {
    assert_eq!(projected_position_ms(1_000, 0, "PLAYING", 500), 1_500);
    assert_eq!(projected_position_ms(u64::MAX - 1, 0, "playing", 10), u64::MAX);
    assert_eq!(projected_position_ms(1_000, 0, "Stopped", 500), 1_000);
}

#[test]
fn key_presses_are_a_key_down_then_a_key_up() {
    assert_eq!(
        key_presses(MediaControl::Next),
        vec![
            KeyEvent { virtual_key: 0xB0, key_up: false },
            KeyEvent { virtual_key: 0xB0, key_up: true },
        ]
    );
    assert_eq!(send_outcome(2, 2), Ok(()));
    assert_eq!(
        send_outcome(1, 2),
        Err("Windows rejected the media control input (sent 1 of 2)".to_owned())
    );
}

#[test]
fn worker_follows_an_active_track_and_applies_current_lyrics() {
    let mut worker = WorkerState::default();
    assert!(register_session(&mut worker, 1, " Spotify.exe "));
    assert!(!register_session(&mut worker, 2, "Chrome"));

    let (state, request, _) = activate_session(&mut worker, Some(1), 0);
    assert_eq!(state.map(|s| s.playback_status), Some("NoMedia".to_owned()));
    assert!(request.is_none());

    let (active, state, request, _) = update_session_state(&mut worker, 1, snapshot(1, "Song", "Artist", 0), None, 0);
    assert!(active);
    assert_eq!(state.lyrics.status, LyricsStatus::Loading);
    let request = request.expect("a new track asks for lyrics");
    assert_eq!(request.title, "Song");

    // A stale generation is ignored.
    assert!(apply_lyrics_result(&mut worker, 1, request.generation + 1, Ok(None)).is_none());

    let lines = vec![
        LyricLine { timestamp_ms: 0, text: "One".into() },
        LyricLine { timestamp_ms: 5_000, text: "Two".into() },
    ];
    let updated = apply_lyrics_result(&mut worker, 1, request.generation, Ok(Some(lines)))
        .expect("the current answer applies");
    assert_eq!(updated.lyrics.status, LyricsStatus::Ready);
    assert_eq!(updated.lyrics.current_line.as_deref(), Some("One"));

    // Six seconds later the second line is sung.
    let ticked = tick_active_lyrics(&mut worker, 6_000).expect("the lyrics moved on");
    assert_eq!(ticked.lyrics.current_line.as_deref(), Some("Two"));
    assert!(tick_active_lyrics(&mut worker, 6_100).is_none());

    // A timeline update of the same track keeps the lyrics in sync.
    let (_, state, request, _) = update_session_state(&mut worker, 1, snapshot(1, "Song", "Artist", 100), None, 7_000);
    assert!(request.is_none());
    assert_eq!(state.lyrics.current_line.as_deref(), Some("One"));

    // A provider failure is published as an error.
    let (_, _, request, _) = update_session_state(&mut worker, 1, snapshot(1, "Other", "Artist", 0), None, 8_000);
    let request = request.expect("a new track asks for lyrics");
    let failed = apply_lyrics_result(&mut worker, 1, request.generation, Err(())).expect("applies");
    assert_eq!(failed.lyrics, LyricsState::error("providerUnavailable"));

    assert!(remove_session(&mut worker, 1, 9_000));
    assert_eq!(worker.active_session_id, None);
    assert_eq!(worker.no_active_track_since, Some(9_000));
}

#[test]
fn untitled_tracks_have_no_lyrics_and_hidden_widget_returns_with_a_track() {
    let mut worker = WorkerState::default();
    register_session(&mut worker, 1, "Spotify");
    activate_session(&mut worker, Some(1), 0);
    let (_, state, request, show) = update_session_state(&mut worker, 1, snapshot(1, "Song", "", 0), None, 0);
    assert_eq!(state.lyrics.status, LyricsStatus::Unavailable);
    assert!(request.is_none());
    assert!(!show);

    let mut idle = WorkerState::default();
    register_session(&mut idle, 1, "Spotify");
    activate_session(&mut idle, Some(1), 0);
    assert!(!should_hide_idle_widget(&mut idle, 0));
    assert!(should_hide_idle_widget(&mut idle, 300_000));
    assert!(!should_hide_idle_widget(&mut idle, 600_000));
    let (_, _, _, show) = update_session_state(&mut idle, 1, snapshot(1, "Song", "Artist", 0), None, 600_000);
    assert!(show);
    assert!(!should_hide_idle_widget(&mut idle, 1_000_000));
}

#[test]
fn artwork_encoding_pads_partial_groups() {
    let url = |data: Vec<u8>| {
        encode_artwork_url(&ArtworkImage { content_type: "image/png".into(), data })
    };
    assert_eq!(url(vec![]), "data:image/png;base64,");
    assert_eq!(url(b"f".to_vec()), "data:image/png;base64,Zg==");
    assert_eq!(url(b"fo".to_vec()), "data:image/png;base64,Zm8=");
    assert_eq!(url(b"foobar".to_vec()), "data:image/png;base64,Zm9vYmFy");
    assert_eq!(url(vec![0xfb, 0xff, 0xbf]), "data:image/png;base64,+/+/");
}
