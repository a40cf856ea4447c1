use terminal::duration::Duration;
use terminal::recording::asciicast::{RecordingBackend, RecordingHeader, RecordingMetadata};
use terminal::recording::model::{RecordingEvent, RecordingEventKind};
use terminal::recording::playback::{
    bounded_lossy_text, floor_char_boundary, search_snippet, validate_limits,
    RecordingPlaybackError, RecordingPlaybackLimits, RecordingPlaybackSearchKind,
    RecordingPlaybackState, RecordingPlaybackTimeline, RecordingPlaybackTransition,
};
use terminal::recording::recovery::{ParsedRecording, RecordingCompleteness};
use terminal::types::TerminalSize;

fn recording(capture_input: bool, events: Vec<RecordingEvent>) -> ParsedRecording {
    let header = RecordingHeader::new(
        RecordingMetadata {
            recording_id: "recording-1".to_string(),
            session_id: "session-1".to_string(),
            backend: RecordingBackend::Local,
            application_version: "0.1.0-test".to_string(),
            started_at_unix_ms: 1_700_000_000_000,
            capture_input,
        },
        TerminalSize {
            rows: 24,
            cols: 80,
            pixel_width: 0,
            pixel_height: 0,
        },
    );
    ParsedRecording {
        header,
        events,
        completeness: RecordingCompleteness::Complete,
    }
}

fn event(millis: u64, kind: RecordingEventKind) -> RecordingEvent {
    RecordingEvent {
        elapsed: Duration::from_millis(millis),
        kind,
    }
}

fn output(millis: u64, text: &str) -> RecordingEvent {
    event(millis, RecordingEventKind::Output(text.as_bytes().to_vec()))
}

#[test]
fn playback_starts_paused_and_advances_due_events() {
    let mut timeline = RecordingPlaybackTimeline::from_parsed(
        recording(false, vec![output(0, "a"), output(100, "b"), output(300, "c")]),
        RecordingPlaybackLimits::default(),
    )
    .unwrap();
    assert_eq!(timeline.state(), RecordingPlaybackState::Paused);
    assert_eq!(timeline.duration(), Duration::from_millis(300));
    assert_eq!(timeline.advance(Duration::from_millis(500)), (0, 0));

    assert_eq!(timeline.resume(), RecordingPlaybackTransition::Changed);
    assert_eq!(timeline.advance(Duration::from_millis(150)), (0, 2));
    assert_eq!(timeline.elapsed(), Duration::from_millis(150));
    assert_eq!(timeline.advance(Duration::from_secs(10)), (2, 3));
    assert_eq!(timeline.elapsed(), Duration::from_millis(300));
    assert_eq!(timeline.state(), RecordingPlaybackState::Finished);
    assert_eq!(timeline.pause(), RecordingPlaybackTransition::Unchanged);
    assert_eq!(timeline.resume(), RecordingPlaybackTransition::Unchanged);
}

#[test]
fn seek_returns_a_rebuild_prefix_and_keeps_playing() {
    let mut timeline = RecordingPlaybackTimeline::from_parsed(
        recording(false, vec![output(0, "a"), output(100, "b"), output(300, "c")]),
        RecordingPlaybackLimits::default(),
    )
    .unwrap();
    timeline.resume();
    assert_eq!(timeline.seek(Duration::from_millis(100)), 2);
    assert_eq!(timeline.state(), RecordingPlaybackState::Playing);
    assert_eq!(timeline.seek(Duration::from_secs(9)), 3);
    assert_eq!(timeline.elapsed(), Duration::from_millis(300));
    assert_eq!(timeline.state(), RecordingPlaybackState::Finished);
    assert_eq!(timeline.seek(Duration::zero()), 1);
    assert_eq!(timeline.state(), RecordingPlaybackState::Paused);
    assert_eq!(timeline.event_cursor(), 1);
}

#[test]
fn fabricated_timeline_is_revalidated_before_playback() {
    let backwards = recording(false, vec![output(100, "a"), output(50, "b")]);
    assert!(matches!(
        RecordingPlaybackTimeline::from_parsed(backwards, RecordingPlaybackLimits::default()),
        Err(RecordingPlaybackError::InvalidTimeline { event_index: 1, reason: "timestamp moved backwards" })
    ));
    let hidden_input = recording(
        false,
        vec![event(1, RecordingEventKind::Input(b"pw".to_vec()))],
    );
    assert!(matches!(
        RecordingPlaybackTimeline::from_parsed(hidden_input, RecordingPlaybackLimits::default()),
        Err(RecordingPlaybackError::InvalidTimeline { event_index: 0, .. })
    ));
    let zero_resize = recording(
        false,
        vec![event(
            1,
            RecordingEventKind::Resize(TerminalSize {
                rows: 0,
                cols: 10,
                pixel_width: 0,
                pixel_height: 0,
            }),
        )],
    );
    assert!(matches!(
        RecordingPlaybackTimeline::from_parsed(zero_resize, RecordingPlaybackLimits::default()),
        Err(RecordingPlaybackError::InvalidTimeline { reason: "resize dimensions must be non-zero", .. })
    ));
    let limits = RecordingPlaybackLimits {
        max_search_results: 0,
        ..RecordingPlaybackLimits::default()
    };
    assert!(matches!(
        validate_limits(&limits),
        Err(RecordingPlaybackError::InvalidLimit("max_search_results"))
    ));
}

#[test]
fn search_labels_input_and_markers_as_display_only_and_skips_resize() {
    let timeline = RecordingPlaybackTimeline::from_parsed(
        recording(
            true,
            vec![
                output(0, "ls -la"),
                event(5, RecordingEventKind::Input(b"ls".to_vec())),
                event(
                    6,
                    RecordingEventKind::Resize(TerminalSize {
                        rows: 10,
                        cols: 10,
                        pixel_width: 0,
                        pixel_height: 0,
                    }),
                ),
                event(7, RecordingEventKind::Marker("ls done".to_string())),
            ],
        ),
        RecordingPlaybackLimits::default(),
    )
    .unwrap();
    let results = timeline.search("ls", 10).unwrap();
    let kinds: Vec<_> = results.matches.iter().map(|m| (m.event_index, m.kind)).collect();
    assert_eq!(
        kinds,
        vec![
            (0, RecordingPlaybackSearchKind::Output),
            (1, RecordingPlaybackSearchKind::InputDisplayOnly),
            (3, RecordingPlaybackSearchKind::MarkerDisplayOnly),
        ]
    );
    assert!(!results.matches_truncated);
    assert_eq!(results.index_status.indexed_events, 3);
    assert!(!results.index_status.truncated);

    let limited = timeline.search("ls", 2).unwrap();
    assert_eq!(limited.matches.len(), 2);
    assert!(limited.matches_truncated);
    assert!(matches!(
        timeline.search("", 1),
        Err(RecordingPlaybackError::EmptySearchQuery)
    ));
}

#[test]
fn search_index_query_results_and_snippets_are_independently_bounded() {
    let limits = RecordingPlaybackLimits {
        max_indexed_events: 2,
        max_indexed_text_bytes: 1024,
        max_search_query_bytes: 4,
        max_search_results: 1,
        max_search_snippet_bytes: 8,
    };
    let timeline = RecordingPlaybackTimeline::from_parsed(
        recording(
            false,
            vec![
                output(0, "alpha needle omega"),
                output(1, "needle"),
                output(2, "needle"),
            ],
        ),
        limits,
    )
    .unwrap();
    let status = timeline.search_index_status();
    assert_eq!(status.indexed_events, 2);
    assert!(status.truncated);
    assert!(matches!(
        timeline.search("needles", 5),
        Err(RecordingPlaybackError::SearchQueryTooLong { actual_bytes: 7, max_bytes: 4 })
    ));
    let results = timeline.search("need", 5).unwrap();
    assert_eq!(results.matches.len(), 1);
    assert!(results.matches_truncated);
    let first = &results.matches[0];
    assert_eq!(first.match_byte_offset, 6);
    assert!(first.snippet.len() <= 8);
    assert!(first.snippet.contains("need"));
}

#[test]
fn text_helpers_respect_character_boundaries() {
    let text = "aé€z";
    assert_eq!(floor_char_boundary(text, 2), 1);
    assert_eq!(floor_char_boundary(text, 3), 3);
    assert_eq!(floor_char_boundary(text, 100), text.len());
    let (bounded, truncated) = bounded_lossy_text("aé€z".as_bytes(), 4);
    assert_eq!(bounded, "aé");
    assert!(truncated);
    let (lossy, truncated) = bounded_lossy_text(&[0x61, 0xff, 0x62], 16);
    assert_eq!(lossy, "a\u{fffd}b");
    assert!(!truncated);
    assert_eq!(search_snippet("short", 0, 1, 10), "short");
    assert_eq!(search_snippet("0123456789abcdef", 9, 2, 6), "789abc");
}

fn seconds(value: u64) -> Duration {
    Duration::from_secs(value)
}

fn at_second(elapsed: u64, kind: RecordingEventKind) -> RecordingEvent {
    RecordingEvent {
        elapsed: seconds(elapsed),
        kind,
    }
}

#[test]
fn seek_returns_a_rebuild_prefix_without_replaying_any_backend_operation() {
    let mut playback = RecordingPlaybackTimeline::from_parsed(
        recording(
            false,
            vec![
                at_second(0, RecordingEventKind::Output(b"prompt".to_vec())),
                at_second(
                    1,
                    RecordingEventKind::Resize(TerminalSize {
                        rows: 40,
                        cols: 120,
                        pixel_width: 0,
                        pixel_height: 0,
                    }),
                ),
                at_second(2, RecordingEventKind::Marker("deploy".to_string())),
                at_second(3, RecordingEventKind::Output(b"done".to_vec())),
            ],
        ),
        RecordingPlaybackLimits::default(),
    )
    .unwrap();

    assert_eq!(3, playback.seek(seconds(2)));
    assert_eq!(3, playback.event_cursor());
    assert_eq!(RecordingPlaybackState::Paused, playback.state());

    assert_eq!(4, playback.seek(seconds(99)));
    assert_eq!(seconds(3), playback.elapsed());
    assert_eq!(RecordingPlaybackState::Finished, playback.state());

    assert_eq!(1, playback.seek(Duration::zero()));
    assert_eq!(RecordingPlaybackState::Paused, playback.state());
    assert_eq!(RecordingPlaybackTransition::Changed, playback.resume());
    assert_eq!(3, playback.seek(seconds(2)));
    assert_eq!(RecordingPlaybackState::Playing, playback.state());
}

#[test]
fn partial_recovery_state_remains_visible_to_playback_callers() {
    let completeness = RecordingCompleteness::Partial { discarded_bytes: 42 };
    let mut parsed = recording(
        false,
        vec![at_second(1, RecordingEventKind::Output(b"recovered".to_vec()))],
    );
    parsed.completeness = completeness.clone();
    let playback =
        RecordingPlaybackTimeline::from_parsed(parsed, RecordingPlaybackLimits::default()).unwrap();

    assert_eq!(completeness, playback.completeness());
}

#[test]
fn opening_checks_limits_then_header_then_timeline() {
    let zero_limits = RecordingPlaybackLimits {
        max_indexed_events: 0,
        ..RecordingPlaybackLimits::default()
    };
    let mut bad_header = recording(false, vec![output(100, "a"), output(50, "b")]);
    bad_header.header.version = 3;
    assert!(matches!(
        RecordingPlaybackTimeline::from_parsed(bad_header, zero_limits),
        Err(RecordingPlaybackError::InvalidLimit("max_indexed_events"))
    ));
    let mut bad_header = recording(false, vec![output(100, "a"), output(50, "b")]);
    bad_header.header.version = 3;
    assert!(matches!(
        RecordingPlaybackTimeline::from_parsed(bad_header, RecordingPlaybackLimits::default()),
        Err(RecordingPlaybackError::RecordingFile(
            terminal::recording::asciicast::RecordingFileError::UnknownAsciicastVersion(3)
        ))
    ));
}

#[test]
fn search_index_stops_at_the_first_event_without_room() {
    let limits = RecordingPlaybackLimits {
        max_indexed_events: 10,
        max_indexed_text_bytes: 5,
        ..RecordingPlaybackLimits::default()
    };
    let timeline = RecordingPlaybackTimeline::from_parsed(
        recording(false, vec![output(0, "abc"), output(1, "defg"), output(2, "h")]),
        limits,
    )
    .unwrap();
    let status = timeline.search_index_status();
    assert_eq!(status.indexed_events, 2);
    assert_eq!(status.indexed_text_bytes, 5);
    assert!(status.truncated);

    let whole = RecordingPlaybackTimeline::from_parsed(
        recording(false, vec![output(0, "abc"), output(1, "de")]),
        limits,
    )
    .unwrap();
    let status = whole.search_index_status();
    assert_eq!(status.indexed_events, 2);
    assert_eq!(status.indexed_text_bytes, 5);
    assert!(!status.truncated);
}
