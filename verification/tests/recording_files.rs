use std::path::{Path, PathBuf};

use terminal::duration::Duration;
use terminal::recording::asciicast::{
    decode_event_kind, decode_resize, encode_event_fields, parse_u16, ParseU16Error,
    RecordingBackend, RecordingFileError, RecordingFileLimit, RecordingFileLimits,
    RecordingHeader, RecordingMetadata, ASCIICAST_VERSION, NAVOP_EVENT_STREAM,
};
use terminal::recording::model::{RecordingEvent, RecordingEventKind};
use terminal::recording::recorder::{
    validate_config, RecordingFileConfig, RecordingFileLedger, RecordingFileState,
    RecordingFileTransition,
};
use terminal::recording::recovery::{
    assemble_recording, decode_event, read_recording, split_recording_lines, ParsedRecording,
    RecordingCompleteness, RecordingRecovery,
};
use terminal::recording::session_favorites::SessionLogFavorites;
use terminal::recording::session_log::{
    is_partial_recording_name, is_recording_name, is_recording_path, is_safe_recording_id,
    order_session_log_entries, session_log_entry, session_log_location, session_log_path,
    session_logs_directory,
};
use terminal::recording::text_export::retained_line_bounds;
use terminal::session_logging::build_automatic_session_log_request;
use terminal::types::TerminalSize;

fn metadata(capture_input: bool) -> RecordingMetadata {
    RecordingMetadata {
        recording_id: "recording-1".to_string(),
        session_id: "session-1".to_string(),
        backend: RecordingBackend::Ssh,
        application_version: "0.1.0-test".to_string(),
        started_at_unix_ms: 1_700_000_123_456,
        capture_input,
    }
}

fn size(cols: u16, rows: u16) -> TerminalSize {
    TerminalSize {
        rows,
        cols,
        pixel_width: 0,
        pixel_height: 0,
    }
}

fn header(capture_input: bool) -> RecordingHeader {
    RecordingHeader::new(metadata(capture_input), size(80, 24))
}

fn header_line(header: &RecordingHeader) -> String {
    let backend = match header.navop.backend {
        RecordingBackend::Local => "local",
        RecordingBackend::Ssh => "ssh",
        RecordingBackend::Serial => "serial",
    };
    format!(
        "{{\"version\":{},\"width\":{},\"height\":{},\"timestamp\":{},\"navop\":{{\"format_version\":{},\"recording_id\":\"{}\",\"session_id\":\"{}\",\"backend\":\"{}\",\"application_version\":\"{}\",\"started_at_unix_ms\":{},\"capture_input\":{},\"event_stream\":\"{}\"}}}}\n",
        header.version,
        header.width,
        header.height,
        header.timestamp,
        header.navop.format_version,
        header.navop.recording_id,
        header.navop.session_id,
        backend,
        header.navop.application_version,
        header.navop.started_at_unix_ms,
        header.navop.capture_input,
        header.navop.event_stream
    )
}

fn event_line(seconds: f64, code: &str, data: &str) -> String {
    let value = serde_json::Value::Array(vec![
        serde_json::Value::from(seconds),
        serde_json::Value::from(code),
        serde_json::Value::from(data),
    ]);
    format!("{}\n", value)
}

fn decode_header_line(line: &[u8]) -> Result<RecordingHeader, RecordingFileError> {
    let value: serde_json::Value =
        serde_json::from_slice(line).map_err(RecordingFileError::Json)?;
    let navop = &value["navop"];
    let backend = match navop["backend"].as_str() {
        Some("local") => RecordingBackend::Local,
        Some("ssh") => RecordingBackend::Ssh,
        _ => RecordingBackend::Serial,
    };
    Ok(RecordingHeader {
        version: value["version"].as_u64().unwrap_or(0) as u32,
        width: value["width"].as_u64().unwrap_or(0) as u16,
        height: value["height"].as_u64().unwrap_or(0) as u16,
        timestamp: value["timestamp"].as_u64().unwrap_or(0),
        navop: terminal::recording::asciicast::RecordingHeaderMetadata {
            format_version: navop["format_version"].as_u64().unwrap_or(0) as u32,
            recording_id: navop["recording_id"].as_str().unwrap_or("").to_string(),
            session_id: navop["session_id"].as_str().unwrap_or("").to_string(),
            backend,
            application_version: navop["application_version"]
                .as_str()
                .unwrap_or("")
                .to_string(),
            started_at_unix_ms: navop["started_at_unix_ms"].as_u64().unwrap_or(0),
            capture_input: navop["capture_input"].as_bool().unwrap_or(false),
            event_stream: navop["event_stream"].as_str().unwrap_or("").to_string(),
        },
    })
}

fn decode_event_fields(
    line: &[u8],
    line_number: u64,
) -> Result<(Duration, String, String), RecordingFileError> {
    let value: serde_json::Value = serde_json::from_slice(line).map_err(|error| {
        RecordingFileError::InvalidEvent {
            line: line_number,
            reason: error.to_string(),
        }
    })?;
    let seconds = value[0].as_f64().unwrap_or(-1.0);
    if !(seconds >= 0.0) {
        return Err(RecordingFileError::InvalidEvent {
            line: line_number,
            reason: "invalid timestamp".to_string(),
        });
    }
    Ok((
        Duration::from_nanos((seconds * 1e9).round() as u64),
        value[1].as_str().unwrap_or("").to_string(),
        value[2].as_str().unwrap_or("").to_string(),
    ))
}

type DecodedLines = (
    Result<RecordingHeader, RecordingFileError>,
    Vec<Result<RecordingEvent, RecordingFileError>>,
);

fn decoded_lines(content: &[u8]) -> DecodedLines {
    let lines = split_recording_lines(content);
    let header = match lines.first() {
        Some(line) => decode_header_line(line),
        None => Err(RecordingFileError::InvalidHeader("recording is empty".to_string())),
    };
    let events = lines
        .iter()
        .skip(1)
        .enumerate()
        .map(|(index, line)| {
            let line_number = index as u64 + 2;
            decode_event(decode_event_fields(line, line_number), line_number)
        })
        .collect();
    (header, events)
}

fn read(content: &[u8], limits: RecordingFileLimits) -> Result<ParsedRecording, RecordingFileError> {
    let (header, decoded) = decoded_lines(content);
    read_recording(content, limits, header, decoded)
}

fn read_content(
    content: &[u8],
    limits: RecordingFileLimits,
    allow_partial_tail: bool,
) -> Result<RecordingRecovery, RecordingFileError> {
    let (header, decoded) = decoded_lines(content);
    assemble_recording(content, limits, allow_partial_tail, header, decoded)
}

fn recording_content(capture_input: bool, lines: &[String]) -> Vec<u8> {
    let mut content = header_line(&header(capture_input)).into_bytes();
    for line in lines {
        content.extend_from_slice(line.as_bytes());
    }
    content
}

#[test]
fn header_carries_the_session_metadata_and_validates() {
    let header = header(false);
    assert_eq!(header.version, ASCIICAST_VERSION);
    assert_eq!((header.width, header.height), (80, 24));
    assert_eq!(header.timestamp, 1_700_000_123);
    assert_eq!(header.navop.event_stream, NAVOP_EVENT_STREAM);
    assert!(header.validate().is_ok());

    let mut wrong_version = header.clone();
    wrong_version.version = 3;
    assert!(matches!(
        wrong_version.validate(),
        Err(RecordingFileError::UnknownAsciicastVersion(3))
    ));
    let mut wrong_stream = header.clone();
    wrong_stream.navop.event_stream = "other".to_string();
    assert!(matches!(
        wrong_stream.validate(),
        Err(RecordingFileError::InvalidHeader(reason)) if reason == "unsupported event stream: other"
    ));
    let mut wrong_time = header;
    wrong_time.timestamp += 1;
    assert!(matches!(
        wrong_time.validate(),
        Err(RecordingFileError::InvalidHeader(reason)) if reason == "timestamp does not match started_at_unix_ms"
    ));
}

#[test]
fn resize_fields_parse_like_unsigned_integers() {
    assert_eq!(decode_resize("120x40", 3).unwrap(), size(120, 40));
    assert_eq!(decode_resize("+7x+9", 3).unwrap(), size(7, 9));
    assert!(matches!(
        decode_resize("120", 4),
        Err(RecordingFileError::InvalidEvent { line: 4, reason }) if reason == "resize must use COLSxROWS"
    ));
    assert!(matches!(
        decode_resize("0x5", 5),
        Err(RecordingFileError::InvalidEvent { reason, .. }) if reason == "resize dimensions must be non-zero"
    ));
    assert!(matches!(
        decode_resize("70000x5", 5),
        Err(RecordingFileError::InvalidEvent { reason, .. }) if reason == "number too large to fit in target type"
    ));
    assert!(matches!(
        decode_resize("x5", 5),
        Err(RecordingFileError::InvalidEvent { reason, .. }) if reason == "cannot parse integer from empty string"
    ));
    assert_eq!(parse_u16(&['-', '1']), Err(ParseU16Error::InvalidDigit));
    assert_eq!(parse_u16(&['+']), Err(ParseU16Error::InvalidDigit));
    assert_eq!(parse_u16(&['6', '5', '5', '3', '5']), Ok(65535));
}

#[test]
fn event_fields_roundtrip_text_and_binary_payloads() {
    let (code, data) =
        encode_event_fields(&RecordingEventKind::Output(b"hello".to_vec()), false).unwrap();
    assert_eq!((code, data.as_str()), ("o", "hello"));
    let binary = vec![0xff, 0x00, 0x80];
    let (code, data) =
        encode_event_fields(&RecordingEventKind::Output(binary.clone()), false).unwrap();
    assert_eq!(code, "x-navop-o64");
    assert_eq!(
        decode_event_kind(code, data, 2).unwrap(),
        RecordingEventKind::Output(binary)
    );
    assert!(matches!(
        encode_event_fields(&RecordingEventKind::Input(b"pw".to_vec()), false),
        Err(RecordingFileError::InputCaptureDisabled)
    ));
    let (code, data) =
        encode_event_fields(&RecordingEventKind::Resize(size(132, 43)), false).unwrap();
    assert_eq!((code, data.as_str()), ("r", "132x43"));
    assert_eq!(
        decode_event_kind("m", "deploy".to_string(), 2).unwrap(),
        RecordingEventKind::Marker("deploy".to_string())
    );
    assert!(matches!(
        decode_event_kind("z", String::new(), 9),
        Err(RecordingFileError::InvalidEvent { line: 9, reason }) if reason == "unsupported event type: z"
    ));
    assert!(matches!(
        decode_event_kind("x-navop-i64", "!!".to_string(), 4),
        Err(RecordingFileError::InvalidEvent { line: 4, .. })
    ));
}

#[test]
fn reading_accepts_a_complete_recording_and_keeps_its_events() {
    let content = recording_content(
        false,
        &[
            event_line(0.5, "o", "hello"),
            event_line(1.0, "r", "100x30"),
            event_line(1.0, "m", "deploy"),
        ],
    );
    let parsed = read(&content, RecordingFileLimits::default()).unwrap();
    assert_eq!(parsed.completeness, RecordingCompleteness::Complete);
    assert_eq!(parsed.events.len(), 3);
    assert_eq!(
        parsed.events[0].kind,
        RecordingEventKind::Output(b"hello".to_vec())
    );
    assert_eq!(parsed.events[1].kind, RecordingEventKind::Resize(size(100, 30)));
    assert_eq!(parsed.events[0].elapsed, Duration::from_millis(500));
}

#[test]
fn partial_tail_is_dropped_only_when_recovering() {
    let mut content = recording_content(false, &[event_line(0.5, "o", "kept")]);
    let valid = content.len();
    content.extend_from_slice(b"[1.0,\"o\",\"cut");
    assert!(matches!(
        read(&content, RecordingFileLimits::default()),
        Err(RecordingFileError::InvalidEvent { line: 3, reason }) if reason == "event line is truncated"
    ));
    let recovery =
        read_content(&content, RecordingFileLimits::default(), true).unwrap();
    assert_eq!(recovery.valid_bytes as usize, valid);
    assert_eq!(recovery.discarded_bytes as usize, content.len() - valid);
    assert_eq!(
        recovery.recording.completeness,
        RecordingCompleteness::Partial {
            discarded_bytes: recovery.discarded_bytes
        }
    );
    assert_eq!(recovery.recording.events.len(), 1);
}

#[test]
fn reading_refuses_backwards_time_hidden_input_and_limits() {
    let backwards = recording_content(
        false,
        &[event_line(2.0, "o", "a"), event_line(1.0, "o", "b")],
    );
    assert!(matches!(
        read(&backwards, RecordingFileLimits::default()),
        Err(RecordingFileError::InvalidEvent { line: 3, reason }) if reason == "timestamp moved backwards"
    ));
    let input = recording_content(false, &[event_line(1.0, "i", "secret")]);
    assert!(matches!(
        read(&input, RecordingFileLimits::default()),
        Err(RecordingFileError::InvalidEvent { line: 2, .. })
    ));
    let allowed = recording_content(true, &[event_line(1.0, "i", "secret")]);
    assert!(read(&allowed, RecordingFileLimits::default()).is_ok());

    let two = recording_content(false, &[event_line(1.0, "o", "a"), event_line(2.0, "o", "b")]);
    let limits = RecordingFileLimits {
        max_events: 1,
        ..RecordingFileLimits::default()
    };
    assert!(matches!(
        read(&two, limits),
        Err(RecordingFileError::LimitReached(RecordingFileLimit::EventCount))
    ));
    let limits = RecordingFileLimits {
        max_decoded_payload_bytes: 1,
        ..RecordingFileLimits::default()
    };
    assert!(matches!(
        read(&two, limits),
        Err(RecordingFileError::LimitReached(RecordingFileLimit::DecodedPayloadBytes))
    ));
    let limits = RecordingFileLimits {
        max_file_bytes: 10,
        ..RecordingFileLimits::default()
    };
    assert!(matches!(
        read(&two, limits),
        Err(RecordingFileError::LimitReached(RecordingFileLimit::FileBytes))
    ));
    assert!(matches!(
        read(b"", RecordingFileLimits::default()),
        Err(RecordingFileError::InvalidHeader(reason)) if reason == "recording is empty"
    ));
    assert!(matches!(
        read(b"{}", RecordingFileLimits::default()),
        Err(RecordingFileError::InvalidHeader(reason)) if reason == "header is truncated"
    ));
}

fn output(at_millis: u64, data: &[u8]) -> RecordingEvent {
    RecordingEvent {
        elapsed: Duration::from_millis(at_millis),
        kind: RecordingEventKind::Output(data.to_vec()),
    }
}

#[test]
fn ledger_checks_events_before_they_are_written() {
    let config = RecordingFileConfig {
        flush_every_events: 2,
        ..RecordingFileConfig::default()
    };
    let mut ledger = RecordingFileLedger::open(config, false, 100).unwrap();
    assert_eq!(ledger.bytes_written(), 100);

    let pending = ledger.check_event(&output(10, b"ab"), Ok(20)).unwrap();
    assert_eq!(pending.next_file_bytes, 120);
    assert_eq!(ledger.complete_append(pending, Ok(())).unwrap(), false);
    let pending = ledger.check_event(&output(20, b"cd"), Ok(20)).unwrap();
    assert_eq!(ledger.complete_append(pending, Ok(())).unwrap(), true);
    assert!(ledger.complete_flush(Ok(())).is_ok());

    assert!(matches!(
        ledger.check_event(&output(5, b"late"), Ok(20)),
        Err(RecordingFileError::InvalidEvent { line: 4, reason }) if reason == "timestamp moved backwards"
    ));
    assert_eq!(ledger.state(), RecordingFileState::Failed);
    assert!(matches!(
        ledger.check_event(&output(50, b"x"), Ok(20)),
        Err(RecordingFileError::NotOpen)
    ));
    assert!(matches!(ledger.begin_stop(), Err(RecordingFileError::NotOpen)));
}

#[test]
fn ledger_refuses_input_without_opt_in_and_publishes_once() {
    let mut ledger = RecordingFileLedger::open(RecordingFileConfig::default(), false, 10).unwrap();
    let input = RecordingEvent {
        elapsed: Duration::zero(),
        kind: RecordingEventKind::Input(b"pw".to_vec()),
    };
    assert!(matches!(
        ledger.check_event(&input, Ok(10)),
        Err(RecordingFileError::InputCaptureDisabled)
    ));

    let mut ledger = RecordingFileLedger::open(RecordingFileConfig::default(), true, 10).unwrap();
    assert!(ledger.check_event(&input, Ok(10)).is_ok());
    assert!(matches!(ledger.begin_stop(), Ok(None)));
    assert_eq!(
        ledger.complete_stop(Ok(())).unwrap(),
        RecordingFileTransition::Changed
    );
    assert!(matches!(
        ledger.begin_stop(),
        Ok(Some(RecordingFileTransition::Unchanged))
    ));

    let small = RecordingFileConfig {
        limits: RecordingFileLimits {
            max_serialized_event_bytes: 5,
            ..RecordingFileLimits::default()
        },
        ..RecordingFileConfig::default()
    };
    let mut ledger = RecordingFileLedger::open(small, false, 10).unwrap();
    assert!(matches!(
        ledger.check_event(&output(1, b"a"), Ok(6)),
        Err(RecordingFileError::LimitReached(RecordingFileLimit::EventBytes))
    ));
    assert!(matches!(
        RecordingFileLedger::open(small, false, 70_000),
        Err(RecordingFileError::LimitReached(RecordingFileLimit::HeaderBytes))
    ));
    let zero = RecordingFileConfig {
        flush_every_events: 0,
        ..RecordingFileConfig::default()
    };
    assert!(matches!(
        validate_config(&zero),
        Err(RecordingFileError::InvalidConfig(reason)) if reason == "flush_every_events must be greater than zero"
    ));
}

#[test]
fn session_logs_directory_is_scoped_under_application_data() {
    assert_eq!(
        Path::new("/data").join("session-logs"),
        session_logs_directory(Path::new("/data"))
    );
}

#[test]
fn session_log_path_uses_utc_year_month_and_backend() {
    let root = Path::new("/logs");
    let path = session_log_path(
        root,
        RecordingBackend::Serial,
        1_723_651_441_123,
        "recording-id",
    )
    .unwrap();

    assert_eq!(
        root.join("2024/08/20240814-160401-123-serial-recording-id.cast"),
        path
    );
}

#[test]
fn session_log_location_formats_the_utc_start() {
    let (year, month, name) =
        session_log_location(RecordingBackend::Local, 0, "id").unwrap();
    assert_eq!((year.as_str(), month.as_str()), ("1970", "01"));
    assert_eq!(name, "19700101-000000-000-local-id.cast");
    assert!(is_safe_recording_id("A.b_c-9"));
    assert!(!is_safe_recording_id("ü"));
}

#[test]
fn session_log_path_rejects_unsafe_recording_ids() {
    let root = Path::new("/logs");
    for recording_id in [
        "",
        ".",
        "..",
        "../escape",
        "nested/escape",
        r"nested\escape",
        "/absolute",
        "control\ncharacter",
    ] {
        assert!(
            session_log_path(
                root,
                RecordingBackend::Local,
                1_723_651_441_123,
                recording_id,
            )
            .is_none(),
            "recording ID should be rejected: {recording_id:?}"
        );
    }
}

#[test]
fn session_log_path_rejects_excessively_long_recording_ids() {
    let recording_id = "a".repeat(129);
    assert!(session_log_path(
        Path::new("/logs"),
        RecordingBackend::Local,
        1_723_651_441_123,
        &recording_id,
    )
    .is_none());
}

#[test]
fn recording_names_are_recognised_by_suffix() {
    assert!(is_recording_name("x.cast"));
    assert!(is_recording_name("x.cast.partial"));
    assert!(!is_recording_name("x.partial"));
    assert!(is_partial_recording_name("x.cast.partial"));
    assert!(!is_partial_recording_name("x.cast"));
    assert!(is_recording_path(Path::new("/a/b.cast")));
    assert!(!is_recording_path(Path::new("/a/favorites.json")));
}

#[test]
fn favorites_track_ids_once_and_catalog_orders_newest_first() {
    let mut favorites = SessionLogFavorites::new();
    assert!(favorites.is_empty());
    assert!(favorites.set("a", true));
    assert!(!favorites.set("a", true));
    assert!(favorites.contains("a"));
    assert!(!favorites.contains("b"));
    assert!(favorites.set("a", false));
    assert!(!favorites.set("a", false));
    assert!(favorites.is_empty());
    let favorites = SessionLogFavorites::from_ids(vec!["x".to_string(), "x".to_string()]);
    assert_eq!(favorites.ids(), vec!["x".to_string()]);

    let parse = |started: u64, id: &str| {
        let mut metadata = metadata(false);
        metadata.started_at_unix_ms = started;
        metadata.recording_id = id.to_string();
        let header = RecordingHeader::new(metadata, size(80, 24));
        let mut content = header_line(&header).into_bytes();
        content.extend_from_slice(event_line(1.5, "o", "x").as_bytes());
        read(&content, RecordingFileLimits::default()).unwrap()
    };
    let older = session_log_entry(PathBuf::from("/logs/older.cast"), parse(1_000, "x"), &favorites);
    let newer = session_log_entry(PathBuf::from("/logs/newer.cast"), parse(2_000, "y"), &favorites);
    assert!(older.favorite);
    assert!(!newer.favorite);
    assert_eq!(older.duration, Duration::from_millis(1500));
    let ordered = order_session_log_entries(vec![older.clone(), newer.clone()]);
    assert_eq!(ordered, vec![newer, older]);
}

#[test]
fn retained_line_bounds_saturate_before_converting_to_terminal_indices() {
    assert_eq!(
        (-i32::MAX, i32::MAX - 1),
        retained_line_bounds(usize::MAX, usize::MAX)
    );
    assert_eq!((0, -1), retained_line_bounds(0, 0));
}

#[test]
fn automatic_session_log_requests_record_output_only() {
    let request = build_automatic_session_log_request(
        Path::new("/data"),
        RecordingBackend::Serial,
        "session-9".to_string(),
        size(80, 24),
        1_723_651_441_123,
        "rec-9".to_string(),
        "1.2.3".to_string(),
    )
    .unwrap();
    assert!(!request.recording.capture_input);
    assert!(!request.metadata.capture_input);
    assert_eq!(
        request.final_path,
        PathBuf::from("/data/session-logs/2024/08/20240814-160401-123-serial-rec-9.cast")
    );
    assert!(build_automatic_session_log_request(
        Path::new("/data"),
        RecordingBackend::Serial,
        "s".to_string(),
        size(80, 24),
        1,
        "../x".to_string(),
        "1.2.3".to_string(),
    )
    .is_err());
}

#[test]
fn every_event_kind_reads_back_from_its_line_fields() {
    let kinds = vec![
        RecordingEventKind::Output(vec![0xff, 0x00, b'a']),
        RecordingEventKind::Input("密码\r".as_bytes().to_vec()),
        RecordingEventKind::Resize(size(65535, 1)),
        RecordingEventKind::Marker("deploy".to_string()),
    ];
    for kind in kinds {
        let (code, data) = encode_event_fields(&kind, true).unwrap();
        assert_eq!(decode_event_kind(code, data, 3).unwrap(), kind);
    }
}

#[test]
fn ledger_fails_an_event_line_over_the_serialized_limit() {
    let config = RecordingFileConfig {
        limits: RecordingFileLimits {
            max_serialized_event_bytes: 32,
            ..RecordingFileLimits::default()
        },
        ..RecordingFileConfig::default()
    };
    let mut ledger = RecordingFileLedger::open(config, false, 10).unwrap();
    assert!(matches!(
        ledger.check_event(&output(10, &[b'x'; 100]), Ok(128)),
        Err(RecordingFileError::LimitReached(RecordingFileLimit::EventBytes))
    ));
    assert_eq!(ledger.state(), RecordingFileState::Failed);
}

#[test]
fn binary_output_takes_the_base64_form() {
    let bytes = vec![0xff, 0x00, 0xfe, b'\n'];
    let (code, data) =
        encode_event_fields(&RecordingEventKind::Output(bytes.clone()), false).unwrap();
    assert_eq!(code, "x-navop-o64");
    assert_eq!(data, "/wD+Cg==");
    assert_eq!(decode_event_kind(code, data, 2).unwrap(), RecordingEventKind::Output(bytes));
}

#[test]
fn a_written_recording_reads_back_as_its_header_and_events() {
    let written = vec![
        output(0, b"hello"),
        RecordingEvent {
            elapsed: Duration::from_millis(1000),
            kind: RecordingEventKind::Resize(size(100, 30)),
        },
        output(2000, &[0xff, 0x00, 0xfe, b'\n']),
        RecordingEvent {
            elapsed: Duration::from_millis(3000),
            kind: RecordingEventKind::Marker("deploy".to_string()),
        },
    ];
    let mut lines = Vec::new();
    for (index, event) in written.iter().enumerate() {
        let (code, data) = encode_event_fields(&event.kind, false).unwrap();
        lines.push(event_line(index as f64, code, &data));
    }
    let content = recording_content(false, &lines);
    let parsed = read(&content, RecordingFileLimits::default()).unwrap();
    assert_eq!(parsed.header, header(false));
    assert_eq!(parsed.completeness, RecordingCompleteness::Complete);
    assert_eq!(parsed.events, written);
}

#[test]
fn assembling_keeps_the_decoded_events_or_names_the_first_error() {
    let content = recording_content(false, &[event_line(0.5, "o", "a"), event_line(1.0, "o", "b")]);
    let events = vec![Ok(output(500, b"a")), Ok(output(1000, b"b"))];
    let recovery = assemble_recording(
        &content,
        RecordingFileLimits::default(),
        false,
        Ok(header(false)),
        events,
    )
    .unwrap();
    assert_eq!(recovery.recording.events, vec![output(500, b"a"), output(1000, b"b")]);
    assert_eq!(recovery.valid_bytes as usize, content.len());
    assert_eq!(recovery.discarded_bytes, 0);

    let failing = vec![
        Ok(output(500, b"a")),
        Err(RecordingFileError::InvalidEvent { line: 3, reason: "bad json".to_string() }),
    ];
    assert!(matches!(
        assemble_recording(&content, RecordingFileLimits::default(), false, Ok(header(false)), failing),
        Err(RecordingFileError::InvalidEvent { line: 3, reason }) if reason == "bad json"
    ));

    let mut future = header(false);
    future.version = 3;
    assert!(matches!(
        assemble_recording(&content, RecordingFileLimits::default(), false, Ok(future), Vec::new()),
        Err(RecordingFileError::UnknownAsciicastVersion(3))
    ));
}

#[test]
fn reading_names_an_unknown_format_version() {
    let mut newer = header(false);
    newer.navop.format_version = 2;
    let mut content = header_line(&newer).into_bytes();
    content.extend_from_slice(event_line(0.5, "o", "a").as_bytes());
    assert!(matches!(
        read(&content, RecordingFileLimits::default()),
        Err(RecordingFileError::UnknownNavopVersion(2))
    ));
}

#[test]
fn recording_lines_are_cut_at_each_newline() {
    assert!(split_recording_lines(b"").is_empty());
    assert_eq!(split_recording_lines(b"x\n"), vec![b"x".to_vec()]);
    assert_eq!(
        split_recording_lines(b"ab\n\ncd"),
        vec![b"ab".to_vec(), Vec::new(), b"cd".to_vec()]
    );
    let content = recording_content(false, &[event_line(1.0, "o", "one"), "[2.0,\"o\"".to_string()]);
    let lines = split_recording_lines(&content);
    assert_eq!(lines.len(), 3);
    assert_eq!(lines[1], br#"[1.0,"o","one"]"#.to_vec());
    assert_eq!(lines[2], br#"[2.0,"o""#.to_vec());
}

#[test]
fn a_failed_publish_is_reported_unchanged_and_fails_the_file() {
    let mut ledger = RecordingFileLedger::open(RecordingFileConfig::default(), false, 10).unwrap();
    assert!(matches!(ledger.begin_stop(), Ok(None)));
    let taken = PathBuf::from("/tmp/recordings/taken.cast");
    match ledger.complete_stop(Err(RecordingFileError::FinalPathExists(taken.clone()))) {
        Err(RecordingFileError::FinalPathExists(path)) => assert_eq!(path, taken),
        other => panic!("unexpected {other:?}"),
    }
    assert_eq!(ledger.state(), RecordingFileState::Failed);
    assert!(matches!(ledger.begin_stop(), Err(RecordingFileError::NotOpen)));
}

#[test]
fn favorites_start_empty_by_default() {
    let favorites = SessionLogFavorites::default();
    assert!(favorites.ids().is_empty());
    assert!(!favorites.contains("recording-1"));
}
