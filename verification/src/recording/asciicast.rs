//! The asciicast v2 recording file: its header, the file limits, the errors a
//! recording file can raise, and the event fields of one event line.
//!
//! An event line is a JSON array `[elapsed_seconds, code, data]`. Output and
//! input bytes that are valid UTF-8 are stored as text (`o`, `i`); any other
//! bytes are stored in base64 under a private code. A resize is `COLSxROWS`.
//! The JSON framing itself is done by the caller.

use vstd::prelude::*;
use crate::recording::model::{spec_payload_len, RecordingEvent, RecordingEventKind, DEFAULT_MAX_RECORDING_EVENTS};
use crate::text::{decimal_chars, decimal_string, digit_char, digit_value, chars_of, same_text};
use crate::types::TerminalSize;
use crate::bytes::push_all;
use std::path::PathBuf;

verus! {

#[verifier::external_type_specification]
#[verifier::external_body]
pub struct ExJsonError(serde_json::Error);

pub const ASCIICAST_VERSION: u32 = 2;
pub const NAVOP_RECORDING_FORMAT_VERSION: u32 = 1;
pub const NAVOP_EVENT_STREAM: &'static str = "terminal_parser_input_v1";

pub const DEFAULT_MAX_RECORDING_HEADER_BYTES: usize = 65536;
pub const DEFAULT_MAX_SERIALIZED_RECORDING_EVENT_BYTES: usize = 8388608;
pub const DEFAULT_MAX_RECORDING_FILE_BYTES: u64 = 2147483648;
pub const DEFAULT_MAX_DECODED_RECORDING_BYTES: u64 = 1073741824;

pub const OUTPUT_EVENT: &'static str = "o";
pub const INPUT_EVENT: &'static str = "i";
pub const RESIZE_EVENT: &'static str = "r";
pub const MARKER_EVENT: &'static str = "m";
pub const BASE64_OUTPUT_EVENT: &'static str = "x-navop-o64";
pub const BASE64_INPUT_EVENT: &'static str = "x-navop-i64";

#[derive(Clone, Copy, Debug, PartialEq, Eq, Structural)]
pub enum RecordingBackend {
    Local,
    Ssh,
    Serial,
}

/// Metadata accepted from the active session when a recording starts.
///
/// Authentication material, environment values, connection strings and
/// command text are deliberately absent from this type.
#[derive(Clone, Debug, PartialEq, Eq)]
pub struct RecordingMetadata {
    pub recording_id: String,
    pub session_id: String,
    pub backend: RecordingBackend,
    pub application_version: String,
    pub started_at_unix_ms: u64,
    pub capture_input: bool,
}

#[derive(Clone, Debug, PartialEq, Eq)]
pub struct RecordingHeaderMetadata {
    pub format_version: u32,
    pub recording_id: String,
    pub session_id: String,
    pub backend: RecordingBackend,
    pub application_version: String,
    pub started_at_unix_ms: u64,
    pub capture_input: bool,
    pub event_stream: String,
}

#[derive(Clone, Debug, PartialEq, Eq)]
pub struct RecordingHeader {
    pub version: u32,
    pub width: u16,
    pub height: u16,
    pub timestamp: u64,
    pub navop: RecordingHeaderMetadata,
}

/// A limit of the recording file.
#[derive(Clone, Copy, Debug, PartialEq, Eq, Structural)]
pub enum RecordingFileLimit {
    HeaderBytes,
    EventBytes,
    FileBytes,
    EventCount,
    DecodedPayloadBytes,
}

pub open spec fn file_limit_name(limit: RecordingFileLimit) -> Seq<char> {
    match limit {
        RecordingFileLimit::HeaderBytes => "header_bytes"@,
        RecordingFileLimit::EventBytes => "event_bytes"@,
        RecordingFileLimit::FileBytes => "file_bytes"@,
        RecordingFileLimit::EventCount => "event_count"@,
        RecordingFileLimit::DecodedPayloadBytes => "decoded_payload_bytes"@,
    }
}

impl RecordingFileLimit {
    pub fn as_str(&self) -> (r: &'static str)
        ensures
            r@ == file_limit_name(*self),
    {
        match self {
            RecordingFileLimit::HeaderBytes => "header_bytes",
            RecordingFileLimit::EventBytes => "event_bytes",
            RecordingFileLimit::FileBytes => "file_bytes",
            RecordingFileLimit::EventCount => "event_count",
            RecordingFileLimit::DecodedPayloadBytes => "decoded_payload_bytes",
        }
    }
}

#[derive(Clone, Copy, Debug, PartialEq, Eq, Structural)]
pub struct RecordingFileLimits {
    pub max_header_bytes: usize,
    pub max_serialized_event_bytes: usize,
    pub max_file_bytes: u64,
    pub max_events: u64,
    pub max_decoded_payload_bytes: u64,
}

impl Default for RecordingFileLimits {
    fn default() -> (r: Self)
        ensures
            r == (RecordingFileLimits {
                max_header_bytes: DEFAULT_MAX_RECORDING_HEADER_BYTES,
                max_serialized_event_bytes: DEFAULT_MAX_SERIALIZED_RECORDING_EVENT_BYTES,
                max_file_bytes: DEFAULT_MAX_RECORDING_FILE_BYTES,
                max_events: DEFAULT_MAX_RECORDING_EVENTS,
                max_decoded_payload_bytes: DEFAULT_MAX_DECODED_RECORDING_BYTES,
            }),
    {
        RecordingFileLimits {
            max_header_bytes: DEFAULT_MAX_RECORDING_HEADER_BYTES,
            max_serialized_event_bytes: DEFAULT_MAX_SERIALIZED_RECORDING_EVENT_BYTES,
            max_file_bytes: DEFAULT_MAX_RECORDING_FILE_BYTES,
            max_events: DEFAULT_MAX_RECORDING_EVENTS,
            max_decoded_payload_bytes: DEFAULT_MAX_DECODED_RECORDING_BYTES,
        }
    }
}

/// What can go wrong with a recording file.
#[derive(Debug)]
pub enum RecordingFileError {
    Io { operation: &'static str, source: std::io::Error },
    Json(serde_json::Error),
    InvalidConfig(String),
    InvalidHeader(String),
    InvalidEvent { line: u64, reason: String },
    UnknownAsciicastVersion(u32),
    UnknownNavopVersion(u32),
    LimitReached(RecordingFileLimit),
    InputCaptureDisabled,
    FinalPathExists(PathBuf),
    InvalidFinalPath(PathBuf),
    InvalidPartialPath(PathBuf),
    FileChangedDuringRecovery,
    NotOpen,
}

/// The message of a recording file error; the texts of outside errors and
/// of paths are the `text` of the `exists` clauses.
pub open spec fn file_error_message(e: RecordingFileError, text: Seq<char>) -> Seq<char> {
    match e {
        RecordingFileError::Io { operation, .. } => "recording "@ + operation@ + " failed: "@ + text,
        RecordingFileError::Json(_) => "recording JSON failed: "@ + text,
        RecordingFileError::InvalidConfig(reason) => "invalid recording file config: "@ + reason@,
        RecordingFileError::InvalidHeader(reason) => "invalid recording header: "@ + reason@,
        RecordingFileError::InvalidEvent { line, reason } => "invalid recording event at line "@ + decimal_chars(line as nat)
            + ": "@ + reason@,
        RecordingFileError::UnknownAsciicastVersion(v) => "unsupported asciicast version: "@ + decimal_chars(v as nat),
        RecordingFileError::UnknownNavopVersion(v) => "unsupported Navop recording version: "@ + decimal_chars(v as nat),
        RecordingFileError::LimitReached(limit) => "recording "@ + file_limit_name(limit) + " limit reached"@,
        RecordingFileError::InputCaptureDisabled => "recording input capture is disabled"@,
        RecordingFileError::FinalPathExists(_) => "recording final path already exists: "@ + text,
        RecordingFileError::InvalidFinalPath(_) => "invalid recording final path: "@ + text,
        RecordingFileError::InvalidPartialPath(_) => "invalid recording partial path: "@ + text,
        RecordingFileError::FileChangedDuringRecovery => "recording partial changed during recovery"@,
        RecordingFileError::NotOpen => "recording file is not open"@,
    }
}

impl RecordingFileError {
    /// The error as text.
    pub fn message(&self) -> (r: String)
        ensures
            exists|text: Seq<char>| r@ == file_error_message(*self, text),
    {
        match self {
            RecordingFileError::Io { operation, source } => {
                let text = crate::error_text::io_error_text(source);
                let mut m = String::from_str("recording ");
                m.append(operation);
                m.append(" failed: ");
                m.append(text.as_str());
                assert(m@ == file_error_message(*self, text@));
                m
            },
            RecordingFileError::Json(source) => {
                let text = crate::error_text::json_error_text(source);
                let mut m = String::from_str("recording JSON failed: ");
                m.append(text.as_str());
                assert(m@ == file_error_message(*self, text@));
                m
            },
            RecordingFileError::InvalidConfig(reason) => {
                let mut m = String::from_str("invalid recording file config: ");
                m.append(reason.as_str());
                assert(m@ == file_error_message(*self, Seq::empty()));
                m
            },
            RecordingFileError::InvalidHeader(reason) => {
                let mut m = String::from_str("invalid recording header: ");
                m.append(reason.as_str());
                assert(m@ == file_error_message(*self, Seq::empty()));
                m
            },
            RecordingFileError::InvalidEvent { line, reason } => {
                let number = decimal_string(*line);
                let mut m = String::from_str("invalid recording event at line ");
                m.append(number.as_str());
                m.append(": ");
                m.append(reason.as_str());
                assert(m@ == file_error_message(*self, Seq::empty()));
                m
            },
            RecordingFileError::UnknownAsciicastVersion(v) => {
                let number = decimal_string(*v as u64);
                let mut m = String::from_str("unsupported asciicast version: ");
                m.append(number.as_str());
                assert(m@ == file_error_message(*self, Seq::empty()));
                m
            },
            RecordingFileError::UnknownNavopVersion(v) => {
                let number = decimal_string(*v as u64);
                let mut m = String::from_str("unsupported Navop recording version: ");
                m.append(number.as_str());
                assert(m@ == file_error_message(*self, Seq::empty()));
                m
            },
            RecordingFileError::LimitReached(limit) => {
                let mut m = String::from_str("recording ");
                m.append(limit.as_str());
                m.append(" limit reached");
                assert(m@ == file_error_message(*self, Seq::empty()));
                m
            },
            RecordingFileError::InputCaptureDisabled => {
                let m = String::from_str("recording input capture is disabled");
                assert(m@ == file_error_message(*self, Seq::empty()));
                m
            },
            RecordingFileError::FinalPathExists(path) => {
                let text = crate::error_text::path_display_text(path.as_path());
                let mut m = String::from_str("recording final path already exists: ");
                m.append(text.as_str());
                assert(m@ == file_error_message(*self, text@));
                m
            },
            RecordingFileError::InvalidFinalPath(path) => {
                let text = crate::error_text::path_display_text(path.as_path());
                let mut m = String::from_str("invalid recording final path: ");
                m.append(text.as_str());
                assert(m@ == file_error_message(*self, text@));
                m
            },
            RecordingFileError::InvalidPartialPath(path) => {
                let text = crate::error_text::path_display_text(path.as_path());
                let mut m = String::from_str("invalid recording partial path: ");
                m.append(text.as_str());
                assert(m@ == file_error_message(*self, text@));
                m
            },
            RecordingFileError::FileChangedDuringRecovery => {
                let m = String::from_str("recording partial changed during recovery");
                assert(m@ == file_error_message(*self, Seq::empty()));
                m
            },
            RecordingFileError::NotOpen => {
                let m = String::from_str("recording file is not open");
                assert(m@ == file_error_message(*self, Seq::empty()));
                m
            },
        }
    }
}

impl RecordingFileError {
    pub fn invalid_event(line: u64, reason: &str) -> (r: Self)
        ensures
            r matches RecordingFileError::InvalidEvent { line: l, reason: text } && l == line && text@ == reason@,
    {
        RecordingFileError::InvalidEvent { line, reason: reason.to_owned() }
    }

    pub fn invalid_header(reason: &str) -> (r: Self)
        ensures
            r matches RecordingFileError::InvalidHeader(text) && text@ == reason@,
    {
        RecordingFileError::InvalidHeader(reason.to_owned())
    }

    pub fn invalid_config(reason: &str) -> (r: Self)
        ensures
            r matches RecordingFileError::InvalidConfig(text) && text@ == reason@,
    {
        RecordingFileError::InvalidConfig(reason.to_owned())
    }
}

/// Whether `e` is exactly `LimitReached(limit)`.
pub open spec fn is_limit_error(e: RecordingFileError, limit: RecordingFileLimit) -> bool {
    e matches RecordingFileError::LimitReached(l) && l == limit
}

/// Whether `e` is an invalid-event error for `line` with the text `reason`.
pub open spec fn is_event_error(e: RecordingFileError, line: u64, reason: Seq<char>) -> bool {
    e matches RecordingFileError::InvalidEvent { line: l, reason: text } && l == line && text@ == reason
}

/// Whether `e` is an invalid-header error with the text `reason`.
pub open spec fn is_header_error(e: RecordingFileError, reason: Seq<char>) -> bool {
    e matches RecordingFileError::InvalidHeader(text) && text@ == reason
}

/// The header written for a new recording.
pub open spec fn header_for(metadata: RecordingMetadata, size: TerminalSize, h: RecordingHeader) -> bool {
    &&& h.version == ASCIICAST_VERSION
    &&& h.width == size.cols
    &&& h.height == size.rows
    &&& h.timestamp == metadata.started_at_unix_ms / 1000
    &&& h.navop.format_version == NAVOP_RECORDING_FORMAT_VERSION
    &&& h.navop.recording_id@ == metadata.recording_id@
    &&& h.navop.session_id@ == metadata.session_id@
    &&& h.navop.backend == metadata.backend
    &&& h.navop.application_version@ == metadata.application_version@
    &&& h.navop.started_at_unix_ms == metadata.started_at_unix_ms
    &&& h.navop.capture_input == metadata.capture_input
    &&& h.navop.event_stream@ == NAVOP_EVENT_STREAM@
}

/// The first rule a header breaks, checked in this order.
pub open spec fn header_verdict(h: RecordingHeader, e: RecordingFileError) -> bool {
    if h.version != ASCIICAST_VERSION {
        e matches RecordingFileError::UnknownAsciicastVersion(v) && v == h.version
    } else if h.navop.format_version != NAVOP_RECORDING_FORMAT_VERSION {
        e matches RecordingFileError::UnknownNavopVersion(v) && v == h.navop.format_version
    } else if h.width == 0 || h.height == 0 {
        is_header_error(e, "terminal dimensions must be non-zero"@)
    } else if h.navop.recording_id@.len() == 0 || h.navop.session_id@.len() == 0 {
        is_header_error(e, "recording_id and session_id must be non-empty"@)
    } else if h.navop.application_version@.len() == 0 {
        is_header_error(e, "application_version must be non-empty"@)
    } else if h.timestamp != h.navop.started_at_unix_ms / 1000 {
        is_header_error(e, "timestamp does not match started_at_unix_ms"@)
    } else {
        is_header_error(e, "unsupported event stream: "@ + h.navop.event_stream@)
    }
}

pub open spec fn header_is_valid(h: RecordingHeader) -> bool {
    &&& h.version == ASCIICAST_VERSION
    &&& h.navop.format_version == NAVOP_RECORDING_FORMAT_VERSION
    &&& h.width != 0 && h.height != 0
    &&& h.navop.recording_id@.len() != 0 && h.navop.session_id@.len() != 0
    &&& h.navop.application_version@.len() != 0
    &&& h.timestamp == h.navop.started_at_unix_ms / 1000
    &&& h.navop.event_stream@ == NAVOP_EVENT_STREAM@
}

impl RecordingHeader {
    /// The header of a new recording of the given session and size.
    pub fn new(metadata: RecordingMetadata, initial_size: TerminalSize) -> (r: Self)
        ensures
            header_for(metadata, initial_size, r),
    {
        RecordingHeader {
            version: ASCIICAST_VERSION,
            width: initial_size.cols,
            height: initial_size.rows,
            timestamp: metadata.started_at_unix_ms / 1000,
            navop: RecordingHeaderMetadata {
                format_version: NAVOP_RECORDING_FORMAT_VERSION,
                recording_id: metadata.recording_id,
                session_id: metadata.session_id,
                backend: metadata.backend,
                application_version: metadata.application_version,
                started_at_unix_ms: metadata.started_at_unix_ms,
                capture_input: metadata.capture_input,
                event_stream: NAVOP_EVENT_STREAM.to_owned(),
            },
        }
    }

    /// Accepts exactly the headers this version writes, and names the first
    /// rule that any other header breaks.
    pub fn validate(&self) -> (r: Result<(), RecordingFileError>)
        ensures
            r is Ok <==> header_is_valid(*self),
            r matches Err(e) ==> header_verdict(*self, e),
    {
        if self.version != ASCIICAST_VERSION {
            return Err(RecordingFileError::UnknownAsciicastVersion(self.version));
        }
        if self.navop.format_version != NAVOP_RECORDING_FORMAT_VERSION {
            return Err(RecordingFileError::UnknownNavopVersion(self.navop.format_version));
        }
        if self.width == 0 || self.height == 0 {
            return Err(RecordingFileError::invalid_header("terminal dimensions must be non-zero"));
        }
        if self.navop.recording_id.as_str().is_empty() || self.navop.session_id.as_str().is_empty() {
            return Err(RecordingFileError::invalid_header("recording_id and session_id must be non-empty"));
        }
        if self.navop.application_version.as_str().is_empty() {
            return Err(RecordingFileError::invalid_header("application_version must be non-empty"));
        }
        if self.timestamp != self.navop.started_at_unix_ms / 1000 {
            return Err(RecordingFileError::invalid_header("timestamp does not match started_at_unix_ms"));
        }
        if !same_text(self.navop.event_stream.as_str(), NAVOP_EVENT_STREAM) {
            let mut reason = String::from_str("unsupported event stream: ");
            reason.append(self.navop.event_stream.as_str());
            return Err(RecordingFileError::InvalidHeader(reason));
        }
        Ok(())
    }
}

/// Why a decimal field did not parse as a `u16`.
#[derive(Clone, Copy, Debug, PartialEq, Eq, Structural)]
pub enum ParseU16Error {
    Empty,
    InvalidDigit,
    Overflow,
}

pub open spec fn parse_error_text(e: ParseU16Error) -> Seq<char> {
    match e {
        ParseU16Error::Empty => "cannot parse integer from empty string"@,
        ParseU16Error::InvalidDigit => "invalid digit found in string"@,
        ParseU16Error::Overflow => "number too large to fit in target type"@,
    }
}

/// Reads decimal `digits` after an accumulated value `acc`, left to right:
/// a non-digit fails, and so does a value above `u16::MAX`, whichever comes
/// first.
pub open spec fn parse_digits(digits: Seq<char>, acc: nat) -> Result<nat, ParseU16Error>
    decreases digits.len(),
{
    if digits.len() == 0 {
        Ok(acc)
    } else {
        match digit_value(digits[0]) {
            None => Err(ParseU16Error::InvalidDigit),
            Some(d) => if acc * 10 + d > u16::MAX {
                Err(ParseU16Error::Overflow)
            } else {
                parse_digits(digits.drop_first(), acc * 10 + d)
            },
        }
    }
}

/// `u16::from_str`: an optional `+`, then at least one decimal digit.
pub open spec fn parse_u16_spec(text: Seq<char>) -> Result<nat, ParseU16Error> {
    if text.len() == 0 {
        Err(ParseU16Error::Empty)
    } else if text.len() == 1 && (text[0] == '+' || text[0] == '-') {
        Err(ParseU16Error::InvalidDigit)
    } else if text[0] == '+' {
        parse_digits(text.drop_first(), 0)
    } else {
        parse_digits(text, 0)
    }
}

proof fn lemma_parse_digits_bound(digits: Seq<char>, acc: nat)
    requires
        acc <= u16::MAX,
    ensures
        parse_digits(digits, acc) matches Ok(v) ==> v <= u16::MAX,
    decreases digits.len(),
{
    if digits.len() > 0 {
        if let Some(d) = digit_value(digits[0]) {
            if acc * 10 + d <= u16::MAX {
                lemma_parse_digits_bound(digits.drop_first(), acc * 10 + d);
            }
        }
    }
}

proof fn lemma_parse_u16_bound(text: Seq<char>)
    ensures
        parse_u16_spec(text) matches Ok(v) ==> v <= u16::MAX,
{
    if text.len() > 0 {
        lemma_parse_digits_bound(text.drop_first(), 0);
        lemma_parse_digits_bound(text, 0);
    }
}

fn digit_of(c: char) -> (r: Option<u32>)
    ensures
        match digit_value(c) {
            Some(d) => r == Some(d as u32),
            None => r is None,
        },
{
    if '0' <= c && c <= '9' {
        Some((c as u32) - ('0' as u32))
    } else {
        None
    }
}

/// Parses a decimal `u16` as `u16::from_str` does.
pub fn parse_u16(text: &[char]) -> (r: Result<u16, ParseU16Error>)
    ensures
        match parse_u16_spec(text@) {
            Ok(v) => v <= u16::MAX && r == Ok::<u16, ParseU16Error>(v as u16),
            Err(e) => r == Err::<u16, ParseU16Error>(e),
        },
{
    proof {
        lemma_parse_u16_bound(text@);
    }
    let len = text.len();
    if len == 0 {
        return Err(ParseU16Error::Empty);
    }
    if len == 1 && (text[0] == '+' || text[0] == '-') {
        return Err(ParseU16Error::InvalidDigit);
    }
    let start: usize = if text[0] == '+' { 1 } else { 0 };
    let ghost digits = if text[0] == '+' { text@.drop_first() } else { text@ };
    assert(digits =~= text@.subrange(start as int, len as int));
    assert(parse_u16_spec(text@) == parse_digits(digits, 0));
    let mut acc: u32 = 0;
    let mut i = start;
    while i < len
        invariant
            start <= i <= len,
            len == text@.len(),
            acc <= u16::MAX,
            digits == text@.subrange(start as int, len as int),
            parse_u16_spec(text@) == parse_digits(digits, 0),
            parse_digits(digits, 0) == parse_digits(text@.subrange(i as int, len as int), acc as nat),
        decreases len - i,
    {
        let ghost rest = text@.subrange(i as int, len as int);
        assert(rest[0] == text@[i as int]);
        assert(rest.drop_first() =~= text@.subrange(i + 1, len as int));
        match digit_of(text[i]) {
            None => return Err(ParseU16Error::InvalidDigit),
            Some(d) => {
                let next = acc * 10 + d;
                if next > 65535 {
                    return Err(ParseU16Error::Overflow);
                }
                acc = next;
            },
        }
        i = i + 1;
    }
    assert(text@.subrange(len as int, len as int) =~= Seq::<char>::empty());
    Ok(acc as u16)
}

/// The position of the first `x`, or the length.
pub open spec fn first_x(v: Seq<char>) -> nat
    decreases v.len(),
{
    if v.len() == 0 {
        0
    } else if v[0] == 'x' {
        0
    } else {
        1 + first_x(v.drop_first())
    }
}

proof fn lemma_first_x_is(v: Seq<char>, i: int)
    requires
        0 <= i <= v.len(),
        forall|j: int| 0 <= j < i ==> #[trigger] v[j] != 'x',
        i == v.len() || v[i] == 'x',
    ensures
        first_x(v) == i,
    decreases i,
{
    if i > 0 {
        let rest = v.drop_first();
        assert forall|j: int| 0 <= j < i - 1 implies #[trigger] rest[j] != 'x' by {
            assert(rest[j] == v[j + 1]);
        }
        if i < v.len() {
            assert(rest[i - 1] == v[i]);
        }
        lemma_first_x_is(rest, i - 1);
        assert(v[0] != 'x');
    }
}

/// The size a resize field `COLSxROWS` names, or why it names none.
pub open spec fn resize_verdict(data: Seq<char>, line: u64, r: Result<TerminalSize, RecordingFileError>) -> bool {
    let x = first_x(data);
    if x >= data.len() {
        r matches Err(e) && is_event_error(e, line, "resize must use COLSxROWS"@)
    } else {
        let cols = parse_u16_spec(data.subrange(0, x as int));
        let rows = parse_u16_spec(data.subrange(x as int + 1, data.len() as int));
        match cols {
            Err(pe) => r matches Err(e) && is_event_error(e, line, parse_error_text(pe)),
            Ok(c) => match rows {
                Err(pe) => r matches Err(e) && is_event_error(e, line, parse_error_text(pe)),
                Ok(w) => if c == 0 || w == 0 {
                    r matches Err(e) && is_event_error(e, line, "resize dimensions must be non-zero"@)
                } else {
                    r matches Ok(size) && size == (TerminalSize {
                        rows: w as u16,
                        cols: c as u16,
                        pixel_width: 0,
                        pixel_height: 0,
                    })
                },
            },
        }
    }
}

fn parse_error_message(e: ParseU16Error) -> (r: &'static str)
    ensures
        r@ == parse_error_text(e),
{
    match e {
        ParseU16Error::Empty => "cannot parse integer from empty string",
        ParseU16Error::InvalidDigit => "invalid digit found in string",
        ParseU16Error::Overflow => "number too large to fit in target type",
    }
}

fn sub_chars(v: &[char], from: usize, to: usize) -> (r: Vec<char>)
    requires
        from <= to <= v@.len(),
    ensures
        r@ == v@.subrange(from as int, to as int),
{
    let mut out: Vec<char> = Vec::new();
    let mut k = from;
    while k < to
        invariant
            from <= k <= to,
            to <= v@.len(),
            out@ == v@.subrange(from as int, k as int),
        decreases to - k,
    {
        out.push(v[k]);
        k = k + 1;
        assert(v@.subrange(from as int, k as int) =~= v@.subrange(from as int, k - 1).push(v@[k - 1]));
    }
    out
}

/// Decodes a resize field `COLSxROWS` of event line `line`.
pub fn decode_resize(data: &str, line: u64) -> (r: Result<TerminalSize, RecordingFileError>)
    ensures
        resize_verdict(data@, line, r),
{
    let chars = chars_of(data);
    let len = chars.len();
    let mut x: usize = 0;
    while x < len
        invariant
            x <= len,
            len == chars@.len(),
            forall|j: int| 0 <= j < x ==> #[trigger] chars@[j] != 'x',
        ensures
            x <= len,
            forall|j: int| 0 <= j < x ==> #[trigger] chars@[j] != 'x',
            x == len || chars@[x as int] == 'x',
        decreases len - x,
    {
        if chars[x] == 'x' {
            break;
        }
        x = x + 1;
    }
    proof {
        lemma_first_x_is(chars@, x as int);
    }
    if x == len {
        return Err(RecordingFileError::invalid_event(line, "resize must use COLSxROWS"));
    }
    let cols_text = sub_chars(chars.as_slice(), 0, x);
    let rows_text = sub_chars(chars.as_slice(), x + 1, len);
    let cols = match parse_u16(cols_text.as_slice()) {
        Ok(v) => v,
        Err(e) => return Err(RecordingFileError::invalid_event(line, parse_error_message(e))),
    };
    let rows = match parse_u16(rows_text.as_slice()) {
        Ok(v) => v,
        Err(e) => return Err(RecordingFileError::invalid_event(line, parse_error_message(e))),
    };
    if cols == 0 || rows == 0 {
        return Err(RecordingFileError::invalid_event(line, "resize dimensions must be non-zero"));
    }
    Ok(TerminalSize { rows, cols, pixel_width: 0, pixel_height: 0 })
}

/// What `base64::engine::general_purpose::STANDARD` encodes `bytes` to.
pub uninterp spec fn base64_standard_encoding(bytes: Seq<u8>) -> Seq<char>;

/// What `base64::engine::general_purpose::STANDARD` decodes `text` to, or the
/// text of its decode error.
pub uninterp spec fn base64_standard_decoding(text: Seq<char>) -> Result<Seq<u8>, Seq<char>>;

/// A successful decoding to `bytes`.
pub open spec fn decoded_ok(bytes: Seq<u8>) -> Result<Seq<u8>, Seq<char>> {
    Ok(bytes)
}

/// `Engine::encode` of the standard base64 engine. Decoding the result with
/// the same engine gives the bytes back (the crate fuzzes this round trip).
#[verifier::external_body]
fn base64_encode(bytes: &[u8]) -> (r: String)
    ensures
        r@ == base64_standard_encoding(bytes@),
        base64_standard_decoding(r@) == decoded_ok(bytes@),
{
    base64::Engine::encode(&base64::engine::general_purpose::STANDARD, bytes)
}

/// `Engine::decode` of the standard base64 engine; an error as its text.
#[verifier::external_body]
fn base64_decode(text: &str) -> (r: Result<Vec<u8>, String>)
    ensures
        match base64_standard_decoding(text@) {
            Ok(bytes) => r matches Ok(v) && v@ == bytes,
            Err(message) => r matches Err(m) && m@ == message,
        },
{
    match base64::Engine::decode(&base64::engine::general_purpose::STANDARD, text) {
        Ok(bytes) => Ok(bytes),
        Err(error) => Err(error.to_string()),
    }
}

/// `std::str::from_utf8`: the text of `bytes` exactly when they are valid
/// UTF-8.
#[verifier::external_body]
fn utf8_text(bytes: &[u8]) -> (r: Option<String>)
    ensures
        r is Some <==> vstd::utf8::valid_utf8(bytes@),
        r matches Some(text) ==> text@ == vstd::utf8::decode_utf8(bytes@),
{
    match std::str::from_utf8(bytes) {
        Ok(text) => Some(text.to_owned()),
        Err(_) => None,
    }
}

/// The code and data that store `bytes`: as text where they are UTF-8,
/// otherwise in base64 under the private code.
pub open spec fn byte_fields(bytes: Seq<u8>, text_code: Seq<char>, base64_code: Seq<char>) -> (Seq<char>, Seq<char>) {
    if vstd::utf8::valid_utf8(bytes) {
        (text_code, vstd::utf8::decode_utf8(bytes))
    } else {
        (base64_code, base64_standard_encoding(bytes))
    }
}

proof fn lemma_digit_char_value(d: nat)
    requires
        d < 10,
    ensures
        digit_value(digit_char(d)) == Some(d),
{
}

/// Decimal digits contain only digits, and at least one.
proof fn lemma_decimal_chars_are_digits(n: nat)
    ensures
        decimal_chars(n).len() > 0,
        forall|i: int| 0 <= i < decimal_chars(n).len() ==> #[trigger] digit_value(decimal_chars(n)[i]) is Some,
    decreases n,
{
    if n < 10 {
        lemma_digit_char_value(n);
    } else {
        lemma_decimal_chars_are_digits(n / 10);
        lemma_digit_char_value(n % 10);
        let s = decimal_chars(n / 10);
        assert forall|i: int| 0 <= i < decimal_chars(n).len() implies #[trigger] digit_value(decimal_chars(n)[i]) is Some by {
            if i < s.len() {
                assert(decimal_chars(n)[i] == s[i]);
            }
        }
    }
}

/// Reading one more digit multiplies by ten and adds it.
proof fn lemma_parse_digits_push(s: Seq<char>, c: char, acc: nat)
    requires
        digit_value(c) is Some,
    ensures
        parse_digits(s.push(c), acc) == match parse_digits(s, acc) {
            Ok(v) => if v * 10 + digit_value(c)->0 > u16::MAX {
                Err(ParseU16Error::Overflow)
            } else {
                Ok((v * 10 + digit_value(c)->0) as nat)
            },
            Err(e) => Err(e),
        },
    decreases s.len(),
{
    if s.len() == 0 {
        assert(s.push(c)[0] == c);
        assert(s.push(c).drop_first() =~= Seq::<char>::empty());
        assert(parse_digits(s, acc) == Ok::<nat, ParseU16Error>(acc));
        let d = digit_value(c)->0;
        if acc * 10 + d <= u16::MAX {
            assert(parse_digits(Seq::<char>::empty(), (acc * 10 + d) as nat) == Ok::<nat, ParseU16Error>((acc * 10 + d) as nat));
        }
    } else {
        assert(s.push(c)[0] == s[0]);
        assert(s.push(c).drop_first() =~= s.drop_first().push(c));
        match digit_value(s[0]) {
            None => {},
            Some(d) => {
                if acc * 10 + d <= u16::MAX {
                    lemma_parse_digits_push(s.drop_first(), c, acc * 10 + d);
                }
            },
        }
    }
}

/// The decimal digits of a `u16` read back as it.
proof fn lemma_parse_decimal(n: nat)
    requires
        n <= u16::MAX,
    ensures
        parse_digits(decimal_chars(n), 0) == Ok::<nat, ParseU16Error>(n),
    decreases n,
{
    if n < 10 {
        lemma_digit_char_value(n);
        let s = decimal_chars(n);
        assert(s == seq![digit_char(n)]);
        assert(s[0] == digit_char(n));
        assert(s.drop_first() =~= Seq::<char>::empty());
        assert(parse_digits(s.drop_first(), n) == Ok::<nat, ParseU16Error>(n));
    } else {
        lemma_parse_decimal(n / 10);
        lemma_digit_char_value(n % 10);
        lemma_parse_digits_push(decimal_chars(n / 10), digit_char(n % 10), 0);
        assert(decimal_chars(n) == decimal_chars(n / 10).push(digit_char(n % 10)));
        assert((n / 10) * 10 + n % 10 == n);
    }
}

/// A decimal `u16` parses back as `u16::from_str` reads it.
proof fn lemma_parse_u16_decimal(n: nat)
    requires
        n <= u16::MAX,
    ensures
        parse_u16_spec(decimal_chars(n)) == Ok::<nat, ParseU16Error>(n),
{
    lemma_parse_decimal(n);
    lemma_decimal_chars_are_digits(n);
    assert(digit_value(decimal_chars(n)[0]) is Some);
}

/// A resize field written as `COLSxROWS` reads back as the same columns and
/// rows.
proof fn lemma_resize_field_roundtrip(cols: u16, rows: u16)
    requires
        cols > 0,
        rows > 0,
    ensures
        forall|line: u64, sized: Result<TerminalSize, RecordingFileError>|
            #[trigger] resize_verdict(decimal_chars(cols as nat) + seq!['x'] + decimal_chars(rows as nat), line, sized)
                ==> (sized matches Ok(size) && size.cols == cols && size.rows == rows),
        forall|line: u64, decoded: Result<RecordingEventKind, RecordingFileError>|
            #[trigger] kind_verdict(RESIZE_EVENT@, decimal_chars(cols as nat) + seq!['x'] + decimal_chars(rows as nat), line, decoded)
                ==> (decoded matches Ok(RecordingEventKind::Resize(size)) && size.cols == cols && size.rows == rows),
{
    reveal_strlit("o");
    reveal_strlit("i");
    reveal_strlit("r");
    reveal_strlit("m");
    reveal_strlit("x-navop-o64");
    reveal_strlit("x-navop-i64");
    assert(OUTPUT_EVENT@[0] == 'o' && INPUT_EVENT@[0] == 'i' && RESIZE_EVENT@[0] == 'r' && MARKER_EVENT@[0] == 'm');
    assert(RESIZE_EVENT@.len() == 1 && BASE64_OUTPUT_EVENT@.len() == 11 && BASE64_INPUT_EVENT@.len() == 11);
    assert(RESIZE_EVENT@ != OUTPUT_EVENT@ && RESIZE_EVENT@ != INPUT_EVENT@);
    assert(RESIZE_EVENT@ != BASE64_OUTPUT_EVENT@ && RESIZE_EVENT@ != BASE64_INPUT_EVENT@);
    let a = decimal_chars(cols as nat);
    let b = decimal_chars(rows as nat);
    let data = a + seq!['x'] + b;
    lemma_decimal_chars_are_digits(cols as nat);
    lemma_decimal_chars_are_digits(rows as nat);
    assert forall|j: int| 0 <= j < a.len() implies #[trigger] data[j] != 'x' by {
        assert(data[j] == a[j]);
        assert(digit_value(a[j]) is Some);
    }
    assert(data[a.len() as int] == 'x');
    lemma_first_x_is(data, a.len() as int);
    assert(data.subrange(0, a.len() as int) =~= a);
    assert(data.subrange(a.len() as int + 1, data.len() as int) =~= b);
    lemma_parse_u16_decimal(cols as nat);
    lemma_parse_u16_decimal(rows as nat);
}

/// The code and data fields of an event line.
pub open spec fn event_fields(kind: RecordingEventKind) -> (Seq<char>, Seq<char>) {
    match kind {
        RecordingEventKind::Output(bytes) => byte_fields(bytes@, OUTPUT_EVENT@, BASE64_OUTPUT_EVENT@),
        RecordingEventKind::Input(bytes) => byte_fields(bytes@, INPUT_EVENT@, BASE64_INPUT_EVENT@),
        RecordingEventKind::Resize(size) => (
            RESIZE_EVENT@,
            decimal_chars(size.cols as nat) + seq!['x'] + decimal_chars(size.rows as nat),
        ),
        RecordingEventKind::Marker(marker) => (MARKER_EVENT@, marker@),
    }
}

/// The stored data gives the bytes back: text re-encodes to them, and
/// base64 decodes to them.
pub open spec fn gives_back(bytes: Seq<u8>, text_code: Seq<char>, code: Seq<char>, data: Seq<char>) -> bool {
    if code == text_code {
        vstd::utf8::encode_utf8(data) == bytes
    } else {
        base64_standard_decoding(data) == Ok::<Seq<u8>, Seq<char>>(bytes)
    }
}

fn encode_bytes(bytes: &[u8], text_code: &'static str, base64_code: &'static str) -> (r: (&'static str, String))
    requires
        text_code@ != base64_code@,
    ensures
        (r.0@, r.1@) == byte_fields(bytes@, text_code@, base64_code@),
        gives_back(bytes@, text_code@, r.0@, r.1@),
{
    match utf8_text(bytes) {
        Some(text) => {
            proof {
                vstd::utf8::decode_utf8_encode_utf8(bytes@);
            }
            (text_code, text)
        },
        None => (base64_code, base64_encode(bytes)),
    }
}

/// A decoded event kind that is the given one: the same bytes, the same
/// marker text, or the same columns and rows (pixel sizes are not stored).
pub open spec fn same_kind(decoded: Result<RecordingEventKind, RecordingFileError>, kind: RecordingEventKind) -> bool {
    match (decoded, kind) {
        (Ok(RecordingEventKind::Output(a)), RecordingEventKind::Output(b)) => a@ == b@,
        (Ok(RecordingEventKind::Input(a)), RecordingEventKind::Input(b)) => a@ == b@,
        (Ok(RecordingEventKind::Marker(a)), RecordingEventKind::Marker(b)) => a@ == b@,
        (Ok(RecordingEventKind::Resize(a)), RecordingEventKind::Resize(b)) => a.cols == b.cols && a.rows == b.rows,
        _ => false,
    }
}

/// Fields that decode, on any line, back to the event kind they were made
/// from.
pub open spec fn decodes_back(r: Result<(&'static str, String), RecordingFileError>, kind: RecordingEventKind) -> bool {
    match r {
        Ok(f) => forall|line: u64, decoded: Result<RecordingEventKind, RecordingFileError>|
            #[trigger] kind_verdict(f.0@, f.1@, line, decoded) ==> same_kind(decoded, kind),
        Err(_) => true,
    }
}

/// Output and input stored as text or base64 decode back to the same bytes.
proof fn lemma_bytes_roundtrip(kind: RecordingEventKind, code: Seq<char>, data: Seq<char>)
    requires
        match kind {
            RecordingEventKind::Output(bytes) => (code, data) == byte_fields(bytes@, OUTPUT_EVENT@, BASE64_OUTPUT_EVENT@)
                && gives_back(bytes@, OUTPUT_EVENT@, code, data),
            RecordingEventKind::Input(bytes) => (code, data) == byte_fields(bytes@, INPUT_EVENT@, BASE64_INPUT_EVENT@)
                && gives_back(bytes@, INPUT_EVENT@, code, data),
            _ => false,
        },
    ensures
        forall|line: u64, decoded: Result<RecordingEventKind, RecordingFileError>|
            #[trigger] kind_verdict(code, data, line, decoded) ==> same_kind(decoded, kind),
{
    reveal_strlit("o");
    reveal_strlit("i");
    reveal_strlit("x-navop-o64");
    reveal_strlit("x-navop-i64");
    assert(OUTPUT_EVENT@[0] == 'o' && INPUT_EVENT@[0] == 'i');
    assert(BASE64_OUTPUT_EVENT@[8] == 'o' && BASE64_INPUT_EVENT@[8] == 'i');
    assert(OUTPUT_EVENT@.len() == 1 && BASE64_OUTPUT_EVENT@.len() == 11);
    assert(INPUT_EVENT@.len() == 1 && BASE64_INPUT_EVENT@.len() == 11);
    assert(OUTPUT_EVENT@ != INPUT_EVENT@ && BASE64_OUTPUT_EVENT@ != BASE64_INPUT_EVENT@);
    assert(BASE64_OUTPUT_EVENT@ != INPUT_EVENT@ && BASE64_INPUT_EVENT@ != OUTPUT_EVENT@);
    assert(OUTPUT_EVENT@ != BASE64_OUTPUT_EVENT@ && INPUT_EVENT@ != BASE64_INPUT_EVENT@);
}

/// The code and data of an event line. Input is refused unless the
/// recording captures it, and a resize to zero columns or rows is refused.
#[verifier::spinoff_prover]
pub fn encode_event_fields(kind: &RecordingEventKind, capture_input: bool) -> (r: Result<(&'static str, String), RecordingFileError>)
    ensures
        (kind is Input && !capture_input) ==> (r matches Err(e) && e is InputCaptureDisabled),
        (kind matches RecordingEventKind::Resize(size) && (size.cols == 0 || size.rows == 0)) ==> (r matches Err(e)
            && is_event_error(e, 0, "resize dimensions must be non-zero"@)),
        r matches Ok(fields) ==> (fields.0@, fields.1@) == event_fields(*kind),
        !(kind is Input && !capture_input) && !(kind matches RecordingEventKind::Resize(size) && (size.cols == 0
            || size.rows == 0)) ==> r is Ok,
        decodes_back(r, *kind),
{
    proof {
        reveal_strlit("o");
        reveal_strlit("i");
        reveal_strlit("r");
        reveal_strlit("m");
        reveal_strlit("x-navop-o64");
        reveal_strlit("x-navop-i64");
        assert(OUTPUT_EVENT@.len() == 1 && BASE64_OUTPUT_EVENT@.len() == 11);
        assert(INPUT_EVENT@.len() == 1 && BASE64_INPUT_EVENT@.len() == 11);
        assert(OUTPUT_EVENT@[0] == 'o' && INPUT_EVENT@[0] == 'i' && RESIZE_EVENT@[0] == 'r' && MARKER_EVENT@[0] == 'm');
        assert(RESIZE_EVENT@ != OUTPUT_EVENT@ && RESIZE_EVENT@ != INPUT_EVENT@);
        assert(MARKER_EVENT@ != OUTPUT_EVENT@ && MARKER_EVENT@ != INPUT_EVENT@ && MARKER_EVENT@ != RESIZE_EVENT@);
        assert(MARKER_EVENT@ != BASE64_OUTPUT_EVENT@ && MARKER_EVENT@ != BASE64_INPUT_EVENT@);
        assert(BASE64_OUTPUT_EVENT@[8] == 'o' && BASE64_INPUT_EVENT@[8] == 'i');
        assert(OUTPUT_EVENT@ != INPUT_EVENT@ && BASE64_OUTPUT_EVENT@ != BASE64_INPUT_EVENT@);
        assert(BASE64_OUTPUT_EVENT@ != INPUT_EVENT@ && BASE64_INPUT_EVENT@ != OUTPUT_EVENT@);
    }
    match kind {
        RecordingEventKind::Output(bytes) => {
            let f = encode_bytes(bytes.as_slice(), OUTPUT_EVENT, BASE64_OUTPUT_EVENT);
            proof {
                lemma_bytes_roundtrip(*kind, f.0@, f.1@);
            }
            Ok(f)
        },
        RecordingEventKind::Input(bytes) => {
            if !capture_input {
                return Err(RecordingFileError::InputCaptureDisabled);
            }
            let f = encode_bytes(bytes.as_slice(), INPUT_EVENT, BASE64_INPUT_EVENT);
            proof {
                lemma_bytes_roundtrip(*kind, f.0@, f.1@);
            }
            Ok(f)
        },
        RecordingEventKind::Resize(size) => {
            if size.cols == 0 || size.rows == 0 {
                return Err(RecordingFileError::invalid_event(0, "resize dimensions must be non-zero"));
            }
            let mut data = decimal_string(size.cols as u64);
            data.append("x");
            let rows = decimal_string(size.rows as u64);
            data.append(rows.as_str());
            proof {
                reveal_strlit("x");
                lemma_resize_field_roundtrip(size.cols, size.rows);
                assert(data@ =~= decimal_chars(size.cols as nat) + seq!['x'] + decimal_chars(size.rows as nat));
            }
            let res: Result<(&'static str, String), RecordingFileError> = Ok((RESIZE_EVENT, data));
            assert(decodes_back(res, *kind));
            res
        },
        RecordingEventKind::Marker(marker) => {
            let res: Result<(&'static str, String), RecordingFileError> = Ok((MARKER_EVENT, marker.clone()));
            assert(decodes_back(res, *kind));
            res
        },
    }
}

/// The event kind an event line's code and data stand for.
pub open spec fn kind_verdict(code: Seq<char>, data: Seq<char>, line: u64, r: Result<RecordingEventKind, RecordingFileError>) -> bool {
    if code == OUTPUT_EVENT@ {
        r matches Ok(RecordingEventKind::Output(bytes)) && bytes@ == vstd::utf8::encode_utf8(data)
    } else if code == INPUT_EVENT@ {
        r matches Ok(RecordingEventKind::Input(bytes)) && bytes@ == vstd::utf8::encode_utf8(data)
    } else if code == BASE64_OUTPUT_EVENT@ {
        match base64_standard_decoding(data) {
            Ok(decoded) => r matches Ok(RecordingEventKind::Output(bytes)) && bytes@ == decoded,
            Err(message) => r matches Err(e) && is_event_error(e, line, message),
        }
    } else if code == BASE64_INPUT_EVENT@ {
        match base64_standard_decoding(data) {
            Ok(decoded) => r matches Ok(RecordingEventKind::Input(bytes)) && bytes@ == decoded,
            Err(message) => r matches Err(e) && is_event_error(e, line, message),
        }
    } else if code == RESIZE_EVENT@ {
        exists|sized: Result<TerminalSize, RecordingFileError>| #[trigger] resize_verdict(data, line, sized) && match sized {
            Ok(size) => r matches Ok(RecordingEventKind::Resize(s)) && s == size,
            Err(_) => r is Err,
        }
    } else if code == MARKER_EVENT@ {
        r matches Ok(RecordingEventKind::Marker(marker)) && marker@ == data
    } else {
        r matches Err(e) && is_event_error(e, line, "unsupported event type: "@ + code)
    }
}

fn utf8_bytes(text: &str) -> (r: Vec<u8>)
    ensures
        r@ == vstd::utf8::encode_utf8(text@),
{
    let mut out: Vec<u8> = Vec::new();
    push_all(&mut out, text.as_bytes());
    out
}

/// Decodes the code and data fields of event line `line`.
pub fn decode_event_kind(event_type: &str, data: String, line: u64) -> (r: Result<RecordingEventKind, RecordingFileError>)
    ensures
        kind_verdict(event_type@, data@, line, r),
{
    if same_text(event_type, OUTPUT_EVENT) {
        Ok(RecordingEventKind::Output(utf8_bytes(data.as_str())))
    } else if same_text(event_type, INPUT_EVENT) {
        Ok(RecordingEventKind::Input(utf8_bytes(data.as_str())))
    } else if same_text(event_type, BASE64_OUTPUT_EVENT) {
        match base64_decode(data.as_str()) {
            Ok(bytes) => Ok(RecordingEventKind::Output(bytes)),
            Err(message) => Err(RecordingFileError::InvalidEvent { line, reason: message }),
        }
    } else if same_text(event_type, BASE64_INPUT_EVENT) {
        match base64_decode(data.as_str()) {
            Ok(bytes) => Ok(RecordingEventKind::Input(bytes)),
            Err(message) => Err(RecordingFileError::InvalidEvent { line, reason: message }),
        }
    } else if same_text(event_type, RESIZE_EVENT) {
        let sized = decode_resize(data.as_str(), line);
        let ghost witness = sized;
        match sized {
            Ok(size) => {
                assert(resize_verdict(data@, line, witness));
                Ok(RecordingEventKind::Resize(size))
            },
            Err(e) => {
                assert(resize_verdict(data@, line, witness));
                Err(e)
            },
        }
    } else if same_text(event_type, MARKER_EVENT) {
        Ok(RecordingEventKind::Marker(data))
    } else {
        let mut reason = String::from_str("unsupported event type: ");
        reason.append(event_type);
        Err(RecordingFileError::InvalidEvent { line, reason })
    }
}

} // verus!
