//! Where automatic session logs live and how a scanned log is listed.
//!
//! Logs are kept under `session-logs/YYYY/MM/` in the application's data
//! directory, one file per recording, named by its UTC start time, backend
//! and recording id. Walking the directories is left to the caller.

use vstd::prelude::*;
use chrono::TimeZone;
use std::path::Path;
use std::path::PathBuf;
use crate::duration::Duration;
use crate::paths::{path_file_name_text, path_join};
use crate::recording::asciicast::{RecordingBackend, RecordingHeader};
use crate::recording::recovery::{ParsedRecording, RecordingCompleteness};
use crate::recording::session_favorites::SessionLogFavorites;

verus! {

pub const SESSION_LOGS_DIRECTORY: &'static str = "session-logs";
pub const MAX_RECORDING_ID_LENGTH: usize = 128;

#[derive(Clone, Debug, PartialEq, Eq)]
pub struct SessionLogEntry {
    pub path: PathBuf,
    pub header: RecordingHeader,
    pub duration: Duration,
    pub completeness: RecordingCompleteness,
    pub favorite: bool,
}

#[derive(Clone, Debug, PartialEq, Eq)]
pub struct SessionLogScanIssue {
    pub path: PathBuf,
    pub message: String,
}

#[derive(Clone, Debug, PartialEq, Eq)]
pub struct SessionLogCatalog {
    pub entries: Vec<SessionLogEntry>,
    pub skipped: Vec<SessionLogScanIssue>,
}

impl Default for SessionLogCatalog {
    fn default() -> (r: Self)
        ensures
            r.entries@.len() == 0,
            r.skipped@.len() == 0,
    {
        SessionLogCatalog { entries: Vec::new(), skipped: Vec::new() }
    }
}

/// The session-log directory inside the application's data directory.
pub fn session_logs_directory(data_directory: &Path) -> (r: PathBuf) {
    path_join(data_directory, SESSION_LOGS_DIRECTORY)
}

pub open spec fn is_id_byte(b: u8) -> bool {
    (0x30 <= b <= 0x39) || (0x41 <= b <= 0x5a) || (0x61 <= b <= 0x7a) || b == 0x2e || b == 0x5f || b == 0x2d
}

/// A recording id that can stand in a file name: 1 to 128 bytes of ASCII
/// letters, digits, `.`, `_` and `-`, and neither `.` nor `..`.
pub open spec fn safe_recording_id(id: Seq<u8>) -> bool {
    &&& 1 <= id.len() <= MAX_RECORDING_ID_LENGTH
    &&& id != seq![0x2eu8]
    &&& id != seq![0x2eu8, 0x2eu8]
    &&& forall|i: int| 0 <= i < id.len() ==> is_id_byte(#[trigger] id[i])
}

pub fn is_safe_recording_id(recording_id: &str) -> (r: bool)
    ensures
        r == safe_recording_id(vstd::utf8::encode_utf8(recording_id@)),
{
    let bytes = recording_id.as_bytes();
    let len = bytes.len();
    if len < 1 || len > MAX_RECORDING_ID_LENGTH {
        return false;
    }
    if len == 1 && bytes[0] == 0x2e {
        assert(bytes@ =~= seq![0x2eu8]);
        return false;
    }
    if len == 2 && bytes[0] == 0x2e && bytes[1] == 0x2e {
        assert(bytes@ =~= seq![0x2eu8, 0x2eu8]);
        return false;
    }
    assert(bytes@ != seq![0x2eu8]) by {
        if bytes@ =~= seq![0x2eu8] {
            assert(bytes@[0] == 0x2e);
        }
    }
    assert(bytes@ != seq![0x2eu8, 0x2eu8]) by {
        if bytes@ =~= seq![0x2eu8, 0x2eu8] {
            assert(bytes@[0] == 0x2e && bytes@[1] == 0x2e);
        }
    }
    let mut i: usize = 0;
    while i < len
        invariant
            i <= len,
            len == bytes@.len(),
            bytes@ == vstd::utf8::encode_utf8(recording_id@),
            bytes@ != seq![0x2eu8],
            bytes@ != seq![0x2eu8, 0x2eu8],
            1 <= len <= MAX_RECORDING_ID_LENGTH,
            forall|j: int| 0 <= j < i ==> is_id_byte(#[trigger] bytes@[j]),
        decreases len - i,
    {
        let b = bytes[i];
        let ok = (0x30 <= b && b <= 0x39) || (0x41 <= b && b <= 0x5a) || (0x61 <= b && b <= 0x7a) || b == 0x2e
            || b == 0x5f || b == 0x2d;
        if !ok {
            assert(!is_id_byte(bytes@[i as int]));
            return false;
        }
        i = i + 1;
    }
    true
}

/// Whether `text` ends with `suffix`.
pub open spec fn has_suffix(text: Seq<u8>, suffix: Seq<u8>) -> bool {
    suffix.len() <= text.len() && text.subrange(text.len() - suffix.len(), text.len() as int) == suffix
}

fn ends_with_bytes(text: &[u8], suffix: &[u8]) -> (r: bool)
    ensures
        r == has_suffix(text@, suffix@),
{
    if suffix.len() > text.len() {
        return false;
    }
    let text_len = text.len();
    let offset = text_len - suffix.len();
    let mut k: usize = 0;
    while k < suffix.len()
        invariant
            text_len == text@.len(),
            offset + suffix@.len() == text@.len(),
            k <= suffix@.len(),
            forall|j: int| 0 <= j < k ==> text@[offset + j] == suffix@[j],
        decreases suffix@.len() - k,
    {
        if text[offset + k] != suffix[k] {
            assert(text@.subrange(offset as int, text@.len() as int)[k as int] != suffix@[k as int]);
            return false;
        }
        k = k + 1;
    }
    assert(text@.subrange(offset as int, text@.len() as int) =~= suffix@);
    true
}

/// A file name of a complete (`.cast`) or unfinished (`.cast.partial`)
/// recording.
pub fn is_recording_name(name: &str) -> (r: bool)
    ensures
        r == (has_suffix(vstd::utf8::encode_utf8(name@), vstd::utf8::encode_utf8(".cast"@))
            || has_suffix(vstd::utf8::encode_utf8(name@), vstd::utf8::encode_utf8(".cast.partial"@))),
{
    let bytes = name.as_bytes();
    ends_with_bytes(bytes, ".cast".as_bytes()) || ends_with_bytes(bytes, ".cast.partial".as_bytes())
}

/// A file name of an unfinished recording.
pub fn is_partial_recording_name(name: &str) -> (r: bool)
    ensures
        r == has_suffix(vstd::utf8::encode_utf8(name@), vstd::utf8::encode_utf8(".cast.partial"@)),
{
    ends_with_bytes(name.as_bytes(), ".cast.partial".as_bytes())
}

/// Whether the file at `path` is listed as a session log, by its name.
pub fn is_recording_path(path: &Path) -> (r: bool) {
    match path_file_name_text(path) {
        Some(name) => is_recording_name(name.as_str()),
        None => false,
    }
}

/// Whether the file at `path` is an unfinished session log, by its name.
pub fn is_partial_recording_path(path: &Path) -> (r: bool) {
    match path_file_name_text(path) {
        Some(name) => is_partial_recording_name(name.as_str()),
        None => false,
    }
}

/// The chrono format patterns of a session log's place: its year
/// directory, its month directory and the time stamp its name starts with.
pub const YEAR_PATTERN: &'static str = "%Y";
pub const MONTH_PATTERN: &'static str = "%m";
pub const STAMP_PATTERN: &'static str = "%Y%m%d-%H%M%S-%3f";

/// The patterns this library formats with, all of which chrono renders.
pub open spec fn utc_pattern(pattern: Seq<char>) -> bool {
    pattern == YEAR_PATTERN@ || pattern == MONTH_PATTERN@ || pattern == STAMP_PATTERN@
}

/// What chrono's `Utc.timestamp_millis_opt(ms).single()`, formatted with
/// `pattern`, gives, where that instant exists.
pub uninterp spec fn utc_formatted(ms: i64, pattern: Seq<char>) -> Option<Seq<char>>;

/// chrono's `Utc.timestamp_millis_opt(ms).single()` (the instant, where it
/// exists), formatted with `pattern` (`DateTime::format`). Rendering a
/// pattern chrono does not know panics, so only the library's patterns are
/// admitted.
#[verifier::external_body]
fn utc_format(ms: i64, pattern: &str) -> (r: Option<String>)
    requires
        utc_pattern(pattern@),
    ensures
        match utc_formatted(ms, pattern@) {
            Some(text) => r matches Some(s) && s@ == text,
            None => r is None,
        },
{
    match chrono::Utc.timestamp_millis_opt(ms).single() {
        Some(t) => Some(t.format(pattern).to_string()),
        None => None,
    }
}

pub open spec fn backend_name(backend: RecordingBackend) -> Seq<char> {
    match backend {
        RecordingBackend::Local => "local"@,
        RecordingBackend::Ssh => "ssh"@,
        RecordingBackend::Serial => "serial"@,
    }
}

/// The year directory, month directory and file name of a session log.
pub open spec fn log_location(backend: RecordingBackend, started_at_unix_ms: u64, recording_id: Seq<char>) -> Option<(Seq<char>, Seq<char>, Seq<char>)> {
    if !safe_recording_id(vstd::utf8::encode_utf8(recording_id)) || started_at_unix_ms > i64::MAX {
        None
    } else {
        let ms = started_at_unix_ms as i64;
        match (utc_formatted(ms, YEAR_PATTERN@), utc_formatted(ms, MONTH_PATTERN@), utc_formatted(ms, STAMP_PATTERN@)) {
            (Some(year), Some(month), Some(stamp)) => Some(
                (year, month, stamp + "-"@ + backend_name(backend) + "-"@ + recording_id + ".cast"@),
            ),
            _ => None,
        }
    }
}

pub fn session_log_location(backend: RecordingBackend, started_at_unix_ms: u64, recording_id: &str) -> (r: Option<(String, String, String)>)
    ensures
        match log_location(backend, started_at_unix_ms, recording_id@) {
            Some((y, m, f)) => r matches Some((ry, rm, rf)) && ry@ == y && rm@ == m && rf@ == f,
            None => r is None,
        },
{
    if !is_safe_recording_id(recording_id) {
        return None;
    }
    if started_at_unix_ms > 0x7fff_ffff_ffff_ffff {
        return None;
    }
    let ms = started_at_unix_ms as i64;
    let year = utc_format(ms, YEAR_PATTERN);
    let month = utc_format(ms, MONTH_PATTERN);
    let stamp = utc_format(ms, STAMP_PATTERN);
    match (year, month, stamp) {
        (Some(year), Some(month), Some(time)) => {
            let backend_text = match backend {
                RecordingBackend::Local => "local",
                RecordingBackend::Ssh => "ssh",
                RecordingBackend::Serial => "serial",
            };
            let mut name = time;
            name.append("-");
            name.append(backend_text);
            name.append("-");
            name.append(recording_id);
            name.append(".cast");
            Some((year, month, name))
        },
        _ => None,
    }
}

/// The path of a new session log: `<dir>/YYYY/MM/<stamp>-<backend>-<id>.cast`;
/// none for an unsafe id or a start time chrono cannot place.
pub fn session_log_path(session_logs_directory: &Path, backend: RecordingBackend, started_at_unix_ms: u64, recording_id: &str) -> (r: Option<PathBuf>)
    ensures
        r is Some <==> log_location(backend, started_at_unix_ms, recording_id@) is Some,
{
    match session_log_location(backend, started_at_unix_ms, recording_id) {
        None => None,
        Some((year, month, name)) => {
            let year_dir = path_join(session_logs_directory, year.as_str());
            let month_dir = path_join(year_dir.as_path(), month.as_str());
            Some(path_join(month_dir.as_path(), name.as_str()))
        },
    }
}

/// The listing of a recording read from `path`: how long it plays, how
/// complete it is, and whether it is a favorite.
pub fn session_log_entry(path: PathBuf, recording: ParsedRecording, favorites: &SessionLogFavorites) -> (r: SessionLogEntry)
    ensures
        r.header == recording.header,
        r.completeness == recording.completeness,
        r.duration@ == if recording.events@.len() == 0 { 0 } else { recording.events@.last().elapsed@ },
        r.favorite == favorites.id_set().contains(recording.header.navop.recording_id@),
{
    let count = recording.events.len();
    let duration = if count == 0 { Duration::zero() } else { recording.events[count - 1].elapsed };
    let favorite = favorites.contains(recording.header.navop.recording_id.as_str());
    SessionLogEntry { path, header: recording.header, duration, completeness: recording.completeness, favorite }
}

/// `PathBuf`'s ordering (`<`); nothing is stated of it.
#[verifier::external_body]
fn path_precedes(a: &PathBuf, b: &PathBuf) -> (r: bool) {
    a < b
}

pub open spec fn started_at(entry: SessionLogEntry) -> u64 {
    entry.header.navop.started_at_unix_ms
}

/// Lists newer recordings first (ties by path).
pub fn order_session_log_entries(entries: Vec<SessionLogEntry>) -> (r: Vec<SessionLogEntry>)
    ensures
        r@.len() == entries@.len(),
        forall|i: int, j: int| 0 <= i < j < r@.len() ==> started_at(#[trigger] r@[i]) >= started_at(#[trigger] r@[j]),
        r@.to_multiset() == entries@.to_multiset(),
{
    broadcast use vstd::multiset::group_multiset_axioms;

    let mut sorted: Vec<SessionLogEntry> = Vec::new();
    let mut rest = entries;
    let ghost all = rest@;
    assert(sorted@.to_multiset() =~= vstd::multiset::Multiset::<SessionLogEntry>::empty()) by {
        vstd::seq_lib::to_multiset_len(sorted@);
    }
    while rest.len() > 0
        invariant
            sorted@.to_multiset().add(rest@.to_multiset()) == all.to_multiset(),
            forall|i: int, j: int| 0 <= i < j < sorted@.len() ==> started_at(#[trigger] sorted@[i]) >= started_at(#[trigger] sorted@[j]),
        decreases rest@.len(),
    {
        let ghost rest_before = rest@;
        let entry = rest.pop().unwrap();
        let key = entry.header.navop.started_at_unix_ms;
        let mut at: usize = 0;
        while at < sorted.len()
            && (sorted[at].header.navop.started_at_unix_ms > key || (sorted[at].header.navop.started_at_unix_ms == key
            && path_precedes(&sorted[at].path, &entry.path)))
            invariant
                at <= sorted@.len(),
                forall|k: int| 0 <= k < at ==> started_at(#[trigger] sorted@[k]) >= key,
            decreases sorted@.len() - at,
        {
            at = at + 1;
        }
        let ghost before = sorted@;
        sorted.insert(at, entry);
        proof {
            vstd::seq_lib::to_multiset_insert(before, at as int, entry);
            vstd::seq_lib::to_multiset_build(rest@, entry);
            assert(rest_before =~= rest@.push(entry));
            assert(sorted@.to_multiset().add(rest@.to_multiset()) =~= before.to_multiset().add(rest_before.to_multiset()));
            assert forall|i: int, j: int| 0 <= i < j < sorted@.len() implies started_at(#[trigger] sorted@[i]) >= started_at(#[trigger] sorted@[j]) by {
                if i < at && j == at {
                } else if i < at && j > at {
                    assert(sorted@[j] == before[j - 1]);
                } else if i == at && j > at {
                    assert(sorted@[j] == before[j - 1]);
                    if at < before.len() {
                        assert(started_at(before[at as int]) <= key);
                        assert(started_at(before[at as int]) >= started_at(before[j - 1]));
                    }
                } else if i > at {
                    assert(sorted@[i] == before[i - 1] && sorted@[j] == before[j - 1]);
                }
            }
        }
    }
    proof {
        assert(rest@.to_multiset() =~= vstd::multiset::Multiset::<SessionLogEntry>::empty()) by {
            vstd::seq_lib::to_multiset_len(rest@);
        }
        vstd::seq_lib::to_multiset_len(sorted@);
        vstd::seq_lib::to_multiset_len(all);
    }
    sorted
}

} // verus!
