//! Read-only playback of a parsed recording: a bounded timeline that decides
//! which events are due, and a bounded search index over the text of the
//! output, input and marker events.
//!
//! Nothing here feeds a terminal or a backend. Input and marker events are
//! only ever labelled as display-only metadata. Playback speed (a float) is
//! applied by the caller, who hands the timeline the time to advance by.

use vstd::prelude::*;
use crate::duration::Duration;
use crate::recording::asciicast::{RecordingFileError, RecordingHeader, file_error_message, header_is_valid, header_verdict};
use crate::recording::model::{RecordingEvent, RecordingEventKind};
use crate::recording::recovery::{ParsedRecording, RecordingCompleteness};
use crate::text::{utf8_lossy, utf8_lossy_decoding, decimal_chars, decimal_string};
use vstd::utf8::{encode_utf8, is_char_boundary, valid_utf8};

verus! {

broadcast use crate::duration::lemma_duration_bound;

pub const DEFAULT_MAX_PLAYBACK_INDEXED_EVENTS: usize = 100000;
pub const DEFAULT_MAX_PLAYBACK_INDEXED_TEXT_BYTES: usize = 16777216;
pub const DEFAULT_MAX_PLAYBACK_SEARCH_QUERY_BYTES: usize = 4096;
pub const DEFAULT_MAX_PLAYBACK_SEARCH_RESULTS: usize = 1000;
pub const DEFAULT_MAX_PLAYBACK_SEARCH_SNIPPET_BYTES: usize = 512;

/// Resource limits of the search surface built over a recording; they bound
/// the memory playback keeps beyond the recording itself.
#[derive(Clone, Copy, Debug, PartialEq, Eq, Structural)]
pub struct RecordingPlaybackLimits {
    pub max_indexed_events: usize,
    pub max_indexed_text_bytes: usize,
    pub max_search_query_bytes: usize,
    pub max_search_results: usize,
    pub max_search_snippet_bytes: usize,
}

impl Default for RecordingPlaybackLimits {
    fn default() -> (r: Self)
        ensures
            r == (RecordingPlaybackLimits {
                max_indexed_events: DEFAULT_MAX_PLAYBACK_INDEXED_EVENTS,
                max_indexed_text_bytes: DEFAULT_MAX_PLAYBACK_INDEXED_TEXT_BYTES,
                max_search_query_bytes: DEFAULT_MAX_PLAYBACK_SEARCH_QUERY_BYTES,
                max_search_results: DEFAULT_MAX_PLAYBACK_SEARCH_RESULTS,
                max_search_snippet_bytes: DEFAULT_MAX_PLAYBACK_SEARCH_SNIPPET_BYTES,
            }),
    {
        RecordingPlaybackLimits {
            max_indexed_events: DEFAULT_MAX_PLAYBACK_INDEXED_EVENTS,
            max_indexed_text_bytes: DEFAULT_MAX_PLAYBACK_INDEXED_TEXT_BYTES,
            max_search_query_bytes: DEFAULT_MAX_PLAYBACK_SEARCH_QUERY_BYTES,
            max_search_results: DEFAULT_MAX_PLAYBACK_SEARCH_RESULTS,
            max_search_snippet_bytes: DEFAULT_MAX_PLAYBACK_SEARCH_SNIPPET_BYTES,
        }
    }
}

#[derive(Clone, Copy, Debug, PartialEq, Eq, Structural)]
pub enum RecordingPlaybackState {
    Playing,
    Paused,
    Finished,
}

#[derive(Clone, Copy, Debug, PartialEq, Eq, Structural)]
pub enum RecordingPlaybackTransition {
    Changed,
    Unchanged,
}

/// Search categories: only output is terminal data; input and markers are
/// display-only metadata.
#[derive(Clone, Copy, Debug, PartialEq, Eq, Structural)]
pub enum RecordingPlaybackSearchKind {
    Output,
    InputDisplayOnly,
    MarkerDisplayOnly,
}

#[derive(Clone, Debug, PartialEq, Eq)]
pub struct RecordingPlaybackSearchMatch {
    pub event_index: usize,
    pub elapsed: Duration,
    pub kind: RecordingPlaybackSearchKind,
    pub match_byte_offset: usize,
    pub snippet: String,
}

#[derive(Clone, Copy, Debug, PartialEq, Eq, Structural)]
pub struct RecordingPlaybackSearchIndexStatus {
    pub indexed_events: usize,
    pub indexed_text_bytes: usize,
    pub truncated: bool,
}

#[derive(Clone, Debug, PartialEq, Eq)]
pub struct RecordingPlaybackSearchResults {
    pub matches: Vec<RecordingPlaybackSearchMatch>,
    pub matches_truncated: bool,
    pub index_status: RecordingPlaybackSearchIndexStatus,
}

#[derive(Debug)]
pub enum RecordingPlaybackError {
    RecordingFile(RecordingFileError),
    NotPlaybackSession,
    InvalidLimit(&'static str),
    InvalidTimeline { event_index: usize, reason: &'static str },
    EmptySearchQuery,
    SearchQueryTooLong { actual_bytes: usize, max_bytes: usize },
}

/// The message of a playback error; that of a file error is `file_text`.
pub open spec fn playback_error_message(e: RecordingPlaybackError, file_text: Seq<char>) -> Seq<char> {
    match e {
        RecordingPlaybackError::RecordingFile(_) => file_text,
        RecordingPlaybackError::NotPlaybackSession => "terminal is not a recording playback session"@,
        RecordingPlaybackError::InvalidLimit(name) => "recording playback limit must be non-zero: "@ + name@,
        RecordingPlaybackError::InvalidTimeline { event_index, reason } => "invalid recording playback event at index "@
            + decimal_chars(event_index as nat) + ": "@ + reason@,
        RecordingPlaybackError::EmptySearchQuery => "recording playback search query must not be empty"@,
        RecordingPlaybackError::SearchQueryTooLong { actual_bytes, max_bytes } => "recording playback search query is too long: "@
            + decimal_chars(actual_bytes as nat) + " bytes exceeds "@ + decimal_chars(max_bytes as nat) + " bytes"@,
    }
}

impl RecordingPlaybackError {
    /// The error as text.
    pub fn message(&self) -> (r: String)
        ensures
            match self {
                RecordingPlaybackError::RecordingFile(error) => exists|text: Seq<char>| r@ == file_error_message(*error, text),
                _ => r@ == playback_error_message(*self, Seq::empty()),
            },
    {
        match self {
            RecordingPlaybackError::RecordingFile(error) => error.message(),
            RecordingPlaybackError::NotPlaybackSession => String::from_str("terminal is not a recording playback session"),
            RecordingPlaybackError::InvalidLimit(name) => {
                let mut m = String::from_str("recording playback limit must be non-zero: ");
                m.append(name);
                m
            },
            RecordingPlaybackError::InvalidTimeline { event_index, reason } => {
                let number = decimal_string(*event_index as u64);
                let mut m = String::from_str("invalid recording playback event at index ");
                m.append(number.as_str());
                m.append(": ");
                m.append(reason);
                m
            },
            RecordingPlaybackError::EmptySearchQuery => String::from_str("recording playback search query must not be empty"),
            RecordingPlaybackError::SearchQueryTooLong { actual_bytes, max_bytes } => {
                let actual = decimal_string(*actual_bytes as u64);
                let max = decimal_string(*max_bytes as u64);
                let mut m = String::from_str("recording playback search query is too long: ");
                m.append(actual.as_str());
                m.append(" bytes exceeds ");
                m.append(max.as_str());
                m.append(" bytes");
                m
            },
        }
    }
}

pub open spec fn playback_limits_valid(limits: RecordingPlaybackLimits) -> bool {
    limits.max_indexed_events > 0 && limits.max_indexed_text_bytes > 0 && limits.max_search_query_bytes > 0
        && limits.max_search_results > 0 && limits.max_search_snippet_bytes > 0
}

/// The name of the first zero limit, in declaration order.
pub open spec fn first_zero_limit(limits: RecordingPlaybackLimits) -> Seq<char> {
    if limits.max_indexed_events == 0 {
        "max_indexed_events"@
    } else if limits.max_indexed_text_bytes == 0 {
        "max_indexed_text_bytes"@
    } else if limits.max_search_query_bytes == 0 {
        "max_search_query_bytes"@
    } else if limits.max_search_results == 0 {
        "max_search_results"@
    } else {
        "max_search_snippet_bytes"@
    }
}

/// Accepts limits that are all positive; names the first zero one.
pub fn validate_limits(limits: &RecordingPlaybackLimits) -> (r: Result<(), RecordingPlaybackError>)
    ensures
        r is Ok <==> playback_limits_valid(*limits),
        r matches Err(e) ==> (e matches RecordingPlaybackError::InvalidLimit(name) && name@ == first_zero_limit(*limits)),
{
    if limits.max_indexed_events == 0 {
        return Err(RecordingPlaybackError::InvalidLimit("max_indexed_events"));
    }
    if limits.max_indexed_text_bytes == 0 {
        return Err(RecordingPlaybackError::InvalidLimit("max_indexed_text_bytes"));
    }
    if limits.max_search_query_bytes == 0 {
        return Err(RecordingPlaybackError::InvalidLimit("max_search_query_bytes"));
    }
    if limits.max_search_results == 0 {
        return Err(RecordingPlaybackError::InvalidLimit("max_search_results"));
    }
    if limits.max_search_snippet_bytes == 0 {
        return Err(RecordingPlaybackError::InvalidLimit("max_search_snippet_bytes"));
    }
    Ok(())
}

/// What is wrong with event `i` given the one before it, if anything.
pub open spec fn event_problem(events: Seq<RecordingEvent>, i: int, capture_input: bool) -> Option<Seq<char>> {
    if i > 0 && events[i].elapsed@ < events[i - 1].elapsed@ {
        Some("timestamp moved backwards"@)
    } else if events[i].kind is Input && !capture_input {
        Some("input event is present while capture_input is disabled"@)
    } else if events[i].kind matches RecordingEventKind::Resize(size) && (size.cols == 0 || size.rows == 0) {
        Some("resize dimensions must be non-zero"@)
    } else {
        None
    }
}

/// Whether no event of the timeline has a problem.
pub open spec fn timeline_is_valid(events: Seq<RecordingEvent>, capture_input: bool) -> bool {
    forall|i: int| 0 <= i < events.len() ==> event_problem(events, i, capture_input) is None
}

/// Whether event `index` is the first event with a problem, and `reason` is
/// that problem.
pub open spec fn first_event_problem(events: Seq<RecordingEvent>, capture_input: bool, index: int, reason: Seq<char>) -> bool {
    &&& 0 <= index < events.len()
    &&& event_problem(events, index, capture_input) == Some(reason)
    &&& forall|j: int| 0 <= j < index ==> event_problem(events, j, capture_input) is None
}

/// Re-checks a timeline that did not necessarily come from a file: time
/// never goes backwards, input only where the header captures it, resizes
/// only to non-zero sizes. The first offending event is named.
pub fn validate_timeline(recording: &ParsedRecording) -> (r: Result<(), RecordingPlaybackError>)
    ensures
        r is Ok <==> forall|i: int| 0 <= i < recording.events@.len() ==> event_problem(
            recording.events@,
            i,
            recording.header.navop.capture_input,
        ) is None,
        r matches Err(e) ==> (e matches RecordingPlaybackError::InvalidTimeline { event_index, reason } && event_index
            < recording.events@.len() && event_problem(recording.events@, event_index as int, recording.header.navop.capture_input)
            == Some(reason@) && forall|j: int| 0 <= j < event_index ==> event_problem(
            recording.events@,
            j,
            recording.header.navop.capture_input,
        ) is None),
{
    let events = &recording.events;
    let capture_input = recording.header.navop.capture_input;
    let mut i: usize = 0;
    while i < events.len()
        invariant
            i <= events@.len(),
            events == &recording.events,
            capture_input == recording.header.navop.capture_input,
            forall|j: int| 0 <= j < i ==> event_problem(events@, j, capture_input) is None,
        decreases events@.len() - i,
    {
        if i > 0 && events[i].elapsed.is_before(events[i - 1].elapsed) {
            return Err(RecordingPlaybackError::InvalidTimeline { event_index: i, reason: "timestamp moved backwards" });
        }
        match &events[i].kind {
            RecordingEventKind::Input(_) => {
                if !capture_input {
                    return Err(RecordingPlaybackError::InvalidTimeline {
                        event_index: i,
                        reason: "input event is present while capture_input is disabled",
                    });
                }
            },
            RecordingEventKind::Resize(size) => {
                if size.cols == 0 || size.rows == 0 {
                    return Err(RecordingPlaybackError::InvalidTimeline {
                        event_index: i,
                        reason: "resize dimensions must be non-zero",
                    });
                }
            },
            _ => {},
        }
        i = i + 1;
    }
    Ok(())
}

/// The largest character boundary of `b` that is at most `i` (`i > 0`
/// examined downwards to 0).
pub open spec fn floor_from(b: Seq<u8>, i: int) -> int
    decreases i,
{
    if i <= 0 {
        0
    } else if is_char_boundary(b, i) {
        i
    } else {
        floor_from(b, i - 1)
    }
}

/// The largest character boundary at most `i`, with `i` clamped to the end.
pub open spec fn floor_boundary(b: Seq<u8>, i: int) -> int {
    floor_from(b, if i > b.len() { b.len() as int } else { i })
}

proof fn lemma_floor_from(b: Seq<u8>, i: int)
    requires
        valid_utf8(b),
        0 <= i <= b.len(),
    ensures
        0 <= floor_from(b, i) <= i,
        is_char_boundary(b, floor_from(b, i)),
    decreases i,
{
    vstd::utf8::is_char_boundary_start_end_of_seq(b);
    if i > 0 && !is_char_boundary(b, i) {
        lemma_floor_from(b, i - 1);
    }
}

/// The largest character boundary of `text` at or below `index`.
pub fn floor_char_boundary(text: &str, index: usize) -> (r: usize)
    ensures
        r == floor_boundary(encode_utf8(text@), index as int),
        r <= index,
        is_char_boundary(encode_utf8(text@), r as int),
{
    broadcast use vstd::utf8::encode_utf8_valid_utf8;

    let ghost b = encode_utf8(text@);
    let len = text.as_bytes().len();
    let mut i = if index > len { len } else { index };
    while i > 0 && !text.is_char_boundary(i)
        invariant
            i <= len,
            i <= index,
            len == b.len(),
            b == encode_utf8(text@),
            floor_boundary(b, index as int) == floor_from(b, i as int),
        decreases i,
    {
        i = i - 1;
    }
    proof {
        lemma_floor_from(b, i as int);
    }
    i
}

/// The byte range `[start, end)` of `text` as a string; both ends must be
/// character boundaries.
fn byte_range(text: &str, start: usize, end: usize) -> (r: String)
    requires
        start <= end <= encode_utf8(text@).len(),
        is_char_boundary(encode_utf8(text@), start as int),
        is_char_boundary(encode_utf8(text@), end as int),
    ensures
        encode_utf8(r@) == encode_utf8(text@).subrange(start as int, end as int),
{
    broadcast use vstd::utf8::encode_utf8_valid_utf8;

    let ghost b = encode_utf8(text@);
    let (_, tail) = text.split_at(start);
    let ghost tb = encode_utf8(tail@);
    proof {
        vstd::utf8::valid_utf8_split(b, start as int);
        assert(tb =~= b.subrange(start as int, b.len() as int));
        vstd::utf8::is_char_boundary_start_end_of_seq(tb);
        if end < b.len() {
            vstd::utf8::is_char_boundary_iff_not_is_continuation_byte(b, end as int);
            vstd::utf8::is_char_boundary_iff_not_is_continuation_byte(tb, end - start);
            assert(tb[end - start] == b[end as int]);
        } else {
            assert(end - start == tb.len());
        }
    }
    let (middle, _) = tail.split_at(end - start);
    proof {
        assert(encode_utf8(middle@) =~= b.subrange(start as int, end as int));
    }
    middle.to_owned()
}

/// `source` as searchable text of at most `max_bytes` UTF-8 bytes: at most
/// `max_bytes` of it are decoded (invalid sequences replaced), and a decoding
/// that grew beyond the bound is cut at a character boundary. The flag says
/// whether anything was left out.
pub open spec fn lossy_prefix(source: Seq<u8>, max_bytes: int) -> Seq<u8> {
    let n = if source.len() < max_bytes { source.len() as int } else { max_bytes };
    encode_utf8(utf8_lossy_decoding(source.take(n)))
}

pub fn bounded_lossy_text(source: &[u8], max_bytes: usize) -> (r: (String, bool))
    ensures
        ({
            let decoded = lossy_prefix(source@, max_bytes as int);
            &&& encode_utf8(r.0@) == if decoded.len() > max_bytes {
                decoded.take(floor_boundary(decoded, max_bytes as int))
            } else {
                decoded
            }
            &&& r.1 == (source@.len() > max_bytes || decoded.len() > max_bytes)
        }),
        encode_utf8(r.0@).len() <= max_bytes,
{
    broadcast use vstd::utf8::encode_utf8_valid_utf8;

    let n = if source.len() < max_bytes { source.len() } else { max_bytes };
    let head = &source[0..n];
    assert(head@ =~= source@.take(n as int));
    let text = utf8_lossy(head);
    let truncated = n < source.len();
    let text_len = text.as_str().as_bytes().len();
    if text_len > max_bytes {
        let end = floor_char_boundary(text.as_str(), max_bytes);
        proof {
            vstd::utf8::is_char_boundary_start_end_of_seq(encode_utf8(text@));
            lemma_floor_from(encode_utf8(text@), max_bytes as int);
        }
        let cut = byte_range(text.as_str(), 0, end);
        assert(encode_utf8(text@).subrange(0, end as int) =~= encode_utf8(text@).take(end as int));
        (cut, true)
    } else {
        (text, truncated)
    }
}

pub open spec fn saturating(x: int) -> int {
    if x > usize::MAX { usize::MAX as int } else { x }
}

pub open spec fn min_of(a: int, b: int) -> int {
    if a < b { a } else { b }
}

/// The byte range of a snippet of at most `max` bytes around a match at
/// `match_start` of `match_len` bytes: a third of the room goes before the
/// match, both ends fall on character boundaries, and the match's end is
/// kept where the room allows.
pub open spec fn snippet_range(b: Seq<u8>, match_start: int, match_len: int, max: int) -> (int, int) {
    let len = b.len() as int;
    let match_end = min_of(saturating(match_start + match_len), len);
    let before = max / 3;
    let start = floor_boundary(b, if match_start >= before { match_start - before } else { 0 });
    let minimum_end = min_of(match_end, saturating(start + max));
    let end0 = floor_boundary(b, min_of(saturating(start + max), len));
    let end = if end0 < minimum_end { floor_boundary(b, minimum_end) } else { end0 };
    (start, end)
}

/// The snippet shown for a match: the whole text when it fits in `max_bytes`,
/// else the bytes of `snippet_range` (nothing when that range is empty).
pub open spec fn snippet_bytes(b: Seq<u8>, match_start: int, match_len: int, max: int) -> Seq<u8> {
    if b.len() <= max {
        b
    } else {
        let (start, end) = snippet_range(b, match_start, match_len, max);
        if end <= start {
            Seq::empty()
        } else {
            b.subrange(start, end)
        }
    }
}

pub fn search_snippet(text: &str, match_start: usize, match_len: usize, max_bytes: usize) -> (r: String)
    ensures
        encode_utf8(r@) == snippet_bytes(encode_utf8(text@), match_start as int, match_len as int, max_bytes as int),
{
    broadcast use vstd::utf8::encode_utf8_valid_utf8;

    let ghost b = encode_utf8(text@);
    let len = text.as_bytes().len();
    if len <= max_bytes {
        return text.to_owned();
    }
    let match_end_raw = if match_start <= usize::MAX - match_len { match_start + match_len } else { usize::MAX };
    let match_end = if match_end_raw < len { match_end_raw } else { len };
    let context_before = max_bytes / 3;
    let start0 = if match_start >= context_before { match_start - context_before } else { 0 };
    let start = floor_char_boundary(text, start0);
    let start_plus = if start <= usize::MAX - max_bytes { start + max_bytes } else { usize::MAX };
    let minimum_end = if match_end < start_plus { match_end } else { start_plus };
    let end_limit = if start_plus < len { start_plus } else { len };
    let mut end = floor_char_boundary(text, end_limit);
    if end < minimum_end {
        end = floor_char_boundary(text, minimum_end);
    }
    if end <= start {
        return String::new();
    }
    proof {
        lemma_floor_from(b, if start0 > len { len as int } else { start0 as int });
    }
    byte_range(text, start, end)
}

/// Whether `needle` occurs in `hay` at byte `i`.
pub open spec fn occurs_at(hay: Seq<u8>, needle: Seq<u8>, i: int) -> bool {
    0 <= i && i + needle.len() <= hay.len() && hay.subrange(i, i + needle.len()) == needle
}

/// The first byte at or after `i` at which `needle` occurs in `hay`.
pub open spec fn first_occurrence_from(hay: Seq<u8>, needle: Seq<u8>, i: int) -> Option<int>
    decreases hay.len() - i,
{
    if i < 0 || i + needle.len() > hay.len() {
        None
    } else if occurs_at(hay, needle, i) {
        Some(i)
    } else if i >= hay.len() {
        None
    } else {
        first_occurrence_from(hay, needle, i + 1)
    }
}

/// The first byte at which `needle` occurs in `hay`, if it does.
pub open spec fn first_occurrence(hay: Seq<u8>, needle: Seq<u8>) -> Option<int> {
    first_occurrence_from(hay, needle, 0)
}

proof fn lemma_first_occurrence_bounds(hay: Seq<u8>, needle: Seq<u8>, i: int)
    ensures
        first_occurrence_from(hay, needle, i) matches Some(k) ==> i <= k && k + needle.len() <= hay.len() && occurs_at(hay, needle, k),
    decreases hay.len() - i,
{
    if !(i < 0 || i + needle.len() > hay.len()) && !occurs_at(hay, needle, i) && i < hay.len() {
        lemma_first_occurrence_bounds(hay, needle, i + 1);
    }
}

fn occurs_at_exec(hay: &[u8], needle: &[u8], i: usize) -> (r: bool)
    requires
        i + needle@.len() <= hay@.len(),
    ensures
        r == occurs_at(hay@, needle@, i as int),
{
    let hay_len = hay.len();
    let mut k: usize = 0;
    while k < needle.len()
        invariant
            hay_len == hay@.len(),
            k <= needle@.len(),
            i + needle@.len() <= hay@.len(),
            forall|j: int| 0 <= j < k ==> hay@[i + j] == needle@[j],
        decreases needle@.len() - k,
    {
        let at = i + k;
        if hay[at] != needle[k] {
            assert(hay@.subrange(i as int, i + needle@.len())[k as int] != needle@[k as int]);
            return false;
        }
        k = k + 1;
    }
    assert(hay@.subrange(i as int, i + needle@.len()) =~= needle@);
    true
}

/// The byte offset of the first occurrence of `needle` in `text`, as
/// `str::find` gives it.
pub fn find_text(text: &str, needle: &str) -> (r: Option<usize>)
    ensures
        match first_occurrence(encode_utf8(text@), encode_utf8(needle@)) {
            Some(i) => r == Some(i as usize),
            None => r is None,
        },
        r matches Some(i) ==> first_occurrence(encode_utf8(text@), encode_utf8(needle@)) == Some(i as int),
{
    let hay = text.as_bytes();
    let pat = needle.as_bytes();
    assert(hay@ == encode_utf8(text@));
    assert(pat@ == encode_utf8(needle@));
    let ghost h = hay@;
    let ghost p = pat@;
    if pat.len() > hay.len() {
        assert(forall|i: int| !occurs_at(h, p, i));
        return None;
    }
    let last = hay.len() - pat.len();
    let mut i: usize = 0;
    while i <= last
        invariant
            last + p.len() == h.len(),
            h == hay@,
            p == pat@,
            i <= last + 1,
            h == encode_utf8(text@),
            p == encode_utf8(needle@),
            first_occurrence(h, p) == first_occurrence_from(h, p, i as int),
        decreases last + 1 - i,
    {
        if occurs_at_exec(hay, pat, i) {
            assert(first_occurrence_from(h, p, i as int) == Some(i as int));
            return Some(i);
        }
        if i == last {
            assert(first_occurrence_from(h, p, i + 1) is None);
            assert(first_occurrence_from(h, p, i as int) is None);
            return None;
        }
        i = i + 1;
    }
    None
}

/// One searchable event: its index, time, category and bounded text.
#[derive(Debug)]
pub struct SearchEntry {
    pub event_index: usize,
    pub elapsed: Duration,
    pub kind: RecordingPlaybackSearchKind,
    pub text: String,
}

/// The search category of an event; none for a resize.
pub open spec fn search_kind_of(kind: RecordingEventKind) -> Option<RecordingPlaybackSearchKind> {
    match kind {
        RecordingEventKind::Output(_) => Some(RecordingPlaybackSearchKind::Output),
        RecordingEventKind::Input(_) => Some(RecordingPlaybackSearchKind::InputDisplayOnly),
        RecordingEventKind::Marker(_) => Some(RecordingPlaybackSearchKind::MarkerDisplayOnly),
        RecordingEventKind::Resize(_) => None,
    }
}

/// The UTF-8 bytes of all entries' texts together.
pub open spec fn entries_text_bytes(entries: Seq<SearchEntry>) -> nat
    decreases entries.len(),
{
    if entries.len() == 0 {
        0
    } else {
        entries_text_bytes(entries.drop_last()) + encode_utf8(entries.last().text@).len()
    }
}

/// Each entry stands for a distinct, later event of the right category.
pub open spec fn entries_match_events(entries: Seq<SearchEntry>, events: Seq<RecordingEvent>) -> bool {
    &&& forall|k: int| 0 <= k < entries.len() ==> {
        let e = #[trigger] entries[k];
        &&& e.event_index < events.len()
        &&& search_kind_of(events[e.event_index as int].kind) == Some(e.kind)
        &&& e.elapsed == events[e.event_index as int].elapsed
    }
    &&& forall|a: int, b: int| 0 <= a < b < entries.len() ==> (#[trigger] entries[a]).event_index < (#[trigger] entries[b]).event_index
}

/// Every output, input and marker event before `end` has an entry.
pub open spec fn covers_events(entries: Seq<SearchEntry>, events: Seq<RecordingEvent>, end: int) -> bool {
    forall|i: int| 0 <= i < end && search_kind_of(#[trigger] events[i].kind) is Some ==> exists|k: int| 0 <= k < entries.len()
        && (#[trigger] entries[k]).event_index == i
}

/// The category and the searchable bytes of an event; none for a resize.
pub open spec fn search_source_of(kind: RecordingEventKind) -> Option<(RecordingPlaybackSearchKind, Seq<u8>)> {
    match kind {
        RecordingEventKind::Output(bytes) => Some((RecordingPlaybackSearchKind::Output, bytes@)),
        RecordingEventKind::Input(bytes) => Some((RecordingPlaybackSearchKind::InputDisplayOnly, bytes@)),
        RecordingEventKind::Marker(marker) => Some((RecordingPlaybackSearchKind::MarkerDisplayOnly, encode_utf8(marker@))),
        RecordingEventKind::Resize(_) => None,
    }
}

/// The UTF-8 bytes of the text that `bounded_lossy_text` makes of `source`
/// with room for `max_bytes`.
pub open spec fn bounded_text(source: Seq<u8>, max_bytes: int) -> Seq<u8> {
    let decoded = lossy_prefix(source, max_bytes);
    if decoded.len() > max_bytes {
        decoded.take(floor_boundary(decoded, max_bytes))
    } else {
        decoded
    }
}

/// Whether that text leaves part of `source` out.
pub open spec fn bounded_text_cut(source: Seq<u8>, max_bytes: int) -> bool {
    source.len() > max_bytes || lossy_prefix(source, max_bytes).len() > max_bytes
}

/// An index entry as the search sees it: the event index, the category and
/// the UTF-8 bytes of the text.
pub open spec fn entry_view(e: SearchEntry) -> (nat, RecordingPlaybackSearchKind, Seq<u8>) {
    (e.event_index as nat, e.kind, encode_utf8(e.text@))
}

/// The text bytes of index entries together.
pub open spec fn index_text_bytes(acc: Seq<(nat, RecordingPlaybackSearchKind, Seq<u8>)>) -> nat
    decreases acc.len(),
{
    if acc.len() == 0 {
        0
    } else {
        index_text_bytes(acc.drop_last()) + acc.last().2.len()
    }
}

/// The index entries made from event `i` on, after the entries `acc` whose
/// text is `bytes` long, and whether the index stopped short: an output,
/// input or marker event is indexed while there is room for another entry
/// and another text byte, with as much of its text as the room allows; the
/// index stops at the first event that finds no room or does not fit whole.
pub open spec fn index_from(
    events: Seq<RecordingEvent>,
    limits: RecordingPlaybackLimits,
    i: int,
    acc: Seq<(nat, RecordingPlaybackSearchKind, Seq<u8>)>,
    bytes: nat,
) -> (Seq<(nat, RecordingPlaybackSearchKind, Seq<u8>)>, bool)
    decreases events.len() - i,
{
    if i >= events.len() || i < 0 {
        (acc, false)
    } else {
        match search_source_of(events[i].kind) {
            None => index_from(events, limits, i + 1, acc, bytes),
            Some((kind, source)) => if acc.len() >= limits.max_indexed_events || bytes >= limits.max_indexed_text_bytes {
                (acc, true)
            } else {
                let room = limits.max_indexed_text_bytes - bytes;
                let text = bounded_text(source, room);
                let next = acc.push((i as nat, kind, text));
                if bounded_text_cut(source, room) {
                    (next, true)
                } else {
                    index_from(events, limits, i + 1, next, bytes + text.len())
                }
            },
        }
    }
}

proof fn lemma_index_step(
    events: Seq<RecordingEvent>,
    limits: RecordingPlaybackLimits,
    i: int,
    acc: Seq<(nat, RecordingPlaybackSearchKind, Seq<u8>)>,
    bytes: nat,
)
    requires
        0 <= i < events.len(),
    ensures
        search_source_of(events[i].kind) is None ==> index_from(events, limits, i, acc, bytes) == index_from(
            events,
            limits,
            i + 1,
            acc,
            bytes,
        ),
        search_source_of(events[i].kind) is Some && (acc.len() >= limits.max_indexed_events || bytes
            >= limits.max_indexed_text_bytes) ==> index_from(events, limits, i, acc, bytes) == (acc, true),
        match search_source_of(events[i].kind) {
            Some((kind, source)) => acc.len() < limits.max_indexed_events && bytes < limits.max_indexed_text_bytes ==> {
                let room = limits.max_indexed_text_bytes - bytes;
                let text = bounded_text(source, room);
                let next = acc.push((i as nat, kind, text));
                index_from(events, limits, i, acc, bytes) == if bounded_text_cut(source, room) {
                    (next, true)
                } else {
                    index_from(events, limits, i + 1, next, bytes + text.len())
                }
            },
            None => true,
        },
{
    reveal(index_from);
}

proof fn lemma_index_end(
    events: Seq<RecordingEvent>,
    limits: RecordingPlaybackLimits,
    i: int,
    acc: Seq<(nat, RecordingPlaybackSearchKind, Seq<u8>)>,
    bytes: nat,
)
    ensures
        i >= events.len() ==> index_from(events, limits, i, acc, bytes) == (acc, false),
{
    reveal(index_from);
}

/// The search index of a timeline: its entries and whether it stopped short.
pub open spec fn search_index(events: Seq<RecordingEvent>, limits: RecordingPlaybackLimits) -> (
    Seq<(nat, RecordingPlaybackSearchKind, Seq<u8>)>,
    bool,
) {
    index_from(events, limits, 0, Seq::empty(), 0)
}

/// Whether `entries` and `status` are the search index of `events`.
pub open spec fn is_search_index(
    entries: Seq<SearchEntry>,
    status: RecordingPlaybackSearchIndexStatus,
    events: Seq<RecordingEvent>,
    limits: RecordingPlaybackLimits,
) -> bool {
    let index = search_index(events, limits);
    &&& entries.len() == index.0.len()
    &&& forall|k: int| 0 <= k < entries.len() ==> entry_view(#[trigger] entries[k]) == index.0[k]
    &&& status.indexed_events == index.0.len()
    &&& status.indexed_text_bytes == index_text_bytes(index.0)
    &&& status.truncated == index.1
}

fn search_source(kind: &RecordingEventKind) -> (r: Option<(RecordingPlaybackSearchKind, &[u8])>)
    ensures
        match search_kind_of(*kind) {
            Some(k) => r matches Some((rk, _)) && rk == k,
            None => r is None,
        },
        match search_source_of(*kind) {
            Some((k, b)) => r matches Some((rk, rb)) && rk == k && rb@ == b,
            None => r is None,
        },
{
    match kind {
        RecordingEventKind::Output(bytes) => Some((RecordingPlaybackSearchKind::Output, bytes.as_slice())),
        RecordingEventKind::Input(bytes) => Some((RecordingPlaybackSearchKind::InputDisplayOnly, bytes.as_slice())),
        RecordingEventKind::Marker(marker) => Some((RecordingPlaybackSearchKind::MarkerDisplayOnly, marker.as_str().as_bytes())),
        RecordingEventKind::Resize(_) => None,
    }
}

/// The search index of a timeline: one entry per output, input and marker
/// event, in order, until the entry count or the total text reaches its
/// limit; the status says whether anything was left out.
#[verifier::rlimit(40)]
pub fn build_search_index(events: &Vec<RecordingEvent>, limits: &RecordingPlaybackLimits) -> (r: (Vec<SearchEntry>, RecordingPlaybackSearchIndexStatus))
    ensures
        r.1.indexed_events == r.0@.len(),
        r.0@.len() <= limits.max_indexed_events,
        r.1.indexed_text_bytes == entries_text_bytes(r.0@),
        r.1.indexed_text_bytes <= limits.max_indexed_text_bytes,
        entries_match_events(r.0@, events@),
        !r.1.truncated ==> covers_events(r.0@, events@, events@.len() as int),
        is_search_index(r.0@, r.1, events@, *limits),
{
    let mut entries: Vec<SearchEntry> = Vec::new();
    let mut indexed_text_bytes: usize = 0;
    let mut truncated = false;
    let mut i: usize = 0;
    let ghost mut acc: Seq<(nat, RecordingPlaybackSearchKind, Seq<u8>)> = Seq::empty();
    proof {
        lemma_index_end(events@, *limits, 0, acc, 0);
    }
    while i < events.len()
        invariant_except_break
            !truncated,
            search_index(events@, *limits) == index_from(events@, *limits, i as int, acc, indexed_text_bytes as nat),
        invariant
            acc.len() == entries@.len(),
            forall|k: int| 0 <= k < entries@.len() ==> entry_view(#[trigger] entries@[k]) == acc[k],
            indexed_text_bytes == index_text_bytes(acc),
            i <= events@.len(),
            entries@.len() <= limits.max_indexed_events,
            indexed_text_bytes == entries_text_bytes(entries@),
            indexed_text_bytes <= limits.max_indexed_text_bytes,
            entries_match_events(entries@, events@),
            forall|k: int| 0 <= k < entries@.len() ==> (#[trigger] entries@[k]).event_index < i,
            !truncated ==> covers_events(entries@, events@, i as int),
        ensures
            !truncated ==> covers_events(entries@, events@, events@.len() as int),
            search_index(events@, *limits) == (acc, truncated),
        decreases events@.len() - i,
    {
        let source = search_source(&events[i].kind);
        proof {
            lemma_index_step(events@, *limits, i as int, acc, indexed_text_bytes as nat);
        }
        match source {
            None => {
                i = i + 1;
                proof {
                    lemma_index_end(events@, *limits, i as int, acc, indexed_text_bytes as nat);
                }
            },
            Some((kind, bytes)) => {
                if entries.len() >= limits.max_indexed_events {
                    truncated = true;
                    break;
                }
                let remaining = limits.max_indexed_text_bytes - indexed_text_bytes;
                if remaining == 0 {
                    truncated = true;
                    break;
                }
                let (text, source_truncated) = bounded_lossy_text(bytes, remaining);
                let text_len = text.as_str().as_bytes().len();
                let ghost before = entries@;
                proof {
                    let acc_before = acc;
                    acc = acc.push((i as nat, kind, encode_utf8(text@)));
                    assert(acc.drop_last() =~= acc_before);
                    assert(index_text_bytes(acc) == index_text_bytes(acc_before) + text_len);
                }
                indexed_text_bytes = indexed_text_bytes + text_len;
                entries.push(SearchEntry { event_index: i, elapsed: events[i].elapsed, kind, text });
                proof {
                    assert(entries@.drop_last() =~= before);
                    assert forall|j: int| 0 <= j <= i && search_kind_of(#[trigger] events@[j].kind) is Some implies exists|k: int|
                        0 <= k < entries@.len() && (#[trigger] entries@[k]).event_index == j by {
                        if j == i {
                            assert(entries@[entries@.len() - 1].event_index == i);
                        } else if !truncated {
                            let k = choose|k: int| 0 <= k < before.len() && (#[trigger] before[k]).event_index == j;
                            assert(entries@[k] == before[k]);
                        }
                    }
                    assert forall|a: int, b: int| 0 <= a < b < entries@.len() implies (#[trigger] entries@[a]).event_index
                        < (#[trigger] entries@[b]).event_index by {
                        if b < before.len() {
                            assert(entries@[a] == before[a] && entries@[b] == before[b]);
                        } else {
                            assert(entries@[a] == before[a]);
                        }
                    }
                }
                i = i + 1;
                proof {
                    lemma_index_end(events@, *limits, i as int, acc, indexed_text_bytes as nat);
                }
                if source_truncated {
                    truncated = true;
                    break;
                }
            },
        }
    }
    let status = RecordingPlaybackSearchIndexStatus {
        indexed_events: entries.len(),
        indexed_text_bytes,
        truncated,
    };
    (entries, status)
}

/// How many events from the front are due at time `t`: the index of the
/// first event later than `t`.
pub open spec fn due_count(events: Seq<RecordingEvent>, t: nat) -> nat
    decreases events.len(),
{
    if events.len() == 0 {
        0
    } else if events[0].elapsed@ > t {
        0
    } else {
        1 + due_count(events.drop_first(), t)
    }
}

proof fn lemma_due_count_is(events: Seq<RecordingEvent>, t: nat, i: int)
    requires
        0 <= i <= events.len(),
        forall|j: int| 0 <= j < i ==> (#[trigger] events[j]).elapsed@ <= t,
        i == events.len() || events[i].elapsed@ > t,
    ensures
        due_count(events, t) == i,
    decreases i,
{
    if i > 0 {
        let rest = events.drop_first();
        assert forall|j: int| 0 <= j < i - 1 implies (#[trigger] rest[j]).elapsed@ <= t by {
            assert(rest[j] == events[j + 1]);
        }
        if i < events.len() {
            assert(rest[i - 1] == events[i]);
        }
        lemma_due_count_is(rest, t, i - 1);
        assert(events[0].elapsed@ <= t);
    }
}

proof fn lemma_due_count_prefix(events: Seq<RecordingEvent>, t: nat)
    ensures
        due_count(events, t) <= events.len(),
        forall|j: int| 0 <= j < due_count(events, t) ==> (#[trigger] events[j]).elapsed@ <= t,
    decreases events.len(),
{
    if events.len() > 0 && events[0].elapsed@ <= t {
        let rest = events.drop_first();
        lemma_due_count_prefix(rest, t);
        assert forall|j: int| 0 <= j < due_count(events, t) implies (#[trigger] events[j]).elapsed@ <= t by {
            if j > 0 {
                assert(events[j] == rest[j - 1]);
            }
        }
    }
}

proof fn lemma_due_count_stops(events: Seq<RecordingEvent>, t: nat)
    ensures
        due_count(events, t) < events.len() ==> events[due_count(events, t) as int].elapsed@ > t,
    decreases events.len(),
{
    if events.len() > 0 && events[0].elapsed@ <= t {
        let rest = events.drop_first();
        lemma_due_count_stops(rest, t);
        if due_count(rest, t) < rest.len() {
            assert(events[due_count(events, t) as int] == rest[due_count(rest, t) as int]);
        }
    }
}

/// On a timeline whose times never decrease, the events due at `t` (those
/// that a seek to `t` rebuilds, and that the cursor counts) are exactly the
/// events stamped no later than `t`, and they come first.
pub proof fn lemma_due_events_are_those_not_after(events: Seq<RecordingEvent>, t: nat)
    requires
        crate::recording::recovery::is_monotonic(events),
    ensures
        due_count(events, t) <= events.len(),
        forall|i: int| 0 <= i < events.len() ==> ((#[trigger] events[i]).elapsed@ <= t <==> i < due_count(events, t)),
{
    lemma_due_count_prefix(events, t);
    lemma_due_count_stops(events, t);
    let k = due_count(events, t) as int;
    assert forall|i: int| 0 <= i < events.len() implies ((#[trigger] events[i]).elapsed@ <= t <==> i < k) by {
        if i >= k {
            assert(events[k].elapsed@ <= events[i].elapsed@);
        }
    }
}

/// The count of due events at `t`, scanning from `from`, before which every
/// event is due.
fn due_count_from(events: &Vec<RecordingEvent>, t: Duration, from: usize) -> (r: usize)
    requires
        from <= events@.len(),
        forall|j: int| 0 <= j < from ==> (#[trigger] events@[j]).elapsed@ <= t@,
    ensures
        r == due_count(events@, t@),
{
    let mut i = from;
    while i < events.len() && !events[i].elapsed.is_after(t)
        invariant
            from <= i <= events@.len(),
            forall|j: int| 0 <= j < i ==> (#[trigger] events@[j]).elapsed@ <= t@,
        decreases events@.len() - i,
    {
        i = i + 1;
    }
    proof {
        lemma_due_count_is(events@, t@, i as int);
    }
    i
}

/// The time of the last event: how long the recording plays.
pub open spec fn timeline_duration(events: Seq<RecordingEvent>) -> nat {
    if events.len() == 0 {
        0
    } else {
        events.last().elapsed@
    }
}

/// A read-only playback timeline over a parsed recording.
pub struct RecordingPlaybackTimeline {
    recording: ParsedRecording,
    state: RecordingPlaybackState,
    elapsed: Duration,
    duration: Duration,
    cursor: usize,
    limits: RecordingPlaybackLimits,
    search_entries: Vec<SearchEntry>,
    search_index_status: RecordingPlaybackSearchIndexStatus,
}

pub struct TimelineView {
    pub header: RecordingHeader,
    pub events: Seq<RecordingEvent>,
    pub state: RecordingPlaybackState,
    pub elapsed: nat,
    pub duration: nat,
    pub cursor: nat,
    pub limits: RecordingPlaybackLimits,
    pub completeness: RecordingCompleteness,
    pub index_status: RecordingPlaybackSearchIndexStatus,
    pub entries: Seq<SearchEntry>,
}

impl View for RecordingPlaybackTimeline {
    type V = TimelineView;

    closed spec fn view(&self) -> TimelineView {
        TimelineView {
            header: self.recording.header,
            events: self.recording.events@,
            state: self.state,
            elapsed: self.elapsed@,
            duration: self.duration@,
            cursor: self.cursor as nat,
            limits: self.limits,
            completeness: self.recording.completeness,
            index_status: self.search_index_status,
            entries: self.search_entries@,
        }
    }
}

/// The position never passes the end, and the cursor never passes the
/// events that are due.
pub open spec fn timeline_inv(v: TimelineView) -> bool {
    &&& v.elapsed <= v.duration
    &&& v.duration == timeline_duration(v.events)
    &&& v.cursor <= due_count(v.events, v.elapsed)
    &&& playback_limits_valid(v.limits)
}

/// The state a timeline reaches at `cursor`/`elapsed`: finished at the end,
/// otherwise `otherwise`.
pub open spec fn settled_state(v: TimelineView, cursor: nat, elapsed: nat, otherwise: RecordingPlaybackState) -> RecordingPlaybackState {
    if cursor >= v.events.len() && elapsed >= v.duration {
        RecordingPlaybackState::Finished
    } else {
        otherwise
    }
}

impl RecordingPlaybackTimeline {
    /// Opens a parsed recording for playback, paused at its start. The
    /// limits, the header and the timeline are checked first, in that order,
    /// and the search index is built.
    pub fn from_parsed(recording: ParsedRecording, limits: RecordingPlaybackLimits) -> (r: Result<Self, RecordingPlaybackError>)
        ensures
            r is Ok <==> playback_limits_valid(limits) && header_is_valid(recording.header) && timeline_is_valid(
                recording.events@,
                recording.header.navop.capture_input,
            ),
            !playback_limits_valid(limits) ==> (r matches Err(RecordingPlaybackError::InvalidLimit(name)) && name@
                == first_zero_limit(limits)),
            playback_limits_valid(limits) && !header_is_valid(recording.header) ==> (r matches Err(
                RecordingPlaybackError::RecordingFile(e),
            ) && header_verdict(recording.header, e)),
            playback_limits_valid(limits) && header_is_valid(recording.header) ==> (r matches Err(e) ==> e matches RecordingPlaybackError::InvalidTimeline {
                event_index,
                reason,
            } && first_event_problem(recording.events@, recording.header.navop.capture_input, event_index as int, reason@)),
            r matches Ok(t) ==> {
                &&& timeline_inv(t@)
                &&& t@.header == recording.header
                &&& t@.events == recording.events@
                &&& t@.state == RecordingPlaybackState::Paused
                &&& t@.elapsed == 0
                &&& t@.cursor == 0
                &&& t@.limits == limits
                &&& t@.completeness == recording.completeness
                &&& is_search_index(t@.entries, t@.index_status, t@.events, limits)
                &&& t@.index_status.indexed_text_bytes <= limits.max_indexed_text_bytes
                &&& t@.index_status.indexed_events <= limits.max_indexed_events
                &&& entries_match_events(t@.entries, t@.events)
                &&& (!t@.index_status.truncated ==> covers_events(t@.entries, t@.events, t@.events.len() as int))
            },
    {
        match validate_limits(&limits) {
            Ok(()) => {},
            Err(e) => return Err(e),
        }
        if let Err(e) = recording.header.validate() {
            return Err(RecordingPlaybackError::RecordingFile(e));
        }
        match validate_timeline(&recording) {
            Ok(()) => {},
            Err(e) => return Err(e),
        }
        let count = recording.events.len();
        let duration = if count == 0 { Duration::zero() } else { recording.events[count - 1].elapsed };
        let (search_entries, search_index_status) = build_search_index(&recording.events, &limits);
        Ok(RecordingPlaybackTimeline {
            recording,
            state: RecordingPlaybackState::Paused,
            elapsed: Duration::zero(),
            duration,
            cursor: 0,
            limits,
            search_entries,
            search_index_status,
        })
    }

    pub fn recording(&self) -> (r: &ParsedRecording)
        ensures
            r.header == self@.header,
            r.events@ == self@.events,
            r.completeness == self@.completeness,
    {
        &self.recording
    }

    pub fn completeness(&self) -> (r: RecordingCompleteness)
        ensures
            r == self@.completeness,
    {
        self.recording.completeness
    }

    pub fn state(&self) -> (r: RecordingPlaybackState)
        ensures
            r == self@.state,
    {
        self.state
    }

    pub fn elapsed(&self) -> (r: Duration)
        ensures
            r@ == self@.elapsed,
    {
        self.elapsed
    }

    pub fn duration(&self) -> (r: Duration)
        ensures
            r@ == self@.duration,
    {
        self.duration
    }

    pub fn event_cursor(&self) -> (r: usize)
        ensures
            r == self@.cursor,
    {
        self.cursor
    }

    pub fn search_index_status(&self) -> (r: RecordingPlaybackSearchIndexStatus)
        ensures
            r == self@.index_status,
    {
        self.search_index_status
    }

    fn replace_state(&mut self, next: RecordingPlaybackState) -> (r: RecordingPlaybackTransition)
        ensures
            final(self)@ == (TimelineView { state: next, ..old(self)@ }),
            r == if old(self)@.state == next { RecordingPlaybackTransition::Unchanged } else { RecordingPlaybackTransition::Changed },
    {
        if self.state == next {
            RecordingPlaybackTransition::Unchanged
        } else {
            self.state = next;
            RecordingPlaybackTransition::Changed
        }
    }

    /// Plays from the current position; a timeline whose events were all
    /// shown is finished instead.
    pub fn resume(&mut self) -> (r: RecordingPlaybackTransition)
        requires
            timeline_inv(old(self)@),
        ensures
            timeline_inv(final(self)@),
            ({
                let next = if old(self)@.cursor >= old(self)@.events.len() { RecordingPlaybackState::Finished } else { RecordingPlaybackState::Playing };
                &&& final(self)@ == (TimelineView { state: next, ..old(self)@ })
                &&& r == if old(self)@.state == next { RecordingPlaybackTransition::Unchanged } else { RecordingPlaybackTransition::Changed }
            }),
    {
        let next = if self.cursor >= self.recording.events.len() {
            RecordingPlaybackState::Finished
        } else {
            RecordingPlaybackState::Playing
        };
        self.replace_state(next)
    }

    /// Pauses a playing timeline; any other state is left alone.
    pub fn pause(&mut self) -> (r: RecordingPlaybackTransition)
        requires
            timeline_inv(old(self)@),
        ensures
            timeline_inv(final(self)@),
            old(self)@.state == RecordingPlaybackState::Playing ==> final(self)@ == (TimelineView {
                state: RecordingPlaybackState::Paused,
                ..old(self)@
            }) && r == RecordingPlaybackTransition::Changed,
            old(self)@.state != RecordingPlaybackState::Playing ==> final(self)@ == old(self)@ && r
                == RecordingPlaybackTransition::Unchanged,
    {
        if self.state == RecordingPlaybackState::Playing {
            self.replace_state(RecordingPlaybackState::Paused)
        } else {
            RecordingPlaybackTransition::Unchanged
        }
    }

    /// Moves a playing timeline on by `step` of recording time (never past
    /// its end) and gives the index range of the events that became due.
    pub fn advance(&mut self, step: Duration) -> (r: (usize, usize))
        requires
            timeline_inv(old(self)@),
        ensures
            timeline_inv(final(self)@),
            old(self)@.state != RecordingPlaybackState::Playing ==> final(self)@ == old(self)@ && r == (
                old(self)@.cursor as usize,
                old(self)@.cursor as usize,
            ),
            old(self)@.state == RecordingPlaybackState::Playing ==> {
                let elapsed = if old(self)@.elapsed + step@ > old(self)@.duration { old(self)@.duration } else { old(self)@.elapsed + step@ };
                let cursor = due_count(old(self)@.events, elapsed);
                &&& final(self)@.elapsed == elapsed
                &&& final(self)@.cursor == cursor
                &&& final(self)@.state == settled_state(old(self)@, cursor, elapsed, RecordingPlaybackState::Playing)
                &&& final(self)@.header == old(self)@.header
                &&& final(self)@.events == old(self)@.events
                &&& final(self)@.duration == old(self)@.duration
                &&& final(self)@.limits == old(self)@.limits
                &&& final(self)@.completeness == old(self)@.completeness
                &&& final(self)@.index_status == old(self)@.index_status
                &&& final(self)@.entries == old(self)@.entries
                &&& r == (old(self)@.cursor as usize, cursor as usize)
            },
    {
        if self.state != RecordingPlaybackState::Playing {
            return (self.cursor, self.cursor);
        }
        let start = self.cursor;
        let remaining = self.duration.saturating_sub(self.elapsed);
        let timeline_step = step.shorter(remaining);
        let next = match self.elapsed.checked_add(timeline_step) {
            Some(t) => t,
            None => self.duration,
        };
        self.elapsed = next.shorter(self.duration);
        proof {
            lemma_due_count_prefix(self.recording.events@, old(self)@.elapsed);
        }
        self.cursor = due_count_from(&self.recording.events, self.elapsed, start);
        proof {
            lemma_due_count_prefix(self.recording.events@, self.elapsed@);
        }
        if self.cursor >= self.recording.events.len() && !self.elapsed.is_before(self.duration) {
            self.state = RecordingPlaybackState::Finished;
        }
        (start, self.cursor)
    }

    /// Moves to `target` (clamped to the end) and gives how many events from
    /// the front rebuild the screen there. A playing timeline keeps playing
    /// unless it reached the end.
    pub fn seek(&mut self, target: Duration) -> (r: usize)
        requires
            timeline_inv(old(self)@),
        ensures
            timeline_inv(final(self)@),
            ({
                let elapsed = if target@ > old(self)@.duration { old(self)@.duration } else { target@ };
                let cursor = due_count(old(self)@.events, elapsed);
                let otherwise = if old(self)@.state == RecordingPlaybackState::Playing { RecordingPlaybackState::Playing } else { RecordingPlaybackState::Paused };
                &&& final(self)@.elapsed == elapsed
                &&& final(self)@.cursor == cursor
                &&& final(self)@.state == settled_state(old(self)@, cursor, elapsed, otherwise)
                &&& final(self)@.header == old(self)@.header
                &&& final(self)@.events == old(self)@.events
                &&& final(self)@.duration == old(self)@.duration
                &&& final(self)@.limits == old(self)@.limits
                &&& final(self)@.completeness == old(self)@.completeness
                &&& final(self)@.index_status == old(self)@.index_status
                &&& final(self)@.entries == old(self)@.entries
                &&& r == cursor
            }),
    {
        let was_playing = self.state == RecordingPlaybackState::Playing;
        self.elapsed = target.shorter(self.duration);
        self.cursor = due_count_from(&self.recording.events, self.elapsed, 0);
        proof {
            lemma_due_count_prefix(self.recording.events@, self.elapsed@);
        }
        self.state = if self.cursor >= self.recording.events.len() && !self.elapsed.is_before(self.duration) {
            RecordingPlaybackState::Finished
        } else if was_playing {
            RecordingPlaybackState::Playing
        } else {
            RecordingPlaybackState::Paused
        };
        self.cursor
    }
}

/// Whether the text of an entry contains `query` (as UTF-8 bytes).
pub open spec fn entry_matches(entry: SearchEntry, query: Seq<u8>) -> bool {
    first_occurrence(encode_utf8(entry.text@), query) is Some
}

/// Which of the first `n` entries a search keeps, and whether it stopped
/// early because a further match found the result list full.
pub open spec fn search_scan(entries: Seq<SearchEntry>, query: Seq<u8>, limit: nat, n: nat) -> (Seq<int>, bool)
    decreases n,
{
    if n == 0 {
        (Seq::empty(), false)
    } else {
        let (kept, stopped) = search_scan(entries, query, limit, (n - 1) as nat);
        if stopped {
            (kept, true)
        } else if !entry_matches(entries[n - 1], query) {
            (kept, false)
        } else if kept.len() >= limit {
            (kept, true)
        } else {
            (kept.push(n - 1), false)
        }
    }
}

/// The match reported for entry `e`.
pub open spec fn match_of(e: SearchEntry, m: RecordingPlaybackSearchMatch, query: Seq<u8>, snippet_max: usize) -> bool {
    let text = encode_utf8(e.text@);
    &&& m.event_index == e.event_index
    &&& m.elapsed == e.elapsed
    &&& m.kind == e.kind
    &&& Some(m.match_byte_offset as int) == first_occurrence(text, query)
    &&& encode_utf8(m.snippet@) == snippet_bytes(text, m.match_byte_offset as int, query.len() as int, snippet_max as int)
}

impl RecordingPlaybackTimeline {
    /// Searches the indexed texts for `query`, keeping at most
    /// `requested_results` matches (and never more than the limit), in
    /// timeline order, each with a bounded snippet around its first
    /// occurrence.
    pub fn search(&self, query: &str, requested_results: usize) -> (r: Result<RecordingPlaybackSearchResults, RecordingPlaybackError>)
        requires
            timeline_inv(self@),
        ensures
            query@.len() == 0 ==> (r matches Err(e) && e is EmptySearchQuery),
            query@.len() > 0 && encode_utf8(query@).len() > self@.limits.max_search_query_bytes ==> (r matches Err(e) && (e
                matches RecordingPlaybackError::SearchQueryTooLong { actual_bytes, max_bytes } && actual_bytes
                == encode_utf8(query@).len() && max_bytes == self@.limits.max_search_query_bytes)),
            query@.len() > 0 && encode_utf8(query@).len() <= self@.limits.max_search_query_bytes ==> (r matches Ok(res) && {
                let limit = if requested_results < self@.limits.max_search_results { requested_results } else { self@.limits.max_search_results };
                let (kept, stopped) = search_scan(self@.entries, encode_utf8(query@), limit as nat, self@.entries.len());
                &&& res.matches@.len() == kept.len()
                &&& res.matches_truncated == stopped
                &&& res.index_status == self@.index_status
                &&& forall|k: int| 0 <= k < kept.len() ==> match_of(
                    self@.entries[kept[k]],
                    #[trigger] res.matches@[k],
                    encode_utf8(query@),
                    self@.limits.max_search_snippet_bytes,
                )
            }),
    {
        let query_len = query.as_bytes().len();
        if query.is_empty() {
            return Err(RecordingPlaybackError::EmptySearchQuery);
        }
        if query_len > self.limits.max_search_query_bytes {
            return Err(RecordingPlaybackError::SearchQueryTooLong {
                actual_bytes: query_len,
                max_bytes: self.limits.max_search_query_bytes,
            });
        }
        let limit = if requested_results < self.limits.max_search_results {
            requested_results
        } else {
            self.limits.max_search_results
        };
        let ghost q = encode_utf8(query@);
        let ghost entries = self.search_entries@;
        let mut matches: Vec<RecordingPlaybackSearchMatch> = Vec::new();
        let mut matches_truncated = false;
        let ghost mut kept: Seq<int> = Seq::empty();
        let mut i: usize = 0;
        while i < self.search_entries.len()
            invariant_except_break
                (kept, matches_truncated) == search_scan(entries, q, limit as nat, i as nat),
                !matches_truncated,
            invariant
                i <= entries.len(),
                entries == self.search_entries@,
                q == encode_utf8(query@),
                query_len == q.len(),
                matches@.len() == kept.len(),
                matches@.len() <= limit,
                forall|k: int| 0 <= k < kept.len() ==> 0 <= #[trigger] kept[k] < i,
                forall|k: int| 0 <= k < kept.len() ==> match_of(
                    entries[kept[k]],
                    #[trigger] matches@[k],
                    q,
                    self.limits.max_search_snippet_bytes,
                ),
            ensures
                (kept, matches_truncated) == search_scan(entries, q, limit as nat, entries.len()),
            decreases entries.len() - i,
        {
            let entry = &self.search_entries[i];
            match find_text(entry.text.as_str(), query) {
                None => {
                    assert(!entry_matches(entries[i as int], q));
                    i = i + 1;
                    proof {
                        lemma_search_scan_stopped(entries, q, limit as nat, i as nat, entries.len());
                    }
                },
                Some(offset) => {
                    if matches.len() >= limit {
                        matches_truncated = true;
                        proof {
                            lemma_search_scan_stopped(entries, q, limit as nat, (i + 1) as nat, entries.len());
                        }
                        break;
                    }
                    let snippet = search_snippet(
                        entry.text.as_str(),
                        offset,
                        query_len,
                        self.limits.max_search_snippet_bytes,
                    );
                    let found = RecordingPlaybackSearchMatch {
                        event_index: entry.event_index,
                        elapsed: entry.elapsed,
                        kind: entry.kind,
                        match_byte_offset: offset,
                        snippet,
                    };
                    proof {
                        lemma_first_occurrence_bounds(encode_utf8(entries[i as int].text@), q, 0);
                    }
                    assert(*entry == entries[i as int]);
                    assert(found.event_index == entries[i as int].event_index);
                    assert(Some(found.match_byte_offset as int) == first_occurrence(encode_utf8(entries[i as int].text@), q));
                    assert(encode_utf8(found.snippet@) == snippet_bytes(encode_utf8(entries[i as int].text@), found.match_byte_offset as int, q.len() as int, self.limits.max_search_snippet_bytes as int));
                    assert(match_of(entries[i as int], found, q, self.limits.max_search_snippet_bytes));
                    let ghost before = matches@;
                    let ghost kept_before = kept;
                    matches.push(found);
                    proof {
                        kept = kept.push(i as int);
                        assert forall|k: int| 0 <= k < kept.len() implies 0 <= #[trigger] kept[k] < i + 1 by {
                            if k < kept_before.len() {
                                assert(kept[k] == kept_before[k]);
                            }
                        }
                        assert forall|k: int| 0 <= k < kept.len() implies match_of(
                            entries[kept[k]],
                            #[trigger] matches@[k],
                            q,
                            self.limits.max_search_snippet_bytes,
                        ) by {
                            if k < kept_before.len() {
                                assert(matches@[k] == before[k]);
                                assert(kept[k] == kept_before[k]);
                            } else {
                                assert(matches@[k] == found);
                                assert(kept[k] == i);
                            }
                        }
                    }
                    i = i + 1;
                },
            }
        }
        Ok(RecordingPlaybackSearchResults { matches, matches_truncated, index_status: self.search_index_status })
    }
}

proof fn lemma_search_scan_stopped(entries: Seq<SearchEntry>, query: Seq<u8>, limit: nat, n: nat, m: nat)
    requires
        n <= m,
    ensures
        search_scan(entries, query, limit, n).1 ==> search_scan(entries, query, limit, m) == search_scan(entries, query, limit, n),
    decreases m - n,
{
    if n < m {
        lemma_search_scan_stopped(entries, query, limit, n, (m - 1) as nat);
    }
}

} // verus!
