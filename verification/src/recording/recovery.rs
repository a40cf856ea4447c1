//! Reading a recording file back: the header line, then one event per line,
//! each checked against the file limits and the timeline rules.
//!
//! A recording that was never published may end in a line that was cut off
//! while it was written; recovery keeps the complete lines before it and
//! reports how many bytes it dropped. Turning the JSON of one line into
//! values is done by the caller, line by line, on the lines that
//! `split_recording_lines` cuts out of the file.

use vstd::prelude::*;
use crate::duration::Duration;
use crate::recording::asciicast::{
    decode_event_kind, header_is_valid, header_verdict, kind_verdict, is_event_error, is_header_error, RecordingFileError,
    RecordingFileLimit, RecordingFileLimits, RecordingHeader,
};
use crate::recording::model::{spec_payload_len, RecordingEvent, RecordingEventKind};

verus! {

broadcast use crate::duration::lemma_duration_bound;

#[derive(Clone, Copy, Debug, PartialEq, Eq, Structural)]
pub enum RecordingCompleteness {
    Complete,
    Partial { discarded_bytes: u64 },
}

#[derive(Debug)]
pub struct ParsedRecording {
    pub header: RecordingHeader,
    pub events: Vec<RecordingEvent>,
    pub completeness: RecordingCompleteness,
}

#[derive(Debug)]
pub struct RecordingRecovery {
    pub recording: ParsedRecording,
    pub valid_bytes: u64,
    pub discarded_bytes: u64,
}

pub const NEWLINE: u8 = 0x0a;

/// Where the line starting at `start` ends: just after its newline, or at the
/// end of the content.
pub open spec fn line_end(content: Seq<u8>, start: int) -> int
    decreases content.len() - start,
{
    if start >= content.len() {
        content.len() as int
    } else if content[start] == NEWLINE {
        start + 1
    } else {
        line_end(content, start + 1)
    }
}

/// Whether `to` is reached from `from` by whole lines.
pub open spec fn line_boundary(content: Seq<u8>, from: int, to: int) -> bool
    decreases content.len() - from,
{
    if from == to {
        true
    } else if from > to || from >= content.len() || from < 0 {
        false
    } else {
        proof {
            lemma_line_end_bounds(content, from);
        }
        line_boundary(content, line_end(content, from), to)
    }
}

/// How many lines start in `from..to`.
pub open spec fn lines_between(content: Seq<u8>, from: int, to: int) -> nat
    decreases content.len() - from,
{
    if from >= to || from >= content.len() || from < 0 {
        0
    } else {
        proof {
            lemma_line_end_bounds(content, from);
        }
        1 + lines_between(content, line_end(content, from), to)
    }
}

proof fn lemma_next_boundary(content: Seq<u8>, from: int, pos: int)
    requires
        0 <= from,
        line_boundary(content, from, pos),
        pos < content.len(),
    ensures
        line_boundary(content, from, line_end(content, pos)),
        lines_between(content, from, line_end(content, pos)) == lines_between(content, from, pos) + 1,
    decreases pos - from,
{
    lemma_line_end_bounds(content, pos);
    lemma_line_end_bounds(content, from);
    if from == pos {
        let end = line_end(content, pos);
        assert(line_boundary(content, end, end));
        assert(lines_between(content, end, end) == 0);
    } else {
        assert(line_boundary(content, line_end(content, from), pos));
        lemma_next_boundary(content, line_end(content, from), pos);
    }
}

/// The payload of all events together.
pub open spec fn total_payload(events: Seq<RecordingEvent>) -> nat
    decreases events.len(),
{
    if events.len() == 0 {
        0
    } else {
        total_payload(events.drop_last()) + spec_payload_len(events.last().kind)
    }
}

/// Event times never go backwards.
pub open spec fn is_monotonic(events: Seq<RecordingEvent>) -> bool {
    forall|i: int, j: int| 0 <= i <= j < events.len() ==> (#[trigger] events[i]).elapsed@ <= (#[trigger] events[j]).elapsed@
}

/// Input events appear only where the header says input is captured.
pub open spec fn input_allowed(events: Seq<RecordingEvent>, capture_input: bool) -> bool {
    !capture_input ==> forall|i: int| 0 <= i < events.len() ==> !((#[trigger] events[i]).kind is Input)
}

/// What every recording read back satisfies.
pub open spec fn within_limits(header: RecordingHeader, events: Seq<RecordingEvent>, limits: RecordingFileLimits) -> bool {
    &&& header_is_valid(header)
    &&& events.len() <= limits.max_events
    &&& total_payload(events) <= limits.max_decoded_payload_bytes
    &&& is_monotonic(events)
    &&& input_allowed(events, header.navop.capture_input)
}

pub proof fn lemma_line_end_bounds(content: Seq<u8>, start: int)
    requires
        0 <= start <= content.len(),
    ensures
        start <= line_end(content, start) <= content.len(),
        start < content.len() ==> start < line_end(content, start),
        line_end(content, start) > start && line_end(content, start) < content.len() ==> content[line_end(content, start) - 1] == NEWLINE,
        forall|k: int| start <= k < line_end(content, start) - 1 ==> content[k] != NEWLINE,
    decreases content.len() - start,
{
    if start < content.len() && content[start] != NEWLINE {
        lemma_line_end_bounds(content, start + 1);
    }
}

proof fn lemma_line_end_is(content: Seq<u8>, start: int, end: int)
    requires
        0 <= start <= end <= content.len(),
        forall|k: int| start <= k < end ==> #[trigger] content[k] != NEWLINE,
        end == content.len() || content[end] == NEWLINE,
    ensures
        line_end(content, start) == if end == content.len() { end } else { end + 1 },
    decreases end - start,
{
    if start < end {
        lemma_line_end_is(content, start + 1, end);
    }
}

/// The end of the line that starts at `start`, and whether it ends in a
/// newline.
fn next_line(content: &[u8], start: usize) -> (r: (usize, bool))
    requires
        start < content@.len(),
    ensures
        r.0 == line_end(content@, start as int),
        start < r.0 <= content@.len(),
        r.1 == (content@[r.0 - 1] == NEWLINE),
{
    let mut k = start;
    while k < content.len() && content[k] != NEWLINE
        invariant
            start <= k <= content@.len(),
            forall|j: int| start <= j < k ==> #[trigger] content@[j] != NEWLINE,
        decreases content@.len() - k,
    {
        k = k + 1;
    }
    proof {
        lemma_line_end_is(content@, start as int, k as int);
    }
    if k < content.len() {
        (k + 1, true)
    } else {
        proof {
            lemma_line_end_bounds(content@, start as int);
        }
        (k, false)
    }
}

fn copy_range(content: &[u8], from: usize, to: usize) -> (r: Vec<u8>)
    requires
        from <= to <= content@.len(),
    ensures
        r@ == content@.subrange(from as int, to as int),
{
    let mut out: Vec<u8> = Vec::new();
    let mut k = from;
    while k < to
        invariant
            from <= k <= to,
            to <= content@.len(),
            out@ == content@.subrange(from as int, k as int),
        decreases to - k,
    {
        out.push(content[k]);
        k = k + 1;
        assert(content@.subrange(from as int, k as int) =~= content@.subrange(from as int, k - 1).push(content@[k - 1]));
    }
    out
}

/// The text of the line that starts at `start`, without its newline.
pub open spec fn line_text(content: Seq<u8>, start: int) -> Seq<u8> {
    let end = line_end(content, start);
    if end > start && content[end - 1] == NEWLINE {
        content.subrange(start, end - 1)
    } else {
        content.subrange(start, end)
    }
}

/// The texts of the lines that start at `pos` or later, in order, each
/// without its newline. A last line without a newline is the last text.
pub open spec fn lines_from(content: Seq<u8>, pos: int) -> Seq<Seq<u8>>
    decreases content.len() - pos,
{
    if pos >= content.len() || pos < 0 {
        Seq::empty()
    } else {
        proof {
            lemma_line_end_bounds(content, pos);
        }
        seq![line_text(content, pos)] + lines_from(content, line_end(content, pos))
    }
}

/// The line that reading checks as event `lines_between(from, pos)` is that
/// entry of the lines from `from`: where `pos` is reached from `from` by
/// whole lines and a line starts at `pos`, line `k` of `lines_from(from)` is
/// the text of the line at `pos`, `k` being the number of lines before it.
pub proof fn lemma_line_at_boundary(content: Seq<u8>, from: int, pos: int)
    requires
        0 <= from,
        line_boundary(content, from, pos),
        pos < content.len(),
    ensures
        lines_between(content, from, pos) < lines_from(content, from).len(),
        lines_from(content, from)[lines_between(content, from, pos) as int] == line_text(content, pos),
    decreases pos - from,
{
    lemma_line_end_bounds(content, from);
    if from < pos {
        let end = line_end(content, from);
        assert(line_boundary(content, end, pos));
        lemma_line_at_boundary(content, end, pos);
        assert(lines_from(content, from) == seq![line_text(content, from)] + lines_from(content, end));
    } else {
        assert(lines_from(content, from) == seq![line_text(content, from)] + lines_from(content, line_end(content, from)));
    }
}

/// There is one line text per line: from `pos` on, `lines_from` holds as
/// many texts as lines start there, so decoding every event line of
/// `split_recording_lines` gives `assemble_recording` the decoded lines it
/// asks for.
pub proof fn lemma_lines_from_len(content: Seq<u8>, pos: int)
    requires
        0 <= pos,
    ensures
        lines_from(content, pos).len() == lines_between(content, pos, content.len() as int),
        pos < content.len() ==> lines_from(content, pos) == seq![line_text(content, pos)] + lines_from(
            content,
            line_end(content, pos),
        ),
    decreases content.len() - pos,
{
    if pos < content.len() {
        lemma_line_end_bounds(content, pos);
        lemma_lines_from_len(content, line_end(content, pos));
    }
}

/// Cuts `content` into its lines, each without its newline: the first is
/// the header line, the others the event lines. A last line without a
/// newline is cut too.
pub fn split_recording_lines(content: &[u8]) -> (r: Vec<Vec<u8>>)
    ensures
        r@.len() == lines_from(content@, 0).len(),
        forall|i: int| 0 <= i < r@.len() ==> (#[trigger] r@[i])@ == lines_from(content@, 0)[i],
{
    let len = content.len();
    let mut out: Vec<Vec<u8>> = Vec::new();
    let mut pos: usize = 0;
    let ghost mut done: Seq<Seq<u8>> = Seq::empty();
    while pos < len
        invariant
            pos <= len,
            len == content@.len(),
            out@.len() == done.len(),
            forall|i: int| 0 <= i < out@.len() ==> (#[trigger] out@[i])@ == done[i],
            lines_from(content@, 0) == done + lines_from(content@, pos as int),
        decreases len - pos,
    {
        let (end, terminated) = next_line(content, pos);
        let text = if terminated {
            copy_range(content, pos, end - 1)
        } else {
            copy_range(content, pos, end)
        };
        proof {
            lemma_line_end_bounds(content@, pos as int);
            assert(text@ == line_text(content@, pos as int));
            assert(lines_from(content@, pos as int) == seq![line_text(content@, pos as int)] + lines_from(content@, end as int));
            assert(done + lines_from(content@, pos as int) == done.push(text@) + lines_from(content@, end as int));
            done = done.push(text@);
        }
        out.push(text);
        pos = end;
    }
    proof {
        assert(lines_from(content@, pos as int) == Seq::<Seq<u8>>::empty());
        assert(done + Seq::<Seq<u8>>::empty() == done);
    }
    out
}

/// The event of line `line_number` from its decoded `[elapsed, code, data]`
/// fields: a field error stands, else the code and data give the kind.
pub fn decode_event(fields: Result<(Duration, String, String), RecordingFileError>, line_number: u64) -> (r: Result<RecordingEvent, RecordingFileError>)
    ensures
        match fields {
            Err(e) => r == Err::<RecordingEvent, RecordingFileError>(e),
            Ok((elapsed, code, data)) => exists|kind: Result<RecordingEventKind, RecordingFileError>|
                #[trigger] kind_verdict(code@, data@, line_number, kind) && match kind {
                    Ok(k) => r == Ok::<RecordingEvent, RecordingFileError>((RecordingEvent { elapsed, kind: k })),
                    Err(e) => r == Err::<RecordingEvent, RecordingFileError>(e),
                },
        },
{
    let (elapsed, code, data) = match fields {
        Ok(fields) => fields,
        Err(e) => return Err(e),
    };
    let ghost code_view = code@;
    let ghost data_view = data@;
    let kind = decode_event_kind(code.as_str(), data, line_number);
    assert(kind_verdict(code_view, data_view, line_number, kind));
    match kind {
        Ok(kind) => Ok(RecordingEvent { elapsed, kind }),
        Err(e) => Err(e),
    }
}

proof fn lemma_monotonic_push(events: Seq<RecordingEvent>, e: RecordingEvent)
    requires
        is_monotonic(events),
        events.len() > 0 ==> events.last().elapsed@ <= e.elapsed@,
    ensures
        is_monotonic(events.push(e)),
{
    let pushed = events.push(e);
    assert forall|i: int, j: int| 0 <= i <= j < pushed.len() implies (#[trigger] pushed[i]).elapsed@ <= (#[trigger] pushed[j]).elapsed@ by {
        if j == events.len() && i < j {
            assert(pushed[i] == events[i]);
            assert(events[i].elapsed@ <= events[events.len() - 1].elapsed@);
        }
    }
}

/// How reading a recording ends.
pub enum ReadOutcome {
    /// This error, as it stands (a limit, or a line that did not decode).
    Failed(RecordingFileError),
    /// An invalid-header error with this text.
    HeaderFailed(Seq<char>),
    /// The header breaks a rule of `header_verdict`.
    HeaderInvalid(RecordingHeader),
    /// An invalid-event error for this line with this text.
    EventFailed(u64, Seq<char>),
    /// The recording: the bytes kept, the bytes dropped, and the events.
    Read { valid: nat, discarded: nat, events: Seq<RecordingEvent> },
}

/// Reading the event lines from `pos` on, after the events `acc` whose
/// payload is `payload`. `decoded[i]` is the decoded event line `i` (file
/// line `i + 2`). Each line is checked in turn: its length, its newline, the
/// event count, its decoding, its time, input capture and the payload total.
pub open spec fn read_events(
    content: Seq<u8>,
    limits: RecordingFileLimits,
    allow_partial_tail: bool,
    capture_input: bool,
    decoded: Seq<Result<RecordingEvent, RecordingFileError>>,
    pos: int,
    acc: Seq<RecordingEvent>,
    payload: nat,
) -> ReadOutcome
    decreases content.len() - pos,
{
    if pos >= content.len() || pos < 0 {
        ReadOutcome::Read { valid: pos as nat, discarded: 0, events: acc }
    } else {
        let end = line_end(content, pos);
        let line = (acc.len() + 2) as u64;
        if end - pos > limits.max_serialized_event_bytes {
            ReadOutcome::Failed(RecordingFileError::LimitReached(RecordingFileLimit::EventBytes))
        } else if content[end - 1] != NEWLINE {
            if allow_partial_tail {
                ReadOutcome::Read { valid: pos as nat, discarded: (content.len() - pos) as nat, events: acc }
            } else {
                ReadOutcome::EventFailed(line, "event line is truncated"@)
            }
        } else if acc.len() >= limits.max_events {
            ReadOutcome::Failed(RecordingFileError::LimitReached(RecordingFileLimit::EventCount))
        } else {
            match decoded[acc.len() as int] {
                Err(e) => ReadOutcome::Failed(e),
                Ok(event) => if acc.len() > 0 && event.elapsed@ < acc.last().elapsed@ {
                    ReadOutcome::EventFailed(line, "timestamp moved backwards"@)
                } else if event.kind is Input && !capture_input {
                    ReadOutcome::EventFailed(line, "input event is present while capture_input is disabled"@)
                } else if payload + spec_payload_len(event.kind) > limits.max_decoded_payload_bytes {
                    ReadOutcome::Failed(RecordingFileError::LimitReached(RecordingFileLimit::DecodedPayloadBytes))
                } else {
                    proof {
                        lemma_line_end_bounds(content, pos);
                    }
                    read_events(
                        content,
                        limits,
                        allow_partial_tail,
                        capture_input,
                        decoded,
                        end,
                        acc.push(event),
                        payload + spec_payload_len(event.kind),
                    )
                },
            }
        }
    }
}

/// Whether the header line passes the checks made before it is decoded:
/// the file fits, is not empty, and its first line fits and is complete.
pub open spec fn header_line_accepted(content: Seq<u8>, limits: RecordingFileLimits) -> bool {
    &&& content.len() <= limits.max_file_bytes
    &&& content.len() > 0
    &&& line_end(content, 0) <= limits.max_header_bytes
    &&& content[line_end(content, 0) - 1] == NEWLINE
}

/// Reading the recording in `content`, given the decoded header line and
/// the decoded event lines.
pub open spec fn read_verdict(
    content: Seq<u8>,
    limits: RecordingFileLimits,
    allow_partial_tail: bool,
    header: Result<RecordingHeader, RecordingFileError>,
    decoded: Seq<Result<RecordingEvent, RecordingFileError>>,
) -> ReadOutcome {
    if content.len() > limits.max_file_bytes {
        ReadOutcome::Failed(RecordingFileError::LimitReached(RecordingFileLimit::FileBytes))
    } else if content.len() == 0 {
        ReadOutcome::HeaderFailed("recording is empty"@)
    } else if line_end(content, 0) > limits.max_header_bytes {
        ReadOutcome::Failed(RecordingFileError::LimitReached(RecordingFileLimit::HeaderBytes))
    } else if content[line_end(content, 0) - 1] != NEWLINE {
        ReadOutcome::HeaderFailed("header is truncated"@)
    } else {
        match header {
            Err(e) => ReadOutcome::Failed(e),
            Ok(h) => if !header_is_valid(h) {
                ReadOutcome::HeaderInvalid(h)
            } else {
                read_events(content, limits, allow_partial_tail, h.navop.capture_input, decoded, line_end(content, 0), Seq::empty(), 0)
            },
        }
    }
}

/// Whether `r` is what the outcome `o` says, the header being `header`.
pub open spec fn outcome_matches(
    o: ReadOutcome,
    header: Result<RecordingHeader, RecordingFileError>,
    allow_partial_tail: bool,
    r: Result<RecordingRecovery, RecordingFileError>,
) -> bool {
    match o {
        ReadOutcome::Failed(e) => r == Err::<RecordingRecovery, RecordingFileError>(e),
        ReadOutcome::HeaderFailed(text) => r matches Err(e) && is_header_error(e, text),
        ReadOutcome::HeaderInvalid(h) => r matches Err(e) && header_verdict(h, e),
        ReadOutcome::EventFailed(line, text) => r matches Err(e) && is_event_error(e, line, text),
        ReadOutcome::Read { valid, discarded, events } => r matches Ok(recovery) && header matches Ok(h) && {
            &&& recovery.recording.header == h
            &&& recovery.recording.events@ == events
            &&& recovery.valid_bytes == valid
            &&& recovery.discarded_bytes == discarded
            &&& recovery.recording.completeness == (if allow_partial_tail {
                RecordingCompleteness::Partial { discarded_bytes: discarded as u64 }
            } else {
                RecordingCompleteness::Complete
            })
        },
    }
}

proof fn lemma_lines_split(content: Seq<u8>, from: int, pos: int)
    requires
        0 <= from,
        line_boundary(content, from, pos),
        pos <= content.len(),
    ensures
        lines_between(content, from, content.len() as int) == lines_between(content, from, pos) + lines_between(
            content,
            pos,
            content.len() as int,
        ),
    decreases pos - from,
{
    lemma_line_end_bounds(content, from);
    if from < pos {
        assert(line_boundary(content, line_end(content, from), pos));
        lemma_lines_split(content, line_end(content, from), pos);
    }
}

/// Every line from `pos` on ends in a newline and is at most `limit` bytes.
pub open spec fn complete_lines_within(content: Seq<u8>, pos: int, limit: nat) -> bool
    decreases content.len() - pos,
{
    if pos >= content.len() || pos < 0 {
        true
    } else {
        proof {
            lemma_line_end_bounds(content, pos);
        }
        &&& line_end(content, pos) - pos <= limit
        &&& content[line_end(content, pos) - 1] == NEWLINE
        &&& complete_lines_within(content, line_end(content, pos), limit)
    }
}

proof fn lemma_total_payload_prefix(events: Seq<RecordingEvent>, k: int)
    requires
        0 <= k < events.len(),
    ensures
        total_payload(events.take(k + 1)) == total_payload(events.take(k)) + spec_payload_len(events[k].kind),
        total_payload(events.take(k + 1)) <= total_payload(events),
    decreases events.len() - k,
{
    assert(events.take(k + 1).drop_last() == events.take(k));
    if k + 1 < events.len() {
        lemma_total_payload_prefix(events, k + 1);
    } else {
        assert(events.take(k + 1) == events);
    }
}

proof fn lemma_read_events_all(
    content: Seq<u8>,
    limits: RecordingFileLimits,
    allow_partial_tail: bool,
    capture_input: bool,
    decoded: Seq<Result<RecordingEvent, RecordingFileError>>,
    pos: int,
    events: Seq<RecordingEvent>,
    k: int,
)
    requires
        0 <= pos <= content.len(),
        0 <= k <= events.len(),
        complete_lines_within(content, pos, limits.max_serialized_event_bytes as nat),
        lines_between(content, pos, content.len() as int) == events.len() - k,
        events.len() <= limits.max_events,
        total_payload(events) <= limits.max_decoded_payload_bytes,
        is_monotonic(events),
        input_allowed(events, capture_input),
        decoded.len() >= events.len(),
        forall|i: int| 0 <= i < events.len() ==> decoded[i] == Ok::<RecordingEvent, RecordingFileError>(events[i]),
    ensures
        read_events(content, limits, allow_partial_tail, capture_input, decoded, pos, events.take(k), total_payload(events.take(k)))
            == (ReadOutcome::Read { valid: content.len(), discarded: 0, events: events }),
    decreases content.len() - pos,
{
    if pos >= content.len() {
        assert(events.take(k) == events);
    } else {
        lemma_line_end_bounds(content, pos);
        let end = line_end(content, pos);
        let acc = events.take(k);
        assert(k < events.len());
        assert(decoded[k] == Ok::<RecordingEvent, RecordingFileError>(events[k]));
        if k > 0 {
            assert(acc.last() == events[k - 1]);
            assert(events[k - 1].elapsed@ <= events[k].elapsed@);
        }
        lemma_total_payload_prefix(events, k);
        assert(acc.push(events[k]) == events.take(k + 1));
        lemma_read_events_all(content, limits, allow_partial_tail, capture_input, decoded, end, events, k + 1);
    }
}

/// A well-formed recording reads back as exactly its events: where the first
/// line is a valid header, every event line is complete and within the line
/// limit, and the events decoded from the lines keep the recording limits,
/// the timeline and the input rule, reading succeeds with the whole file kept
/// and those events, in order.
pub proof fn lemma_well_formed_recording_reads_back(
    content: Seq<u8>,
    limits: RecordingFileLimits,
    allow_partial_tail: bool,
    header: RecordingHeader,
    events: Seq<RecordingEvent>,
    decoded: Seq<Result<RecordingEvent, RecordingFileError>>,
)
    requires
        header_line_accepted(content, limits),
        header_is_valid(header),
        complete_lines_within(content, line_end(content, 0), limits.max_serialized_event_bytes as nat),
        lines_between(content, line_end(content, 0), content.len() as int) == events.len(),
        within_limits(header, events, limits),
        decoded.len() >= events.len(),
        forall|i: int| 0 <= i < events.len() ==> decoded[i] == Ok::<RecordingEvent, RecordingFileError>(events[i]),
    ensures
        read_verdict(content, limits, allow_partial_tail, Ok(header), decoded) == (ReadOutcome::Read {
            valid: content.len(),
            discarded: 0,
            events,
        }),
{
    lemma_line_end_bounds(content, 0);
    assert(events.take(0) == Seq::<RecordingEvent>::empty());
    lemma_read_events_all(
        content,
        limits,
        allow_partial_tail,
        header.navop.capture_input,
        decoded,
        line_end(content, 0),
        events,
        0,
    );
}

/// Every line that starts in `pos..to` ends in a newline and is at most
/// `limit` bytes.
pub open spec fn complete_lines_until(content: Seq<u8>, pos: int, to: int, limit: nat) -> bool
    decreases content.len() - pos,
{
    if pos >= to || pos >= content.len() || pos < 0 {
        true
    } else {
        proof {
            lemma_line_end_bounds(content, pos);
        }
        &&& line_end(content, pos) - pos <= limit
        &&& content[line_end(content, pos) - 1] == NEWLINE
        &&& complete_lines_until(content, line_end(content, pos), to, limit)
    }
}

proof fn lemma_read_events_partial(
    content: Seq<u8>,
    limits: RecordingFileLimits,
    capture_input: bool,
    decoded: Seq<Result<RecordingEvent, RecordingFileError>>,
    pos: int,
    tail: int,
    events: Seq<RecordingEvent>,
    k: int,
)
    requires
        0 <= pos <= tail < content.len(),
        line_end(content, tail) == content.len(),
        content[content.len() - 1] != NEWLINE,
        content.len() - tail <= limits.max_serialized_event_bytes,
        line_boundary(content, pos, tail),
        complete_lines_until(content, pos, tail, limits.max_serialized_event_bytes as nat),
        0 <= k <= events.len(),
        lines_between(content, pos, tail) == events.len() - k,
        events.len() <= limits.max_events,
        total_payload(events) <= limits.max_decoded_payload_bytes,
        is_monotonic(events),
        input_allowed(events, capture_input),
        decoded.len() >= events.len(),
        forall|i: int| 0 <= i < events.len() ==> decoded[i] == Ok::<RecordingEvent, RecordingFileError>(events[i]),
    ensures
        read_events(content, limits, true, capture_input, decoded, pos, events.take(k), total_payload(events.take(k)))
            == (ReadOutcome::Read { valid: tail as nat, discarded: (content.len() - tail) as nat, events: events }),
    decreases tail - pos,
{
    lemma_line_end_bounds(content, pos);
    if pos == tail {
        assert(events.take(k) == events);
    } else {
        let end = line_end(content, pos);
        let acc = events.take(k);
        assert(line_boundary(content, end, tail));
        assert(end <= tail) by {
            if end > tail {
                assert(!line_boundary(content, end, tail));
            }
        }
        assert(k < events.len());
        assert(decoded[k] == Ok::<RecordingEvent, RecordingFileError>(events[k]));
        if k > 0 {
            assert(acc.last() == events[k - 1]);
            assert(events[k - 1].elapsed@ <= events[k].elapsed@);
        }
        lemma_total_payload_prefix(events, k);
        assert(acc.push(events[k]) == events.take(k + 1));
        lemma_read_events_partial(content, limits, capture_input, decoded, end, tail, events, k + 1);
    }
}

/// Recovering a recording whose last line was cut off keeps everything
/// before that line: where the complete lines (a valid header, then event
/// lines within the line limit whose decoded events keep the recording
/// limits, the timeline and the input rule) are followed by one line without
/// its newline, no longer than the line limit, the read succeeds with the
/// complete lines kept, the cut line dropped, and the decoded events.
pub proof fn lemma_partial_recording_keeps_complete_lines(
    content: Seq<u8>,
    limits: RecordingFileLimits,
    header: RecordingHeader,
    events: Seq<RecordingEvent>,
    decoded: Seq<Result<RecordingEvent, RecordingFileError>>,
    tail: int,
)
    requires
        header_line_accepted(content, limits),
        header_is_valid(header),
        line_end(content, 0) <= tail < content.len(),
        line_boundary(content, line_end(content, 0), tail),
        line_end(content, tail) == content.len(),
        content[content.len() - 1] != NEWLINE,
        content.len() - tail <= limits.max_serialized_event_bytes,
        complete_lines_until(content, line_end(content, 0), tail, limits.max_serialized_event_bytes as nat),
        lines_between(content, line_end(content, 0), tail) == events.len(),
        within_limits(header, events, limits),
        decoded.len() >= events.len(),
        forall|i: int| 0 <= i < events.len() ==> decoded[i] == Ok::<RecordingEvent, RecordingFileError>(events[i]),
    ensures
        read_verdict(content, limits, true, Ok(header), decoded) == (ReadOutcome::Read {
            valid: tail as nat,
            discarded: (content.len() - tail) as nat,
            events,
        }),
{
    lemma_line_end_bounds(content, 0);
    assert(events.take(0) == Seq::<RecordingEvent>::empty());
    lemma_read_events_partial(content, limits, header.navop.capture_input, decoded, line_end(content, 0), tail, events, 0);
}

/// Builds the recording from `content` and its decoded lines: `header` is
/// the decoded first line, `decoded[i]` the decoded event line `i`. With
/// `allow_partial_tail`, a last line without its newline is dropped instead
/// of refused, and the recording is reported as partial.
pub fn assemble_recording(
    content: &[u8],
    limits: RecordingFileLimits,
    allow_partial_tail: bool,
    header: Result<RecordingHeader, RecordingFileError>,
    decoded: Vec<Result<RecordingEvent, RecordingFileError>>,
) -> (r: Result<RecordingRecovery, RecordingFileError>)
    requires
        content@.len() <= isize::MAX,
        header_line_accepted(content@, limits) ==> decoded@.len() >= lines_between(
            content@,
            line_end(content@, 0),
            content@.len() as int,
        ),
    ensures
        outcome_matches(read_verdict(content@, limits, allow_partial_tail, header, decoded@), header, allow_partial_tail, r),
        r matches Ok(recovery) ==> {
            &&& within_limits(recovery.recording.header, recovery.recording.events@, limits)
            &&& recovery.valid_bytes + recovery.discarded_bytes == content@.len()
            &&& (!allow_partial_tail ==> recovery.discarded_bytes == 0)
            &&& 0 < recovery.valid_bytes
            &&& content@[recovery.valid_bytes - 1] == NEWLINE
            &&& line_boundary(content@, line_end(content@, 0), recovery.valid_bytes as int)
            &&& recovery.recording.events@.len() == lines_between(content@, line_end(content@, 0), recovery.valid_bytes as int)
            &&& (recovery.discarded_bytes > 0 ==> line_end(content@, recovery.valid_bytes as int) == content@.len()
                && content@[content@.len() - 1] != NEWLINE)
        },
{
    let ghost decoded_in = decoded@;
    let ghost header_in = header;
    let ghost verdict = read_verdict(content@, limits, allow_partial_tail, header, decoded@);
    let len = content.len();
    if len as u64 > limits.max_file_bytes {
        return Err(RecordingFileError::LimitReached(RecordingFileLimit::FileBytes));
    }
    if len == 0 {
        return Err(RecordingFileError::invalid_header("recording is empty"));
    }
    let (header_end, header_terminated) = next_line(content, 0);
    if header_end > limits.max_header_bytes {
        return Err(RecordingFileError::LimitReached(RecordingFileLimit::HeaderBytes));
    }
    if !header_terminated {
        return Err(RecordingFileError::invalid_header("header is truncated"));
    }
    let valid_header = match header {
        Ok(h) => h,
        Err(e) => return Err(e),
    };
    match valid_header.validate() {
        Ok(()) => {},
        Err(e) => return Err(e),
    }
    let capture_input = valid_header.navop.capture_input;
    let n = decoded.len();
    // The decoded events, last first, so that each is taken by `pop`.
    let mut remaining = decoded;
    let mut pending: Vec<Result<RecordingEvent, RecordingFileError>> = Vec::new();
    while remaining.len() > 0
        invariant
            remaining@.len() + pending@.len() == n,
            n == decoded_in.len(),
            forall|j: int| 0 <= j < remaining@.len() ==> remaining@[j] == decoded_in[j],
            forall|j: int| 0 <= j < pending@.len() ==> pending@[j] == decoded_in[n - 1 - j],
        decreases remaining@.len(),
    {
        let item = remaining.pop().unwrap();
        pending.push(item);
    }
    proof {
        lemma_line_end_bounds(content@, 0);
        lemma_lines_split(content@, header_end as int, header_end as int);
    }

    let mut pos: usize = header_end;
    let mut discarded: u64 = 0;
    let mut events: Vec<RecordingEvent> = Vec::new();
    let mut payload_total: u64 = 0;
    let mut line_number: u64 = 2;
    loop
        invariant_except_break
            0 < pos <= len,
            len == content@.len(),
            len <= limits.max_file_bytes,
            content@[pos - 1] == NEWLINE,
            discarded == 0,
            verdict == read_events(content@, limits, allow_partial_tail, capture_input, decoded_in, pos as int, events@, payload_total as nat),
        invariant
            verdict == read_verdict(content@, limits, allow_partial_tail, header_in, decoded_in),
            header_in == header,
            decoded_in == decoded@,
            header_in == Ok::<RecordingHeader, RecordingFileError>(valid_header),
            header_is_valid(valid_header),
            capture_input == valid_header.navop.capture_input,
            events@.len() <= limits.max_events,
            payload_total == total_payload(events@),
            payload_total <= limits.max_decoded_payload_bytes,
            is_monotonic(events@),
            input_allowed(events@, capture_input),
            line_number == events@.len() + 2,
            events@.len() < pos,
            len <= isize::MAX,
            len > 0,
            0 < line_end(content@, 0) <= limits.max_header_bytes,
            content@[line_end(content@, 0) - 1] == NEWLINE,
            header_end == line_end(content@, 0),
            line_boundary(content@, header_end as int, pos as int),
            events@.len() == lines_between(content@, header_end as int, pos as int),
            n == decoded_in.len(),
            n >= lines_between(content@, header_end as int, len as int),
            pending@.len() + events@.len() == n,
            forall|j: int| 0 <= j < pending@.len() ==> pending@[j] == decoded_in[n - 1 - j],
        ensures
            0 < pos <= len,
            len == content@.len(),
            len <= limits.max_file_bytes,
            content@[pos - 1] == NEWLINE,
            pos + discarded == len,
            !allow_partial_tail ==> discarded == 0,
            discarded > 0 ==> line_end(content@, pos as int) == len && content@[len - 1] != NEWLINE,
            verdict == (ReadOutcome::Read { valid: pos as nat, discarded: discarded as nat, events: events@ }),
        decreases len - pos,
    {
        if pos == len {
            break;
        }
        let (end, terminated) = next_line(content, pos);
        proof {
            lemma_line_end_bounds(content@, pos as int);
            assert(verdict == read_events(content@, limits, allow_partial_tail, capture_input, decoded_in, pos as int, events@, payload_total as nat));
        }
        if end - pos > limits.max_serialized_event_bytes {
            assert(verdict == ReadOutcome::Failed(RecordingFileError::LimitReached(RecordingFileLimit::EventBytes)));
            return Err(RecordingFileError::LimitReached(RecordingFileLimit::EventBytes));
        }
        if !terminated {
            if allow_partial_tail {
                proof {
                    lemma_line_end_bounds(content@, pos as int);
                }
                discarded = (len - pos) as u64;
                break;
            }
            assert(verdict == ReadOutcome::EventFailed(line_number, "event line is truncated"@));
            return Err(RecordingFileError::invalid_event(line_number, "event line is truncated"));
        }
        if events.len() as u64 >= limits.max_events {
            return Err(RecordingFileError::LimitReached(RecordingFileLimit::EventCount));
        }
        proof {
            lemma_lines_split(content@, header_end as int, pos as int);
            assert(lines_between(content@, pos as int, len as int) >= 1);
            assert(pending@[pending@.len() - 1] == decoded_in[events@.len() as int]);
        }
        let event = match pending.pop().unwrap() {
            Ok(event) => event,
            Err(e) => return Err(e),
        };
        if events.len() > 0 && event.elapsed.is_before(events[events.len() - 1].elapsed) {
            return Err(RecordingFileError::invalid_event(line_number, "timestamp moved backwards"));
        }
        let is_input = match &event.kind {
            RecordingEventKind::Input(_) => true,
            _ => false,
        };
        if is_input && !capture_input {
            return Err(RecordingFileError::invalid_event(
                line_number,
                "input event is present while capture_input is disabled",
            ));
        }
        let payload = event.kind.payload_len() as u64;
        if payload > limits.max_decoded_payload_bytes - payload_total {
            return Err(RecordingFileError::LimitReached(RecordingFileLimit::DecodedPayloadBytes));
        }
        let ghost before = events@;
        proof {
            lemma_monotonic_push(before, event);
        }
        payload_total = payload_total + payload;
        events.push(event);
        proof {
            assert(events@.drop_last() =~= before);
            assert forall|i: int| 0 <= i < events@.len() && !capture_input implies !((#[trigger] events@[i]).kind is Input) by {
                if i < before.len() {
                    assert(events@[i] == before[i]);
                }
            }
            lemma_next_boundary(content@, header_end as int, pos as int);
        }
        line_number = line_number + 1;
        pos = end;
    }
    let completeness = if allow_partial_tail {
        RecordingCompleteness::Partial { discarded_bytes: discarded }
    } else {
        RecordingCompleteness::Complete
    };
    Ok(RecordingRecovery {
        recording: ParsedRecording { header: valid_header, events, completeness },
        valid_bytes: pos as u64,
        discarded_bytes: discarded,
    })
}

/// Reads a complete recording from `content`, given its decoded header line
/// and decoded event lines: a last line without its newline is refused.
pub fn read_recording(
    content: &[u8],
    limits: RecordingFileLimits,
    header: Result<RecordingHeader, RecordingFileError>,
    decoded: Vec<Result<RecordingEvent, RecordingFileError>>,
) -> (r: Result<ParsedRecording, RecordingFileError>)
    requires
        content@.len() <= isize::MAX,
        header_line_accepted(content@, limits) ==> decoded@.len() >= lines_between(
            content@,
            line_end(content@, 0),
            content@.len() as int,
        ),
    ensures
        parsed_matches(read_verdict(content@, limits, false, header, decoded@), header, r),
        r matches Ok(parsed) ==> {
            &&& within_limits(parsed.header, parsed.events@, limits)
            &&& parsed.completeness == RecordingCompleteness::Complete
            &&& content@[content@.len() - 1] == NEWLINE
            &&& line_boundary(content@, line_end(content@, 0), content@.len() as int)
            &&& parsed.events@.len() == lines_between(content@, line_end(content@, 0), content@.len() as int)
        },
{
    match assemble_recording(content, limits, false, header, decoded) {
        Ok(recovery) => Ok(recovery.recording),
        Err(e) => Err(e),
    }
}

/// Whether the complete recording `r` is what the outcome `o` says.
pub open spec fn parsed_matches(
    o: ReadOutcome,
    header: Result<RecordingHeader, RecordingFileError>,
    r: Result<ParsedRecording, RecordingFileError>,
) -> bool {
    match o {
        ReadOutcome::Failed(e) => r == Err::<ParsedRecording, RecordingFileError>(e),
        ReadOutcome::HeaderFailed(text) => r matches Err(e) && is_header_error(e, text),
        ReadOutcome::HeaderInvalid(h) => r matches Err(e) && header_verdict(h, e),
        ReadOutcome::EventFailed(line, text) => r matches Err(e) && is_event_error(e, line, text),
        ReadOutcome::Read { valid, discarded, events } => r matches Ok(parsed) && header matches Ok(h) && {
            &&& parsed.header == h
            &&& parsed.events@ == events
            &&& parsed.completeness == RecordingCompleteness::Complete
        },
    }
}

} // verus!
