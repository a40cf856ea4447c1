//! The rules of writing a recording file.
//!
//! Events go to a `.partial` file that is published under its final name
//! only when the recording stops. Every event is checked before it is
//! written: a closed file takes nothing, input needs the header's opt-in,
//! time never goes backwards, and the event count, the decoded payload, the
//! size of one line and of the whole file stay within their limits. The
//! first refusal fails the file for good. The file operations themselves are
//! done by the caller between the steps of the ledger below.

use vstd::prelude::*;
use crate::duration::Duration;
use crate::recording::asciicast::{
    is_event_error, is_limit_error, RecordingFileError, RecordingFileLimit, RecordingFileLimits,
    DEFAULT_MAX_DECODED_RECORDING_BYTES, DEFAULT_MAX_RECORDING_FILE_BYTES, DEFAULT_MAX_RECORDING_HEADER_BYTES,
    DEFAULT_MAX_SERIALIZED_RECORDING_EVENT_BYTES,
};
use crate::recording::model::{spec_payload_len, RecordingEvent, RecordingEventKind, DEFAULT_MAX_RECORDING_EVENTS};

verus! {

broadcast use crate::duration::lemma_duration_bound;

pub const DEFAULT_FLUSH_EVERY_EVENTS: u64 = 32;

#[derive(Clone, Copy, Debug, PartialEq, Eq, Structural)]
pub struct RecordingFileConfig {
    pub limits: RecordingFileLimits,
    /// Flushes and synchronizes the partial file after this many events.
    pub flush_every_events: u64,
}

impl Default for RecordingFileConfig {
    fn default() -> (r: Self)
        ensures
            r.limits.max_header_bytes == DEFAULT_MAX_RECORDING_HEADER_BYTES,
            r.limits.max_serialized_event_bytes == DEFAULT_MAX_SERIALIZED_RECORDING_EVENT_BYTES,
            r.limits.max_file_bytes == DEFAULT_MAX_RECORDING_FILE_BYTES,
            r.limits.max_events == DEFAULT_MAX_RECORDING_EVENTS,
            r.limits.max_decoded_payload_bytes == DEFAULT_MAX_DECODED_RECORDING_BYTES,
            r.flush_every_events == DEFAULT_FLUSH_EVERY_EVENTS,
    {
        RecordingFileConfig { limits: RecordingFileLimits::default(), flush_every_events: DEFAULT_FLUSH_EVERY_EVENTS }
    }
}

#[derive(Clone, Copy, Debug, PartialEq, Eq, Structural)]
pub enum RecordingFileState {
    Open,
    Published,
    Failed,
}

#[derive(Clone, Copy, Debug, PartialEq, Eq, Structural)]
pub enum RecordingFileTransition {
    Changed,
    Unchanged,
}

pub open spec fn limits_positive(limits: RecordingFileLimits) -> bool {
    limits.max_header_bytes > 0 && limits.max_serialized_event_bytes > 0 && limits.max_file_bytes > 0
        && limits.max_events > 0 && limits.max_decoded_payload_bytes > 0
}

pub open spec fn config_is_valid(config: RecordingFileConfig) -> bool {
    config.flush_every_events > 0 && limits_positive(config.limits)
}

/// Accepts a configuration whose flush interval and limits are all positive.
pub fn validate_config(config: &RecordingFileConfig) -> (r: Result<(), RecordingFileError>)
    ensures
        r is Ok <==> config_is_valid(*config),
        config.flush_every_events == 0 ==> (r matches Err(RecordingFileError::InvalidConfig(m))
            && m@ == "flush_every_events must be greater than zero"@),
        config.flush_every_events > 0 && !limits_positive(config.limits) ==> (r matches Err(
            RecordingFileError::InvalidConfig(m),
        ) && m@ == "all recording file limits must be greater than zero"@),
{
    if config.flush_every_events == 0 {
        return Err(RecordingFileError::invalid_config("flush_every_events must be greater than zero"));
    }
    let limits = &config.limits;
    if limits.max_header_bytes == 0 || limits.max_serialized_event_bytes == 0 || limits.max_file_bytes == 0
        || limits.max_events == 0 || limits.max_decoded_payload_bytes == 0 {
        return Err(RecordingFileError::invalid_config("all recording file limits must be greater than zero"));
    }
    Ok(())
}

/// An event that passed every check, with the totals it brings.
#[derive(Clone, Copy, Debug, PartialEq, Eq, Structural)]
pub struct PendingAppend {
    pub next_file_bytes: u64,
    pub next_payload_bytes: u64,
    pub elapsed: Duration,
}

/// The bookkeeping of one recording file while it is written.
pub struct RecordingFileLedger {
    config: RecordingFileConfig,
    capture_input: bool,
    state: RecordingFileState,
    bytes_written: u64,
    event_count: u64,
    decoded_payload_bytes: u64,
    events_since_flush: u64,
    last_elapsed: Option<Duration>,
}

/// The ledger as numbers.
pub struct LedgerView {
    pub config: RecordingFileConfig,
    pub capture_input: bool,
    pub state: RecordingFileState,
    pub bytes_written: nat,
    pub event_count: nat,
    pub payload_bytes: nat,
    pub events_since_flush: nat,
    pub last_elapsed: Option<nat>,
}

pub open spec fn elapsed_of(d: Option<Duration>) -> Option<nat> {
    match d {
        Some(d) => Some(d@),
        None => None,
    }
}

impl View for RecordingFileLedger {
    type V = LedgerView;

    closed spec fn view(&self) -> LedgerView {
        LedgerView {
            config: self.config,
            capture_input: self.capture_input,
            state: self.state,
            bytes_written: self.bytes_written as nat,
            event_count: self.event_count as nat,
            payload_bytes: self.decoded_payload_bytes as nat,
            events_since_flush: self.events_since_flush as nat,
            last_elapsed: elapsed_of(self.last_elapsed),
        }
    }
}

/// The totals of a recording file never pass its limits.
pub open spec fn ledger_inv(v: LedgerView) -> bool {
    &&& config_is_valid(v.config)
    &&& v.bytes_written <= v.config.limits.max_file_bytes
    &&& v.event_count <= v.config.limits.max_events
    &&& v.payload_bytes <= v.config.limits.max_decoded_payload_bytes
    &&& v.events_since_flush <= v.event_count
}

/// The same ledger, failed.
pub open spec fn failed(v: LedgerView) -> LedgerView {
    LedgerView { state: RecordingFileState::Failed, ..v }
}

/// What a stop request answers in `state`: `Unchanged` once published, a
/// refusal once failed, and `None` while the open file still has to be
/// finished and published.
pub open spec fn stop_answer(state: RecordingFileState) -> Result<Option<RecordingFileTransition>, RecordingFileError> {
    match state {
        RecordingFileState::Published => Ok(Some(RecordingFileTransition::Unchanged)),
        RecordingFileState::Failed => Err(RecordingFileError::NotOpen),
        RecordingFileState::Open => Ok(None),
    }
}

/// The ledger after the open file was finished and published, or failed to
/// be.
pub open spec fn after_publish(v: LedgerView, published: Result<(), RecordingFileError>) -> LedgerView {
    match published {
        Ok(()) => LedgerView { state: RecordingFileState::Published, ..v },
        Err(_) => failed(v),
    }
}

/// Which check an event fails first, if any; `Ok` with the new totals.
pub open spec fn admission(v: LedgerView, event: RecordingEvent, line_len: Result<nat, ()>) -> Result<(nat, nat), int> {
    if event.kind is Input && !v.capture_input {
        Err(0)
    } else if v.last_elapsed matches Some(last) && event.elapsed@ < last {
        Err(1)
    } else if v.event_count >= v.config.limits.max_events {
        Err(2)
    } else if v.payload_bytes + spec_payload_len(event.kind) > v.config.limits.max_decoded_payload_bytes {
        Err(3)
    } else {
        match line_len {
            Err(_) => Err(4),
            Ok(n) => if n > v.config.limits.max_serialized_event_bytes {
                Err(5)
            } else if v.bytes_written + n > v.config.limits.max_file_bytes {
                Err(6)
            } else {
                Ok((v.bytes_written + n, v.payload_bytes + spec_payload_len(event.kind)))
            },
        }
    }
}

/// The error that goes with a failed check.
pub open spec fn admission_error(v: LedgerView, check: int, e: RecordingFileError) -> bool {
    if check == 0 {
        e is InputCaptureDisabled
    } else if check == 1 {
        is_event_error(e, if v.event_count + 2 > u64::MAX { u64::MAX } else { (v.event_count + 2) as u64 }, "timestamp moved backwards"@)
    } else if check == 2 {
        is_limit_error(e, RecordingFileLimit::EventCount)
    } else if check == 3 {
        is_limit_error(e, RecordingFileLimit::DecodedPayloadBytes)
    } else if check == 5 {
        is_limit_error(e, RecordingFileLimit::EventBytes)
    } else if check == 6 {
        is_limit_error(e, RecordingFileLimit::FileBytes)
    } else {
        true
    }
}

pub open spec fn line_len_of(r: Result<usize, RecordingFileError>) -> Result<nat, ()> {
    match r {
        Ok(n) => Ok(n as nat),
        Err(_) => Err(()),
    }
}

impl RecordingFileLedger {
    /// Starts the ledger of a file whose header line (newline included) is
    /// `header_line_len` bytes long.
    pub fn open(config: RecordingFileConfig, capture_input: bool, header_line_len: usize) -> (r: Result<Self, RecordingFileError>)
        ensures
            !config_is_valid(config) ==> (r matches Err(e) && e is InvalidConfig),
            config_is_valid(config) && header_line_len > config.limits.max_header_bytes ==> (r matches Err(e)
                && is_limit_error(e, RecordingFileLimit::HeaderBytes)),
            config_is_valid(config) && header_line_len <= config.limits.max_header_bytes && header_line_len
                > config.limits.max_file_bytes ==> (r matches Err(e) && is_limit_error(e, RecordingFileLimit::FileBytes)),
            r is Ok <==> config_is_valid(config) && header_line_len <= config.limits.max_header_bytes && header_line_len
                <= config.limits.max_file_bytes,
            r matches Ok(ledger) ==> ledger_inv(ledger@) && ledger@ == (LedgerView {
                config,
                capture_input,
                state: RecordingFileState::Open,
                bytes_written: header_line_len as nat,
                event_count: 0,
                payload_bytes: 0,
                events_since_flush: 0,
                last_elapsed: None,
            }),
    {
        validate_config(&config)?;
        if header_line_len > config.limits.max_header_bytes {
            return Err(RecordingFileError::LimitReached(RecordingFileLimit::HeaderBytes));
        }
        if header_line_len as u64 > config.limits.max_file_bytes {
            return Err(RecordingFileError::LimitReached(RecordingFileLimit::FileBytes));
        }
        Ok(RecordingFileLedger {
            config,
            capture_input,
            state: RecordingFileState::Open,
            bytes_written: header_line_len as u64,
            event_count: 0,
            decoded_payload_bytes: 0,
            events_since_flush: 0,
            last_elapsed: None,
        })
    }

    pub fn state(&self) -> (r: RecordingFileState)
        ensures
            r == self@.state,
    {
        self.state
    }

    pub fn bytes_written(&self) -> (r: u64)
        ensures
            r == self@.bytes_written,
    {
        self.bytes_written
    }

    fn fail<T>(&mut self, error: RecordingFileError) -> (r: Result<T, RecordingFileError>)
        ensures
            final(self)@ == failed(old(self)@),
            r matches Err(e) && e == error,
    {
        self.state = RecordingFileState::Failed;
        Err(error)
    }

    /// Checks `event`, whose encoded line (newline included) is
    /// `line_len` bytes long, or could not be encoded. A file that is not
    /// open refuses it and stays as it is; any other refusal fails the file.
    pub fn check_event(&mut self, event: &RecordingEvent, line_len: Result<usize, RecordingFileError>) -> (r: Result<PendingAppend, RecordingFileError>)
        requires
            ledger_inv(old(self)@),
        ensures
            ledger_inv(final(self)@),
            old(self)@.state != RecordingFileState::Open ==> final(self)@ == old(self)@ && (r matches Err(e) && e is NotOpen),
            old(self)@.state == RecordingFileState::Open ==> match admission(old(self)@, *event, line_len_of(line_len)) {
                Ok((file_bytes, payload_bytes)) => final(self)@ == old(self)@ && (r matches Ok(p)
                    && p.next_file_bytes == file_bytes && p.next_payload_bytes == payload_bytes
                    && p.elapsed == event.elapsed),
                Err(check) => final(self)@ == failed(old(self)@) && (r matches Err(e) && admission_error(
                    old(self)@,
                    check,
                    e,
                ) && (check == 4 ==> (line_len matches Err(le) && e == le))),
            },
    {
        if self.state != RecordingFileState::Open {
            return Err(RecordingFileError::NotOpen);
        }
        let is_input = match &event.kind {
            RecordingEventKind::Input(_) => true,
            _ => false,
        };
        if is_input && !self.capture_input {
            return self.fail(RecordingFileError::InputCaptureDisabled);
        }
        if let Some(last) = self.last_elapsed {
            if event.elapsed.is_before(last) {
                let line = if self.event_count <= u64::MAX - 2 { self.event_count + 2 } else { u64::MAX };
                return self.fail(RecordingFileError::invalid_event(line, "timestamp moved backwards"));
            }
        }
        if self.event_count >= self.config.limits.max_events {
            return self.fail(RecordingFileError::LimitReached(RecordingFileLimit::EventCount));
        }
        let payload = event.kind.payload_len() as u64;
        if payload > self.config.limits.max_decoded_payload_bytes - self.decoded_payload_bytes {
            return self.fail(RecordingFileError::LimitReached(RecordingFileLimit::DecodedPayloadBytes));
        }
        let line_len = match line_len {
            Ok(n) => n,
            Err(e) => return self.fail(e),
        };
        if line_len > self.config.limits.max_serialized_event_bytes {
            return self.fail(RecordingFileError::LimitReached(RecordingFileLimit::EventBytes));
        }
        if line_len as u64 > self.config.limits.max_file_bytes - self.bytes_written {
            return self.fail(RecordingFileError::LimitReached(RecordingFileLimit::FileBytes));
        }
        Ok(PendingAppend {
            next_file_bytes: self.bytes_written + line_len as u64,
            next_payload_bytes: self.decoded_payload_bytes + payload,
            elapsed: event.elapsed,
        })
    }

    /// Records the outcome of writing an admitted event. A failed write
    /// fails the file; otherwise the totals move on, and `true` says that a
    /// flush is due.
    pub fn complete_append(&mut self, pending: PendingAppend, written: Result<(), RecordingFileError>) -> (r: Result<bool, RecordingFileError>)
        requires
            ledger_inv(old(self)@),
            old(self)@.state == RecordingFileState::Open,
            old(self)@.event_count < old(self)@.config.limits.max_events,
            pending.next_file_bytes <= old(self)@.config.limits.max_file_bytes,
            pending.next_payload_bytes <= old(self)@.config.limits.max_decoded_payload_bytes,
        ensures
            ledger_inv(final(self)@),
            written is Err ==> final(self)@ == failed(old(self)@) && r is Err,
            written is Ok ==> {
                &&& final(self)@ == (LedgerView {
                    bytes_written: pending.next_file_bytes as nat,
                    payload_bytes: pending.next_payload_bytes as nat,
                    event_count: old(self)@.event_count + 1,
                    events_since_flush: old(self)@.events_since_flush + 1,
                    last_elapsed: Some(pending.elapsed@),
                    ..old(self)@
                })
                &&& r == Ok::<bool, RecordingFileError>(
                    old(self)@.events_since_flush + 1 >= old(self)@.config.flush_every_events,
                )
            },
    {
        if let Err(e) = written {
            return self.fail(e);
        }
        self.bytes_written = pending.next_file_bytes;
        self.decoded_payload_bytes = pending.next_payload_bytes;
        self.event_count = self.event_count + 1;
        self.events_since_flush = self.events_since_flush + 1;
        self.last_elapsed = Some(pending.elapsed);
        Ok(self.events_since_flush >= self.config.flush_every_events)
    }

    /// Records the outcome of a flush of the open file.
    pub fn complete_flush(&mut self, flushed: Result<(), RecordingFileError>) -> (r: Result<(), RecordingFileError>)
        requires
            ledger_inv(old(self)@),
        ensures
            ledger_inv(final(self)@),
            old(self)@.state != RecordingFileState::Open ==> final(self)@ == old(self)@ && (r matches Err(e) && e is NotOpen),
            old(self)@.state == RecordingFileState::Open && flushed is Err ==> final(self)@ == failed(old(self)@) && r is Err,
            old(self)@.state == RecordingFileState::Open && flushed is Ok ==> r is Ok && final(self)@ == (LedgerView {
                events_since_flush: 0,
                ..old(self)@
            }),
    {
        if self.state != RecordingFileState::Open {
            return Err(RecordingFileError::NotOpen);
        }
        if let Err(e) = flushed {
            return self.fail(e);
        }
        self.events_since_flush = 0;
        Ok(())
    }

    /// What stopping does now: `Some(Unchanged)` when already published, an
    /// error when failed, `None` when the open file must be finished and
    /// published.
    pub fn begin_stop(&self) -> (r: Result<Option<RecordingFileTransition>, RecordingFileError>)
        ensures
            r == stop_answer(self@.state),
            self@.state == RecordingFileState::Published ==> (r matches Ok(Some(t)) && t == RecordingFileTransition::Unchanged),
            self@.state == RecordingFileState::Failed ==> (r matches Err(e) && e is NotOpen),
            self@.state == RecordingFileState::Open ==> r matches Ok(None),
    {
        match self.state {
            RecordingFileState::Published => Ok(Some(RecordingFileTransition::Unchanged)),
            RecordingFileState::Failed => Err(RecordingFileError::NotOpen),
            RecordingFileState::Open => Ok(None),
        }
    }

    /// Records the outcome of finishing and publishing the open file.
    pub fn complete_stop(&mut self, published: Result<(), RecordingFileError>) -> (r: Result<RecordingFileTransition, RecordingFileError>)
        requires
            ledger_inv(old(self)@),
            old(self)@.state == RecordingFileState::Open,
        ensures
            ledger_inv(final(self)@),
            final(self)@ == after_publish(old(self)@, published),
            published matches Err(e) ==> final(self)@ == failed(old(self)@) && r == Err::<
                RecordingFileTransition,
                RecordingFileError,
            >(e),
            published is Ok ==> final(self)@ == (LedgerView { state: RecordingFileState::Published, ..old(self)@ })
                && r == Ok::<RecordingFileTransition, RecordingFileError>(RecordingFileTransition::Changed),
    {
        if let Err(e) = published {
            return self.fail(e);
        }
        self.state = RecordingFileState::Published;
        Ok(RecordingFileTransition::Changed)
    }
}

/// A failed recording file stays failed: it refuses every event and every
/// flush, and stopping it is an error.
pub proof fn lemma_failed_file_stays_failed(v: LedgerView)
    requires
        v.state == RecordingFileState::Failed,
    ensures
        v.state != RecordingFileState::Open,
        failed(v) == v,
{
}

/// An open recording file is published at most once: stopping it first
/// asks for the publish step; once that succeeds, every later stop answers
/// `Unchanged`, and once it fails, every later stop is refused as not open.
pub proof fn lemma_stop_publishes_once(v: LedgerView, published: Result<(), RecordingFileError>)
    requires
        v.state == RecordingFileState::Open,
    ensures
        stop_answer(v.state) == Ok::<Option<RecordingFileTransition>, RecordingFileError>(None),
        published is Ok ==> stop_answer(after_publish(v, published).state) == Ok::<
            Option<RecordingFileTransition>,
            RecordingFileError,
        >(Some(RecordingFileTransition::Unchanged)),
        published is Err ==> stop_answer(after_publish(v, published).state) == Err::<
            Option<RecordingFileTransition>,
            RecordingFileError,
        >(RecordingFileError::NotOpen),
{
}

} // verus!
