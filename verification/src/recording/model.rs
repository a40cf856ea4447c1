//! Recording events, states, failures and limits.

use vstd::prelude::*;
use crate::duration::Duration;
use crate::types::{TerminalSize, TERMINAL_SIZE_BYTES};

verus! {

/// Eight hours, in nanoseconds.
pub const DEFAULT_MAX_RECORDING_DURATION_NANOS: u64 = 28_800_000_000_000;
pub const DEFAULT_MAX_RECORDING_EVENTS: u64 = 1_000_000;
pub const DEFAULT_MAX_RECORDING_EVENT_BYTES: usize = 4_194_304;
pub const DEFAULT_MAX_RECORDING_PAYLOAD_BYTES: u64 = 1_073_741_824;

/// The recording limit that was reached.
#[derive(Clone, Copy, Debug, PartialEq, Eq, Structural)]
pub enum RecordingLimit {
    Duration,
    EventCount,
    EventBytes,
    PayloadBytes,
    PendingEvents,
    PendingBytes,
}

impl RecordingLimit {
    /// The limit's name as it appears in messages.
    pub fn as_str(&self) -> (r: &'static str)
        ensures
            r@ == limit_name(*self),
    {
        match self {
            RecordingLimit::Duration => "duration",
            RecordingLimit::EventCount => "event_count",
            RecordingLimit::EventBytes => "event_bytes",
            RecordingLimit::PayloadBytes => "payload_bytes",
            RecordingLimit::PendingEvents => "pending_events",
            RecordingLimit::PendingBytes => "pending_bytes",
        }
    }
}

pub open spec fn limit_name(limit: RecordingLimit) -> Seq<char> {
    match limit {
        RecordingLimit::Duration => "duration"@,
        RecordingLimit::EventCount => "event_count"@,
        RecordingLimit::EventBytes => "event_bytes"@,
        RecordingLimit::PayloadBytes => "payload_bytes"@,
        RecordingLimit::PendingEvents => "pending_events"@,
        RecordingLimit::PendingBytes => "pending_bytes"@,
    }
}

/// Why a recording failed.
#[derive(Debug, PartialEq, Eq)]
pub enum RecordingFailure {
    ClockMovedBackwards,
    LimitReached(RecordingLimit),
    Storage(String),
}

impl Clone for RecordingFailure {
    fn clone(&self) -> (r: Self)
        ensures
            r == *self,
    {
        match self {
            RecordingFailure::ClockMovedBackwards => RecordingFailure::ClockMovedBackwards,
            RecordingFailure::LimitReached(limit) => RecordingFailure::LimitReached(*limit),
            RecordingFailure::Storage(message) => RecordingFailure::Storage(message.clone()),
        }
    }
}

/// The message of a failure.
pub open spec fn failure_message(failure: RecordingFailure) -> Seq<char> {
    match failure {
        RecordingFailure::ClockMovedBackwards => "recording_clock_moved_backwards"@,
        RecordingFailure::LimitReached(limit) => "recording_"@ + limit_name(limit) + "_limit_reached"@,
        RecordingFailure::Storage(message) => "recording_storage_failed: "@ + message@,
    }
}

impl RecordingFailure {
    /// The failure as text, e.g. `recording_event_count_limit_reached`.
    pub fn message(&self) -> (r: String)
        ensures
            r@ == failure_message(*self),
    {
        match self {
            RecordingFailure::ClockMovedBackwards => String::from_str("recording_clock_moved_backwards"),
            RecordingFailure::LimitReached(limit) => {
                let mut text = String::from_str("recording_");
                text.append(limit.as_str());
                text.append("_limit_reached");
                text
            },
            RecordingFailure::Storage(message) => {
                let mut text = String::from_str("recording_storage_failed: ");
                text.append(message.as_str());
                text
            },
        }
    }
}

/// Where a recording stands.
#[derive(Debug, PartialEq, Eq)]
pub enum RecordingState {
    Idle,
    Recording,
    Paused,
    Stopping,
    Stopped,
    Failed(RecordingFailure),
}

impl Clone for RecordingState {
    fn clone(&self) -> (r: Self)
        ensures
            r == *self,
    {
        match self {
            RecordingState::Idle => RecordingState::Idle,
            RecordingState::Recording => RecordingState::Recording,
            RecordingState::Paused => RecordingState::Paused,
            RecordingState::Stopping => RecordingState::Stopping,
            RecordingState::Stopped => RecordingState::Stopped,
            RecordingState::Failed(failure) => RecordingState::Failed(failure.clone()),
        }
    }
}

/// Whether an operation changed the state.
#[derive(Clone, Copy, Debug, PartialEq, Eq, Structural)]
pub enum RecordingTransition {
    Changed,
    Unchanged,
}

/// Bounds on one recording.
#[derive(Clone, Debug)]
pub struct RecordingLimits {
    pub max_duration: Duration,
    pub max_events: u64,
    pub max_event_bytes: usize,
    pub max_payload_bytes: u64,
}

impl Default for RecordingLimits {
    fn default() -> (r: Self)
        ensures
            r.max_duration@ == DEFAULT_MAX_RECORDING_DURATION_NANOS,
            r.max_events == DEFAULT_MAX_RECORDING_EVENTS,
            r.max_event_bytes == DEFAULT_MAX_RECORDING_EVENT_BYTES,
            r.max_payload_bytes == DEFAULT_MAX_RECORDING_PAYLOAD_BYTES,
    {
        RecordingLimits {
            max_duration: Duration::from_nanos(DEFAULT_MAX_RECORDING_DURATION_NANOS),
            max_events: DEFAULT_MAX_RECORDING_EVENTS,
            max_event_bytes: DEFAULT_MAX_RECORDING_EVENT_BYTES,
            max_payload_bytes: DEFAULT_MAX_RECORDING_PAYLOAD_BYTES,
        }
    }
}

/// What a recording captures and its limits. Input is captured only when
/// explicitly enabled.
#[derive(Clone, Debug)]
pub struct RecordingConfig {
    pub capture_input: bool,
    pub limits: RecordingLimits,
}

impl Default for RecordingConfig {
    fn default() -> (r: Self)
        ensures
            r.capture_input == false,
            r.limits.max_duration@ == DEFAULT_MAX_RECORDING_DURATION_NANOS,
            r.limits.max_events == DEFAULT_MAX_RECORDING_EVENTS,
            r.limits.max_event_bytes == DEFAULT_MAX_RECORDING_EVENT_BYTES,
            r.limits.max_payload_bytes == DEFAULT_MAX_RECORDING_PAYLOAD_BYTES,
    {
        RecordingConfig { capture_input: false, limits: RecordingLimits::default() }
    }
}

/// One timeline event and when it happened, relative to the recording start
/// with paused time excluded.
#[derive(Clone, Debug, PartialEq, Eq)]
pub struct RecordingEvent {
    pub elapsed: Duration,
    pub kind: RecordingEventKind,
}

#[derive(Clone, Debug, PartialEq, Eq)]
pub enum RecordingEventKind {
    Output(Vec<u8>),
    Input(Vec<u8>),
    Resize(TerminalSize),
    Marker(String),
}

/// The payload size of an event: the data bytes, the size of the terminal
/// dimensions, or the UTF-8 length of the marker (a marker held in memory
/// is never longer than `usize::MAX` bytes).
pub open spec fn spec_payload_len(kind: RecordingEventKind) -> nat {
    match kind {
        RecordingEventKind::Output(data) => data@.len(),
        RecordingEventKind::Input(data) => data@.len(),
        RecordingEventKind::Resize(_) => TERMINAL_SIZE_BYTES as nat,
        RecordingEventKind::Marker(marker) => (vstd::utf8::encode_utf8(marker@).len() as usize) as nat,
    }
}

impl RecordingEventKind {
    pub fn payload_len(&self) -> (r: usize)
        ensures
            r == spec_payload_len(*self),
    {
        match self {
            RecordingEventKind::Output(data) => data.len(),
            RecordingEventKind::Input(data) => data.len(),
            RecordingEventKind::Resize(_) => TERMINAL_SIZE_BYTES,
            RecordingEventKind::Marker(marker) => {
                let text = marker.as_str();
                let n = text.len();
                n
            },
        }
    }
}

} // verus!
