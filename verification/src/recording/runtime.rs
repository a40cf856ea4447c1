//! The recording runtime's queue between the terminal and the recording
//! worker, its configuration, snapshots and errors.
//!
//! Producers (the terminal's parser boundary and user input) never wait: an
//! event is either queued at once or refused. Data and control requests
//! share one sequence, so the worker sees them in the order they were
//! accepted. Queued-but-unwritten data is bounded in events and bytes, and
//! overflowing either bound fails the recording instead of blocking. The
//! locking, the waking of the worker and the worker's file work are done
//! around this state by the caller.

use vstd::prelude::*;
use std::collections::VecDeque;
use std::path::PathBuf;
use crate::duration::Duration;
use crate::recording::model::{RecordingConfig, RecordingFailure, RecordingLimit, RecordingState};
use crate::recording::asciicast::RecordingMetadata;
use crate::recording::recorder::RecordingFileConfig;
use crate::types::TerminalSize;

verus! {

pub const DEFAULT_MAX_PENDING_RECORDING_EVENTS: usize = 256;
pub const DEFAULT_MAX_PENDING_RECORDING_BYTES: usize = 8388608;
pub const DEFAULT_MAX_PENDING_RECORDING_CONTROLS: usize = 16;

#[derive(Clone, Copy, Debug, PartialEq, Eq, Structural)]
pub struct RecordingQueueLimits {
    pub max_pending_events: usize,
    pub max_pending_bytes: usize,
    pub max_pending_controls: usize,
}

impl Default for RecordingQueueLimits {
    fn default() -> (r: Self)
        ensures
            r == (RecordingQueueLimits {
                max_pending_events: DEFAULT_MAX_PENDING_RECORDING_EVENTS,
                max_pending_bytes: DEFAULT_MAX_PENDING_RECORDING_BYTES,
                max_pending_controls: DEFAULT_MAX_PENDING_RECORDING_CONTROLS,
            }),
    {
        RecordingQueueLimits {
            max_pending_events: DEFAULT_MAX_PENDING_RECORDING_EVENTS,
            max_pending_bytes: DEFAULT_MAX_PENDING_RECORDING_BYTES,
            max_pending_controls: DEFAULT_MAX_PENDING_RECORDING_CONTROLS,
        }
    }
}

#[derive(Clone, Copy, Debug, PartialEq, Eq, Structural)]
pub struct RecordingRuntimeConfig {
    pub queue: RecordingQueueLimits,
    pub file: RecordingFileConfig,
}

impl Default for RecordingRuntimeConfig {
    fn default() -> (r: Self)
        ensures
            r.queue == (RecordingQueueLimits {
                max_pending_events: DEFAULT_MAX_PENDING_RECORDING_EVENTS,
                max_pending_bytes: DEFAULT_MAX_PENDING_RECORDING_BYTES,
                max_pending_controls: DEFAULT_MAX_PENDING_RECORDING_CONTROLS,
            }),
            r.file.flush_every_events == crate::recording::recorder::DEFAULT_FLUSH_EVERY_EVENTS,
    {
        RecordingRuntimeConfig { queue: RecordingQueueLimits::default(), file: RecordingFileConfig::default() }
    }
}

#[derive(Clone, Debug)]
pub struct RecordingStartRequest {
    pub final_path: PathBuf,
    pub metadata: RecordingMetadata,
    pub initial_size: TerminalSize,
    pub recording: RecordingConfig,
}

#[derive(Clone, Debug, PartialEq, Eq)]
pub struct RecordingSnapshot {
    pub state: RecordingState,
    pub elapsed: Duration,
    pub event_count: u64,
    pub payload_bytes: u64,
    pub capture_input: bool,
    pub final_path: Option<PathBuf>,
    pub partial_path: Option<PathBuf>,
    pub failure: Option<RecordingFailure>,
}

impl Default for RecordingSnapshot {
    fn default() -> (r: Self)
        ensures
            r.state == RecordingState::Idle,
            r.elapsed@ == 0,
            r.event_count == 0,
            r.payload_bytes == 0,
            !r.capture_input,
            r.final_path is None,
            r.partial_path is None,
            r.failure is None,
    {
        RecordingSnapshot {
            state: RecordingState::Idle,
            elapsed: Duration::zero(),
            event_count: 0,
            payload_bytes: 0,
            capture_input: false,
            final_path: None,
            partial_path: None,
            failure: None,
        }
    }
}

#[derive(Clone, Copy, Debug, Default, PartialEq, Eq, Structural)]
pub struct RecordingQueueSnapshot {
    pub pending_events: usize,
    pub pending_bytes: usize,
    pub peak_pending_events: usize,
    pub peak_pending_bytes: usize,
}

#[derive(Clone, Debug, PartialEq, Eq)]
pub enum RecordingRuntimeError {
    InvalidConfig(String),
    ReadOnlyPlayback,
    Closed,
    ControlQueueFull,
    WorkerStopped,
    Recording(RecordingFailure),
}

impl RecordingRuntimeError {
    /// The error as text.
    pub fn message(&self) -> (r: String)
        ensures
            r@ == runtime_error_message(*self),
    {
        match self {
            RecordingRuntimeError::InvalidConfig(reason) => {
                let mut text = String::from_str("invalid recording runtime config: ");
                text.append(reason.as_str());
                text
            },
            RecordingRuntimeError::ReadOnlyPlayback => String::from_str("recording playback sessions are read-only"),
            RecordingRuntimeError::Closed => String::from_str("recording runtime is closed"),
            RecordingRuntimeError::ControlQueueFull => String::from_str("recording control queue is full"),
            RecordingRuntimeError::WorkerStopped => String::from_str("recording worker stopped"),
            RecordingRuntimeError::Recording(failure) => failure.message(),
        }
    }
}

pub open spec fn runtime_error_message(e: RecordingRuntimeError) -> Seq<char> {
    match e {
        RecordingRuntimeError::InvalidConfig(reason) => "invalid recording runtime config: "@ + reason@,
        RecordingRuntimeError::ReadOnlyPlayback => "recording playback sessions are read-only"@,
        RecordingRuntimeError::Closed => "recording runtime is closed"@,
        RecordingRuntimeError::ControlQueueFull => "recording control queue is full"@,
        RecordingRuntimeError::WorkerStopped => "recording worker stopped"@,
        RecordingRuntimeError::Recording(failure) => crate::recording::model::failure_message(failure),
    }
}

/// What became of an event offered by a producer.
#[derive(Clone, Copy, Debug, PartialEq, Eq, Structural)]
pub enum RecordingTapOutcome {
    Accepted,
    Inactive,
    InputDisabled,
    QueueFull(RecordingLimit),
    Closed,
}

/// Why a control request was not queued.
#[derive(Clone, Copy, Debug, PartialEq, Eq, Structural)]
pub enum ControlEnqueueError {
    Closed,
    Full,
    ShuttingDown,
}

pub open spec fn control_error_meaning(e: ControlEnqueueError, r: RecordingRuntimeError) -> bool {
    match e {
        ControlEnqueueError::Closed => r == RecordingRuntimeError::Closed,
        ControlEnqueueError::Full => r == RecordingRuntimeError::ControlQueueFull,
        ControlEnqueueError::ShuttingDown => r == RecordingRuntimeError::WorkerStopped,
    }
}

/// The runtime error a refused control request is answered with.
pub fn map_control_enqueue_error(error: ControlEnqueueError) -> (r: RecordingRuntimeError)
    ensures
        control_error_meaning(error, r),
{
    match error {
        ControlEnqueueError::Closed => RecordingRuntimeError::Closed,
        ControlEnqueueError::Full => RecordingRuntimeError::ControlQueueFull,
        ControlEnqueueError::ShuttingDown => RecordingRuntimeError::WorkerStopped,
    }
}

pub open spec fn queue_limits_valid(limits: RecordingQueueLimits) -> bool {
    limits.max_pending_events > 0 && limits.max_pending_bytes > 0 && limits.max_pending_controls > 0
}

/// Accepts a configuration whose queue bounds are all positive, naming the
/// first that is not.
pub fn validate_runtime_config(config: &RecordingRuntimeConfig) -> (r: Result<(), RecordingRuntimeError>)
    ensures
        r is Ok <==> queue_limits_valid(config.queue),
        config.queue.max_pending_events == 0 ==> (r matches Err(RecordingRuntimeError::InvalidConfig(m))
            && m@ == "max_pending_events must be greater than zero"@),
        config.queue.max_pending_events > 0 && config.queue.max_pending_bytes == 0 ==> (r matches Err(
            RecordingRuntimeError::InvalidConfig(m),
        ) && m@ == "max_pending_bytes must be greater than zero"@),
        config.queue.max_pending_events > 0 && config.queue.max_pending_bytes > 0 && config.queue.max_pending_controls
            == 0 ==> (r matches Err(RecordingRuntimeError::InvalidConfig(m)) && m@
            == "max_pending_controls must be greater than zero"@),
{
    if config.queue.max_pending_events == 0 {
        return Err(RecordingRuntimeError::InvalidConfig(String::from_str("max_pending_events must be greater than zero")));
    }
    if config.queue.max_pending_bytes == 0 {
        return Err(RecordingRuntimeError::InvalidConfig(String::from_str("max_pending_bytes must be greater than zero")));
    }
    if config.queue.max_pending_controls == 0 {
        return Err(RecordingRuntimeError::InvalidConfig(String::from_str("max_pending_controls must be greater than zero")));
    }
    Ok(())
}

/// The kind of a control request.
#[derive(Clone, Copy, Debug, PartialEq, Eq, Structural)]
pub enum ControlKind {
    Start,
    Pause,
    Resume,
    Stop,
    Shutdown,
}

/// A queued control request; `item` is what the worker needs to serve it.
pub struct ControlEnvelope<C> {
    pub sequence: u64,
    pub kind: ControlKind,
    pub item: C,
}

/// A queued event; `item` is the event and when it was observed.
pub struct DataEnvelope<D> {
    pub sequence: u64,
    pub payload_bytes: usize,
    pub item: D,
}

/// The worker's next task.
pub enum WorkItem<C, D> {
    Control(ControlEnvelope<C>),
    Data(DataEnvelope<D>),
    Failure(RecordingFailure),
    Abort,
    /// Nothing to do yet: wait to be woken.
    Idle,
}

/// Why an event was not queued.
#[derive(Clone, Copy, Debug, PartialEq, Eq, Structural)]
pub enum DataEnqueueError {
    Inactive,
    InputDisabled,
    Closed,
    Limit(RecordingLimit),
}

/// The queue between producers and the recording worker.
pub struct RecordingQueue<C, D> {
    limits: RecordingQueueLimits,
    next_sequence: u64,
    data: VecDeque<DataEnvelope<D>>,
    controls: VecDeque<ControlEnvelope<C>>,
    pending_events: usize,
    pending_bytes: usize,
    peak_pending_events: usize,
    peak_pending_bytes: usize,
    pending_failure: Option<RecordingFailure>,
    accepting: bool,
    capture_input: bool,
    shutting_down: bool,
    closed: bool,
    aborted: bool,
}

/// The queue as numbers and flags.
pub struct QueueView {
    pub limits: RecordingQueueLimits,
    pub next_sequence: u64,
    /// Sequence and payload size of each queued event, oldest first.
    pub data: Seq<(u64, nat)>,
    /// Sequence and kind of each queued control request, oldest first.
    pub controls: Seq<(u64, ControlKind)>,
    pub pending_events: nat,
    pub pending_bytes: nat,
    pub peak_pending_events: nat,
    pub peak_pending_bytes: nat,
    pub pending_failure: Option<RecordingFailure>,
    pub accepting: bool,
    pub capture_input: bool,
    pub shutting_down: bool,
    pub closed: bool,
    pub aborted: bool,
}

pub open spec fn data_view<D>(data: Seq<DataEnvelope<D>>) -> Seq<(u64, nat)> {
    Seq::new(data.len(), |i: int| (data[i].sequence, data[i].payload_bytes as nat))
}

pub open spec fn control_view<C>(controls: Seq<ControlEnvelope<C>>) -> Seq<(u64, ControlKind)> {
    Seq::new(controls.len(), |i: int| (controls[i].sequence, controls[i].kind))
}

/// The events queued, oldest first.
pub open spec fn data_items_of<D>(data: Seq<DataEnvelope<D>>) -> Seq<D> {
    Seq::new(data.len(), |i: int| data[i].item)
}

/// The control requests queued, oldest first.
pub open spec fn control_items_of<C>(controls: Seq<ControlEnvelope<C>>) -> Seq<C> {
    Seq::new(controls.len(), |i: int| controls[i].item)
}

impl<C, D> View for RecordingQueue<C, D> {
    type V = QueueView;

    closed spec fn view(&self) -> QueueView {
        QueueView {
            limits: self.limits,
            next_sequence: self.next_sequence,
            data: data_view(self.data@),
            controls: control_view(self.controls@),
            pending_events: self.pending_events as nat,
            pending_bytes: self.pending_bytes as nat,
            peak_pending_events: self.peak_pending_events as nat,
            peak_pending_bytes: self.peak_pending_bytes as nat,
            pending_failure: self.pending_failure,
            accepting: self.accepting,
            capture_input: self.capture_input,
            shutting_down: self.shutting_down,
            closed: self.closed,
            aborted: self.aborted,
        }
    }
}

pub open spec fn sorted_data(d: Seq<(u64, nat)>) -> bool {
    forall|i: int, j: int| 0 <= i <= j < d.len() ==> (#[trigger] d[i]).0 <= (#[trigger] d[j]).0
}

pub open spec fn sorted_controls(c: Seq<(u64, ControlKind)>) -> bool {
    forall|i: int, j: int| 0 <= i <= j < c.len() ==> (#[trigger] c[i]).0 <= (#[trigger] c[j]).0
}

/// What always holds of the queue: the pending work stays within its
/// bounds, every queue is in sequence order and no older than the next
/// sequence, input capture needs an accepting queue, and an accepting queue
/// is open.
pub open spec fn queue_inv(v: QueueView) -> bool {
    &&& queue_limits_valid(v.limits)
    &&& v.pending_events <= v.limits.max_pending_events
    &&& v.pending_bytes <= v.limits.max_pending_bytes
    &&& v.pending_events <= v.peak_pending_events
    &&& v.pending_bytes <= v.peak_pending_bytes
    &&& v.data.len() <= v.pending_events
    &&& v.controls.len() <= v.limits.max_pending_controls
    &&& sorted_data(v.data)
    &&& sorted_controls(v.controls)
    &&& (forall|i: int| 0 <= i < v.data.len() ==> (#[trigger] v.data[i]).0 <= v.next_sequence)
    &&& (forall|i: int| 0 <= i < v.controls.len() ==> (#[trigger] v.controls[i]).0 <= v.next_sequence)
    &&& (v.capture_input ==> v.accepting)
    &&& (v.accepting ==> !v.closed && !v.aborted && !v.shutting_down)
    &&& (v.aborted ==> v.closed)
}


impl<C, D> RecordingQueue<C, D> {
    /// The queued events themselves, in the order of `self@.data`.
    pub closed spec fn data_items(&self) -> Seq<D> {
        data_items_of(self.data@)
    }

    /// The queued control requests themselves, in the order of
    /// `self@.controls`.
    pub closed spec fn control_items(&self) -> Seq<C> {
        control_items_of(self.controls@)
    }

    /// Each queued entry of the view has its item.
    pub proof fn lemma_items_match_view(&self)
        ensures
            self.data_items().len() == self@.data.len(),
            self.control_items().len() == self@.controls.len(),
    {
    }

    pub fn new(limits: RecordingQueueLimits) -> (r: Self)
        requires
            queue_limits_valid(limits),
        ensures
            queue_inv(r@),
            r@.limits == limits,
            r@.data.len() == 0 && r@.controls.len() == 0,
            r.data_items() == Seq::<D>::empty() && r.control_items() == Seq::<C>::empty(),
            r@.pending_events == 0 && r@.pending_bytes == 0,
            r@.pending_failure is None,
            !r@.accepting && !r@.capture_input && !r@.closed && !r@.aborted && !r@.shutting_down,
    {
        RecordingQueue {
            limits,
            next_sequence: 0,
            data: VecDeque::new(),
            controls: VecDeque::new(),
            pending_events: 0,
            pending_bytes: 0,
            peak_pending_events: 0,
            peak_pending_bytes: 0,
            pending_failure: None,
            accepting: false,
            capture_input: false,
            shutting_down: false,
            closed: false,
            aborted: false,
        }
    }

    pub fn is_accepting(&self) -> (r: bool)
        ensures
            r == self@.accepting,
    {
        self.accepting
    }

    pub fn is_capturing_input(&self) -> (r: bool)
        ensures
            r == self@.capture_input,
    {
        self.capture_input
    }

    pub fn is_closed(&self) -> (r: bool)
        ensures
            r == self@.closed,
    {
        self.closed
    }

    pub fn has_pending_failure(&self) -> (r: bool)
        ensures
            r == self@.pending_failure is Some,
    {
        self.pending_failure.is_some()
    }

    pub fn snapshot(&self) -> (r: RecordingQueueSnapshot)
        ensures
            r.pending_events == self@.pending_events,
            r.pending_bytes == self@.pending_bytes,
            r.peak_pending_events == self@.peak_pending_events,
            r.peak_pending_bytes == self@.peak_pending_bytes,
    {
        RecordingQueueSnapshot {
            pending_events: self.pending_events,
            pending_bytes: self.pending_bytes,
            peak_pending_events: self.peak_pending_events,
            peak_pending_bytes: self.peak_pending_bytes,
        }
    }

    fn take_sequence(&mut self) -> (r: u64)
        ensures
            r == old(self)@.next_sequence,
            final(self)@ == (QueueView {
                next_sequence: if old(self)@.next_sequence == u64::MAX { u64::MAX } else {
                    (old(self)@.next_sequence + 1) as u64
                },
                ..old(self)@
            }),
            final(self).data == old(self).data,
            final(self).controls == old(self).controls,
    {
        let sequence = self.next_sequence;
        self.next_sequence = if self.next_sequence == u64::MAX { u64::MAX } else { self.next_sequence + 1 };
        sequence
    }

    fn set_accepting(&mut self, accepting: bool, capture_input: bool)
        ensures
            final(self)@ == (QueueView { accepting, capture_input: accepting && capture_input, ..old(self)@ }),
            final(self).data == old(self).data,
            final(self).controls == old(self).controls,
    {
        self.accepting = accepting;
        self.capture_input = accepting && capture_input;
    }

    /// Drops every queued event and takes its bytes off the pending totals.
    fn discard_queued_data(&mut self)
        requires
            queue_inv(old(self)@),
        ensures
            queue_inv(final(self)@),
            final(self)@ == (QueueView {
                data: Seq::empty(),
                pending_events: final(self)@.pending_events,
                pending_bytes: final(self)@.pending_bytes,
                ..old(self)@
            }),
            final(self)@.pending_events <= old(self)@.pending_events,
            final(self)@.pending_bytes <= old(self)@.pending_bytes,
            final(self).data@.len() == 0,
            final(self).controls == old(self).controls,
    {
        let discarded_events = self.data.len();
        let mut discarded_bytes: usize = 0;
        let mut i: usize = 0;
        while i < discarded_events
            invariant
                i <= discarded_events,
                discarded_events == self.data@.len(),
            decreases discarded_events - i,
        {
            let bytes = self.data[i].payload_bytes;
            discarded_bytes = if discarded_bytes <= usize::MAX - bytes { discarded_bytes + bytes } else { usize::MAX };
            i = i + 1;
        }
        self.data.clear();
        self.pending_events = self.pending_events - discarded_events;
        self.pending_bytes = if self.pending_bytes >= discarded_bytes { self.pending_bytes - discarded_bytes } else { 0 };
        assert(data_view(self.data@) =~= Seq::<(u64, nat)>::empty());
    }

    /// Records `failure` for the worker (the first one wins), stops
    /// accepting, and drops queued events.
    pub fn fail(&mut self, failure: RecordingFailure)
        requires
            queue_inv(old(self)@),
        ensures
            queue_inv(final(self)@),
            final(self)@.pending_failure == if old(self)@.pending_failure is Some { old(self)@.pending_failure } else { Some(failure) },
            !final(self)@.accepting && !final(self)@.capture_input,
            final(self)@.data.len() == 0,
            final(self)@.controls == old(self)@.controls,
            final(self)@.closed == old(self)@.closed && final(self)@.aborted == old(self)@.aborted
                && final(self)@.shutting_down == old(self)@.shutting_down,
            final(self)@.next_sequence == old(self)@.next_sequence,
            final(self)@.limits == old(self)@.limits,
            final(self).data_items() == Seq::<D>::empty(),
            final(self).control_items() == old(self).control_items(),
    {
        if self.pending_failure.is_none() {
            self.pending_failure = Some(failure);
        }
        self.set_accepting(false, false);
        self.discard_queued_data();
    }
}

impl<C, D> RecordingQueue<C, D> {
    /// Offers an event of `payload_bytes` bytes. It is queued only while a
    /// recording accepts events (and, for input, captures input) and while
    /// the pending work stays within its bounds; overflowing a bound fails
    /// the recording. The event is built only once it is accepted.
    pub fn enqueue_data(&mut self, payload_bytes: usize, requires_input: bool, item: D) -> (r: Result<(), DataEnqueueError>)
        requires
            queue_inv(old(self)@),
        ensures
            queue_inv(final(self)@),
            (old(self)@.closed || old(self)@.aborted || old(self)@.shutting_down) ==> r == Err::<(), DataEnqueueError>(
                DataEnqueueError::Closed,
            ) && final(self)@ == old(self)@,
            !(old(self)@.closed || old(self)@.aborted || old(self)@.shutting_down) && !old(self)@.accepting ==> r
                == Err::<(), DataEnqueueError>(DataEnqueueError::Inactive) && final(self)@ == old(self)@,
            old(self)@.accepting && requires_input && !old(self)@.capture_input ==> r == Err::<(), DataEnqueueError>(
                DataEnqueueError::InputDisabled,
            ) && final(self)@ == old(self)@,
            old(self)@.accepting && !(requires_input && !old(self)@.capture_input) && old(self)@.pending_events
                >= old(self)@.limits.max_pending_events ==> r == Err::<(), DataEnqueueError>(
                DataEnqueueError::Limit(RecordingLimit::PendingEvents),
            ) && final(self)@.data.len() == 0 && !final(self)@.accepting,
            old(self)@.accepting && !(requires_input && !old(self)@.capture_input) && old(self)@.pending_events
                < old(self)@.limits.max_pending_events && old(self)@.pending_bytes + payload_bytes
                > old(self)@.limits.max_pending_bytes ==> r == Err::<(), DataEnqueueError>(
                DataEnqueueError::Limit(RecordingLimit::PendingBytes),
            ) && final(self)@.data.len() == 0 && !final(self)@.accepting,
            r is Ok ==> {
                &&& old(self)@.accepting
                &&& (requires_input ==> old(self)@.capture_input)
                &&& final(self)@.data == old(self)@.data.push((old(self)@.next_sequence, payload_bytes as nat))
                &&& final(self)@.pending_events == old(self)@.pending_events + 1
                &&& final(self)@.pending_bytes == old(self)@.pending_bytes + payload_bytes
                &&& final(self)@.controls == old(self)@.controls
                &&& final(self).data_items() == old(self).data_items().push(item)
            },
            r is Err ==> final(self).data_items() == (if r matches Err(DataEnqueueError::Limit(_)) {
                Seq::<D>::empty()
            } else {
                old(self).data_items()
            }),
            final(self).control_items() == old(self).control_items(),
            (r matches Err(DataEnqueueError::Limit(limit)) ==> final(self)@.pending_failure == if old(self)@.pending_failure is Some { old(self)@.pending_failure } else { Some(RecordingFailure::LimitReached(limit)) }),
    {
        if self.closed || self.aborted || self.shutting_down {
            return Err(DataEnqueueError::Closed);
        }
        if !self.accepting {
            return Err(DataEnqueueError::Inactive);
        }
        if requires_input && !self.capture_input {
            return Err(DataEnqueueError::InputDisabled);
        }
        if self.pending_events >= self.limits.max_pending_events {
            self.fail(RecordingFailure::LimitReached(RecordingLimit::PendingEvents));
            return Err(DataEnqueueError::Limit(RecordingLimit::PendingEvents));
        }
        if payload_bytes > self.limits.max_pending_bytes - self.pending_bytes {
            self.fail(RecordingFailure::LimitReached(RecordingLimit::PendingBytes));
            return Err(DataEnqueueError::Limit(RecordingLimit::PendingBytes));
        }
        let sequence = self.take_sequence();
        self.pending_events = self.pending_events + 1;
        self.pending_bytes = self.pending_bytes + payload_bytes;
        if self.pending_events > self.peak_pending_events {
            self.peak_pending_events = self.pending_events;
        }
        if self.pending_bytes > self.peak_pending_bytes {
            self.peak_pending_bytes = self.pending_bytes;
        }
        let ghost before = self.data@;
        self.data.push_back(DataEnvelope { sequence, payload_bytes, item });
        assert(data_view(self.data@) =~= data_view(before).push((sequence, payload_bytes as nat)));
        assert(data_items_of(self.data@) =~= data_items_of(before).push(item));
        Ok(())
    }

    /// Queues a control request. Pausing, stopping and shutting down stop
    /// the intake of events at once; a shutdown also refuses every later
    /// request.
    pub fn enqueue_control(&mut self, kind: ControlKind, item: C) -> (r: Result<(), ControlEnqueueError>)
        requires
            queue_inv(old(self)@),
        ensures
            queue_inv(final(self)@),
            (old(self)@.closed || old(self)@.aborted) ==> r == Err::<(), ControlEnqueueError>(ControlEnqueueError::Closed)
                && final(self)@ == old(self)@,
            !(old(self)@.closed || old(self)@.aborted) && old(self)@.shutting_down ==> r == Err::<(), ControlEnqueueError>(
                ControlEnqueueError::ShuttingDown,
            ) && final(self)@ == old(self)@,
            !(old(self)@.closed || old(self)@.aborted || old(self)@.shutting_down) && old(self)@.controls.len()
                >= old(self)@.limits.max_pending_controls ==> r == Err::<(), ControlEnqueueError>(ControlEnqueueError::Full)
                && final(self)@ == old(self)@,
            r is Ok ==> {
                &&& final(self)@.controls == old(self)@.controls.push((old(self)@.next_sequence, kind))
                &&& final(self)@.data == old(self)@.data
                &&& (kind == ControlKind::Pause || kind == ControlKind::Stop || kind == ControlKind::Shutdown) ==> !final(self)@.accepting
                &&& (kind == ControlKind::Start || kind == ControlKind::Resume) ==> final(self)@.accepting == old(self)@.accepting
                &&& final(self)@.shutting_down == (old(self)@.shutting_down || kind == ControlKind::Shutdown)
                &&& final(self).control_items() == old(self).control_items().push(item)
            },
            r is Err ==> final(self).control_items() == old(self).control_items(),
            final(self).data_items() == old(self).data_items(),
    {
        if self.closed || self.aborted {
            return Err(ControlEnqueueError::Closed);
        }
        if self.shutting_down {
            return Err(ControlEnqueueError::ShuttingDown);
        }
        if self.controls.len() >= self.limits.max_pending_controls {
            return Err(ControlEnqueueError::Full);
        }
        match kind {
            ControlKind::Pause | ControlKind::Stop | ControlKind::Shutdown => self.set_accepting(false, false),
            _ => {},
        }
        if kind == ControlKind::Shutdown {
            self.shutting_down = true;
        }
        let sequence = self.take_sequence();
        let ghost before = self.controls@;
        self.controls.push_back(ControlEnvelope { sequence, kind, item });
        assert(control_view(self.controls@) =~= control_view(before).push((sequence, kind)));
        assert(control_items_of(self.controls@) =~= control_items_of(before).push(item));
        Ok(())
    }

    /// The worker's next task: an abort first, then a pending failure, then
    /// whichever queued request came first (a control request before an
    /// event of the same sequence).
    pub fn next_work(&mut self) -> (r: WorkItem<C, D>)
        requires
            queue_inv(old(self)@),
        ensures
            queue_inv(final(self)@),
            old(self)@.aborted ==> r is Abort && final(self)@ == old(self)@,
            !old(self)@.aborted && old(self)@.pending_failure is Some ==> (r matches WorkItem::Failure(f) && Some(f)
                == old(self)@.pending_failure) && final(self)@ == (QueueView { pending_failure: None, ..old(self)@ }),
            r matches WorkItem::Data(d) ==> {
                &&& old(self)@.data.len() > 0
                &&& (d.sequence, d.payload_bytes as nat) == old(self)@.data[0]
                &&& final(self)@.data == old(self)@.data.drop_first()
                &&& final(self)@.controls == old(self)@.controls
                &&& forall|i: int| 0 <= i < old(self)@.controls.len() ==> d.sequence < (#[trigger] old(self)@.controls[i]).0
                &&& d.item == old(self).data_items()[0]
                &&& final(self).data_items() == old(self).data_items().drop_first()
                &&& final(self).control_items() == old(self).control_items()
            },
            r matches WorkItem::Control(c) ==> {
                &&& old(self)@.controls.len() > 0
                &&& (c.sequence, c.kind) == old(self)@.controls[0]
                &&& final(self)@.controls == old(self)@.controls.drop_first()
                &&& final(self)@.data == old(self)@.data
                &&& forall|i: int| 0 <= i < old(self)@.data.len() ==> c.sequence <= (#[trigger] old(self)@.data[i]).0
                &&& c.item == old(self).control_items()[0]
                &&& final(self).control_items() == old(self).control_items().drop_first()
                &&& final(self).data_items() == old(self).data_items()
            },
            !(r is Data || r is Control) ==> final(self).data_items() == old(self).data_items()
                && final(self).control_items() == old(self).control_items(),
            (r is Data || r is Control) ==> !old(self)@.aborted && old(self)@.pending_failure is None,
            r is Idle ==> !old(self)@.aborted && old(self)@.pending_failure is None && old(self)@.data.len() == 0
                && old(self)@.controls.len() == 0 && !old(self)@.closed && final(self)@ == old(self)@,
            r is Abort ==> final(self)@ == old(self)@ && (old(self)@.aborted || (old(self)@.closed
                && old(self)@.data.len() == 0 && old(self)@.controls.len() == 0)),
            old(self)@.pending_events == final(self)@.pending_events,
    {
        if self.aborted {
            return WorkItem::Abort;
        }
        if self.pending_failure.is_some() {
            let failure = self.pending_failure.take();
            match failure {
                Some(failure) => return WorkItem::Failure(failure),
                None => return WorkItem::Abort,
            }
        }
        let has_control = self.controls.len() > 0;
        let has_data = self.data.len() > 0;
        if has_control && has_data {
            let control_sequence = self.controls[0].sequence;
            let data_sequence = self.data[0].sequence;
            if control_sequence <= data_sequence {
                return self.pop_control();
            } else {
                return self.pop_data();
            }
        }
        if has_control {
            return self.pop_control();
        }
        if has_data {
            return self.pop_data();
        }
        if self.closed {
            return WorkItem::Abort;
        }
        WorkItem::Idle
    }

    fn pop_control(&mut self) -> (r: WorkItem<C, D>)
        requires
            queue_inv(old(self)@),
            old(self)@.controls.len() > 0,
            old(self)@.data.len() > 0 ==> old(self)@.controls[0].0 <= old(self)@.data[0].0,
        ensures
            queue_inv(final(self)@),
            r matches WorkItem::Control(c) && (c.sequence, c.kind) == old(self)@.controls[0]
                && forall|i: int| 0 <= i < old(self)@.data.len() ==> c.sequence <= (#[trigger] old(self)@.data[i]).0,
            final(self)@ == (QueueView { controls: old(self)@.controls.drop_first(), ..old(self)@ }),
            r matches WorkItem::Control(c) && c.item == old(self).control_items()[0],
            final(self).control_items() == old(self).control_items().drop_first(),
            final(self).data == old(self).data,
    {
        let ghost before = self.controls@;
        match self.controls.pop_front() {
            Some(control) => {
                assert(control_view(self.controls@) =~= control_view(before).drop_first());
                assert(control_view(before)[0] == (control.sequence, control.kind));
                assert(control_items_of(self.controls@) =~= control_items_of(before).drop_first());
                proof {
                    let dv = old(self)@.data;
                    assert forall|i: int| 0 <= i < dv.len() implies control.sequence <= (#[trigger] dv[i]).0 by {
                        assert(dv[0].0 <= dv[i].0);
                    }
                }
                WorkItem::Control(control)
            },
            None => WorkItem::Idle,
        }
    }

    fn pop_data(&mut self) -> (r: WorkItem<C, D>)
        requires
            queue_inv(old(self)@),
            old(self)@.data.len() > 0,
            old(self)@.controls.len() > 0 ==> old(self)@.data[0].0 < old(self)@.controls[0].0,
        ensures
            queue_inv(final(self)@),
            r matches WorkItem::Data(d) && (d.sequence, d.payload_bytes as nat) == old(self)@.data[0]
                && forall|i: int| 0 <= i < old(self)@.controls.len() ==> d.sequence < (#[trigger] old(self)@.controls[i]).0,
            final(self)@ == (QueueView { data: old(self)@.data.drop_first(), ..old(self)@ }),
            r matches WorkItem::Data(d) && d.item == old(self).data_items()[0],
            final(self).data_items() == old(self).data_items().drop_first(),
            final(self).controls == old(self).controls,
    {
        let ghost before = self.data@;
        match self.data.pop_front() {
            Some(data) => {
                assert(data_view(self.data@) =~= data_view(before).drop_first());
                assert(data_view(before)[0] == (data.sequence, data.payload_bytes as nat));
                assert(data_items_of(self.data@) =~= data_items_of(before).drop_first());
                proof {
                    let cv = old(self)@.controls;
                    assert forall|i: int| 0 <= i < cv.len() implies data.sequence < (#[trigger] cv[i]).0 by {
                        assert(cv[0].0 <= cv[i].0);
                    }
                }
                WorkItem::Data(data)
            },
            None => WorkItem::Idle,
        }
    }

    /// The worker is done with an event of `payload_bytes` bytes.
    pub fn finish_data(&mut self, payload_bytes: usize)
        requires
            queue_inv(old(self)@),
            old(self)@.pending_events > old(self)@.data.len(),
        ensures
            queue_inv(final(self)@),
            final(self)@ == (QueueView {
                pending_events: (old(self)@.pending_events - 1) as nat,
                pending_bytes: if old(self)@.pending_bytes >= payload_bytes { (old(self)@.pending_bytes - payload_bytes) as nat } else { 0 },
                ..old(self)@
            }),
            final(self).data_items() == old(self).data_items(),
            final(self).control_items() == old(self).control_items(),
    {
        self.pending_events = self.pending_events - 1;
        self.pending_bytes = if self.pending_bytes >= payload_bytes { self.pending_bytes - payload_bytes } else { 0 };
    }

    /// A recording started: events are accepted (input only if captured),
    /// unless the queue is shutting down or closed.
    pub fn enable_recording(&mut self, capture_input: bool)
        requires
            queue_inv(old(self)@),
        ensures
            queue_inv(final(self)@),
            !(old(self)@.closed || old(self)@.aborted || old(self)@.shutting_down) ==> final(self)@ == (QueueView {
                accepting: true,
                capture_input,
                ..old(self)@
            }),
            (old(self)@.closed || old(self)@.aborted || old(self)@.shutting_down) ==> final(self)@ == old(self)@,
            final(self).data_items() == old(self).data_items(),
            final(self).control_items() == old(self).control_items(),
    {
        if !self.closed && !self.aborted && !self.shutting_down {
            self.set_accepting(true, capture_input);
        }
    }

    /// The recording ended: nothing more is accepted, queued events are
    /// dropped.
    pub fn disable_recording(&mut self)
        requires
            queue_inv(old(self)@),
        ensures
            queue_inv(final(self)@),
            !final(self)@.accepting && !final(self)@.capture_input,
            final(self)@.data.len() == 0,
            final(self)@.controls == old(self)@.controls,
            final(self)@.pending_failure == old(self)@.pending_failure,
            final(self).data_items() == Seq::<D>::empty(),
            final(self).control_items() == old(self).control_items(),
    {
        self.set_accepting(false, false);
        self.discard_queued_data();
    }

    fn drain_controls(&mut self) -> (r: Vec<ControlEnvelope<C>>)
        requires
            queue_inv(old(self)@),
        ensures
            queue_inv(final(self)@),
            control_view(r@) == old(self)@.controls,
            control_items_of(r@) == old(self).control_items(),
            final(self)@ == (QueueView { controls: Seq::empty(), ..old(self)@ }),
            final(self).controls@.len() == 0,
            final(self).data == old(self).data,
    {
        let mut out: Vec<ControlEnvelope<C>> = Vec::new();
        let mut controls: VecDeque<ControlEnvelope<C>> = VecDeque::new();
        core::mem::swap(&mut self.controls, &mut controls);
        let ghost all = controls@;
        while controls.len() > 0
            invariant
                control_view(out@) + control_view(controls@) == control_view(all),
                control_items_of(out@) + control_items_of(controls@) == control_items_of(all),
            decreases controls@.len(),
        {
            let ghost before = controls@;
            let ghost out_before = out@;
            match controls.pop_front() {
                Some(control) => {
                    out.push(control);
                    assert(control_view(out@) =~= control_view(out_before).push((control.sequence, control.kind)));
                    assert(control_view(before) =~= seq![(control.sequence, control.kind)] + control_view(controls@));
                    assert(control_view(out@) + control_view(controls@) =~= control_view(out_before) + control_view(before));
                    assert(control_items_of(out@) =~= control_items_of(out_before).push(control.item));
                    assert(control_items_of(before) =~= seq![control.item] + control_items_of(controls@));
                    assert(control_items_of(out@) + control_items_of(controls@) =~= control_items_of(out_before) + control_items_of(before));
                },
                None => {},
            }
        }
        assert(control_view(controls@) =~= Seq::<(u64, ControlKind)>::empty());
        assert(control_view(out@) =~= control_view(all));
        assert(control_items_of(controls@) =~= Seq::<C>::empty());
        assert(control_items_of(out@) =~= control_items_of(all));
        assert(control_view(self.controls@) =~= Seq::<(u64, ControlKind)>::empty());
        out
    }
}

impl<C, D> RecordingQueue<C, D> {
    /// The worker finished its shutdown: the queue closes, queued events are
    /// dropped, and the control requests still queued are handed back to be
    /// answered as refused.
    pub fn finish_shutdown(&mut self) -> (r: Vec<ControlEnvelope<C>>)
        requires
            queue_inv(old(self)@),
        ensures
            queue_inv(final(self)@),
            control_view(r@) == old(self)@.controls,
            control_items_of(r@) == old(self).control_items(),
            final(self).data_items() == Seq::<D>::empty() && final(self).control_items() == Seq::<C>::empty(),
            final(self)@.closed,
            !final(self)@.accepting,
            final(self)@.data.len() == 0 && final(self)@.controls.len() == 0,
            final(self)@.aborted == old(self)@.aborted,
    {
        self.closed = true;
        self.set_accepting(false, false);
        self.discard_queued_data();
        self.drain_controls()
    }

    /// The runtime went away: the queue is aborted and closed, and the
    /// control requests still queued are handed back. A second abort changes
    /// nothing.
    pub fn abort(&mut self) -> (r: Vec<ControlEnvelope<C>>)
        requires
            queue_inv(old(self)@),
        ensures
            queue_inv(final(self)@),
            old(self)@.aborted ==> final(self)@ == old(self)@ && r@.len() == 0
                && final(self).data_items() == old(self).data_items()
                && final(self).control_items() == old(self).control_items(),
            !old(self)@.aborted ==> {
                &&& control_view(r@) == old(self)@.controls
                &&& control_items_of(r@) == old(self).control_items()
                &&& final(self).data_items() == Seq::<D>::empty() && final(self).control_items() == Seq::<C>::empty()
                &&& final(self)@.aborted && final(self)@.closed && !final(self)@.accepting
                &&& final(self)@.data.len() == 0 && final(self)@.controls.len() == 0
            },
    {
        if self.aborted {
            return Vec::new();
        }
        self.aborted = true;
        self.closed = true;
        self.set_accepting(false, false);
        self.discard_queued_data();
        self.drain_controls()
    }
}

/// What a producer is told about an offered event.
pub open spec fn tap_outcome_of(result: Result<(), DataEnqueueError>) -> RecordingTapOutcome {
    match result {
        Ok(()) => RecordingTapOutcome::Accepted,
        Err(DataEnqueueError::Inactive) => RecordingTapOutcome::Inactive,
        Err(DataEnqueueError::InputDisabled) => RecordingTapOutcome::InputDisabled,
        Err(DataEnqueueError::Closed) => RecordingTapOutcome::Closed,
        Err(DataEnqueueError::Limit(limit)) => RecordingTapOutcome::QueueFull(limit),
    }
}

pub fn tap_outcome(result: Result<(), DataEnqueueError>) -> (r: RecordingTapOutcome)
    ensures
        r == tap_outcome_of(result),
{
    match result {
        Ok(()) => RecordingTapOutcome::Accepted,
        Err(DataEnqueueError::Inactive) => RecordingTapOutcome::Inactive,
        Err(DataEnqueueError::InputDisabled) => RecordingTapOutcome::InputDisabled,
        Err(DataEnqueueError::Closed) => RecordingTapOutcome::Closed,
        Err(DataEnqueueError::Limit(limit)) => RecordingTapOutcome::QueueFull(limit),
    }
}

/// Whether a producer may skip building an input event: the lock-free view
/// of the queue says input is not being captured.
pub fn input_capture_active(closed: bool, accepting: bool, capture_input: bool) -> (r: bool)
    ensures
        r == (!closed && accepting && capture_input),
{
    !closed && accepting && capture_input
}

/// Why a producer's event is refused before it is even built, from the
/// lock-held view of the queue: a closed queue, no recording accepting
/// events, or input that is not captured; `None` when the event is to be
/// built and offered.
pub fn tap_refusal(closed: bool, accepting: bool, capture_input: bool, requires_input: bool) -> (r: Option<DataEnqueueError>)
    ensures
        r == (if closed {
            Some(DataEnqueueError::Closed)
        } else if !accepting {
            Some(DataEnqueueError::Inactive)
        } else if requires_input && !capture_input {
            Some(DataEnqueueError::InputDisabled)
        } else {
            None
        }),
{
    if closed {
        Some(DataEnqueueError::Closed)
    } else if !accepting {
        Some(DataEnqueueError::Inactive)
    } else if requires_input && !capture_input {
        Some(DataEnqueueError::InputDisabled)
    } else {
        None
    }
}

/// Events are served in the order they were accepted: whatever the worker
/// takes next comes no later than anything still queued.
pub proof fn lemma_queue_serves_in_sequence_order(v: QueueView)
    requires
        queue_inv(v),
        v.data.len() > 0,
        v.controls.len() > 0,
    ensures
        forall|i: int| 0 <= i < v.data.len() ==> v.data[0].0 <= (#[trigger] v.data[i]).0,
        forall|i: int| 0 <= i < v.controls.len() ==> v.controls[0].0 <= (#[trigger] v.controls[i]).0,
{
}

} // verus!
