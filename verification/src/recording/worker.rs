//! The decisions of the recording worker. A session pairs the recording
//! controller with the times it has seen; each queued item (data, a control
//! request, a queue failure) yields the effects to apply to the queue and to
//! the published snapshot, and, where the file writer must act, a request
//! whose outcome the caller hands back to finish the item. The file writer
//! and the locking around the queue and snapshot stay with the caller.

use vstd::prelude::*;
use std::path::PathBuf;
use crate::duration::Duration;
use crate::recording::controller::ControllerModel;
use crate::recording::controller::RecordingController;
use crate::recording::controller::controller_inv;
use crate::recording::controller::event_result_matches;
use crate::recording::controller::initial_controller;
use crate::recording::controller::spec_fail;
use crate::recording::controller::spec_pause;
use crate::recording::controller::spec_record_event;
use crate::recording::controller::spec_request_stop;
use crate::recording::controller::spec_resume;
use crate::recording::model::RecordingConfig;
use crate::recording::model::RecordingEvent;
use crate::recording::model::RecordingEventKind;
use crate::recording::model::RecordingFailure;
use crate::recording::model::RecordingState;
use crate::recording::model::RecordingTransition;
use crate::recording::model::spec_payload_len;
use crate::recording::runtime::ControlEnqueueError;
use crate::recording::runtime::RecordingRuntimeError;
use crate::recording::runtime::RecordingSnapshot;
use crate::recording::runtime::RecordingStartRequest;
use crate::recording::runtime::control_error_meaning;
use crate::recording::runtime::map_control_enqueue_error;
use crate::recording::snapshot::ClockUpdate;
use crate::recording::snapshot::since;

verus! {

broadcast use crate::duration::lemma_duration_bound;

/// What a control request answers.
pub type ControlResult = Result<RecordingTransition, RecordingRuntimeError>;

/// A change to the queue or to the published snapshot.
pub enum WorkerEffect {
    /// Accept data again; input only when captured.
    EnableRecording(bool),
    /// Refuse further data.
    DisableRecording,
    /// Publish this snapshot with this clock update; `true` tells observers
    /// even when the state did not change.
    Publish(RecordingSnapshot, ClockUpdate, bool),
}

/// The answer to a control request.
pub enum ControlReply {
    Ready(ControlResult),
    /// Without a session: what the published snapshot says
    /// (see `result_from_snapshot`).
    FromPublished,
}

/// What a control request's answer is when no session exists: the failure
/// of a failed snapshot, or no change.
pub fn result_from_snapshot(snapshot: &RecordingSnapshot) -> (r: ControlResult)
    ensures
        match snapshot.state {
            RecordingState::Failed(f) => r == Err::<RecordingTransition, _>(RecordingRuntimeError::Recording(f)),
            _ => r == Ok::<_, RecordingRuntimeError>(RecordingTransition::Unchanged),
        },
{
    match &snapshot.state {
        RecordingState::Failed(failure) => Err(RecordingRuntimeError::Recording(failure.clone())),
        _ => Ok(RecordingTransition::Unchanged),
    }
}

/// A snapshot of a failure with nothing recorded.
pub fn failed_snapshot(failure: RecordingFailure) -> (r: RecordingSnapshot)
    ensures
        r.state == RecordingState::Failed(failure),
        r.failure == Some(failure),
        r.elapsed@ == 0,
        r.event_count == 0,
        r.payload_bytes == 0,
        !r.capture_input,
        r.final_path is None,
        r.partial_path is None,
{
    RecordingSnapshot {
        state: RecordingState::Failed(failure.clone()),
        elapsed: Duration::zero(),
        event_count: 0,
        payload_bytes: 0,
        capture_input: false,
        final_path: None,
        partial_path: None,
        failure: Some(failure),
    }
}

/// The session as mathematical values.
pub struct WorkerSessionView {
    pub controller: ControllerModel,
    /// When the session began, on the caller's clock.
    pub epoch: nat,
    /// The latest logical time handed to the controller.
    pub last_logical_time: nat,
    pub capture_input: bool,
    /// Where the recording is published, and where it is written meanwhile.
    pub final_path: PathBuf,
    pub partial_path: PathBuf,
}

/// The controller's time for an item observed at `observed_at`: the time
/// since the session began, never earlier than one already used.
pub open spec fn logical_time(v: WorkerSessionView, observed_at: nat) -> nat {
    let observed = since(observed_at, v.epoch);
    if observed >= v.last_logical_time {
        observed
    } else {
        v.last_logical_time
    }
}

/// The session with the controller's time advanced for `observed_at`.
pub open spec fn at_time(v: WorkerSessionView, observed_at: nat) -> WorkerSessionView {
    WorkerSessionView { last_logical_time: logical_time(v, observed_at), ..v }
}

/// The session with another controller.
pub open spec fn with_controller(v: WorkerSessionView, c: ControllerModel) -> WorkerSessionView {
    WorkerSessionView { controller: c, ..v }
}

/// A snapshot that shows the session.
pub open spec fn shows(snap: RecordingSnapshot, v: WorkerSessionView) -> bool {
    &&& snap.state == v.controller.state
    &&& snap.elapsed@ == v.controller.elapsed
    &&& snap.event_count == v.controller.event_count
    &&& snap.payload_bytes == v.controller.payload_bytes
    &&& snap.capture_input == v.capture_input
    &&& snap.failure == (match v.controller.state {
        RecordingState::Failed(f) => Some(f),
        _ => None,
    })
    &&& snap.final_path == Some(v.final_path)
    &&& snap.partial_path == Some(v.partial_path)
}

/// Publishing the session with this update.
pub open spec fn publishes(e: WorkerEffect, v: WorkerSessionView, update: ClockUpdate, force: bool) -> bool {
    e matches WorkerEffect::Publish(snap, u, f) && shows(snap, v) && u == update && f == force
}

/// The effects of a recording that no longer runs (failed or stopped):
/// refuse data, then publish the frozen session to observers.
pub open spec fn frozen_effects(effects: Seq<WorkerEffect>, v: WorkerSessionView) -> bool {
    &&& effects.len() == 2
    &&& effects[0] is DisableRecording
    &&& publishes(effects[1], v, ClockUpdate::Frozen, true)
}

/// Whether a state belongs to a running recording.
pub open spec fn is_running(state: RecordingState) -> bool {
    state is Recording || state is Paused || state is Stopping
}

/// A recording in progress: its controller, the times seen, and its files.
pub struct WorkerSession {
    controller: RecordingController,
    epoch: Duration,
    last_logical_time: Duration,
    capture_input: bool,
    final_path: PathBuf,
    partial_path: PathBuf,
}

impl View for WorkerSession {
    type V = WorkerSessionView;

    closed spec fn view(&self) -> WorkerSessionView {
        WorkerSessionView {
            controller: self.controller@,
            epoch: self.epoch@,
            last_logical_time: self.last_logical_time@,
            capture_input: self.capture_input,
            final_path: self.final_path,
            partial_path: self.partial_path,
        }
    }
}

/// What every session keeps: a consistent controller, and the capture
/// setting it was made with.
pub open spec fn session_inv(v: WorkerSessionView) -> bool {
    controller_inv(v.controller) && v.capture_input == v.controller.capture_input
}

/// A start request is answered without change while a recording runs.
pub fn start_is_redundant(session: &Option<WorkerSession>) -> (r: bool)
    ensures
        r == (session matches Some(s) && is_running(s@.controller.state)),
{
    match session {
        Some(s) => match s.controller.state() {
            RecordingState::Recording | RecordingState::Paused | RecordingState::Stopping => true,
            _ => false,
        },
        None => false,
    }
}

/// The snapshot published when the recording file could not be created.
pub fn create_failure_snapshot(message: String, capture_input: bool, final_path: PathBuf, partial_path: Option<PathBuf>) -> (r: (
    RecordingSnapshot,
    ControlResult,
))
    ensures
        r.0.state == RecordingState::Failed(RecordingFailure::Storage(message)),
        r.0.failure == Some(RecordingFailure::Storage(message)),
        r.0.elapsed@ == 0,
        r.0.event_count == 0,
        r.0.payload_bytes == 0,
        r.0.capture_input == capture_input,
        r.0.final_path == Some(final_path),
        r.0.partial_path == partial_path,
        r.1 == Err::<RecordingTransition, _>(RecordingRuntimeError::Recording(RecordingFailure::Storage(message))),
{
    let failure = RecordingFailure::Storage(message);
    (
        RecordingSnapshot {
            state: RecordingState::Failed(failure.clone()),
            elapsed: Duration::zero(),
            event_count: 0,
            payload_bytes: 0,
            capture_input,
            final_path: Some(final_path),
            partial_path,
            failure: Some(failure.clone()),
        },
        Err(RecordingRuntimeError::Recording(failure)),
    )
}

impl WorkerSession {
    /// A session for a file just created, started at `observed_at`. Its
    /// effects accept data (input only when captured) and publish the
    /// running recording with a started clock.
    pub fn begin(config: RecordingConfig, observed_at: Duration, final_path: PathBuf, partial_path: PathBuf) -> (r: (
        WorkerSession,
        Vec<WorkerEffect>,
        ControlResult,
    ))
        ensures
            session_inv(r.0@),
            r.0@.controller.state is Recording,
            r.0@.controller.event_count == 0,
            r.0@.controller.elapsed == 0,
            r.0@.epoch == observed_at@,
            r.0@.last_logical_time == 0,
            r.0@.capture_input == config.capture_input,
            r.0@.final_path == final_path,
            r.0@.partial_path == partial_path,
            r.1@.len() == 2,
            r.1@[0] == WorkerEffect::EnableRecording(config.capture_input),
            publishes(r.1@[1], r.0@, ClockUpdate::Started(observed_at), true),
            r.2 == Ok::<_, RecordingRuntimeError>(RecordingTransition::Changed),
    {
        let capture_input = config.capture_input;
        let mut controller = RecordingController::new(config);
        let _ = controller.start(Duration::zero());
        let session = WorkerSession {
            controller,
            epoch: observed_at,
            last_logical_time: Duration::zero(),
            capture_input,
            final_path,
            partial_path,
        };
        let mut effects: Vec<WorkerEffect> = Vec::new();
        effects.push(WorkerEffect::EnableRecording(capture_input));
        effects.push(WorkerEffect::Publish(session.snapshot(), ClockUpdate::Started(observed_at), true));
        (session, effects, Ok(RecordingTransition::Changed))
    }

    /// The session's snapshot.
    pub fn snapshot(&self) -> (r: RecordingSnapshot)
        ensures
            shows(r, self@),
    {
        let state = self.controller.state().clone();
        let failure = match &state {
            RecordingState::Failed(f) => Some(f.clone()),
            _ => None,
        };
        RecordingSnapshot {
            state,
            elapsed: self.controller.elapsed(),
            event_count: self.controller.event_count(),
            payload_bytes: self.controller.payload_bytes(),
            capture_input: self.capture_input,
            final_path: Some(self.final_path.clone()),
            partial_path: Some(self.partial_path.clone()),
            failure,
        }
    }

    /// Advances the controller's time for an item observed at `observed_at`.
    pub fn logical_time(&mut self, observed_at: Duration) -> (r: Duration)
        ensures
            final(self)@ == at_time(old(self)@, observed_at@),
            r@ == logical_time(old(self)@, observed_at@),
    {
        let observed = observed_at.saturating_sub(self.epoch);
        self.last_logical_time = self.last_logical_time.longer(observed);
        self.last_logical_time
    }

    fn fail_with(&mut self, failure: RecordingFailure) -> (r: Vec<WorkerEffect>)
        requires
            session_inv(old(self)@),
        ensures
            final(self)@ == with_controller(old(self)@, spec_fail(old(self)@.controller, failure).0),
            session_inv(final(self)@),
            frozen_effects(r@, final(self)@),
    {
        let _ = self.controller.fail(failure);
        self.frozen_effects()
    }

    fn frozen_effects(&self) -> (r: Vec<WorkerEffect>)
        ensures
            frozen_effects(r@, self@),
    {
        let mut effects: Vec<WorkerEffect> = Vec::new();
        effects.push(WorkerEffect::DisableRecording);
        effects.push(WorkerEffect::Publish(self.snapshot(), ClockUpdate::Frozen, true));
        effects
    }

    /// A failure reported by the queue: the recording fails.
    pub fn fail(&mut self, failure: RecordingFailure) -> (r: Vec<WorkerEffect>)
        requires
            session_inv(old(self)@),
        ensures
            final(self)@ == with_controller(old(self)@, spec_fail(old(self)@.controller, failure).0),
            session_inv(final(self)@),
            frozen_effects(r@, final(self)@),
    {
        self.fail_with(failure)
    }

    /// The writer failed: the recording fails with a storage failure.
    pub fn fail_storage(&mut self, message: String) -> (r: Vec<WorkerEffect>)
        requires
            session_inv(old(self)@),
        ensures
            final(self)@ == with_controller(old(self)@, spec_fail(old(self)@.controller, RecordingFailure::Storage(message)).0),
            session_inv(final(self)@),
            frozen_effects(r@, final(self)@),
    {
        self.fail_with(RecordingFailure::Storage(message))
    }

    /// Data observed at `observed_at`: an event for the writer to append, or
    /// nothing when the recording does not take it, or the failure's
    /// effects when it breaks a limit or the clock.
    pub fn record(&mut self, observed_at: Duration, kind: RecordingEventKind) -> (r: Result<Option<RecordingEvent>, Vec<WorkerEffect>>)
        requires
            session_inv(old(self)@),
        ensures
            session_inv(final(self)@),
            ({
                let t = at_time(old(self)@, observed_at@);
                let expected = if kind is Input && !t.capture_input {
                    (t.controller, Ok::<Option<nat>, RecordingFailure>(None))
                } else {
                    spec_record_event(t.controller, t.last_logical_time, spec_payload_len(kind))
                };
                &&& final(self)@ == with_controller(t, expected.0)
                &&& match r {
                    Ok(event) => event_result_matches(Ok(event), expected.1, kind),
                    Err(effects) => expected.1 is Err && frozen_effects(effects@, final(self)@),
                }
            }),
    {
        let now = self.logical_time(observed_at);
        let recorded = match kind {
            RecordingEventKind::Output(data) => self.controller.record_output(now, data),
            RecordingEventKind::Input(data) => self.controller.record_input(now, data),
            RecordingEventKind::Resize(size) => self.controller.record_resize(now, size),
            RecordingEventKind::Marker(marker) => self.controller.record_marker(now, marker),
        };
        match recorded {
            Ok(event) => Ok(event),
            Err(_) => Err(self.frozen_effects()),
        }
    }

    /// The writer's answer to an append: publish quietly, or fail.
    pub fn finish_append(&mut self, outcome: Result<(), String>) -> (r: Vec<WorkerEffect>)
        requires
            session_inv(old(self)@),
        ensures
            session_inv(final(self)@),
            match outcome {
                Ok(()) => final(self)@ == old(self)@ && r@.len() == 1 && publishes(r@[0], old(self)@, ClockUpdate::Preserve, false),
                Err(message) => final(self)@ == with_controller(old(self)@, spec_fail(old(self)@.controller, RecordingFailure::Storage(message)).0)
                    && frozen_effects(r@, final(self)@),
            },
    {
        match outcome {
            Ok(()) => {
                let mut effects: Vec<WorkerEffect> = Vec::new();
                effects.push(WorkerEffect::Publish(self.snapshot(), ClockUpdate::Preserve, false));
                effects
            },
            Err(message) => self.fail_storage(message),
        }
    }

    fn failed_reply(&self) -> (r: Option<ControlReply>)
        ensures
            match self@.controller.state {
                RecordingState::Failed(f) => r == Some(ControlReply::Ready(Err(RecordingRuntimeError::Recording(f)))),
                _ => r is None,
            },
    {
        match self.controller.state() {
            RecordingState::Failed(f) => Some(ControlReply::Ready(Err(RecordingRuntimeError::Recording(f.clone())))),
            _ => None,
        }
    }

    /// A pause request. A failed session answers its failure. Otherwise
    /// the controller pauses at the logical time; a change must be flushed
    /// by the writer before it is published (`Ok(None)` asks for that).
    pub fn pause(&mut self, observed_at: Duration) -> (r: Result<Option<Vec<WorkerEffect>>, (Vec<WorkerEffect>, ControlReply)>)
        requires
            session_inv(old(self)@),
        ensures
            session_inv(final(self)@),
            match old(self)@.controller.state {
                RecordingState::Failed(f) => final(self)@ == old(self)@
                    && (r matches Err((effects, reply)) && effects@.len() == 0
                    && reply == ControlReply::Ready(Err(RecordingRuntimeError::Recording(f)))),
                _ => {
                    let t = at_time(old(self)@, observed_at@);
                    let p = spec_pause(t.controller, t.last_logical_time);
                    &&& final(self)@ == with_controller(t, p.0)
                    &&& match p.1 {
                        Err(f) => r matches Err((effects, reply)) && frozen_effects(effects@, final(self)@)
                            && reply == ControlReply::Ready(Err(RecordingRuntimeError::Recording(f))),
                        Ok(RecordingTransition::Changed) => r matches Ok(None),
                        Ok(RecordingTransition::Unchanged) => r matches Ok(Some(effects)) && effects@.len() == 1
                            && publishes(effects@[0], final(self)@, ClockUpdate::Preserve, false),
                    }
                },
            },
    {
        match self.failed_reply() {
            Some(reply) => return Err((Vec::new(), reply)),
            None => {},
        }
        let now = self.logical_time(observed_at);
        match self.controller.pause(now) {
            Err(failure) => Err((self.frozen_effects(), ControlReply::Ready(Err(RecordingRuntimeError::Recording(failure))))),
            Ok(RecordingTransition::Changed) => Ok(None),
            Ok(RecordingTransition::Unchanged) => {
                let mut effects: Vec<WorkerEffect> = Vec::new();
                effects.push(WorkerEffect::Publish(self.snapshot(), ClockUpdate::Preserve, false));
                Ok(Some(effects))
            },
        }
    }

    /// The writer's answer to the flush of a pause: publish the pause, or
    /// fail.
    pub fn finish_pause(&mut self, observed_at: Duration, outcome: Result<(), String>) -> (r: (Vec<WorkerEffect>, ControlResult))
        requires
            session_inv(old(self)@),
        ensures
            session_inv(final(self)@),
            match outcome {
                Ok(()) => final(self)@ == old(self)@ && r.0@.len() == 1
                    && publishes(r.0@[0], old(self)@, ClockUpdate::Paused(observed_at), true)
                    && r.1 == Ok::<_, RecordingRuntimeError>(RecordingTransition::Changed),
                Err(message) => final(self)@ == with_controller(old(self)@, spec_fail(old(self)@.controller, RecordingFailure::Storage(message)).0)
                    && frozen_effects(r.0@, final(self)@)
                    && r.1 == Err::<RecordingTransition, _>(RecordingRuntimeError::Recording(RecordingFailure::Storage(message))),
            },
    {
        match outcome {
            Ok(()) => {
                let mut effects: Vec<WorkerEffect> = Vec::new();
                effects.push(WorkerEffect::Publish(self.snapshot(), ClockUpdate::Paused(observed_at), true));
                (effects, Ok(RecordingTransition::Changed))
            },
            Err(message) => {
                let failure = RecordingFailure::Storage(message);
                let effects = self.fail_with(failure.clone());
                (effects, Err(RecordingRuntimeError::Recording(failure)))
            },
        }
    }

    /// A resume request. A failed session answers its failure. Otherwise the
    /// controller resumes at the logical time; a running recording accepts
    /// data again, and the result is published, to observers when it
    /// changed.
    pub fn resume(&mut self, observed_at: Duration) -> (r: (Vec<WorkerEffect>, ControlReply))
        requires
            session_inv(old(self)@),
        ensures
            session_inv(final(self)@),
            match old(self)@.controller.state {
                RecordingState::Failed(f) => final(self)@ == old(self)@ && r.0@.len() == 0
                    && r.1 == ControlReply::Ready(Err(RecordingRuntimeError::Recording(f))),
                _ => {
                    let t = at_time(old(self)@, observed_at@);
                    let p = spec_resume(t.controller, t.last_logical_time);
                    &&& final(self)@ == with_controller(t, p.0)
                    &&& match p.1 {
                        Err(f) => frozen_effects(r.0@, final(self)@)
                            && r.1 == ControlReply::Ready(Err(RecordingRuntimeError::Recording(f))),
                        Ok(transition) => {
                            let changed = transition == RecordingTransition::Changed;
                            let update = if changed { ClockUpdate::Resumed(observed_at) } else { ClockUpdate::Preserve };
                            &&& r.1 == ControlReply::Ready(Ok(transition))
                            &&& if final(self)@.controller.state is Recording {
                                r.0@.len() == 2 && r.0@[0] == WorkerEffect::EnableRecording(final(self)@.capture_input)
                                    && publishes(r.0@[1], final(self)@, update, changed)
                            } else {
                                r.0@.len() == 1 && publishes(r.0@[0], final(self)@, update, changed)
                            }
                        },
                    }
                },
            },
    {
        match self.failed_reply() {
            Some(reply) => return (Vec::new(), reply),
            None => {},
        }
        let now = self.logical_time(observed_at);
        match self.controller.resume(now) {
            Err(failure) => (self.frozen_effects(), ControlReply::Ready(Err(RecordingRuntimeError::Recording(failure)))),
            Ok(transition) => {
                let mut effects: Vec<WorkerEffect> = Vec::new();
                let running = match self.controller.state() {
                    RecordingState::Recording => true,
                    _ => false,
                };
                if running {
                    effects.push(WorkerEffect::EnableRecording(self.capture_input));
                }
                let changed = match transition {
                    RecordingTransition::Changed => true,
                    RecordingTransition::Unchanged => false,
                };
                let update = if changed {
                    ClockUpdate::Resumed(observed_at)
                } else {
                    ClockUpdate::Preserve
                };
                effects.push(WorkerEffect::Publish(self.snapshot(), update, changed));
                (effects, ControlReply::Ready(Ok(transition)))
            },
        }
    }

    /// A stop request. A failed session answers its failure and a stopped
    /// one no change. Otherwise the controller begins stopping at the
    /// logical time; when it changed, the stopping session is published and
    /// the writer must finish the file (`Ok(effects)` asks for that).
    pub fn stop(&mut self, observed_at: Duration) -> (r: Result<Vec<WorkerEffect>, (Vec<WorkerEffect>, ControlReply)>)
        requires
            session_inv(old(self)@),
        ensures
            session_inv(final(self)@),
            match old(self)@.controller.state {
                RecordingState::Failed(f) => final(self)@ == old(self)@
                    && (r matches Err((effects, reply)) && effects@.len() == 0
                    && reply == ControlReply::Ready(Err(RecordingRuntimeError::Recording(f)))),
                RecordingState::Stopped => final(self)@ == old(self)@
                    && (r matches Err((effects, reply)) && effects@.len() == 0
                    && reply == ControlReply::Ready(Ok(RecordingTransition::Unchanged))),
                _ => {
                    let t = at_time(old(self)@, observed_at@);
                    let p = spec_request_stop(t.controller, t.last_logical_time);
                    &&& final(self)@ == with_controller(t, p.0)
                    &&& match p.1 {
                        Err(f) => r matches Err((effects, reply)) && frozen_effects(effects@, final(self)@)
                            && reply == ControlReply::Ready(Err(RecordingRuntimeError::Recording(f))),
                        Ok(RecordingTransition::Unchanged) => r matches Err((effects, reply)) && effects@.len() == 0
                            && reply == ControlReply::Ready(Ok(RecordingTransition::Unchanged)),
                        Ok(RecordingTransition::Changed) => r matches Ok(effects) && effects@.len() == 1
                            && publishes(effects@[0], final(self)@, ClockUpdate::Frozen, true),
                    }
                },
            },
    {
        match self.failed_reply() {
            Some(reply) => return Err((Vec::new(), reply)),
            None => {},
        }
        let stopped = match self.controller.state() {
            RecordingState::Stopped => true,
            _ => false,
        };
        if stopped {
            return Err((Vec::new(), ControlReply::Ready(Ok(RecordingTransition::Unchanged))));
        }
        let now = self.logical_time(observed_at);
        match self.controller.request_stop(now) {
            Err(failure) => Err((self.frozen_effects(), ControlReply::Ready(Err(RecordingRuntimeError::Recording(failure))))),
            Ok(RecordingTransition::Unchanged) => Err((Vec::new(), ControlReply::Ready(Ok(RecordingTransition::Unchanged)))),
            Ok(RecordingTransition::Changed) => {
                let mut effects: Vec<WorkerEffect> = Vec::new();
                effects.push(WorkerEffect::Publish(self.snapshot(), ClockUpdate::Frozen, true));
                Ok(effects)
            },
        }
    }

    /// The writer's answer to finishing the file: the recording is stopped,
    /// refuses data and is published; or it fails.
    pub fn finish_stop(&mut self, outcome: Result<(), String>) -> (r: (Vec<WorkerEffect>, ControlResult))
        requires
            session_inv(old(self)@),
            old(self)@.controller.state is Stopping,
        ensures
            session_inv(final(self)@),
            match outcome {
                Ok(()) => final(self)@ == with_controller(old(self)@, ControllerModel { state: RecordingState::Stopped, ..old(self)@.controller })
                    && frozen_effects(r.0@, final(self)@)
                    && r.1 == Ok::<_, RecordingRuntimeError>(RecordingTransition::Changed),
                Err(message) => final(self)@ == with_controller(old(self)@, spec_fail(old(self)@.controller, RecordingFailure::Storage(message)).0)
                    && frozen_effects(r.0@, final(self)@)
                    && r.1 == Err::<RecordingTransition, _>(RecordingRuntimeError::Recording(RecordingFailure::Storage(message))),
            },
    {
        match outcome {
            Ok(()) => {
                let _ = self.controller.complete_stop();
                (self.frozen_effects(), Ok(RecordingTransition::Changed))
            },
            Err(message) => {
                let failure = RecordingFailure::Storage(message);
                let effects = self.fail_with(failure.clone());
                (effects, Err(RecordingRuntimeError::Recording(failure)))
            },
        }
    }
}

/// What a shutdown answers for the stop it performs: a recording failure
/// is no error at shutdown.
pub fn shutdown_result(stop: ControlResult) -> (r: ControlResult)
    ensures
        match stop {
            Err(RecordingRuntimeError::Recording(_)) => r == Ok::<_, RecordingRuntimeError>(RecordingTransition::Unchanged),
            _ => r == stop,
        },
{
    match stop {
        Err(RecordingRuntimeError::Recording(_)) => Ok(RecordingTransition::Unchanged),
        other => other,
    }
}

/// The controller's time never goes backwards: an item observed earlier
/// than one already handled still gets the later time.
pub proof fn lemma_logical_time_is_monotonic(v: WorkerSessionView, first: nat, second: nat)
    ensures
        logical_time(v, first) >= v.last_logical_time,
        logical_time(at_time(v, first), second) >= logical_time(v, first),
{
}

/// A start request whose file metadata and controller disagree about input
/// capture is refused.
pub fn check_start_request(request: &RecordingStartRequest) -> (r: Result<(), RecordingRuntimeError>)
    ensures
        r is Ok <==> request.metadata.capture_input == request.recording.capture_input,
        r matches Err(RecordingRuntimeError::InvalidConfig(m)) ==> m@ == "recording metadata and controller disagree about input capture"@,
        r is Err ==> r matches Err(RecordingRuntimeError::InvalidConfig(_)),
{
    if request.metadata.capture_input != request.recording.capture_input {
        return Err(RecordingRuntimeError::InvalidConfig(
            String::from_str("recording metadata and controller disagree about input capture"),
        ));
    }
    Ok(())
}

/// What a stop answers from the published snapshot once the worker takes no
/// more requests: no change when stopped or idle, the failure when failed,
/// and otherwise that the runtime is closed.
pub fn stop_result_from_snapshot(snapshot: &RecordingSnapshot) -> (r: ControlResult)
    ensures
        match snapshot.state {
            RecordingState::Stopped | RecordingState::Idle => r == Ok::<_, RecordingRuntimeError>(RecordingTransition::Unchanged),
            RecordingState::Failed(f) => r == Err::<RecordingTransition, _>(RecordingRuntimeError::Recording(f)),
            _ => r == Err::<RecordingTransition, _>(RecordingRuntimeError::Closed),
        },
{
    match &snapshot.state {
        RecordingState::Stopped | RecordingState::Idle => Ok(RecordingTransition::Unchanged),
        RecordingState::Failed(failure) => Err(RecordingRuntimeError::Recording(failure.clone())),
        _ => Err(RecordingRuntimeError::Closed),
    }
}

/// What a pause, resume or start answers when the queue refused it: while
/// shutting down, no change for a stopped recording and otherwise that the
/// worker stopped; any other refusal as the queue names it.
pub fn refused_control_result(error: ControlEnqueueError, state: &RecordingState) -> (r: ControlResult)
    ensures
        error == ControlEnqueueError::ShuttingDown && *state == RecordingState::Stopped ==> r == Ok::<_, RecordingRuntimeError>(
            RecordingTransition::Unchanged,
        ),
        error == ControlEnqueueError::ShuttingDown && *state != RecordingState::Stopped ==> r == Err::<RecordingTransition, _>(
            RecordingRuntimeError::WorkerStopped,
        ),
        error != ControlEnqueueError::ShuttingDown ==> (r matches Err(e) && control_error_meaning(error, e)),
{
    match error {
        ControlEnqueueError::ShuttingDown => match state {
            RecordingState::Stopped => Ok(RecordingTransition::Unchanged),
            _ => Err(RecordingRuntimeError::WorkerStopped),
        },
        _ => Err(map_control_enqueue_error(error)),
    }
}

} // verus!
