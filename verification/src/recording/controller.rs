//! The recording state machine: one monotonic timeline that excludes paused
//! time and fails closed when the clock moves backwards or a limit is hit.

use vstd::prelude::*;
use crate::duration::Duration;
use crate::types::TerminalSize;
use super::model::{
    RecordingConfig, RecordingEvent, RecordingEventKind, RecordingFailure, RecordingLimit,
    RecordingState, RecordingTransition, spec_payload_len,
};

verus! {

broadcast use crate::duration::lemma_duration_bound;

/// The controller's state, with times in nanoseconds.
pub struct ControllerModel {
    pub capture_input: bool,
    pub max_duration: nat,
    pub max_events: nat,
    pub max_event_bytes: nat,
    pub max_payload_bytes: nat,
    pub state: RecordingState,
    pub started_at: Option<nat>,
    pub last_observed_at: Option<nat>,
    pub paused_at: Option<nat>,
    pub paused_total: nat,
    pub elapsed: nat,
    pub event_count: nat,
    pub payload_bytes: nat,
}

pub open spec fn is_active(state: RecordingState) -> bool {
    state is Recording || state is Paused || state is Stopping
}

pub open spec fn is_terminal(state: RecordingState) -> bool {
    state is Stopped || state is Failed
}

/// What every reachable controller state satisfies.
///
/// The limits fit the counters' integer types, and the counters never
/// exceed them. While recording, the elapsed
/// time is at most the last observed time minus the start and the paused
/// total; while paused, it equals the pause instant minus the same.
pub open spec fn controller_inv(m: ControllerModel) -> bool {
    &&& m.max_events <= u64::MAX
    &&& m.max_payload_bytes <= u64::MAX
    &&& m.event_count <= m.max_events
    &&& m.payload_bytes <= m.max_payload_bytes
    &&& m.elapsed <= m.max_duration
    &&& m.state is Idle ==> m.started_at is None && m.last_observed_at is None && m.paused_at is None
        && m.paused_total == 0 && m.elapsed == 0 && m.event_count == 0 && m.payload_bytes == 0
    &&& is_active(m.state) ==> m.started_at is Some && m.last_observed_at is Some
    &&& m.state is Recording ==> m.started_at.unwrap() + m.paused_total + m.elapsed <= m.last_observed_at.unwrap()
    &&& m.state is Paused ==> m.paused_at is Some
        && m.started_at.unwrap() + m.paused_total + m.elapsed == m.paused_at.unwrap()
        && m.paused_at.unwrap() <= m.last_observed_at.unwrap()
}

pub open spec fn initial_controller(config: RecordingConfig) -> ControllerModel {
    ControllerModel {
        capture_input: config.capture_input,
        max_duration: config.limits.max_duration@,
        max_events: config.limits.max_events as nat,
        max_event_bytes: config.limits.max_event_bytes as nat,
        max_payload_bytes: config.limits.max_payload_bytes as nat,
        state: RecordingState::Idle,
        started_at: None,
        last_observed_at: None,
        paused_at: None,
        paused_total: 0,
        elapsed: 0,
        event_count: 0,
        payload_bytes: 0,
    }
}

/// `fail`: every state but a finished or failed one becomes `Failed`.
pub open spec fn spec_fail(m: ControllerModel, failure: RecordingFailure) -> (ControllerModel, RecordingTransition) {
    if is_terminal(m.state) {
        (m, RecordingTransition::Unchanged)
    } else {
        (ControllerModel { state: RecordingState::Failed(failure), ..m }, RecordingTransition::Changed)
    }
}

/// An observation earlier than the last one fails the recording.
pub open spec fn spec_ensure_monotonic(m: ControllerModel, now: nat) -> (ControllerModel, Result<(), RecordingFailure>) {
    if m.last_observed_at matches Some(last) && now < last {
        (spec_fail(m, RecordingFailure::ClockMovedBackwards).0, Err(RecordingFailure::ClockMovedBackwards))
    } else {
        (ControllerModel { last_observed_at: Some(now), ..m }, Ok(()))
    }
}

/// The active time at `now`: since the start, without paused time.
pub open spec fn spec_observe_active_time(m: ControllerModel, now: nat) -> (ControllerModel, Result<nat, RecordingFailure>) {
    let checked = spec_ensure_monotonic(m, now);
    if checked.1 is Err {
        (checked.0, Err(RecordingFailure::ClockMovedBackwards))
    } else if now < checked.0.started_at.unwrap() + checked.0.paused_total {
        (checked.0, Err(RecordingFailure::ClockMovedBackwards))
    } else {
        let elapsed = (now - checked.0.started_at.unwrap() - checked.0.paused_total) as nat;
        if elapsed > checked.0.max_duration {
            (spec_fail(checked.0, RecordingFailure::LimitReached(RecordingLimit::Duration)).0,
                Err(RecordingFailure::LimitReached(RecordingLimit::Duration)))
        } else {
            (ControllerModel { elapsed, ..checked.0 }, Ok(elapsed))
        }
    }
}

pub open spec fn spec_start(m: ControllerModel, now: nat) -> (ControllerModel, Result<RecordingTransition, RecordingFailure>) {
    if !(m.state is Idle) {
        (m, Ok(RecordingTransition::Unchanged))
    } else {
        (ControllerModel {
            started_at: Some(now),
            last_observed_at: Some(now),
            state: RecordingState::Recording,
            ..m
        }, Ok(RecordingTransition::Changed))
    }
}

pub open spec fn spec_pause(m: ControllerModel, now: nat) -> (ControllerModel, Result<RecordingTransition, RecordingFailure>) {
    if !(m.state is Recording) {
        (m, Ok(RecordingTransition::Unchanged))
    } else {
        let observed = spec_observe_active_time(m, now);
        match observed.1 {
            Err(failure) => (observed.0, Err(failure)),
            Ok(_) => (ControllerModel {
                paused_at: Some(now),
                state: RecordingState::Paused,
                ..observed.0
            }, Ok(RecordingTransition::Changed)),
        }
    }
}

pub open spec fn spec_resume(m: ControllerModel, now: nat) -> (ControllerModel, Result<RecordingTransition, RecordingFailure>) {
    if !(m.state is Paused) {
        (m, Ok(RecordingTransition::Unchanged))
    } else {
        let checked = spec_ensure_monotonic(m, now);
        match checked.1 {
            Err(failure) => (checked.0, Err(failure)),
            Ok(_) => {
                let paused_at = checked.0.paused_at.unwrap();
                let taken = ControllerModel { paused_at: None, ..checked.0 };
                if now < paused_at {
                    (taken, Err(RecordingFailure::ClockMovedBackwards))
                } else {
                    (ControllerModel {
                        paused_total: (taken.paused_total + (now - paused_at)) as nat,
                        state: RecordingState::Recording,
                        ..taken
                    }, Ok(RecordingTransition::Changed))
                }
            },
        }
    }
}

pub open spec fn spec_request_stop(m: ControllerModel, now: nat) -> (ControllerModel, Result<RecordingTransition, RecordingFailure>) {
    if m.state is Recording {
        let observed = spec_observe_active_time(m, now);
        match observed.1 {
            Err(failure) => (observed.0, Err(failure)),
            Ok(_) => (ControllerModel { paused_at: None, state: RecordingState::Stopping, ..observed.0 },
                Ok(RecordingTransition::Changed)),
        }
    } else if m.state is Paused {
        let checked = spec_ensure_monotonic(m, now);
        match checked.1 {
            Err(failure) => (checked.0, Err(failure)),
            Ok(_) => (ControllerModel { paused_at: None, state: RecordingState::Stopping, ..checked.0 },
                Ok(RecordingTransition::Changed)),
        }
    } else {
        (m, Ok(RecordingTransition::Unchanged))
    }
}

pub open spec fn spec_complete_stop(m: ControllerModel) -> (ControllerModel, RecordingTransition) {
    if m.state is Stopping {
        (ControllerModel { state: RecordingState::Stopped, ..m }, RecordingTransition::Changed)
    } else {
        (m, RecordingTransition::Unchanged)
    }
}

/// The per-event and total payload limits, checked before an event is taken:
/// the total payload after the event, or the limit it would break.
pub open spec fn spec_enforce_event_limits(m: ControllerModel, payload_len: nat) -> (ControllerModel, Result<nat, RecordingFailure>) {
    if m.event_count >= m.max_events {
        (spec_fail(m, RecordingFailure::LimitReached(RecordingLimit::EventCount)).0,
            Err(RecordingFailure::LimitReached(RecordingLimit::EventCount)))
    } else if payload_len > m.max_event_bytes {
        (spec_fail(m, RecordingFailure::LimitReached(RecordingLimit::EventBytes)).0,
            Err(RecordingFailure::LimitReached(RecordingLimit::EventBytes)))
    } else if m.payload_bytes + payload_len > u64::MAX || m.payload_bytes + payload_len > m.max_payload_bytes {
        (spec_fail(m, RecordingFailure::LimitReached(RecordingLimit::PayloadBytes)).0,
            Err(RecordingFailure::LimitReached(RecordingLimit::PayloadBytes)))
    } else {
        (m, Ok((m.payload_bytes + payload_len) as nat))
    }
}

/// Recording an event: nothing unless recording; otherwise the limits are
/// checked, then the time, and the event is stamped with the active time.
pub open spec fn spec_record_event(m: ControllerModel, now: nat, payload_len: nat) -> (ControllerModel, Result<Option<nat>, RecordingFailure>) {
    if !(m.state is Recording) {
        (m, Ok(None))
    } else {
        let limited = spec_enforce_event_limits(m, payload_len);
        match limited.1 {
            Err(failure) => (limited.0, Err(failure)),
            Ok(next_payload_bytes) => {
                let observed = spec_observe_active_time(limited.0, now);
                match observed.1 {
                    Err(failure) => (observed.0, Err(failure)),
                    Ok(elapsed) => (ControllerModel {
                        event_count: observed.0.event_count + 1,
                        payload_bytes: next_payload_bytes,
                        ..observed.0
                    }, Ok(Some(elapsed))),
                }
            },
        }
    }
}

/// The exec result of recording an event agrees with the spec result for the
/// event kind that was handed in.
pub open spec fn event_result_matches(
    r: Result<Option<RecordingEvent>, RecordingFailure>,
    spec_r: Result<Option<nat>, RecordingFailure>,
    kind: RecordingEventKind,
) -> bool {
    match (r, spec_r) {
        (Ok(Some(event)), Ok(Some(elapsed))) => event.elapsed@ == elapsed && event.kind == kind,
        (Ok(None), Ok(None)) => true,
        (Err(failure), Err(spec_failure)) => failure == spec_failure,
        _ => false,
    }
}

/// Drives one recording: start, pause, resume and stop, and turns output,
/// input, resize and marker observations into timeline events.
pub struct RecordingController {
    config: RecordingConfig,
    state: RecordingState,
    started_at: Option<Duration>,
    last_observed_at: Option<Duration>,
    paused_at: Option<Duration>,
    paused_total: Duration,
    elapsed: Duration,
    event_count: u64,
    payload_bytes: u64,
}

pub open spec fn option_nanos(value: Option<Duration>) -> Option<nat> {
    match value {
        Some(time) => Some(time@),
        None => None,
    }
}

impl View for RecordingController {
    type V = ControllerModel;

    closed spec fn view(&self) -> ControllerModel {
        ControllerModel {
            capture_input: self.config.capture_input,
            max_duration: self.config.limits.max_duration@,
            max_events: self.config.limits.max_events as nat,
            max_event_bytes: self.config.limits.max_event_bytes as nat,
            max_payload_bytes: self.config.limits.max_payload_bytes as nat,
            state: self.state,
            started_at: option_nanos(self.started_at),
            last_observed_at: option_nanos(self.last_observed_at),
            paused_at: option_nanos(self.paused_at),
            paused_total: self.paused_total@,
            elapsed: self.elapsed@,
            event_count: self.event_count as nat,
            payload_bytes: self.payload_bytes as nat,
        }
    }
}

impl RecordingController {
    pub fn new(config: RecordingConfig) -> (r: Self)
        ensures
            r@ == initial_controller(config),
            controller_inv(r@),
    {
        RecordingController {
            config,
            state: RecordingState::Idle,
            started_at: None,
            last_observed_at: None,
            paused_at: None,
            paused_total: Duration::zero(),
            elapsed: Duration::zero(),
            event_count: 0,
            payload_bytes: 0,
        }
    }

    pub fn state(&self) -> (r: &RecordingState)
        ensures
            *r == self@.state,
    {
        &self.state
    }

    pub fn event_count(&self) -> (r: u64)
        ensures
            r == self@.event_count,
    {
        self.event_count
    }

    pub fn payload_bytes(&self) -> (r: u64)
        ensures
            r == self@.payload_bytes,
    {
        self.payload_bytes
    }

    /// Active time at the last observation (paused time excluded).
    pub fn elapsed(&self) -> (r: Duration)
        ensures
            r@ == self@.elapsed,
    {
        self.elapsed
    }
}

impl RecordingController {
    pub fn start(&mut self, now: Duration) -> (r: Result<RecordingTransition, RecordingFailure>)
        requires
            controller_inv(old(self)@),
        ensures
            controller_inv(final(self)@),
            (final(self)@, r) == spec_start(old(self)@, now@),
    {
        if !matches!(self.state, RecordingState::Idle) {
            return Ok(RecordingTransition::Unchanged);
        }
        self.started_at = Some(now);
        self.last_observed_at = Some(now);
        self.state = RecordingState::Recording;
        Ok(RecordingTransition::Changed)
    }

    pub fn pause(&mut self, now: Duration) -> (r: Result<RecordingTransition, RecordingFailure>)
        requires
            controller_inv(old(self)@),
        ensures
            controller_inv(final(self)@),
            (final(self)@, r) == spec_pause(old(self)@, now@),
    {
        if !matches!(self.state, RecordingState::Recording) {
            return Ok(RecordingTransition::Unchanged);
        }
        match self.observe_active_time(now) {
            Err(failure) => return Err(failure),
            Ok(_) => {},
        }
        self.paused_at = Some(now);
        self.state = RecordingState::Paused;
        Ok(RecordingTransition::Changed)
    }

    pub fn resume(&mut self, now: Duration) -> (r: Result<RecordingTransition, RecordingFailure>)
        requires
            controller_inv(old(self)@),
        ensures
            controller_inv(final(self)@),
            (final(self)@, r) == spec_resume(old(self)@, now@),
    {
        if !matches!(self.state, RecordingState::Paused) {
            return Ok(RecordingTransition::Unchanged);
        }
        match self.ensure_monotonic(now) {
            Err(failure) => return Err(failure),
            Ok(_) => {},
        }
        let ghost checked = self@;
        let paused_at = self.paused_at.take().expect("paused state has a timestamp");
        let paused_for = match now.checked_sub(paused_at) {
            Some(paused_for) => paused_for,
            None => return Err(RecordingFailure::ClockMovedBackwards),
        };
        assert(checked.paused_total + paused_for@ <= now@);
        self.paused_total = self.paused_total.saturating_add(paused_for);
        self.state = RecordingState::Recording;
        Ok(RecordingTransition::Changed)
    }

    pub fn request_stop(&mut self, now: Duration) -> (r: Result<RecordingTransition, RecordingFailure>)
        requires
            controller_inv(old(self)@),
        ensures
            controller_inv(final(self)@),
            (final(self)@, r) == spec_request_stop(old(self)@, now@),
    {
        if matches!(self.state, RecordingState::Recording) {
            match self.observe_active_time(now) {
                Err(failure) => return Err(failure),
                Ok(_) => {},
            }
        } else if matches!(self.state, RecordingState::Paused) {
            match self.ensure_monotonic(now) {
                Err(failure) => return Err(failure),
                Ok(_) => {},
            }
        } else {
            return Ok(RecordingTransition::Unchanged);
        }
        self.paused_at = None;
        self.state = RecordingState::Stopping;
        Ok(RecordingTransition::Changed)
    }

    pub fn complete_stop(&mut self) -> (r: RecordingTransition)
        requires
            controller_inv(old(self)@),
        ensures
            controller_inv(final(self)@),
            (final(self)@, r) == spec_complete_stop(old(self)@),
    {
        if !matches!(self.state, RecordingState::Stopping) {
            return RecordingTransition::Unchanged;
        }
        self.state = RecordingState::Stopped;
        RecordingTransition::Changed
    }

    pub fn fail(&mut self, failure: RecordingFailure) -> (r: RecordingTransition)
        requires
            controller_inv(old(self)@),
        ensures
            controller_inv(final(self)@),
            (final(self)@, r) == spec_fail(old(self)@, failure),
    {
        if matches!(self.state, RecordingState::Stopped | RecordingState::Failed(_)) {
            return RecordingTransition::Unchanged;
        }
        self.state = RecordingState::Failed(failure);
        RecordingTransition::Changed
    }

    pub fn record_output(&mut self, now: Duration, data: Vec<u8>) -> (r: Result<Option<RecordingEvent>, RecordingFailure>)
        requires
            controller_inv(old(self)@),
        ensures
            controller_inv(final(self)@),
            ({
                let kind = RecordingEventKind::Output(data);
                let expected = spec_record_event(old(self)@, now@, spec_payload_len(kind));
                final(self)@ == expected.0 && event_result_matches(r, expected.1, kind)
            }),
    {
        self.record_event(now, RecordingEventKind::Output(data))
    }

    /// Input is recorded only when the recording was configured to capture it.
    pub fn record_input(&mut self, now: Duration, data: Vec<u8>) -> (r: Result<Option<RecordingEvent>, RecordingFailure>)
        requires
            controller_inv(old(self)@),
        ensures
            controller_inv(final(self)@),
            !old(self)@.capture_input ==> final(self)@ == old(self)@ && r == Ok::<Option<RecordingEvent>, RecordingFailure>(None),
            old(self)@.capture_input ==> ({
                let kind = RecordingEventKind::Input(data);
                let expected = spec_record_event(old(self)@, now@, spec_payload_len(kind));
                final(self)@ == expected.0 && event_result_matches(r, expected.1, kind)
            }),
    {
        if !self.config.capture_input {
            return Ok(None);
        }
        self.record_event(now, RecordingEventKind::Input(data))
    }

    pub fn record_resize(&mut self, now: Duration, size: TerminalSize) -> (r: Result<Option<RecordingEvent>, RecordingFailure>)
        requires
            controller_inv(old(self)@),
        ensures
            controller_inv(final(self)@),
            ({
                let kind = RecordingEventKind::Resize(size);
                let expected = spec_record_event(old(self)@, now@, spec_payload_len(kind));
                final(self)@ == expected.0 && event_result_matches(r, expected.1, kind)
            }),
    {
        self.record_event(now, RecordingEventKind::Resize(size))
    }

    pub fn record_marker(&mut self, now: Duration, marker: String) -> (r: Result<Option<RecordingEvent>, RecordingFailure>)
        requires
            controller_inv(old(self)@),
        ensures
            controller_inv(final(self)@),
            ({
                let kind = RecordingEventKind::Marker(marker);
                let expected = spec_record_event(old(self)@, now@, spec_payload_len(kind));
                final(self)@ == expected.0 && event_result_matches(r, expected.1, kind)
            }),
    {
        self.record_event(now, RecordingEventKind::Marker(marker))
    }

    /// Records any kind of event (input is not filtered here).
    pub fn record_event(&mut self, now: Duration, kind: RecordingEventKind) -> (r: Result<Option<RecordingEvent>, RecordingFailure>)
        requires
            controller_inv(old(self)@),
        ensures
            controller_inv(final(self)@),
            ({
                let expected = spec_record_event(old(self)@, now@, spec_payload_len(kind));
                final(self)@ == expected.0 && event_result_matches(r, expected.1, kind)
            }),
    {
        if !matches!(self.state, RecordingState::Recording) {
            return Ok(None);
        }
        let payload_len = kind.payload_len();
        let next_payload_bytes = match self.enforce_event_limits(payload_len) {
            Ok(next) => next,
            Err(failure) => return Err(failure),
        };
        let elapsed = match self.observe_active_time(now) {
            Ok(elapsed) => elapsed,
            Err(failure) => return Err(failure),
        };
        self.event_count = self.event_count + 1;
        self.payload_bytes = next_payload_bytes;
        Ok(Some(RecordingEvent { elapsed, kind }))
    }

    fn enforce_event_limits(&mut self, payload_len: usize) -> (r: Result<u64, RecordingFailure>)
        requires
            controller_inv(old(self)@),
            old(self)@.state is Recording,
        ensures
            controller_inv(final(self)@),
            match (r, spec_enforce_event_limits(old(self)@, payload_len as nat)) {
                (Ok(next), (model, Ok(spec_next))) => final(self)@ == model && next == spec_next,
                (Err(failure), (model, Err(spec_failure))) => final(self)@ == model && failure == spec_failure,
                _ => false,
            },
    {
        if self.event_count >= self.config.limits.max_events {
            return self.fail_limit(RecordingLimit::EventCount);
        }
        if payload_len > self.config.limits.max_event_bytes {
            return self.fail_limit(RecordingLimit::EventBytes);
        }
        let next_payload_bytes = match self.payload_bytes.checked_add(payload_len as u64) {
            Some(next) => next,
            None => return self.fail_limit(RecordingLimit::PayloadBytes),
        };
        if payload_len as u128 > u64::MAX as u128 {
            return self.fail_limit(RecordingLimit::PayloadBytes);
        }
        if next_payload_bytes > self.config.limits.max_payload_bytes {
            return self.fail_limit(RecordingLimit::PayloadBytes);
        }
        Ok(next_payload_bytes)
    }

    fn observe_active_time(&mut self, now: Duration) -> (r: Result<Duration, RecordingFailure>)
        requires
            controller_inv(old(self)@),
            old(self)@.state is Recording,
        ensures
            controller_inv(final(self)@),
            match (r, spec_observe_active_time(old(self)@, now@)) {
                (Ok(elapsed), (model, Ok(spec_elapsed))) => final(self)@ == model && elapsed@ == spec_elapsed,
                (Err(failure), (model, Err(spec_failure))) => final(self)@ == model && failure == spec_failure,
                _ => false,
            },
    {
        match self.ensure_monotonic(now) {
            Err(failure) => return Err(failure),
            Ok(_) => {},
        }
        let started_at = self.started_at.expect("active recording has a start time");
        let since_start = match now.checked_sub(started_at) {
            Some(since_start) => since_start,
            None => return Err(RecordingFailure::ClockMovedBackwards),
        };
        let elapsed = match since_start.checked_sub(self.paused_total) {
            Some(elapsed) => elapsed,
            None => return Err(RecordingFailure::ClockMovedBackwards),
        };
        if elapsed.is_after(self.config.limits.max_duration) {
            return self.fail_limit(RecordingLimit::Duration);
        }
        self.elapsed = elapsed;
        Ok(elapsed)
    }

    fn ensure_monotonic(&mut self, now: Duration) -> (r: Result<(), RecordingFailure>)
        requires
            controller_inv(old(self)@),
            old(self)@.state is Recording || old(self)@.state is Paused,
        ensures
            controller_inv(final(self)@),
            (final(self)@, r) == spec_ensure_monotonic(old(self)@, now@),
    {
        let moved_backwards = match self.last_observed_at {
            Some(last) => now.is_before(last),
            None => false,
        };
        if moved_backwards {
            return self.fail_with(RecordingFailure::ClockMovedBackwards);
        }
        self.last_observed_at = Some(now);
        Ok(())
    }

    fn fail_limit<T>(&mut self, limit: RecordingLimit) -> (r: Result<T, RecordingFailure>)
        requires
            controller_inv(old(self)@),
        ensures
            controller_inv(final(self)@),
            final(self)@ == spec_fail(old(self)@, RecordingFailure::LimitReached(limit)).0,
            r matches Err(failure) && failure == RecordingFailure::LimitReached(limit),
    {
        self.fail_with(RecordingFailure::LimitReached(limit))
    }

    fn fail_with<T>(&mut self, failure: RecordingFailure) -> (r: Result<T, RecordingFailure>)
        requires
            controller_inv(old(self)@),
        ensures
            controller_inv(final(self)@),
            final(self)@ == spec_fail(old(self)@, failure).0,
            r matches Err(returned) && returned == failure,
    {
        self.fail(failure.clone());
        Err(failure)
    }
}

/// An accepted event is stamped with the time since the start minus all
/// paused time, and stamps never go backwards along the timeline.
pub proof fn lemma_event_time_excludes_pauses(m: ControllerModel, now: nat, payload_len: nat)
    requires
        controller_inv(m),
    ensures
        spec_record_event(m, now, payload_len).1 matches Ok(Some(elapsed)) ==> {
            &&& m.state is Recording
            &&& elapsed == now - m.started_at.unwrap() - m.paused_total
            &&& elapsed >= m.elapsed
            &&& spec_record_event(m, now, payload_len).0.elapsed == elapsed
        },
{
}

/// A pause does not take away active time from before it: where a
/// recording pauses at `paused`, resumes at `resumed` and then accepts an
/// event at `now`, the active time at the pause is the time since the start
/// less every pause before it, and the event is stamped with that active
/// time plus the time since the resume. Every pause so far is excluded, and
/// only paused time is.
pub proof fn lemma_resume_continues_active_time(m: ControllerModel, paused: nat, resumed: nat, now: nat, payload_len: nat)
    requires
        controller_inv(m),
        m.state is Recording,
    ensures
        ({
            let p = spec_pause(m, paused);
            let r = spec_resume(p.0, resumed);
            let e = spec_record_event(r.0, now, payload_len);
            p.1 is Ok && r.1 is Ok ==> {
                &&& p.0.elapsed == paused - m.started_at.unwrap() - m.paused_total
                &&& r.0.paused_total == m.paused_total + (resumed - paused)
                &&& match e.1 {
                    Ok(Some(elapsed)) => {
                        &&& elapsed == p.0.elapsed + (now - resumed)
                        &&& elapsed == now - m.started_at.unwrap() - m.paused_total - (resumed - paused)
                    },
                    _ => true,
                }
            }
        }),
{
}

/// A stopped or failed recording stays as it is: no operation changes its
/// state, counters or timeline, and no event is accepted.
pub proof fn lemma_finished_recording_is_final(m: ControllerModel, now: nat, payload_len: nat, failure: RecordingFailure)
    requires
        controller_inv(m),
        is_terminal(m.state),
    ensures
        spec_start(m, now) == (m, Ok::<RecordingTransition, RecordingFailure>(RecordingTransition::Unchanged)),
        spec_pause(m, now) == (m, Ok::<RecordingTransition, RecordingFailure>(RecordingTransition::Unchanged)),
        spec_resume(m, now) == (m, Ok::<RecordingTransition, RecordingFailure>(RecordingTransition::Unchanged)),
        spec_request_stop(m, now) == (m, Ok::<RecordingTransition, RecordingFailure>(RecordingTransition::Unchanged)),
        spec_complete_stop(m) == (m, RecordingTransition::Unchanged),
        spec_fail(m, failure) == (m, RecordingTransition::Unchanged),
        spec_record_event(m, now, payload_len) == (m, Ok::<Option<nat>, RecordingFailure>(None)),
{
}

/// Stopping is idempotent: once a stop was requested, requesting it again
/// changes nothing, and completing it twice changes nothing the second time.
pub proof fn lemma_stop_is_idempotent(m: ControllerModel, first: nat, second: nat)
    requires
        controller_inv(m),
    ensures
        spec_request_stop(m, first).1 == Ok::<RecordingTransition, RecordingFailure>(RecordingTransition::Changed) ==> {
            let stopping = spec_request_stop(m, first).0;
            &&& spec_request_stop(stopping, second) == (stopping, Ok::<RecordingTransition, RecordingFailure>(RecordingTransition::Unchanged))
            &&& spec_complete_stop(stopping).1 == RecordingTransition::Changed
            &&& spec_complete_stop(spec_complete_stop(stopping).0).1 == RecordingTransition::Unchanged
        },
{
}

/// An event refused for any reason is not counted: the event count and the
/// payload total stay as they were.
pub proof fn lemma_refused_event_is_not_counted(m: ControllerModel, now: nat, payload_len: nat)
    requires
        controller_inv(m),
    ensures
        spec_record_event(m, now, payload_len).1 is Err ==> {
            &&& spec_record_event(m, now, payload_len).0.event_count == m.event_count
            &&& spec_record_event(m, now, payload_len).0.payload_bytes == m.payload_bytes
            &&& spec_record_event(m, now, payload_len).0.state is Failed
                || spec_record_event(m, now, payload_len).1 == Err::<Option<nat>, RecordingFailure>(RecordingFailure::ClockMovedBackwards)
        },
{
}

/// One call on a controller, with the times in nanoseconds.
pub enum ControllerCall {
    Start(nat),
    Pause(nat),
    Resume(nat),
    RequestStop(nat),
    CompleteStop,
    Fail(RecordingFailure),
    /// Recording an event with a payload of this many bytes.
    Record(nat, nat),
}

/// The controller after `call`, and the time the call stamped an event
/// with, if it accepted one.
pub open spec fn apply_call(m: ControllerModel, call: ControllerCall) -> (ControllerModel, Option<nat>) {
    match call {
        ControllerCall::Start(now) => (spec_start(m, now).0, None),
        ControllerCall::Pause(now) => (spec_pause(m, now).0, None),
        ControllerCall::Resume(now) => (spec_resume(m, now).0, None),
        ControllerCall::RequestStop(now) => (spec_request_stop(m, now).0, None),
        ControllerCall::CompleteStop => (spec_complete_stop(m).0, None),
        ControllerCall::Fail(failure) => (spec_fail(m, failure).0, None),
        ControllerCall::Record(now, payload_len) => {
            let recorded = spec_record_event(m, now, payload_len);
            (recorded.0, match recorded.1 {
                Ok(Some(elapsed)) => Some(elapsed),
                _ => None,
            })
        },
    }
}

/// The controller after `calls`, in order, and the times of the events they
/// accepted, in order.
pub open spec fn run_calls(m: ControllerModel, calls: Seq<ControllerCall>) -> (ControllerModel, Seq<nat>)
    decreases calls.len(),
{
    if calls.len() == 0 {
        (m, Seq::empty())
    } else {
        let before = run_calls(m, calls.drop_last());
        let after = apply_call(before.0, calls.last());
        (after.0, match after.1 {
            Some(elapsed) => before.1.push(elapsed),
            None => before.1,
        })
    }
}

proof fn lemma_call_keeps_timeline(m: ControllerModel, call: ControllerCall)
    requires
        controller_inv(m),
    ensures
        controller_inv(apply_call(m, call).0),
        apply_call(m, call).0.max_duration == m.max_duration,
        m.elapsed <= apply_call(m, call).0.elapsed,
        apply_call(m, call).1 matches Some(elapsed) ==> elapsed == apply_call(m, call).0.elapsed,
{
}

/// Along any sequence of calls on a controller, the events it accepts are
/// stamped with times that never decrease, each within the recording's
/// duration limit and no later than the controller's elapsed time at the end.
pub proof fn lemma_event_times_never_decrease(m: ControllerModel, calls: Seq<ControllerCall>)
    requires
        controller_inv(m),
    ensures
        controller_inv(run_calls(m, calls).0),
        m.elapsed <= run_calls(m, calls).0.elapsed,
        forall|i: int, j: int|
            0 <= i <= j < run_calls(m, calls).1.len() ==> (#[trigger] run_calls(m, calls).1[i]) <= (#[trigger] run_calls(m, calls).1[j]),
        forall|i: int|
            0 <= i < run_calls(m, calls).1.len() ==> #[trigger] run_calls(m, calls).1[i] <= run_calls(m, calls).0.elapsed,
        forall|i: int| 0 <= i < run_calls(m, calls).1.len() ==> #[trigger] run_calls(m, calls).1[i] <= m.max_duration,
        run_calls(m, calls).0.max_duration == m.max_duration,
    decreases calls.len(),
{
    if calls.len() > 0 {
        lemma_event_times_never_decrease(m, calls.drop_last());
        let before = run_calls(m, calls.drop_last());
        lemma_call_keeps_timeline(before.0, calls.last());
    }
}

/// While recording, an event is refused by the first of the event-count,
/// event-size and payload-total limits that it breaks, which fails the
/// recording and leaves the counters as they were; an event within all
/// three that is accepted adds one event and its payload.
pub proof fn lemma_event_limits_checked_in_order(m: ControllerModel, now: nat, payload_len: nat)
    requires
        controller_inv(m),
        m.state is Recording,
    ensures
        ({
            let (next, result) = spec_record_event(m, now, payload_len);
            &&& m.event_count >= m.max_events ==> result == Err::<Option<nat>, RecordingFailure>(
                RecordingFailure::LimitReached(RecordingLimit::EventCount),
            ) && next.state == RecordingState::Failed(RecordingFailure::LimitReached(RecordingLimit::EventCount))
            &&& m.event_count < m.max_events && payload_len > m.max_event_bytes ==> result == Err::<
                Option<nat>,
                RecordingFailure,
            >(RecordingFailure::LimitReached(RecordingLimit::EventBytes)) && next.state == RecordingState::Failed(
                RecordingFailure::LimitReached(RecordingLimit::EventBytes),
            )
            &&& m.event_count < m.max_events && payload_len <= m.max_event_bytes && m.payload_bytes + payload_len
                > m.max_payload_bytes ==> result == Err::<Option<nat>, RecordingFailure>(
                RecordingFailure::LimitReached(RecordingLimit::PayloadBytes),
            ) && next.state == RecordingState::Failed(RecordingFailure::LimitReached(RecordingLimit::PayloadBytes))
            &&& result is Err ==> next.event_count == m.event_count && next.payload_bytes == m.payload_bytes
            &&& result matches Ok(Some(_)) ==> {
                &&& m.event_count < m.max_events
                &&& payload_len <= m.max_event_bytes
                &&& m.payload_bytes + payload_len <= m.max_payload_bytes
                &&& next.event_count == m.event_count + 1
                &&& next.payload_bytes == m.payload_bytes + payload_len
            }
        }),
{
}

/// A pause at the first time of each pair, then a resume at the second.
pub open spec fn pause_resume_calls(pairs: Seq<(nat, nat)>) -> Seq<ControllerCall>
    decreases pairs.len(),
{
    if pairs.len() == 0 {
        Seq::empty()
    } else {
        pause_resume_calls(pairs.drop_last()).push(ControllerCall::Pause(pairs.last().0)).push(
            ControllerCall::Resume(pairs.last().1),
        )
    }
}

/// The length of all the pauses together: each lasts from its pause to its
/// resume.
pub open spec fn pauses_length(pairs: Seq<(nat, nat)>) -> int
    decreases pairs.len(),
{
    if pairs.len() == 0 {
        0
    } else {
        pauses_length(pairs.drop_last()) + (pairs.last().1 - pairs.last().0)
    }
}

/// Paused time adds up: a recording that pauses and resumes at each pair of
/// times and is still recording afterwards has excluded exactly the total
/// length of all those pauses, the first as much as the last; the only
/// other outcome is a failed recording.
pub proof fn lemma_paused_time_adds_up(m: ControllerModel, pairs: Seq<(nat, nat)>)
    requires
        controller_inv(m),
        m.state is Recording,
    ensures
        run_calls(m, pause_resume_calls(pairs)).0.state is Recording || run_calls(m, pause_resume_calls(pairs)).0.state is Failed,
        controller_inv(run_calls(m, pause_resume_calls(pairs)).0),
        run_calls(m, pause_resume_calls(pairs)).0.state is Recording ==> run_calls(m, pause_resume_calls(pairs)).0.paused_total
            == m.paused_total + pauses_length(pairs),
        run_calls(m, pause_resume_calls(pairs)).0.started_at == m.started_at,
    decreases pairs.len(),
{
    if pairs.len() > 0 {
        let prefix = pairs.drop_last();
        lemma_paused_time_adds_up(m, prefix);
        let calls = pause_resume_calls(pairs);
        let before = run_calls(m, pause_resume_calls(prefix));
        assert(calls.drop_last().drop_last() == pause_resume_calls(prefix));
        assert(calls.drop_last().last() == ControllerCall::Pause(pairs.last().0));
        assert(calls.last() == ControllerCall::Resume(pairs.last().1));
        let (paused, resumed) = pairs.last();
        let mid = spec_pause(before.0, paused).0;
        assert(run_calls(m, calls.drop_last()).0 == mid);
        assert(run_calls(m, calls).0 == spec_resume(mid, resumed).0);
        lemma_call_keeps_timeline(before.0, ControllerCall::Pause(paused));
        lemma_call_keeps_timeline(mid, ControllerCall::Resume(resumed));
        if before.0.state is Recording {
            lemma_resume_continues_active_time(before.0, paused, resumed, 0, 0);
        } else {
            lemma_finished_recording_is_final(before.0, paused, 0, RecordingFailure::ClockMovedBackwards);
            lemma_finished_recording_is_final(mid, resumed, 0, RecordingFailure::ClockMovedBackwards);
        }
    }
}

} // verus!
