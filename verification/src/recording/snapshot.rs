//! The last published recording snapshot and the wall clock behind its
//! elapsed time. Instants are given as spans since an origin fixed by the
//! caller. While recording, a read reports at least the stored elapsed time
//! and otherwise the wall time since the start with paused spans left out.

use vstd::prelude::*;
use std::path::PathBuf;
use crate::duration::Duration;
use crate::recording::model::{RecordingFailure, RecordingState};
use crate::recording::runtime::RecordingSnapshot;
use crate::text::same_text;

verus! {

/// The wall clock of a recording: when it started, when the current pause
/// began, and how long earlier pauses lasted.
#[derive(Clone, Copy, Debug)]
pub struct SnapshotClock {
    pub started_at: Option<Duration>,
    pub paused_at: Option<Duration>,
    pub paused_total: Duration,
}

/// The clock as nanosecond counts.
pub struct ClockView {
    pub started_at: Option<nat>,
    pub paused_at: Option<nat>,
    pub paused_total: nat,
}

pub open spec fn opt_nanos(d: Option<Duration>) -> Option<nat> {
    match d {
        Some(x) => Some(x@),
        None => None,
    }
}

impl View for SnapshotClock {
    type V = ClockView;

    open spec fn view(&self) -> ClockView {
        ClockView {
            started_at: opt_nanos(self.started_at),
            paused_at: opt_nanos(self.paused_at),
            paused_total: self.paused_total@,
        }
    }
}

impl Default for SnapshotClock {
    fn default() -> (r: Self)
        ensures
            r@ == (ClockView { started_at: None, paused_at: None, paused_total: 0 }),
    {
        SnapshotClock { started_at: None, paused_at: None, paused_total: Duration::zero() }
    }
}

/// How a publication moves the clock.
#[derive(Clone, Copy, Debug)]
pub enum ClockUpdate {
    Preserve,
    Started(Duration),
    Paused(Duration),
    Resumed(Duration),
    /// The recording no longer runs: an open pause is dropped.
    Frozen,
}

/// The time from `start` to `now`, or nothing when `now` is earlier.
pub open spec fn since(now: nat, start: nat) -> nat {
    if now >= start {
        (now - start) as nat
    } else {
        0
    }
}

/// A sum of nanoseconds, capped at the largest span.
pub open spec fn capped(n: nat) -> nat {
    if n > u128::MAX {
        u128::MAX as nat
    } else {
        n
    }
}

/// The clock after an update.
pub open spec fn clock_after(c: ClockView, update: ClockUpdate) -> ClockView {
    match update {
        ClockUpdate::Preserve => c,
        ClockUpdate::Started(at) => ClockView { started_at: Some(at@), paused_at: None, paused_total: 0 },
        ClockUpdate::Paused(at) => ClockView { paused_at: Some(at@), ..c },
        ClockUpdate::Resumed(at) => match c.paused_at {
            Some(p) => ClockView { paused_at: None, paused_total: capped(c.paused_total + since(at@, p)), ..c },
            None => ClockView { paused_at: None, ..c },
        },
        ClockUpdate::Frozen => ClockView { paused_at: None, ..c },
    }
}

/// Wall time recorded at `now`: since the start, less the earlier pauses.
pub open spec fn wall_elapsed(c: ClockView, now: nat) -> nat {
    match c.started_at {
        Some(s) => since(since(now, s), c.paused_total),
        None => 0,
    }
}

/// The larger of two counts.
pub open spec fn max_nat(a: nat, b: nat) -> nat {
    if a >= b {
        a
    } else {
        b
    }
}

/// The published snapshot and its clock.
pub struct SnapshotState {
    pub value: RecordingSnapshot,
    pub clock: SnapshotClock,
}

/// The elapsed time a read at `now` reports: while recording, at least the
/// stored time and at least the wall time; otherwise the stored time.
pub open spec fn observed_elapsed(s: SnapshotState, now: nat) -> nat {
    if s.value.state is Recording && s.clock.started_at is Some {
        max_nat(s.value.elapsed@, wall_elapsed(s.clock@, now))
    } else {
        s.value.elapsed@
    }
}

/// Two failures that compare equal: the same kind, limit or message text.
pub open spec fn failure_eq(x: RecordingFailure, y: RecordingFailure) -> bool {
    match (x, y) {
        (RecordingFailure::ClockMovedBackwards, RecordingFailure::ClockMovedBackwards) => true,
        (RecordingFailure::LimitReached(p), RecordingFailure::LimitReached(q)) => p == q,
        (RecordingFailure::Storage(p), RecordingFailure::Storage(q)) => p@ == q@,
        _ => false,
    }
}

/// Two recording states that compare equal.
pub open spec fn state_eq(a: RecordingState, b: RecordingState) -> bool {
    match (a, b) {
        (RecordingState::Failed(x), RecordingState::Failed(y)) => failure_eq(x, y),
        (RecordingState::Failed(_), _) => false,
        (_, RecordingState::Failed(_)) => false,
        _ => a == b,
    }
}

/// Whether two recording states are the same.
pub fn same_state(a: &RecordingState, b: &RecordingState) -> (r: bool)
    ensures
        r == state_eq(*a, *b),
{
    match (a, b) {
        (RecordingState::Idle, RecordingState::Idle) => true,
        (RecordingState::Recording, RecordingState::Recording) => true,
        (RecordingState::Paused, RecordingState::Paused) => true,
        (RecordingState::Stopping, RecordingState::Stopping) => true,
        (RecordingState::Stopped, RecordingState::Stopped) => true,
        (RecordingState::Failed(x), RecordingState::Failed(y)) => match (x, y) {
            (RecordingFailure::ClockMovedBackwards, RecordingFailure::ClockMovedBackwards) => true,
            (RecordingFailure::LimitReached(p), RecordingFailure::LimitReached(q)) => *p == *q,
            (RecordingFailure::Storage(p), RecordingFailure::Storage(q)) => same_text(p.as_str(), q.as_str()),
            _ => false,
        },
        _ => false,
    }
}

fn clone_path(path: &Option<PathBuf>) -> (r: Option<PathBuf>)
    ensures
        r == *path,
{
    match path {
        Some(p) => Some(p.clone()),
        None => None,
    }
}

fn clone_failure(failure: &Option<RecordingFailure>) -> (r: Option<RecordingFailure>)
    ensures
        r == *failure,
{
    match failure {
        Some(f) => Some(f.clone()),
        None => None,
    }
}

/// The same snapshot with another elapsed time.
pub open spec fn same_but_elapsed(a: RecordingSnapshot, b: RecordingSnapshot) -> bool {
    &&& a.state == b.state
    &&& a.event_count == b.event_count
    &&& a.payload_bytes == b.payload_bytes
    &&& a.capture_input == b.capture_input
    &&& a.failure == b.failure
    &&& a.final_path == b.final_path
    &&& a.partial_path == b.partial_path
}

impl SnapshotState {
    /// Nothing published yet: an idle snapshot and a stopped clock.
    pub fn new() -> (r: Self)
        ensures
            r.value.state == RecordingState::Idle,
            r.value.elapsed@ == 0,
            r.value.event_count == 0,
            r.value.payload_bytes == 0,
            r.value.failure is None,
            r.clock@ == (ClockView { started_at: None, paused_at: None, paused_total: 0 }),
    {
        SnapshotState { value: RecordingSnapshot::default(), clock: SnapshotClock::default() }
    }

    /// The elapsed time a read at `now` reports.
    pub fn elapsed_at(&self, now: Duration) -> (r: Duration)
        ensures
            r@ == observed_elapsed(*self, now@),
    {
        let recording = match self.value.state {
            RecordingState::Recording => true,
            _ => false,
        };
        if recording {
            match self.clock.started_at {
                Some(started_at) => {
                    let wall = now.saturating_sub(started_at).saturating_sub(self.clock.paused_total);
                    return self.value.elapsed.longer(wall);
                },
                None => {},
            }
        }
        self.value.elapsed
    }

    /// The snapshot a read at `now` gives.
    pub fn snapshot_at(&self, now: Duration) -> (r: RecordingSnapshot)
        ensures
            same_but_elapsed(r, self.value),
            r.elapsed@ == observed_elapsed(*self, now@),
    {
        RecordingSnapshot {
            state: self.value.state.clone(),
            elapsed: self.elapsed_at(now),
            event_count: self.value.event_count,
            payload_bytes: self.value.payload_bytes,
            capture_input: self.value.capture_input,
            final_path: clone_path(&self.value.final_path),
            partial_path: clone_path(&self.value.partial_path),
            failure: clone_failure(&self.value.failure),
        }
    }

    /// Publishes `value` and moves the clock. A freeze while recording keeps
    /// the elapsed time from falling behind what a read at `now` reported.
    /// Gives whether observers are told: when the state changed, or when
    /// `force` asks for it.
    pub fn publish(&mut self, value: RecordingSnapshot, update: ClockUpdate, force: bool, now: Duration) -> (notify: bool)
        ensures
            final(self).clock@ == clock_after(old(self).clock@, update),
            same_but_elapsed(final(self).value, value),
            final(self).value.elapsed@ == (if update is Frozen && old(self).value.state is Recording {
                max_nat(value.elapsed@, observed_elapsed(*old(self), now@))
            } else {
                value.elapsed@
            }),
            notify == (!state_eq(old(self).value.state, value.state) || force),
    {
        let state_changed = !same_state(&self.value.state, &value.state);
        let mut value = value;
        match update {
            ClockUpdate::Preserve => {},
            ClockUpdate::Started(at) => {
                self.clock.started_at = Some(at);
                self.clock.paused_at = None;
                self.clock.paused_total = Duration::zero();
            },
            ClockUpdate::Paused(at) => {
                self.clock.paused_at = Some(at);
            },
            ClockUpdate::Resumed(at) => {
                match self.clock.paused_at {
                    Some(paused_at) => {
                        self.clock.paused_total = self.clock.paused_total.saturating_add(at.saturating_sub(paused_at));
                    },
                    None => {},
                }
                self.clock.paused_at = None;
            },
            ClockUpdate::Frozen => {
                let was_recording = match self.value.state {
                    RecordingState::Recording => true,
                    _ => false,
                };
                if was_recording {
                    let current = self.elapsed_at(now);
                    value.elapsed = value.elapsed.longer(current);
                }
                self.clock.paused_at = None;
            },
        }
        self.value = value;
        state_changed || force
    }

    /// Marks the recording failed at `observed_at` without telling
    /// observers: the elapsed time is what a read then reports, and an open
    /// pause is dropped.
    pub fn mark_failed_without_notification(&mut self, failure: RecordingFailure, observed_at: Duration)
        ensures
            final(self).value.state == RecordingState::Failed(failure),
            final(self).value.failure == Some(failure),
            final(self).value.elapsed@ == observed_elapsed(*old(self), observed_at@),
            final(self).value.event_count == old(self).value.event_count,
            final(self).value.payload_bytes == old(self).value.payload_bytes,
            final(self).value.capture_input == old(self).value.capture_input,
            final(self).clock@ == clock_after(old(self).clock@, ClockUpdate::Frozen),
    {
        let mut value = self.snapshot_at(observed_at);
        value.state = RecordingState::Failed(failure.clone());
        value.failure = Some(failure);
        self.value = value;
        self.clock.paused_at = None;
    }
}

/// Paused time is left out of the wall clock: a recording started at `s`,
/// paused at `p` and resumed at `r` has recorded `(p - s) + (t - r)` at any
/// later `t`.
pub proof fn lemma_pause_is_excluded(c: ClockView, s: Duration, p: Duration, r: Duration, t: nat)
    requires
        s@ <= p@ <= r@ <= t,
    ensures
        ({
            let started = clock_after(c, ClockUpdate::Started(s));
            let paused = clock_after(started, ClockUpdate::Paused(p));
            let resumed = clock_after(paused, ClockUpdate::Resumed(r));
            wall_elapsed(resumed, t) == (p@ - s@) + (t - r@)
        }),
{
    assert(r@ <= u128::MAX) by {
        crate::duration::lemma_duration_bound(r);
    }
}

} // verus!
