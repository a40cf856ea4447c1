use std::path::PathBuf;
use terminal::duration::Duration;
use terminal::recording::model::RecordingConfig;
use terminal::recording::model::RecordingEventKind;
use terminal::recording::model::RecordingFailure;
use terminal::recording::model::RecordingLimit;
use terminal::recording::model::RecordingState;
use terminal::recording::model::RecordingTransition;
use terminal::recording::runtime::RecordingRuntimeError;
use terminal::recording::snapshot::ClockUpdate;
use terminal::recording::snapshot::SnapshotState;
use terminal::recording::runtime::ControlEnqueueError;
use terminal::recording::worker::create_failure_snapshot;
use terminal::recording::worker::refused_control_result;
use terminal::recording::worker::stop_result_from_snapshot;
use terminal::recording::worker::failed_snapshot;
use terminal::recording::worker::result_from_snapshot;
use terminal::recording::worker::shutdown_result;
use terminal::recording::worker::start_is_redundant;
use terminal::recording::worker::ControlReply;
use terminal::recording::worker::WorkerEffect;
use terminal::recording::worker::WorkerSession;

fn ms(n: u64) -> Duration {
    Duration::from_millis(n)
}

fn session(capture_input: bool) -> WorkerSession {
    let config = RecordingConfig {
        capture_input,
        ..RecordingConfig::default()
    };
    let (session, effects, result) = WorkerSession::begin(
        config,
        ms(1_000),
        PathBuf::from("a.cast"),
        PathBuf::from("a.cast.partial"),
    );
    assert_eq!(result, Ok(RecordingTransition::Changed));
    assert!(matches!(effects[0], WorkerEffect::EnableRecording(c) if c == capture_input));
    match &effects[1] {
        WorkerEffect::Publish(snapshot, ClockUpdate::Started(at), true) => {
            assert_eq!(*at, ms(1_000));
            assert_eq!(snapshot.state, RecordingState::Recording);
        }
        _ => panic!("a started session is published"),
    }
    session
}

#[test]
fn snapshot_reads_exclude_paused_wall_time() {
    let mut shared = SnapshotState::new();
    let mut value = shared.snapshot_at(ms(0));
    value.state = RecordingState::Recording;
    assert!(shared.publish(value.clone(), ClockUpdate::Started(ms(100)), true, ms(100)));
    assert_eq!(shared.snapshot_at(ms(400)).elapsed, ms(300));
    let mut paused = value.clone();
    paused.state = RecordingState::Paused;
    paused.elapsed = ms(300);
    assert!(shared.publish(paused, ClockUpdate::Paused(ms(400)), true, ms(400)));
    assert_eq!(shared.snapshot_at(ms(900)).elapsed, ms(300));
    let mut resumed = value.clone();
    resumed.elapsed = ms(300);
    assert!(shared.publish(resumed, ClockUpdate::Resumed(ms(1_000)), true, ms(1_000)));
    assert_eq!(shared.snapshot_at(ms(1_250)).elapsed, ms(550));
}

#[test]
fn publishing_notifies_on_state_change_or_when_forced() {
    let mut shared = SnapshotState::new();
    let same = shared.snapshot_at(ms(0));
    assert!(!shared.publish(same.clone(), ClockUpdate::Preserve, false, ms(0)));
    assert!(shared.publish(same, ClockUpdate::Preserve, true, ms(0)));
}

#[test]
fn freezing_a_running_recording_keeps_the_elapsed_time_it_showed() {
    let mut shared = SnapshotState::new();
    let mut value = shared.snapshot_at(ms(0));
    value.state = RecordingState::Recording;
    shared.publish(value.clone(), ClockUpdate::Started(ms(0)), true, ms(0));
    let mut stopped = value.clone();
    stopped.state = RecordingState::Stopped;
    stopped.elapsed = ms(10);
    shared.publish(stopped, ClockUpdate::Frozen, true, ms(700));
    assert_eq!(shared.snapshot_at(ms(5_000)).elapsed, ms(700));
}

#[test]
fn failure_marking_keeps_the_observed_elapsed_time() {
    let mut shared = SnapshotState::new();
    let mut value = shared.snapshot_at(ms(0));
    value.state = RecordingState::Recording;
    shared.publish(value, ClockUpdate::Started(ms(0)), true, ms(0));
    shared.mark_failed_without_notification(RecordingFailure::ClockMovedBackwards, ms(250));
    let snapshot = shared.snapshot_at(ms(9_000));
    assert_eq!(snapshot.state, RecordingState::Failed(RecordingFailure::ClockMovedBackwards));
    assert_eq!(snapshot.failure, Some(RecordingFailure::ClockMovedBackwards));
    assert_eq!(snapshot.elapsed, ms(250));
}

#[test]
fn session_records_on_its_own_monotonic_clock() {
    let mut session = session(false);
    let event = session
        .record(ms(1_500), RecordingEventKind::Output(b"hi".to_vec()))
        .ok()
        .unwrap()
        .unwrap();
    assert_eq!(event.elapsed, ms(500));
    let event = session
        .record(ms(1_200), RecordingEventKind::Output(b"late".to_vec()))
        .ok()
        .unwrap()
        .unwrap();
    assert_eq!(event.elapsed, ms(500));
    assert!(session
        .record(ms(1_600), RecordingEventKind::Input(b"pw".to_vec()))
        .ok()
        .unwrap()
        .is_none());
    let effects = session.finish_append(Ok(()));
    assert!(matches!(&effects[0], WorkerEffect::Publish(s, ClockUpdate::Preserve, false) if s.event_count == 2));
}

#[test]
fn pause_waits_for_the_flush_then_publishes() {
    let mut session = session(true);
    assert!(matches!(session.pause(ms(2_000)), Ok(None)));
    let (effects, result) = session.finish_pause(ms(2_000), Ok(()));
    assert_eq!(result, Ok(RecordingTransition::Changed));
    assert!(matches!(&effects[0], WorkerEffect::Publish(s, ClockUpdate::Paused(_), true) if s.state == RecordingState::Paused));
    match session.pause(ms(2_100)) {
        Ok(Some(effects)) => assert!(matches!(&effects[0], WorkerEffect::Publish(_, ClockUpdate::Preserve, false))),
        _ => panic!("a second pause changes nothing"),
    }
    let (effects, reply) = session.resume(ms(3_000));
    assert!(matches!(reply, ControlReply::Ready(Ok(RecordingTransition::Changed))));
    assert!(matches!(effects[0], WorkerEffect::EnableRecording(true)));
    assert!(matches!(&effects[1], WorkerEffect::Publish(_, ClockUpdate::Resumed(_), true)));
}

#[test]
fn failed_flush_fails_the_recording() {
    let mut session = session(false);
    assert!(matches!(session.pause(ms(2_000)), Ok(None)));
    let (effects, result) = session.finish_pause(ms(2_000), Err("disk full".to_string()));
    let failure = RecordingFailure::Storage("disk full".to_string());
    assert_eq!(result, Err(RecordingRuntimeError::Recording(failure.clone())));
    assert!(matches!(effects[0], WorkerEffect::DisableRecording));
    assert!(matches!(&effects[1], WorkerEffect::Publish(s, ClockUpdate::Frozen, true) if s.failure == Some(failure.clone())));
    match session.stop(ms(3_000)) {
        Err((effects, ControlReply::Ready(Err(RecordingRuntimeError::Recording(f))))) => {
            assert!(effects.is_empty());
            assert_eq!(f, failure);
        }
        _ => panic!("a failed session answers its failure"),
    }
}

#[test]
fn stop_publishes_stopping_then_stopped_and_is_idempotent() {
    let mut session = session(false);
    let effects = session.stop(ms(4_000)).ok().unwrap();
    assert!(matches!(&effects[0], WorkerEffect::Publish(s, ClockUpdate::Frozen, true) if s.state == RecordingState::Stopping));
    let (effects, result) = session.finish_stop(Ok(()));
    assert_eq!(result, Ok(RecordingTransition::Changed));
    assert!(matches!(effects[0], WorkerEffect::DisableRecording));
    assert!(matches!(&effects[1], WorkerEffect::Publish(s, ClockUpdate::Frozen, true) if s.state == RecordingState::Stopped));
    assert!(matches!(
        session.stop(ms(5_000)),
        Err((_, ControlReply::Ready(Ok(RecordingTransition::Unchanged))))
    ));
}

#[test]
fn duration_limit_fails_data_with_frozen_effects() {
    let mut config = RecordingConfig::default();
    config.limits.max_duration = ms(100);
    let (mut session, _, _) =
        WorkerSession::begin(config, ms(0), PathBuf::from("b.cast"), PathBuf::from("b.cast.partial"));
    match session.record(ms(500), RecordingEventKind::Output(b"x".to_vec())) {
        Err(effects) => {
            assert!(matches!(effects[0], WorkerEffect::DisableRecording));
            assert!(matches!(&effects[1], WorkerEffect::Publish(s, ClockUpdate::Frozen, true)
                if s.state == RecordingState::Failed(RecordingFailure::LimitReached(RecordingLimit::Duration))));
        }
        Ok(_) => panic!("an event past the duration limit fails the recording"),
    }
}

#[test]
fn start_and_shutdown_answers() {
    let running = Some(session(false));
    assert!(start_is_redundant(&running));
    assert!(!start_is_redundant(&None));
    assert_eq!(
        shutdown_result(Err(RecordingRuntimeError::Recording(RecordingFailure::ClockMovedBackwards))),
        Ok(RecordingTransition::Unchanged)
    );
    assert_eq!(shutdown_result(Err(RecordingRuntimeError::Closed)), Err(RecordingRuntimeError::Closed));
    let failed = failed_snapshot(RecordingFailure::ClockMovedBackwards);
    assert_eq!(
        result_from_snapshot(&failed),
        Err(RecordingRuntimeError::Recording(RecordingFailure::ClockMovedBackwards))
    );
    let (snapshot, result) =
        create_failure_snapshot("denied".to_string(), true, PathBuf::from("c.cast"), None);
    assert!(snapshot.capture_input);
    assert!(snapshot.partial_path.is_none());
    assert_eq!(
        result,
        Err(RecordingRuntimeError::Recording(RecordingFailure::Storage("denied".to_string())))
    );
}

#[test]
fn refused_requests_answer_from_the_published_state() {
    let mut snapshot = failed_snapshot(RecordingFailure::ClockMovedBackwards);
    assert_eq!(
        stop_result_from_snapshot(&snapshot),
        Err(RecordingRuntimeError::Recording(RecordingFailure::ClockMovedBackwards))
    );
    snapshot.state = RecordingState::Stopped;
    assert_eq!(stop_result_from_snapshot(&snapshot), Ok(RecordingTransition::Unchanged));
    snapshot.state = RecordingState::Recording;
    assert_eq!(stop_result_from_snapshot(&snapshot), Err(RecordingRuntimeError::Closed));
    assert_eq!(
        refused_control_result(ControlEnqueueError::ShuttingDown, &RecordingState::Stopped),
        Ok(RecordingTransition::Unchanged)
    );
    assert_eq!(
        refused_control_result(ControlEnqueueError::ShuttingDown, &RecordingState::Paused),
        Err(RecordingRuntimeError::WorkerStopped)
    );
    assert_eq!(
        refused_control_result(ControlEnqueueError::Full, &RecordingState::Recording),
        Err(RecordingRuntimeError::ControlQueueFull)
    );
}
