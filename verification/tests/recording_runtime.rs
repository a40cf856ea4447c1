use terminal::recording::model::{RecordingFailure, RecordingLimit};
use terminal::recording::runtime::{
    input_capture_active, map_control_enqueue_error, tap_outcome, tap_refusal, validate_runtime_config,
    ControlEnqueueError, ControlKind, DataEnqueueError, RecordingQueue, RecordingQueueLimits,
    RecordingRuntimeConfig, RecordingRuntimeError, RecordingSnapshot, RecordingTapOutcome,
    WorkItem,
};

fn limits(events: usize, bytes: usize) -> RecordingQueueLimits {
    RecordingQueueLimits {
        max_pending_events: events,
        max_pending_bytes: bytes,
        max_pending_controls: 4,
    }
}

fn take_data(queue: &mut RecordingQueue<&'static str, &'static str>) -> (u64, &'static str) {
    match queue.next_work() {
        WorkItem::Data(data) => (data.sequence, data.item),
        _ => panic!("expected data"),
    }
}

fn take_control(queue: &mut RecordingQueue<&'static str, &'static str>) -> (u64, ControlKind) {
    match queue.next_work() {
        WorkItem::Control(control) => (control.sequence, control.kind),
        _ => panic!("expected a control request"),
    }
}

#[test]
fn inactive_queue_has_no_queue_or_payload_side_effects() {
    let mut queue: RecordingQueue<&'static str, &'static str> =
        RecordingQueue::new(limits(4, 64));
    assert_eq!(
        queue.enqueue_data(5, false, "output"),
        Err(DataEnqueueError::Inactive)
    );
    let snapshot = queue.snapshot();
    assert_eq!((snapshot.pending_events, snapshot.pending_bytes), (0, 0));
    assert!(matches!(queue.next_work(), WorkItem::Idle));
    assert_eq!(
        tap_outcome(Err(DataEnqueueError::Inactive)),
        RecordingTapOutcome::Inactive
    );
}

#[test]
fn events_and_controls_are_served_in_acceptance_order() {
    let mut queue: RecordingQueue<&'static str, &'static str> =
        RecordingQueue::new(limits(8, 64));
    queue.enqueue_control(ControlKind::Start, "start").unwrap();
    queue.enable_recording(false);
    queue.enqueue_data(1, false, "a").unwrap();
    queue.enqueue_control(ControlKind::Pause, "pause").unwrap();
    assert_eq!(
        queue.enqueue_data(1, false, "dropped"),
        Err(DataEnqueueError::Inactive)
    );
    queue.enqueue_control(ControlKind::Resume, "resume").unwrap();
    queue.enable_recording(false);
    queue.enqueue_data(1, false, "b").unwrap();

    assert_eq!(take_control(&mut queue), (0, ControlKind::Start));
    assert_eq!(take_data(&mut queue), (1, "a"));
    assert_eq!(take_control(&mut queue), (2, ControlKind::Pause));
    assert_eq!(take_control(&mut queue), (3, ControlKind::Resume));
    assert_eq!(take_data(&mut queue), (4, "b"));
    assert!(matches!(queue.next_work(), WorkItem::Idle));
}

#[test]
fn input_capture_is_never_queued_without_explicit_opt_in() {
    let mut queue: RecordingQueue<&'static str, &'static str> =
        RecordingQueue::new(limits(8, 64));
    queue.enable_recording(false);
    assert!(!input_capture_active(
        queue.is_closed(),
        queue.is_accepting(),
        queue.is_capturing_input()
    ));
    assert_eq!(
        queue.enqueue_data(3, true, "input"),
        Err(DataEnqueueError::InputDisabled)
    );
    assert_eq!(queue.snapshot().pending_events, 0);
    queue.enable_recording(true);
    assert!(queue.is_capturing_input());
    assert_eq!(queue.enqueue_data(3, true, "input"), Ok(()));
}

#[test]
fn pending_byte_overflow_fails_closed_without_blocking_the_producer() {
    let mut queue: RecordingQueue<&'static str, &'static str> =
        RecordingQueue::new(limits(8, 10));
    queue.enable_recording(false);
    queue.enqueue_data(6, false, "a").unwrap();
    assert_eq!(
        queue.enqueue_data(6, false, "b"),
        Err(DataEnqueueError::Limit(RecordingLimit::PendingBytes))
    );
    assert!(!queue.is_accepting());
    assert!(matches!(
        queue.next_work(),
        WorkItem::Failure(RecordingFailure::LimitReached(RecordingLimit::PendingBytes))
    ));
    assert!(!queue.has_pending_failure());
    assert!(matches!(queue.next_work(), WorkItem::Idle));
    assert_eq!(queue.snapshot().peak_pending_bytes, 6);
}

#[test]
fn pending_event_overflow_counts_in_flight_writer_work() {
    let mut queue: RecordingQueue<&'static str, &'static str> =
        RecordingQueue::new(limits(1, 64));
    queue.enable_recording(false);
    queue.enqueue_data(2, false, "a").unwrap();
    let _ = take_data(&mut queue);
    assert_eq!(
        queue.enqueue_data(2, false, "b"),
        Err(DataEnqueueError::Limit(RecordingLimit::PendingEvents))
    );
    queue.finish_data(2);
    assert_eq!(queue.snapshot().pending_events, 0);
}

#[test]
fn shutdown_refuses_later_requests_and_returns_queued_controls() {
    let mut queue: RecordingQueue<&'static str, &'static str> =
        RecordingQueue::new(limits(8, 64));
    queue.enqueue_control(ControlKind::Shutdown, "shutdown").unwrap();
    assert_eq!(
        queue.enqueue_control(ControlKind::Stop, "stop"),
        Err(ControlEnqueueError::ShuttingDown)
    );
    let leftovers = queue.finish_shutdown();
    assert_eq!(leftovers.len(), 1);
    assert_eq!(
        queue.enqueue_control(ControlKind::Stop, "stop"),
        Err(ControlEnqueueError::Closed)
    );
    assert_eq!(
        queue.enqueue_data(1, false, "x"),
        Err(DataEnqueueError::Closed)
    );
    assert!(matches!(queue.next_work(), WorkItem::Abort));
    assert!(queue.abort().is_empty() || queue.is_closed());
    assert!(queue.abort().is_empty());
}

#[test]
fn control_queue_is_bounded_and_errors_map_to_runtime_errors() {
    let mut queue: RecordingQueue<&'static str, &'static str> =
        RecordingQueue::new(limits(8, 64));
    for _ in 0..4 {
        queue.enqueue_control(ControlKind::Resume, "resume").unwrap();
    }
    assert_eq!(
        queue.enqueue_control(ControlKind::Resume, "resume"),
        Err(ControlEnqueueError::Full)
    );
    assert_eq!(
        map_control_enqueue_error(ControlEnqueueError::Full),
        RecordingRuntimeError::ControlQueueFull
    );
    assert_eq!(
        map_control_enqueue_error(ControlEnqueueError::ShuttingDown),
        RecordingRuntimeError::WorkerStopped
    );
    assert_eq!(
        RecordingRuntimeError::Closed.message(),
        "recording runtime is closed"
    );
    assert_eq!(
        RecordingRuntimeError::Recording(RecordingFailure::LimitReached(
            RecordingLimit::PendingEvents
        ))
        .message(),
        "recording_pending_events_limit_reached"
    );
}

#[test]
fn runtime_config_needs_positive_queue_bounds() {
    assert!(validate_runtime_config(&RecordingRuntimeConfig::default()).is_ok());
    let mut config = RecordingRuntimeConfig::default();
    config.queue.max_pending_bytes = 0;
    assert_eq!(
        validate_runtime_config(&config),
        Err(RecordingRuntimeError::InvalidConfig(
            "max_pending_bytes must be greater than zero".to_string()
        ))
    );
    let snapshot = RecordingSnapshot::default();
    assert_eq!(snapshot.event_count, 0);
    assert!(snapshot.failure.is_none());
}

#[test]
fn queued_items_come_back_in_the_order_they_were_offered() {
    let mut queue: RecordingQueue<&'static str, &'static str> =
        RecordingQueue::new(limits(8, 64));
    queue.enable_recording(false);
    queue.enqueue_data(2, false, "first").unwrap();
    queue.enqueue_data(2, false, "second").unwrap();
    queue.enqueue_data(2, false, "third").unwrap();
    assert_eq!(take_data(&mut queue).1, "first");
    assert_eq!(take_data(&mut queue).1, "second");
    assert_eq!(take_data(&mut queue).1, "third");
}

#[test]
fn producers_are_refused_before_building_an_event() {
    assert_eq!(tap_refusal(true, true, true, false), Some(DataEnqueueError::Closed));
    assert_eq!(tap_refusal(false, false, true, false), Some(DataEnqueueError::Inactive));
    assert_eq!(tap_refusal(false, true, false, true), Some(DataEnqueueError::InputDisabled));
    assert_eq!(tap_refusal(false, true, false, false), None);
    assert_eq!(tap_refusal(false, true, true, true), None);
}
