use terminal::telnet::TelnetDisconnectReason;
use terminal::telnet_expect::TelnetLoginScript;
use terminal::telnet_expect::TelnetLoginStep;
use terminal::telnet_worker::delivery_decision;
use terminal::telnet_worker::held_delivery_decision;
use terminal::telnet_worker::TelnetAction;
use terminal::telnet_worker::TelnetDeliveryDecision;
use terminal::telnet_worker::TelnetDeliveryOutcome;
use terminal::telnet_worker::TelnetWorker;
use terminal::telnet_worker::TelnetWriteOperation;

const IAC: u8 = 255;
const DO: u8 = 253;
const WILL: u8 = 251;
const SB: u8 = 250;
const SE: u8 = 240;
const NAWS: u8 = 31;

fn worker(steps: &[(&str, &str)]) -> TelnetWorker {
    let steps: Vec<TelnetLoginStep> = steps
        .iter()
        .map(|(expect, send)| TelnetLoginStep {
            expect: expect.to_string(),
            send: send.to_string(),
        })
        .collect();
    TelnetWorker::new(TelnetLoginScript::new(&steps).unwrap())
}

fn write(bytes: &[u8], operation: TelnetWriteOperation) -> TelnetAction {
    TelnetAction::Write {
        bytes: bytes.to_vec(),
        operation,
    }
}

#[test]
fn plain_output_is_delivered_without_writes() {
    let mut worker = worker(&[]);
    assert_eq!(worker.receive(b"hello"), vec![TelnetAction::Deliver(b"hello".to_vec())]);
    assert!(worker.receive(b"").is_empty());
}

#[test]
fn negotiation_replies_are_written_after_committing_a_held_cr() {
    let mut worker = worker(&[]);
    let actions = worker.receive(&[b'a', IAC, DO, NAWS]);
    assert_eq!(
        actions,
        vec![
            TelnetAction::CancelCrFlush,
            write(&[IAC, WILL, NAWS], TelnetWriteOperation::NegotiationReply),
            TelnetAction::CancelCrFlush,
            write(&[IAC, SB, NAWS, 0, 80, 0, 24, IAC, SE], TelnetWriteOperation::NegotiationReply),
            TelnetAction::Deliver(b"a".to_vec()),
        ]
    );
}

#[test]
fn login_script_replies_are_sent_as_unrecorded_client_data() {
    let mut worker = worker(&[("login:", "admin")]);
    let actions = worker.receive(b"login:");
    assert_eq!(
        actions,
        vec![
            TelnetAction::Deliver(b"login:".to_vec()),
            write(b"admin", TelnetWriteOperation::LoginScript),
            TelnetAction::ArmCrFlush,
        ]
    );
    assert!(worker.login_complete());
    assert!(worker.has_pending_cr());
    assert_eq!(
        worker.flush_pending_cr(),
        vec![write(&[13, 0], TelnetWriteOperation::CrFlush), TelnetAction::CancelCrFlush]
    );
    assert!(!worker.has_pending_cr());
}

#[test]
fn recordable_input_is_recorded_and_cr_lf_survives_a_split_write() {
    let mut worker = worker(&[]);
    assert_eq!(
        worker.write_user_input(b"ls\r", true),
        vec![
            write(b"ls", TelnetWriteOperation::UserInput),
            TelnetAction::RecordInput(b"ls".to_vec()),
            TelnetAction::ArmCrFlush,
        ]
    );
    assert_eq!(
        worker.write_user_input(b"\n", true),
        vec![
            write(&[13, 10], TelnetWriteOperation::UserInput),
            TelnetAction::RecordInput(vec![13, 10]),
            TelnetAction::CancelCrFlush,
        ]
    );
}

#[test]
fn a_held_cr_of_another_recording_kind_is_committed_on_its_own() {
    let mut worker = worker(&[]);
    worker.write_user_input(b"\r", true);
    assert_eq!(
        worker.write_terminal_response(b"x"),
        vec![
            write(&[13, 0], TelnetWriteOperation::CrFlush),
            TelnetAction::RecordInput(vec![13, 0]),
            TelnetAction::CancelCrFlush,
            write(b"x", TelnetWriteOperation::TerminalResponse),
            TelnetAction::CancelCrFlush,
        ]
    );
}

#[test]
fn empty_client_data_changes_nothing() {
    let mut worker = worker(&[]);
    worker.write_user_input(b"\r", false);
    assert!(worker.write_user_input(b"", true).is_empty());
    assert!(worker.has_pending_cr());
}

#[test]
fn resize_is_announced_only_after_naws_is_enabled() {
    let mut worker = worker(&[]);
    assert!(worker.resize(100, 40).is_empty());
    worker.receive(&[IAC, DO, NAWS]);
    assert_eq!(
        worker.resize(1, 300),
        vec![
            TelnetAction::CancelCrFlush,
            write(&[IAC, SB, NAWS, 0, 2, 1, 44, IAC, SE], TelnetWriteOperation::NawsUpdate),
        ]
    );
}

#[test]
fn delivery_outcomes_decide_how_the_session_goes_on() {
    assert!(matches!(delivery_decision(TelnetDeliveryOutcome::Delivered), TelnetDeliveryDecision::Continue));
    assert!(matches!(
        delivery_decision(TelnetDeliveryOutcome::Full("full".to_string())),
        TelnetDeliveryDecision::HoldReads
    ));
    assert!(matches!(
        delivery_decision(TelnetDeliveryOutcome::Closed),
        TelnetDeliveryDecision::Stop(TelnetDisconnectReason::Shutdown)
    ));
    match delivery_decision(TelnetDeliveryOutcome::Rejected("too big".to_string())) {
        TelnetDeliveryDecision::Stop(TelnetDisconnectReason::OutputQueue(message)) => assert_eq!(message, "too big"),
        _ => panic!("a rejected delivery ends the session"),
    }
    match held_delivery_decision(TelnetDeliveryOutcome::Full("still full".to_string())) {
        TelnetDeliveryDecision::Stop(TelnetDisconnectReason::OutputQueue(message)) => assert_eq!(message, "still full"),
        _ => panic!("a held delivery that fails ends the session"),
    }
    assert!(matches!(held_delivery_decision(TelnetDeliveryOutcome::Delivered), TelnetDeliveryDecision::Continue));
}

#[test]
fn write_operations_have_their_names() {
    assert_eq!(TelnetWriteOperation::CrFlush.label(), "NVT CR flush");
    assert_eq!(TelnetWriteOperation::NawsUpdate.label(), "NAWS 窗口尺寸更新");
}
