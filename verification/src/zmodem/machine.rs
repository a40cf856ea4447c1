//! The `zmodem2` protocol state machines, reached through one small wrapper
//! per call. Their state is opaque here; what they ask for next comes back
//! as a `ZmodemAction` of plain values.

use vstd::prelude::*;
use zmodem2::{Action, Event, FileInfo, Position, Receiver, Sender};

verus! {

#[verifier::external_type_specification]
#[verifier::external_body]
pub struct ExZmodemSender(zmodem2::Sender);

#[verifier::external_type_specification]
#[verifier::external_body]
pub struct ExZmodemReceiver(zmodem2::Receiver);

/// What a state machine asks of its caller next.
#[derive(Clone, Debug, PartialEq, Eq)]
pub enum ZmodemAction {
    /// Write these bytes to the transport.
    WriteWire(Vec<u8>),
    /// Read at most `max_len` file bytes at `offset` (senders).
    ReadFile { offset: u32, max_len: usize },
    /// Persist these received file bytes (receivers).
    WriteFile(Vec<u8>),
    /// The remote side offers a file.
    FileStarted { name: Vec<u8>, size: Option<u32> },
    FileCompleted,
    SessionCompleted,
    Aborted,
    /// A protocol event this library does not know.
    OtherEvent,
    /// Nothing to do until more wire input or a timeout.
    Idle,
    /// An action this library does not know.
    Other,
}

/// `Sender::new`; `None` where it failed. The sender's state is opaque, so
/// nothing is stated of it.
#[verifier::external_body]
pub(crate) fn sender_new() -> (r: Option<Sender>) {
    match Sender::new() {
        Ok(sender) => Some(sender),
        Err(_) => None,
    }
}

/// `Sender::set_streaming_window`.
#[verifier::external_body]
pub(crate) fn sender_set_streaming_window(sender: &mut Sender, subpackets: usize) {
    sender.set_streaming_window(subpackets)
}

/// `Sender::start_file` for a file of the given name and size; `true` where
/// it returned `Ok`. Nothing is stated of the outcome.
#[verifier::external_body]
pub(crate) fn sender_start_file(sender: &mut Sender, name: &[u8], size: u32) -> (r: bool) {
    sender.start_file(FileInfo::new(name, Some(Position::new(size)))).is_ok()
}

/// `Sender::finish`; `true` where it returned `Ok`. Nothing is stated of the
/// outcome.
#[verifier::external_body]
pub(crate) fn sender_finish(sender: &mut Sender) -> (r: bool) {
    sender.finish().is_ok()
}

/// `Sender::submit_file`; `true` where it returned `Ok`. Nothing is stated of
/// the outcome.
#[verifier::external_body]
pub(crate) fn sender_submit_file(sender: &mut Sender, data: &[u8]) -> (r: bool) {
    sender.submit_file(data).is_ok()
}

/// `Sender::submit_wire`: how many of `bytes` it consumed, `None` where it
/// failed. It reads the bytes front to back and never past their end.
#[verifier::external_body]
pub(crate) fn sender_submit_wire(sender: &mut Sender, bytes: &[u8]) -> (r: Option<usize>)
    ensures
        r matches Some(n) ==> n <= bytes@.len(),
{
    sender.submit_wire(bytes).ok()
}

/// `Sender::wire_written`.
#[verifier::external_body]
pub(crate) fn sender_wire_written(sender: &mut Sender, n: usize) {
    sender.wire_written(n)
}

/// `Sender::timeout`; `true` where it returned `Ok`. Nothing is stated of the
/// outcome.
#[verifier::external_body]
pub(crate) fn sender_timeout(sender: &mut Sender) -> (r: bool) {
    sender.timeout().is_ok()
}

/// `Sender::poll`, as plain values. Bytes to write are never empty. What it
/// asks for depends on the sender's state, so nothing more is stated.
#[verifier::external_body]
pub(crate) fn sender_poll(sender: &mut Sender) -> (r: ZmodemAction)
    ensures
        r matches ZmodemAction::WriteWire(bytes) ==> bytes@.len() > 0,
{
    match sender.poll() {
        Action::WriteWire(bytes) => ZmodemAction::WriteWire(bytes.to_vec()),
        Action::ReadFile { offset, max_len } => ZmodemAction::ReadFile { offset: offset.get(), max_len },
        Action::WriteFile(bytes) => ZmodemAction::WriteFile(bytes.to_vec()),
        Action::Event(Event::FileStarted(info)) => ZmodemAction::FileStarted {
            name: info.name.to_vec(),
            size: info.size.map(Position::get),
        },
        Action::Event(Event::FileCompleted) => ZmodemAction::FileCompleted,
        Action::Event(Event::SessionCompleted) => ZmodemAction::SessionCompleted,
        Action::Event(Event::Aborted) => ZmodemAction::Aborted,
        Action::Event(_) => ZmodemAction::OtherEvent,
        Action::Idle => ZmodemAction::Idle,
        _ => ZmodemAction::Other,
    }
}

/// `Receiver::new`; `None` where it failed. The receiver's state is opaque,
/// so nothing is stated of it.
#[verifier::external_body]
pub(crate) fn receiver_new() -> (r: Option<Receiver>) {
    match Receiver::new() {
        Ok(receiver) => Some(receiver),
        Err(_) => None,
    }
}

/// `Receiver::submit_wire`: how many of `bytes` it consumed, `None` where it
/// failed. It reads the bytes front to back and never past their end.
#[verifier::external_body]
pub(crate) fn receiver_submit_wire(receiver: &mut Receiver, bytes: &[u8]) -> (r: Option<usize>)
    ensures
        r matches Some(n) ==> n <= bytes@.len(),
{
    receiver.submit_wire(bytes).ok()
}

/// `Receiver::wire_written`.
#[verifier::external_body]
pub(crate) fn receiver_wire_written(receiver: &mut Receiver, n: usize) {
    receiver.wire_written(n)
}

/// `Receiver::file_written`; `true` where it returned `Ok`. Nothing is stated
/// of the outcome.
#[verifier::external_body]
pub(crate) fn receiver_file_written(receiver: &mut Receiver, n: usize) -> (r: bool) {
    receiver.file_written(n).is_ok()
}

/// `Receiver::timeout`; `true` where it returned `Ok`. Nothing is stated of
/// the outcome.
#[verifier::external_body]
pub(crate) fn receiver_timeout(receiver: &mut Receiver) -> (r: bool) {
    receiver.timeout().is_ok()
}

/// `Receiver::poll`, as plain values. Bytes to write or to persist are never
/// empty. What it asks for depends on the receiver's state, so nothing more
/// is stated.
#[verifier::external_body]
pub(crate) fn receiver_poll(receiver: &mut Receiver) -> (r: ZmodemAction)
    ensures
        r matches ZmodemAction::WriteWire(bytes) ==> bytes@.len() > 0,
        r matches ZmodemAction::WriteFile(bytes) ==> bytes@.len() > 0,
{
    match receiver.poll() {
        Action::WriteWire(bytes) => ZmodemAction::WriteWire(bytes.to_vec()),
        Action::ReadFile { offset, max_len } => ZmodemAction::ReadFile { offset: offset.get(), max_len },
        Action::WriteFile(bytes) => ZmodemAction::WriteFile(bytes.to_vec()),
        Action::Event(Event::FileStarted(info)) => ZmodemAction::FileStarted {
            name: info.name.to_vec(),
            size: info.size.map(Position::get),
        },
        Action::Event(Event::FileCompleted) => ZmodemAction::FileCompleted,
        Action::Event(Event::SessionCompleted) => ZmodemAction::SessionCompleted,
        Action::Event(Event::Aborted) => ZmodemAction::Aborted,
        Action::Event(_) => ZmodemAction::OtherEvent,
        Action::Idle => ZmodemAction::Idle,
        _ => ZmodemAction::Other,
    }
}

} // verus!
