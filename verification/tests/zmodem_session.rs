use std::collections::VecDeque;

use terminal::zmodem::machine::ZmodemAction;
use terminal::zmodem::progress::{ZmodemTransferDirection, ZmodemTransferId};
use terminal::zmodem::session::{
    DownloadSession, DownloadStep, UploadFileEntry, UploadSession, UploadStep, ZmodemSessionError,
};
use terminal::zmodem::tracker::ZmodemProgressError;
use terminal::zmodem::transfer::{needs_terminator_bytes, strip_hex_header_terminator, strip_session_trailer};
use zmodem2::{Action, Event, FileInfo, Position, Receiver, Sender};

/// A remote `rz`: a ZMODEM receiver behind an in-memory channel.
struct ReceiverPeer {
    receiver: Receiver,
    pending: Vec<u8>,
    outgoing: VecDeque<Vec<u8>>,
    received: Vec<u8>,
    session_complete: bool,
    trailing: Vec<u8>,
}

impl ReceiverPeer {
    fn new(trailing: Vec<u8>) -> (Self, Vec<u8>) {
        let mut receiver = Receiver::new().expect("receiver");
        let initial = match receiver.poll() {
            Action::WriteWire(bytes) => bytes.to_vec(),
            action => panic!("expected receiver handshake, got {action:?}"),
        };
        receiver.wire_written(initial.len());
        (
            ReceiverPeer {
                receiver,
                pending: Vec::new(),
                outgoing: VecDeque::new(),
                received: Vec::new(),
                session_complete: false,
                trailing,
            },
            initial,
        )
    }

    fn drive(&mut self) {
        let mut response = Vec::new();
        loop {
            match self.receiver.poll() {
                Action::WriteWire(bytes) => {
                    let len = bytes.len();
                    response.extend_from_slice(bytes);
                    self.receiver.wire_written(len);
                }
                Action::WriteFile(bytes) => {
                    let len = bytes.len();
                    self.received.extend_from_slice(bytes);
                    self.receiver.file_written(len).expect("file written");
                }
                Action::Event(Event::SessionCompleted) => self.session_complete = true,
                Action::Event(Event::Aborted) => panic!("receiver aborted"),
                Action::Event(_) => {}
                Action::Idle => {
                    if self.pending.is_empty() {
                        break;
                    }
                    let consumed = self.receiver.submit_wire(&self.pending).expect("submit");
                    if consumed == 0 {
                        break;
                    }
                    self.pending.drain(..consumed);
                }
                Action::ReadFile { .. } => panic!("receiver requested file data"),
                _ => {}
            }
        }
        if self.session_complete {
            response.extend(std::mem::take(&mut self.trailing));
        }
        if !response.is_empty() {
            self.outgoing.push_back(response);
        }
    }

    fn send(&mut self, data: &[u8]) {
        self.pending.extend_from_slice(data);
        self.drive();
    }

    fn recv(&mut self) -> Option<Vec<u8>> {
        self.drive();
        self.outgoing.pop_front()
    }
}

/// A remote `sz`: a ZMODEM sender offering one file.
struct SenderPeer {
    sender: Sender,
    payload: Vec<u8>,
    pending: Vec<u8>,
    outgoing: VecDeque<Vec<u8>>,
    session_complete: bool,
    trailing: Vec<u8>,
}

impl SenderPeer {
    fn new(payload: Vec<u8>, trailing: Vec<u8>) -> (Self, Vec<u8>) {
        let mut sender = Sender::new().expect("sender");
        sender
            .start_file(FileInfo::new(b"remote.bin", Some(Position::new(payload.len() as u32))))
            .expect("start file");
        let initial = match sender.poll() {
            Action::WriteWire(bytes) => bytes.to_vec(),
            action => panic!("expected sender handshake, got {action:?}"),
        };
        sender.wire_written(initial.len());
        (
            SenderPeer {
                sender,
                payload,
                pending: Vec::new(),
                outgoing: VecDeque::new(),
                session_complete: false,
                trailing,
            },
            initial,
        )
    }

    fn drive(&mut self) {
        let mut response = Vec::new();
        loop {
            let mut idle = false;
            match self.sender.poll() {
                Action::WriteWire(bytes) => {
                    let len = bytes.len();
                    response.extend_from_slice(bytes);
                    self.sender.wire_written(len);
                }
                Action::ReadFile { offset, max_len } => {
                    let start = offset.get() as usize;
                    let end = (start + max_len).min(self.payload.len());
                    self.sender.submit_file(&self.payload[start..end]).expect("submit file");
                }
                Action::Event(Event::FileCompleted) => self.sender.finish().expect("finish"),
                Action::Event(Event::SessionCompleted) => self.session_complete = true,
                Action::Event(Event::Aborted) => panic!("sender aborted"),
                Action::Event(_) => {}
                Action::Idle => idle = true,
                Action::WriteFile(_) => panic!("sender wrote file data"),
                _ => {}
            }
            if idle {
                if self.pending.is_empty() {
                    break;
                }
                let consumed = self.sender.submit_wire(&self.pending).expect("submit");
                if consumed == 0 {
                    break;
                }
                self.pending.drain(..consumed);
            }
        }
        if self.session_complete && response.ends_with(b"OO") {
            response.extend(std::mem::take(&mut self.trailing));
        }
        if !response.is_empty() {
            self.outgoing.push_back(response);
        }
    }

    fn send(&mut self, data: &[u8]) {
        self.pending.extend_from_slice(data);
        self.drive();
    }

    fn recv(&mut self) -> Option<Vec<u8>> {
        self.drive();
        self.outgoing.pop_front()
    }
}

fn consume_terminator(pending: &mut Vec<u8>, recv: &mut dyn FnMut() -> Option<Vec<u8>>) {
    while needs_terminator_bytes(pending) {
        match recv() {
            Some(data) => pending.extend(data),
            None => return,
        }
    }
    strip_hex_header_terminator(pending);
}

fn start_next(session: &mut UploadSession) -> Result<(), ZmodemSessionError> {
    if session.next_file()?.is_some() {
        session.file_opened()?;
    }
    Ok(())
}

/// The upload loop: what the terminal runs around an `UploadSession`.
fn run_upload(
    peer: &mut ReceiverPeer,
    files: &[(UploadFileEntry, Vec<u8>)],
    initial: Vec<u8>,
) -> Result<(Vec<u8>, Vec<u64>), ZmodemSessionError> {
    let entries = files.iter().map(|(entry, _)| entry.clone()).collect();
    let mut session = UploadSession::new(entries, initial, ZmodemTransferId(9))?;
    start_next(&mut session)?;
    let mut reported = vec![session.begin()?.transferred];
    loop {
        let action = session.poll();
        match session.apply(action)? {
            UploadStep::SendWire(bytes) => {
                peer.send(&bytes);
                session.wire_sent(bytes.len());
                continue;
            }
            UploadStep::ReadFile { index, offset, max_len } => {
                let data = &files[index].1;
                let start = offset as usize;
                let end = (start + max_len).min(data.len());
                reported.push(session.file_chunk(offset, &data[start..end])?.transferred);
                continue;
            }
            UploadStep::FileCompleted(progress) => {
                reported.push(progress.transferred);
                start_next(&mut session)?;
                if let Some(progress) = session.start_file_progress() {
                    reported.push(progress.transferred);
                }
                continue;
            }
            UploadStep::Complete => {
                while let Some(bytes) = session.next_wire() {
                    peer.send(&bytes);
                    session.wire_sent(bytes.len());
                }
                let mut pending = session.into_pending();
                consume_terminator(&mut pending, &mut || peer.recv());
                return Ok((pending, reported));
            }
            UploadStep::Idle => {}
            UploadStep::Continue => continue,
        }
        if session.feed()? {
            continue;
        }
        session.wire_received(peer.recv())?;
    }
}

/// The download loop: what the terminal runs around a `DownloadSession`.
fn run_download(peer: &mut SenderPeer, initial: Vec<u8>) -> Result<(Vec<u8>, Vec<u8>, Vec<u64>), ZmodemSessionError> {
    let mut session = DownloadSession::new(initial, ZmodemTransferId(4))?;
    let mut file: Vec<u8> = Vec::new();
    let mut reported = Vec::new();
    loop {
        let action = session.poll();
        match session.apply(action)? {
            DownloadStep::SendWire(bytes) => {
                peer.send(&bytes);
                session.wire_sent(bytes.len());
                continue;
            }
            DownloadStep::WriteFile(bytes) => {
                file.extend_from_slice(&bytes);
                if let Some(progress) = session.file_bytes_written(bytes.len())? {
                    reported.push(progress.transferred);
                }
                continue;
            }
            DownloadStep::OpenFile { name, size } => {
                assert_eq!(name, b"remote.bin".to_vec());
                let progress = session.file_opened(&name, size);
                assert_eq!(progress.file_name, "remote.bin");
                reported.push(progress.transferred);
                continue;
            }
            DownloadStep::FileCompleted => {
                let progress = session.file_finished().expect("open file");
                reported.push(progress.transferred);
                continue;
            }
            DownloadStep::Finish => {
                let mut pending = session.into_pending();
                consume_terminator(&mut pending, &mut || peer.recv());
                while !strip_session_trailer(&mut pending) {
                    match peer.recv() {
                        Some(data) => pending.extend(data),
                        None => break,
                    }
                }
                return Ok((pending, file, reported));
            }
            DownloadStep::Idle => {}
            DownloadStep::Continue => continue,
        }
        if session.feed()? {
            continue;
        }
        session.wire_received(peer.recv())?;
    }
}

fn escaped_payload() -> Vec<u8> {
    const ESCAPED: [u8; 12] = [
        0x00, 0x0d, 0x10, 0x11, 0x13, 0x18, 0x7f, 0x8d, 0x90, 0x91, 0x93, 0xff,
    ];
    (0..512 * 1024).map(|index| ESCAPED[index % ESCAPED.len()]).collect()
}

#[test]
fn upload_round_trip_preserves_trailing_terminal_bytes() {
    let payload = escaped_payload();
    let trailing = b"\r\nremote-shell$ ".to_vec();
    let (mut peer, initial) = ReceiverPeer::new(trailing.clone());
    let files = vec![(
        UploadFileEntry { name: b"escaped.bin".to_vec(), size: payload.len() as u32 },
        payload.clone(),
    )];
    let (rest, reported) = run_upload(&mut peer, &files, initial).expect("upload");
    assert_eq!(peer.received, payload);
    assert_eq!(rest, trailing);
    assert_eq!(reported.first(), Some(&0));
    assert_eq!(reported.last(), Some(&(payload.len() as u64)));
    assert!(reported.windows(2).all(|pair| pair[0] <= pair[1]));
}

#[test]
fn upload_session_sends_several_files_in_order() {
    let first: Vec<u8> = (0..3000).map(|index| (index % 7) as u8).collect();
    let second: Vec<u8> = (0..1500).map(|index| (index % 13) as u8).collect();
    let (mut peer, initial) = ReceiverPeer::new(Vec::new());
    let files = vec![
        (UploadFileEntry { name: b"a.bin".to_vec(), size: 3000 }, first.clone()),
        (UploadFileEntry { name: b"b.bin".to_vec(), size: 1500 }, second.clone()),
    ];
    let (_, reported) = run_upload(&mut peer, &files, initial).expect("upload");
    let mut expected = first;
    expected.extend(second);
    assert_eq!(peer.received, expected);
    assert_eq!(reported.last(), Some(&4500));
    assert!(reported.windows(2).all(|pair| pair[0] <= pair[1]));
}

#[test]
fn download_round_trip_consumes_oo_and_preserves_terminal_bytes() {
    let payload: Vec<u8> = (0..8192).map(|index| (index % 251) as u8).collect();
    let trailing = b"\r\nremote-shell$ ".to_vec();
    let (mut peer, initial) = SenderPeer::new(payload.clone(), trailing.clone());
    let (rest, file, reported) = run_download(&mut peer, initial).expect("download");
    assert_eq!(file, payload);
    assert_eq!(rest, trailing);
    assert_eq!(reported.first(), Some(&0));
    assert_eq!(reported.last(), Some(&8192));
}

#[test]
fn upload_gives_up_after_six_timeouts_in_a_row() {
    let (_, initial) = ReceiverPeer::new(Vec::new());
    let mut session = UploadSession::new(
        vec![UploadFileEntry { name: b"a".to_vec(), size: 1 }],
        initial,
        ZmodemTransferId(1),
    )
    .expect("session");
    for _ in 0..5 {
        assert_eq!(session.wire_received(None), Ok(()));
    }
    assert_eq!(
        session.wire_received(None),
        Err(ZmodemSessionError::TimedOut(ZmodemTransferDirection::Upload))
    );
    assert_eq!(
        ZmodemSessionError::TimedOut(ZmodemTransferDirection::Upload).message(),
        "ZMODEM upload timed out"
    );
}

#[test]
fn received_bytes_reset_nothing_until_the_machine_takes_them() {
    let mut session = DownloadSession::new(Vec::new(), ZmodemTransferId(1)).expect("session");
    for _ in 0..5 {
        assert_eq!(session.wire_received(None), Ok(()));
    }
    assert_eq!(session.wire_received(Some(b"noise".to_vec())), Ok(()));
    assert_eq!(
        session.wire_received(None),
        Err(ZmodemSessionError::TimedOut(ZmodemTransferDirection::Download))
    );
}

#[test]
fn upload_decisions_on_unexpected_actions() {
    let mut session = UploadSession::new(Vec::new(), Vec::new(), ZmodemTransferId(2)).expect("session");
    assert_eq!(
        session.apply(ZmodemAction::ReadFile { offset: 0, max_len: 10 }),
        Err(ZmodemSessionError::NoOpenUploadFile)
    );
    assert_eq!(
        session.apply(ZmodemAction::Aborted),
        Err(ZmodemSessionError::RemoteAborted(ZmodemTransferDirection::Upload))
    );
    assert_eq!(
        session.apply(ZmodemAction::WriteFile(vec![1])),
        Err(ZmodemSessionError::UnexpectedAction(ZmodemTransferDirection::Upload))
    );
    assert_eq!(
        session.apply(ZmodemAction::FileCompleted),
        Err(ZmodemSessionError::Progress(ZmodemProgressError::NoFileToComplete))
    );
    assert_eq!(session.apply(ZmodemAction::OtherEvent), Ok(UploadStep::Continue));
    assert_eq!(session.apply(ZmodemAction::Idle), Ok(UploadStep::Idle));
    assert_eq!(session.apply(ZmodemAction::SessionCompleted), Ok(UploadStep::Complete));
    assert_eq!(
        session.apply(ZmodemAction::WriteWire(vec![1, 2])),
        Ok(UploadStep::SendWire(vec![1, 2]))
    );
    assert_eq!(
        session.file_chunk(0, b"x"),
        Err(ZmodemSessionError::NoOpenUploadFile)
    );
    // An empty queue finishes at once and has no file to begin with.
    assert_eq!(session.next_file(), Ok(None));
    assert_eq!(
        session.begin(),
        Err(ZmodemSessionError::Progress(ZmodemProgressError::NoFileToStart))
    );
}

#[test]
fn download_decisions_on_unexpected_actions() {
    let mut session = DownloadSession::new(Vec::new(), ZmodemTransferId(3)).expect("session");
    assert_eq!(
        session.apply(ZmodemAction::WriteFile(vec![1])),
        Err(ZmodemSessionError::NoOpenDownloadFile)
    );
    assert_eq!(
        session.apply(ZmodemAction::FileCompleted),
        Err(ZmodemSessionError::NoDownloadFileToComplete)
    );
    assert_eq!(
        session.apply(ZmodemAction::ReadFile { offset: 0, max_len: 1 }),
        Err(ZmodemSessionError::UnexpectedAction(ZmodemTransferDirection::Download))
    );
    assert_eq!(
        session.apply(ZmodemAction::OtherEvent),
        Err(ZmodemSessionError::UnexpectedAction(ZmodemTransferDirection::Download))
    );
    assert_eq!(
        session.apply(ZmodemAction::Aborted),
        Err(ZmodemSessionError::RemoteAborted(ZmodemTransferDirection::Download))
    );
    assert_eq!(session.apply(ZmodemAction::Idle), Ok(DownloadStep::Idle));
    assert_eq!(session.apply(ZmodemAction::SessionCompleted), Ok(DownloadStep::Continue));
    assert_eq!(session.apply(ZmodemAction::Idle), Ok(DownloadStep::Finish));
    assert_eq!(
        session.apply(ZmodemAction::FileStarted { name: b"x".to_vec(), size: Some(3) }),
        Ok(DownloadStep::OpenFile { name: b"x".to_vec(), size: Some(3) })
    );
    let opened = session.file_opened(b"x", Some(3));
    assert_eq!(opened.current_file_total, 3);
    assert_eq!(session.apply(ZmodemAction::FileCompleted), Ok(DownloadStep::FileCompleted));
    let finished = session.file_finished().expect("open file");
    assert_eq!(finished.file_index, 1);
    assert!(session.file_finished().is_none());
    assert_eq!(
        ZmodemSessionError::NoDownloadFileToComplete.message(),
        "ZMODEM receiver completed a file that was not open"
    );
}
