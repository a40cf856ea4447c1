use std::path::Path;

use terminal::zmodem::broker::{ZmodemPickerError, ZmodemPickerKind, ZmodemPickerState};
use terminal::zmodem::detector::{
    DetectedZmodem, ZmodemDetector, ZmodemDirection, ZmodemRouting, MAX_HANDSHAKE_BYTES,
};
use terminal::zmodem::path::{
    checked_upload_name, download_file_name, download_path, remote_base_name, upload_file_name,
    validate_name, ZmodemNameError,
};
use terminal::zmodem::progress::{
    ZmodemProgressBook, ZmodemProgressNotification, ZmodemTransferDirection, ZmodemTransferId,
    ZmodemTransferOutcome, ZmodemTransferProgress,
};
use terminal::zmodem::transfer::{
    append_picker_wire, checked_file_size, picker_kind, strip_hex_header_terminator,
    ZmodemChannelEvent, ZmodemTransferError, MAX_PICKER_WIRE_BYTES,
};
use zmodem2::{Action, Receiver, Sender};

fn initial_wire(action: Action<'_>) -> Vec<u8> {
    match action {
        Action::WriteWire(bytes) => bytes.to_vec(),
        other => panic!("expected initial wire, got {other:?}"),
    }
}

fn remote_zrqinit() -> Vec<u8> {
    let mut sender = Sender::new().expect("sender");
    initial_wire(sender.poll())
}

fn remote_zrinit() -> Vec<u8> {
    let mut receiver = Receiver::new().expect("receiver");
    initial_wire(receiver.poll())
}

#[test]
fn upload_uses_only_the_local_basename() {
    let name = upload_file_name(Path::new("/tmp/nested/report.txt")).expect("file name");
    assert_eq!(name, b"report.txt");
}

#[test]
fn download_strips_unix_and_windows_parent_components() {
    let directory = Path::new("/tmp/downloads");
    assert_eq!(
        download_path(directory, b"../../etc/passwd").expect("safe path"),
        directory.join("passwd")
    );
    assert_eq!(
        download_path(directory, br"C:\Windows\system.ini").expect("safe path"),
        directory.join("system.ini")
    );
}

#[test]
fn download_rejects_empty_and_parent_names() {
    let directory = Path::new("/tmp/downloads");
    assert!(download_path(directory, b"").is_err());
    assert!(download_path(directory, b".").is_err());
    assert!(download_path(directory, b"..").is_err());
}

#[test]
fn download_rejects_trailing_separator_and_nul() {
    let directory = Path::new("/tmp/downloads");
    assert_eq!(download_path(directory, b"dir/"), Err(ZmodemNameError::EmptyOrUnsafe));
    assert_eq!(download_path(directory, b"a\0b"), Err(ZmodemNameError::ContainsNul));
    assert_eq!(download_path(directory, b"x/.."), Err(ZmodemNameError::EmptyOrUnsafe));
}

#[test]
fn name_checks_follow_the_last_component() {
    assert_eq!(remote_base_name(b"a/b\\c"), b"c".to_vec());
    assert_eq!(remote_base_name(b"plain"), b"plain".to_vec());
    assert_eq!(remote_base_name(b"end/"), Vec::<u8>::new());
    assert_eq!(validate_name(b"..."), Ok(()));
    assert_eq!(validate_name(b""), Err(ZmodemNameError::EmptyOrUnsafe));
    assert_eq!(checked_upload_name(None), Err(ZmodemNameError::MissingFileName));
    assert_eq!(checked_upload_name(Some(b"a\0".to_vec())), Err(ZmodemNameError::ContainsNul));
    assert_eq!(checked_upload_name(Some(b"ok".to_vec())), Ok(b"ok".to_vec()));
    assert!(upload_file_name(Path::new("/")).is_err());
    assert_eq!(
        ZmodemNameError::MissingFileName.message(),
        "ZMODEM upload path has no file name"
    );
}

#[test]
fn plain_terminal_bytes_pass_through() {
    let mut detector = ZmodemDetector::default();
    assert_eq!(
        detector.push(b"normal output"),
        ZmodemRouting {
            terminal: b"normal output".to_vec(),
            transfer: None,
        }
    );
}

#[test]
fn detects_download_handshake_after_terminal_output() {
    let mut detector = ZmodemDetector::default();
    let mut bytes = b"starting download\r\n".to_vec();
    bytes.extend(remote_zrqinit());

    let routed = detector.push(&bytes);
    let detected = routed.transfer.expect("detected result");

    assert_eq!(detected.direction, ZmodemDirection::Download);
    assert_eq!(routed.terminal, b"starting download\r\n");
    assert_eq!(detected.wire, remote_zrqinit());
}

#[test]
fn detects_upload_handshake_across_chunks() {
    let wire = remote_zrinit();
    let split = wire.len() / 2;
    let mut detector = ZmodemDetector::default();

    let first = detector.push(&wire[..split]);
    assert!(first.terminal.is_empty());
    assert!(first.transfer.is_none());
    let routed = detector.push(&wire[split..]);
    let detected = routed.transfer.expect("completed handshake");

    assert_eq!(detected.direction, ZmodemDirection::Upload);
    assert!(routed.terminal.is_empty());
    assert_eq!(detected.wire, wire);
}

#[test]
fn corrupted_handshake_is_restored_to_terminal_output() {
    let mut wire = remote_zrqinit();
    let crc_index = wire.len().saturating_sub(5);
    wire[crc_index] = if wire[crc_index] == b'0' { b'1' } else { b'0' };
    wire.extend(std::iter::repeat_n(b'x', MAX_HANDSHAKE_BYTES));
    let mut detector = ZmodemDetector::default();

    let routed = detector.push(&wire);

    assert_eq!(routed.terminal, wire);
    assert!(routed.transfer.is_none());
}

#[test]
fn partial_header_is_held_until_the_next_chunk() {
    let mut detector = ZmodemDetector::new();
    let first = detector.push(b"prompt$ *");
    assert_eq!(first.terminal, b"prompt$ ".to_vec());
    assert!(first.transfer.is_none());
    let second = detector.push(b"!");
    assert_eq!(second.terminal, b"*!".to_vec());
    assert!(second.transfer.is_none());
    let third = detector.push(b"x");
    assert_eq!(
        third,
        ZmodemRouting {
            terminal: b"x".to_vec(),
            transfer: None
        }
    );
    let detected = detector.push(&remote_zrinit());
    assert_eq!(
        detected.transfer,
        Some(DetectedZmodem {
            direction: ZmodemDirection::Upload,
            wire: remote_zrinit()
        })
    );
}

#[test]
fn upload_rejects_files_larger_than_zmodem_position() {
    let error = checked_file_size(u64::from(u32::MAX) + 1).expect_err("oversized file");
    assert!(error.message().contains("4 GiB"));
}

#[test]
fn transfer_helpers_follow_their_rules() {
    assert_eq!(checked_file_size(u64::from(u32::MAX)), Ok(u32::MAX));
    assert_eq!(checked_file_size(7), Ok(7));
    assert_eq!(picker_kind(ZmodemDirection::Upload), ZmodemPickerKind::UploadFiles);
    assert_eq!(
        picker_kind(ZmodemDirection::Download),
        ZmodemPickerKind::DownloadDirectory
    );

    let mut pending = b"\r\x8arest".to_vec();
    assert!(strip_hex_header_terminator(&mut pending));
    assert_eq!(pending, b"rest".to_vec());
    let mut pending = b"\r\nx".to_vec();
    assert!(strip_hex_header_terminator(&mut pending));
    assert_eq!(pending, b"x".to_vec());
    let mut pending = b"\rx".to_vec();
    assert!(!strip_hex_header_terminator(&mut pending));
    assert_eq!(pending, b"\rx".to_vec());

    let mut wire = b"ab".to_vec();
    assert_eq!(
        append_picker_wire(&mut wire, ZmodemChannelEvent::Data(b"cd".to_vec())),
        Ok(())
    );
    assert_eq!(wire, b"abcd".to_vec());
    assert_eq!(append_picker_wire(&mut wire, ZmodemChannelEvent::Other), Ok(()));
    assert_eq!(
        append_picker_wire(&mut wire, ZmodemChannelEvent::Closed),
        Err(ZmodemTransferError::ChannelClosed)
    );
    let big = vec![0u8; MAX_PICKER_WIRE_BYTES - 3];
    assert_eq!(
        append_picker_wire(&mut wire, ZmodemChannelEvent::Data(big)),
        Err(ZmodemTransferError::PickerWireOverflow)
    );
    assert_eq!(wire, b"abcd".to_vec());
}

fn upload_progress(transferred: u64, total: u64) -> ZmodemTransferProgress {
    ZmodemTransferProgress {
        transfer_id: ZmodemTransferId::default(),
        direction: ZmodemTransferDirection::Upload,
        file_name: "archive.tar".to_string(),
        file_index: 0,
        file_count: 1,
        current_file_transferred: transferred,
        current_file_total: total,
        transferred,
        total,
    }
}

fn download_progress(transferred: u64) -> ZmodemTransferProgress {
    ZmodemTransferProgress {
        transfer_id: ZmodemTransferId::default(),
        direction: ZmodemTransferDirection::Download,
        file_name: "remote.tar".to_string(),
        file_index: 0,
        file_count: 0,
        current_file_transferred: 0,
        current_file_total: 0,
        transferred,
        total: 0,
    }
}

#[test]
fn transfer_progress_uses_total_bytes_and_clamps_percent() {
    let progress = upload_progress(150, 100);
    assert_eq!(100, progress.percent());
    assert_eq!("archive.tar", progress.file_name());
    assert_eq!(0, progress.file_index());
    assert_eq!(1, progress.file_count());
    assert_eq!(150, progress.current_file_transferred());
    assert_eq!(100, progress.current_file_total());
    assert_eq!(150, progress.transferred());
    assert_eq!(100, progress.total());
}

#[test]
fn percent_rounds_down_and_treats_unknown_total_as_zero() {
    assert_eq!(upload_progress(1, 3).percent(), 33);
    assert_eq!(upload_progress(999, 1000).percent(), 99);
    assert_eq!(download_progress(42).percent(), 0);
    assert_eq!(ZmodemTransferDirection::Upload.as_str(), "upload");
    assert_eq!(ZmodemTransferId(9).as_u64(), 9);
}

#[test]
fn download_start_keeps_snapshot_active_without_a_guard() {
    let mut book = ZmodemProgressBook::new();
    let (transfer_id, displaced) = book.begin_transfer(ZmodemTransferDirection::Download);
    assert!(displaced.is_none());

    let notification = book.set(transfer_id, download_progress(0), true);
    assert_eq!(
        ZmodemTransferDirection::Download,
        book.snapshot().unwrap().direction()
    );
    assert!(matches!(
        notification,
        Some(ZmodemProgressNotification::Changed(progress)) if progress.transfer_id() == transfer_id
    ));
}

#[test]
fn begin_transfer_cancels_the_previous_snapshot() {
    let mut book = ZmodemProgressBook::new();
    let (upload_id, _) = book.begin_transfer(ZmodemTransferDirection::Upload);
    assert!(book.set(upload_id, upload_progress(1, 1_000), true).is_some());

    let (download_id, displaced) = book.begin_transfer(ZmodemTransferDirection::Download);
    assert_ne!(upload_id, download_id);
    assert!(book.snapshot().is_none());
    assert!(matches!(
        displaced,
        Some(ZmodemProgressNotification::Finished {
            transfer_id,
            outcome: ZmodemTransferOutcome::Cancelled,
            ..
        }) if transfer_id == upload_id
    ));
    assert!(book.finish(upload_id, ZmodemTransferOutcome::Succeeded).is_none());
}

#[test]
fn repeated_snapshot_is_not_reported_twice() {
    let mut book = ZmodemProgressBook::new();
    let (id, _) = book.begin_transfer(ZmodemTransferDirection::Upload);
    assert!(book.set(id, upload_progress(0, 1_000), true).is_some());
    assert!(book.set(id, upload_progress(5, 1_000), false).is_some());
    assert!(book.set(id, upload_progress(5, 1_000), false).is_none());
    assert!(book.set(id, upload_progress(10, 1_000), false).is_some());
    assert_eq!(10, book.snapshot().unwrap().transferred());
    assert!(matches!(
        book.finish(id, ZmodemTransferOutcome::Succeeded),
        Some(ZmodemProgressNotification::Finished {
            outcome: ZmodemTransferOutcome::Succeeded,
            ..
        })
    ));
    assert!(book.snapshot().is_none());
    assert!(book.finish(id, ZmodemTransferOutcome::Cancelled).is_none());
}

#[test]
fn picker_requests_are_exclusive_and_claims_are_bound_to_their_request() {
    let mut state: ZmodemPickerState<u8> = ZmodemPickerState::new();
    let first = state.request(ZmodemPickerKind::UploadFiles, 1).expect("first request");
    assert_eq!(first.kind(), ZmodemPickerKind::UploadFiles);
    assert_eq!(first.id(), 1);
    assert_eq!(
        state.request(ZmodemPickerKind::DownloadDirectory, 2),
        Err(ZmodemPickerError::AlreadyPending)
    );
    assert_eq!(state.pending_request(), Some(first));

    assert!(state.try_claim_picker(first.id()));
    assert!(!state.try_claim_picker(first.id()));
    assert!(state.take_claimed_pending(first.id() + 1).is_none());
    let (taken, reply) = state.take_claimed_pending(first.id()).expect("claimed request");
    assert_eq!(taken, first);
    assert_eq!(reply, 1);
    assert!(state.pending_request().is_none());

    let second = state.request(ZmodemPickerKind::DownloadDirectory, 3).expect("second");
    assert_eq!(second.id(), 2);
    assert!(!state.try_claim_picker(first.id()));
    assert!(!state.release_picker_claim(first.id()));
    assert!(state.try_claim_picker(second.id()));
    assert!(!state.clear_request(first.id()));
    assert!(state.release_picker_claim(second.id()));
    assert!(state.clear_request(second.id()));
    assert!(state.take_pending().is_none());
}

#[test]
fn download_names_keep_only_the_last_component() {
    assert_eq!(download_file_name(b"../../etc/passwd"), Ok("passwd".to_string()));
    assert_eq!(download_file_name(br"C:\Windows\system.ini"), Ok("system.ini".to_string()));
    assert_eq!(download_file_name(b"plain.txt"), Ok("plain.txt".to_string()));
    assert_eq!(download_file_name(b"dir/caf\xc3\xa9"), Ok("caf\u{e9}".to_string()));
    assert_eq!(download_file_name(b"dir/a\xffb"), Ok("a\u{fffd}b".to_string()));
    assert_eq!(download_file_name(b""), Err(ZmodemNameError::EmptyOrUnsafe));
    assert_eq!(download_file_name(b"x/."), Err(ZmodemNameError::EmptyOrUnsafe));
    assert_eq!(download_file_name(b"x\\.."), Err(ZmodemNameError::EmptyOrUnsafe));
    assert_eq!(download_file_name(b"x/a\0b"), Err(ZmodemNameError::ContainsNul));
    let directory = Path::new("/tmp/downloads");
    assert_eq!(
        download_path(directory, b"up/../report.pdf"),
        Ok(directory.join("report.pdf"))
    );
}

