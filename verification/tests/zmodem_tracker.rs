use std::path::{Path, PathBuf};

use terminal::zmodem::path::{suffixed_download_path, suffixed_file_name, MAX_DUPLICATE_SUFFIX};
use terminal::zmodem::progress::{ZmodemTransferDirection, ZmodemTransferId};
use terminal::zmodem::tracker::{
    DownloadCurrentFile, DownloadProgressTracker, UploadCurrentFile, UploadProgressTracker,
    ZmodemProgressError,
};
use terminal::zmodem::transfer::{needs_terminator_bytes, strip_session_trailer};

fn upload_file(name: &str, index: usize, size: u64) -> UploadCurrentFile {
    UploadCurrentFile { name: name.to_string(), index, size }
}

#[test]
fn upload_tracker_counts_files_and_total_bytes() {
    let tracker = UploadProgressTracker::new(&vec![100, 50], ZmodemTransferId(7));
    let first = upload_file("a.txt", 0, 100);
    let snapshot = tracker.begin(Some(&first)).expect("first file");
    assert_eq!(snapshot.transfer_id, ZmodemTransferId(7));
    assert_eq!(snapshot.direction, ZmodemTransferDirection::Upload);
    assert_eq!(snapshot.file_name, "a.txt");
    assert_eq!(snapshot.file_count, 2);
    assert_eq!(snapshot.total, 150);
    assert_eq!(snapshot.transferred, 0);
    assert_eq!(snapshot.current_file_total, 100);
    assert_eq!(tracker.begin(None), Err(ZmodemProgressError::NoFileToStart));
    assert_eq!(tracker.next_file_index(2), 0);
    assert_eq!(tracker.next_file_index(1), 1);
    assert_eq!(tracker.next_file_index(5), 0);
}

#[test]
fn upload_progress_keeps_its_high_water_mark_and_caps_at_the_file_size() {
    let mut tracker = UploadProgressTracker::new(&vec![100, 50], ZmodemTransferId(1));
    let first = upload_file("a.txt", 0, 100);
    let read = tracker.advance(Some(&first), 0, 40).expect("read");
    assert_eq!(read.current_file_transferred, 40);
    assert_eq!(read.transferred, 40);
    // A resend from an earlier offset does not move progress back.
    let resend = tracker.advance(Some(&first), 10, 10).expect("resend");
    assert_eq!(resend.current_file_transferred, 40);
    assert_eq!(resend.transferred, 40);
    // A read past the end counts only up to the file size.
    let past_end = tracker.advance(Some(&first), 90, 4096).expect("past end");
    assert_eq!(past_end.current_file_transferred, 100);
    assert_eq!(past_end.transferred, 100);
    assert_eq!(
        tracker.advance(None, 0, 1),
        Err(ZmodemProgressError::NoCurrentFile)
    );
}

#[test]
fn upload_completion_carries_into_the_next_file() {
    let mut tracker = UploadProgressTracker::new(&vec![100, 50], ZmodemTransferId(1));
    let first = upload_file("a.txt", 0, 100);
    tracker.advance(Some(&first), 0, 30).expect("read");
    let done = tracker.complete(Some(&first)).expect("complete");
    assert_eq!(done.current_file_transferred, 100);
    assert_eq!(done.transferred, 100);
    let second = upload_file("b.txt", 1, 50);
    let started = tracker.start_file(Some(&second)).expect("second snapshot");
    assert_eq!(started.file_index, 1);
    assert_eq!(started.current_file_transferred, 0);
    assert_eq!(started.transferred, 100);
    let read = tracker.advance(Some(&second), 0, 20).expect("read");
    assert_eq!(read.transferred, 120);
    let done = tracker.complete(Some(&second)).expect("complete");
    assert_eq!(done.transferred, 150);
    assert!(tracker.start_file(None).is_none());
    assert_eq!(
        tracker.complete(None),
        Err(ZmodemProgressError::NoFileToComplete)
    );
}

#[test]
fn download_progress_follows_written_bytes_against_the_announced_size() {
    let mut tracker = DownloadProgressTracker::new(ZmodemTransferId(3));
    let mut file = DownloadCurrentFile {
        remote_name: "remote.bin".to_string(),
        advertised_size: Some(10),
        written: 0,
    };
    let opened = tracker.start_file(&file);
    assert_eq!(opened.direction, ZmodemTransferDirection::Download);
    assert_eq!(opened.file_name, "remote.bin");
    assert_eq!(opened.file_index, 0);
    assert_eq!(opened.file_count, 0);
    assert_eq!(opened.total, 0);
    assert_eq!(opened.current_file_total, 10);
    assert_eq!(opened.transferred, 0);
    file.record_written(16);
    let advanced = tracker.advance(Some(&file)).expect("open file");
    assert_eq!(advanced.current_file_transferred, 10);
    assert_eq!(advanced.transferred, 16);
    let completed = tracker.complete(Some(&file)).expect("open file");
    assert_eq!(completed.file_index, 1);
    assert_eq!(completed.transferred, 16);
    assert!(tracker.advance(None).is_none());
    assert!(tracker.complete(None).is_none());
    assert_eq!(tracker.completed, 16);
    assert_eq!(tracker.file_index, 1);
}

#[test]
fn download_without_an_announced_size_shows_no_file_progress() {
    let tracker = DownloadProgressTracker::new(ZmodemTransferId(3));
    let mut file = DownloadCurrentFile {
        remote_name: "x".to_string(),
        advertised_size: None,
        written: 0,
    };
    file.record_written(5);
    let advanced = tracker.advance(Some(&file)).expect("open file");
    assert_eq!(advanced.current_file_transferred, 0);
    assert_eq!(advanced.current_file_total, 0);
    assert_eq!(advanced.transferred, 5);
    file.record_written(u64::MAX);
    assert_eq!(file.written, u64::MAX);
}

#[test]
fn session_trailer_is_dropped_and_terminal_bytes_stay() {
    let mut pending = b"OO\r\nremote-shell$ ".to_vec();
    assert!(strip_session_trailer(&mut pending));
    assert_eq!(pending, b"\r\nremote-shell$ ".to_vec());

    let mut pending = b"prompt".to_vec();
    assert!(strip_session_trailer(&mut pending));
    assert_eq!(pending, b"prompt".to_vec());

    let mut pending = b"O".to_vec();
    assert!(!strip_session_trailer(&mut pending));
    assert_eq!(pending, b"O".to_vec());

    let mut pending = Vec::new();
    assert!(!strip_session_trailer(&mut pending));

    let mut pending = b"x".to_vec();
    assert!(strip_session_trailer(&mut pending));
}

#[test]
fn hex_terminator_waits_only_for_a_leading_carriage_return() {
    assert!(needs_terminator_bytes(b""));
    assert!(needs_terminator_bytes(b"\r"));
    assert!(!needs_terminator_bytes(b"x"));
    assert!(!needs_terminator_bytes(b"\r\n"));
}

#[test]
fn taken_download_names_get_a_numbered_alternative() {
    assert_eq!(suffixed_file_name("report", 3, Some("txt")), "report (3).txt");
    assert_eq!(suffixed_file_name("README", 12, None), "README (12)");
    assert_eq!(
        suffixed_download_path(Path::new("/tmp/downloads/report.txt"), 2),
        PathBuf::from("/tmp/downloads/report (2).txt")
    );
    assert_eq!(
        suffixed_download_path(Path::new("/tmp/downloads/archive.tar.gz"), 1),
        PathBuf::from("/tmp/downloads/archive.tar (1).gz")
    );
    assert_eq!(
        suffixed_download_path(Path::new("/tmp/downloads/Makefile"), 10000),
        PathBuf::from("/tmp/downloads/Makefile (10000)")
    );
    assert_eq!(MAX_DUPLICATE_SUFFIX, 10_000);
}
