use std::path::PathBuf;
use terminal::recording::asciicast::RecordingFileError;
use terminal::recording::asciicast::RecordingFileLimit;
use terminal::recording::playback::RecordingPlaybackError;

#[test]
fn file_errors_render_their_details() {
    assert_eq!(
        RecordingFileError::invalid_event(12, "bad kind").message(),
        "invalid recording event at line 12: bad kind"
    );
    assert_eq!(
        RecordingFileError::LimitReached(RecordingFileLimit::EventBytes).message(),
        "recording event_bytes limit reached"
    );
    assert_eq!(
        RecordingFileError::UnknownNavopVersion(3).message(),
        "unsupported Navop recording version: 3"
    );
    assert_eq!(
        RecordingFileError::UnknownAsciicastVersion(1).message(),
        "unsupported asciicast version: 1"
    );
    assert_eq!(RecordingFileError::NotOpen.message(), "recording file is not open");
    let io = RecordingFileError::Io {
        operation: "write",
        source: std::io::Error::new(std::io::ErrorKind::Other, "disk full"),
    };
    assert_eq!(io.message(), "recording write failed: disk full");
    let path = RecordingFileError::FinalPathExists(PathBuf::from("/tmp/a.cast"));
    assert_eq!(path.message(), "recording final path already exists: /tmp/a.cast");
}

#[test]
fn playback_errors_render_their_details() {
    assert_eq!(
        RecordingPlaybackError::SearchQueryTooLong {
            actual_bytes: 10,
            max_bytes: 4
        }
        .message(),
        "recording playback search query is too long: 10 bytes exceeds 4 bytes"
    );
    assert_eq!(
        RecordingPlaybackError::InvalidTimeline {
            event_index: 7,
            reason: "elapsed time moved backwards"
        }
        .message(),
        "invalid recording playback event at index 7: elapsed time moved backwards"
    );
    assert_eq!(
        RecordingPlaybackError::RecordingFile(RecordingFileError::NotOpen).message(),
        "recording file is not open"
    );
}
