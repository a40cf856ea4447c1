//! The request that starts an automatic session log.

use vstd::prelude::*;
use std::path::Path;
use crate::recording::asciicast::{RecordingBackend, RecordingMetadata};
use crate::recording::model::RecordingConfig;
use crate::recording::runtime::{RecordingRuntimeError, RecordingStartRequest};
use crate::recording::session_log::{log_location, session_log_path, session_logs_directory};
use crate::types::TerminalSize;

verus! {

/// A recording of terminal output only.
pub fn output_only_recording_config() -> (r: RecordingConfig)
    ensures
        !r.capture_input,
        r.limits.max_events == crate::recording::model::DEFAULT_MAX_RECORDING_EVENTS,
        r.limits.max_event_bytes == crate::recording::model::DEFAULT_MAX_RECORDING_EVENT_BYTES,
        r.limits.max_payload_bytes == crate::recording::model::DEFAULT_MAX_RECORDING_PAYLOAD_BYTES,
        r.limits.max_duration@ == crate::recording::model::DEFAULT_MAX_RECORDING_DURATION_NANOS,
{
    let mut config = RecordingConfig::default();
    config.capture_input = false;
    config
}

/// The start request of an automatic session log: output only, stored under
/// the session-log directory of `data_directory`. A recording id that cannot
/// stand in a file name, or a start time that cannot be placed, is refused.
pub fn build_automatic_session_log_request(
    data_directory: &Path,
    backend: RecordingBackend,
    session_id: String,
    initial_size: TerminalSize,
    started_at_unix_ms: u64,
    recording_id: String,
    application_version: String,
) -> (r: Result<RecordingStartRequest, RecordingRuntimeError>)
    ensures
        r is Ok <==> log_location(backend, started_at_unix_ms, recording_id@) is Some,
        r is Err ==> (r matches Err(RecordingRuntimeError::InvalidConfig(m))
            && m@ == "automatic session log timestamp or recording ID is invalid"@),
        r matches Ok(request) ==> {
            &&& request.metadata.recording_id@ == recording_id@
            &&& request.metadata.session_id@ == session_id@
            &&& request.metadata.backend == backend
            &&& request.metadata.application_version@ == application_version@
            &&& request.metadata.started_at_unix_ms == started_at_unix_ms
            &&& !request.metadata.capture_input
            &&& request.initial_size == initial_size
            &&& !request.recording.capture_input
        },
{
    let directory = session_logs_directory(data_directory);
    let final_path = match session_log_path(directory.as_path(), backend, started_at_unix_ms, recording_id.as_str()) {
        Some(path) => path,
        None => {
            return Err(RecordingRuntimeError::InvalidConfig(
                String::from_str("automatic session log timestamp or recording ID is invalid"),
            ));
        },
    };
    Ok(RecordingStartRequest {
        final_path,
        metadata: RecordingMetadata {
            recording_id,
            session_id,
            backend,
            application_version,
            started_at_unix_ms,
            capture_input: false,
        },
        initial_size,
        recording: output_only_recording_config(),
    })
}

} // verus!
