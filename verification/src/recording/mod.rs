//! Terminal session recording: the recording state machine and its limits,
//! the asciicast header rules, the checks applied to each persisted or
//! recovered event, the bounded worker queue, and playback timelines.

pub mod asciicast;
pub mod controller;
pub mod model;
pub mod playback;
pub mod recorder;
pub mod recovery;
pub mod runtime;
pub mod session_favorites;
pub mod session_log;
pub mod snapshot;
pub mod worker;
pub mod text_export;
