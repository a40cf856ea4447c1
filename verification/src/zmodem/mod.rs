//! ZMODEM support: detecting a transfer handshake in terminal output, the
//! file-picker request state, transfer progress, and file-name safety rules.

pub mod broker;
pub mod detector;
pub mod machine;
pub mod path;
pub mod progress;
pub mod session;
pub mod tracker;
pub mod transfer;
