//! Terminal session logic: Telnet protocol codec, login expect scripts,
//! recording timeline control, ZMODEM detection and related helpers.

pub mod bytes;
pub mod duration;
pub mod error_text;
pub mod login_expect;
pub mod paths;
pub mod recording;
pub mod selection_text;
pub mod session_logging;
pub mod ssh_expect;
pub mod ssh_lease;
pub mod telnet;
pub mod telnet_expect;
pub mod telnet_worker;
pub mod text;
pub mod types;
pub mod windows_environment;
pub mod windows_shell_integration;
pub mod zmodem;
