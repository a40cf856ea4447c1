//! Terminal-wide value types: dimensions, local shell configuration and the
//! input handle that forwards user bytes to a backend.

use std::sync::Arc;
use vstd::prelude::*;

verus! {

/// Terminal dimensions.
#[derive(Debug, Clone, Copy, PartialEq, Eq, Structural)]
pub struct TerminalSize {
    pub rows: u16,
    pub cols: u16,
    pub pixel_width: u16,
    pub pixel_height: u16,
}

/// Bytes a `TerminalSize` occupies in memory (four `u16` fields).
pub const TERMINAL_SIZE_BYTES: usize = 8;

impl Default for TerminalSize {
    fn default() -> (r: Self)
        ensures
            r == (TerminalSize { rows: 24, cols: 80, pixel_width: 0, pixel_height: 0 }),
    {
        TerminalSize { rows: 24, cols: 80, pixel_width: 0, pixel_height: 0 }
    }
}

/// Local terminal configuration.
#[derive(Debug, Clone)]
pub struct LocalConfig {
    /// Shell command (default: the system's default shell).
    pub shell: Option<String>,
    /// Working directory.
    pub working_dir: Option<String>,
    /// Environment variables.
    pub env: Vec<(String, String)>,
}

/// The environment every local terminal starts with.
pub open spec fn default_local_environment() -> Seq<(Seq<char>, Seq<char>)> {
    seq![
        ("TERM"@, "xterm-256color"@),
        ("COLORTERM"@, "truecolor"@),
        ("CLICOLOR"@, "1"@),
        ("CLICOLOR_FORCE"@, "1"@),
    ]
}

fn environment_pair(name: &str, value: &str) -> (r: (String, String))
    ensures
        r.0@ == name@,
        r.1@ == value@,
{
    (String::from_str(name), String::from_str(value))
}

impl Default for LocalConfig {
    fn default() -> (r: Self)
        ensures
            r.shell is None,
            r.working_dir is None,
            r.env@.len() == 4,
            forall|i: int| 0 <= i < 4 ==> (#[trigger] r.env@[i]).0@ == default_local_environment()[i].0
                && r.env@[i].1@ == default_local_environment()[i].1,
    {
        let mut env: Vec<(String, String)> = Vec::new();
        env.push(environment_pair("TERM", "xterm-256color"));
        env.push(environment_pair("COLORTERM", "truecolor"));
        env.push(environment_pair("CLICOLOR", "1"));
        env.push(environment_pair("CLICOLOR_FORCE", "1"));
        LocalConfig { shell: None, working_dir: None, env }
    }
}

/// A cloneable handle that forwards input bytes to the backend's writer.
///
/// The writer type is a parameter; every handle of one terminal shares one
/// writer.
pub struct TerminalInputHandle<F: Fn(Vec<u8>)> {
    write_fn: Arc<F>,
}

impl<F: Fn(Vec<u8>)> TerminalInputHandle<F> {
    #[verifier::type_invariant]
    closed spec fn accepts_any_bytes(self) -> bool {
        forall|data: Vec<u8>| call_requires(*self.write_fn, (data,))
    }

    /// The writer this handle forwards to.
    pub closed spec fn writer(&self) -> F {
        *self.write_fn
    }

    /// Wraps a writer that accepts any byte vector.
    pub fn new(write_fn: F) -> (r: Self)
        requires
            forall|data: Vec<u8>| call_requires(write_fn, (data,)),
        ensures
            r.writer() == write_fn,
    {
        TerminalInputHandle { write_fn: Arc::new(write_fn) }
    }

    /// Forwards `data`, unchanged, to the writer.
    pub fn write(&self, data: Vec<u8>)
        ensures
            call_ensures(self.writer(), (data,), ()),
    {
        proof {
            use_type_invariant(self);
        }
        let writer: &F = &*self.write_fn;
        writer(data);
    }

}

impl<F: Fn(Vec<u8>)> Clone for TerminalInputHandle<F> {
    /// Another handle to the same writer.
    fn clone(&self) -> (r: Self)
        ensures
            r.writer() == self.writer(),
    {
        proof {
            use_type_invariant(self);
        }
        TerminalInputHandle { write_fn: Arc::clone(&self.write_fn) }
    }
}

/// A terminal backend: a local PTY, SSH, Telnet or a serial line.
pub trait TerminalBackend {
    /// The writer behind this backend's input handles.
    type Writer: Fn(Vec<u8>);

    fn write(&self, data: Vec<u8>);

    fn resize(&self, size: TerminalSize);

    fn shutdown(&self);

    /// A handle for writing input from elsewhere, where the backend offers one.
    fn input_handle(&self) -> (r: Option<TerminalInputHandle<Self::Writer>>)
        default_ensures
            r is None,
    {
        None
    }
}

} // verus!
