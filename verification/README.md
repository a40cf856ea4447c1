# terminal

Session logic of a terminal emulator's backends, verified with Verus.

`src/` is the verified library:

- `telnet.rs`, `telnet_worker.rs`, `telnet_expect.rs`: the Telnet option
  negotiation and NVT codec, the decisions of the Telnet connection worker,
  and the scripted Telnet login.
- `login_expect.rs`, `ssh_expect.rs`: expect/send login scripts matched with
  `regex` over the incoming bytes.
- `recording/`: asciicast recording files (header, event lines, recovery of
  a partial file), the recording controller, writer ledger, bounded work
  queue, worker session and published snapshots, playback timeline and
  search, session-log naming and favorites.
- `zmodem/`: handshake detection in terminal output, the file picker
  request state, upload and download sessions around the `zmodem2` state
  machines, progress tracking, and file-name safety.
- `selection_text.rs`: clipboard text of a terminal grid selection.
- `windows_environment.rs`, `windows_shell_integration.rs`: environment
  refresh and shell-integration launch rules.

`app/` holds what stays outside verification: file and socket I/O, the
recording worker thread, the Tokio Telnet loop, JSON (serde) encoding of
recording lines, and the transfer loops that move bytes between a channel,
files and the ZMODEM sessions.

`tests/` exercises the library through its public API.
