use std::sync::{Arc, Mutex};

use terminal::types::{LocalConfig, TerminalInputHandle, TerminalSize};

#[test]
fn terminal_input_handle_forwards_bytes_to_writer() {
    let written = Arc::new(Mutex::new(Vec::new()));
    let sink = written.clone();
    let handle = TerminalInputHandle::new(move |bytes| {
        sink.lock().expect("written lock").push(bytes);
    });

    handle.write(b"df -h\n".to_vec());

    assert_eq!(vec![b"df -h\n".to_vec()], *written.lock().unwrap());
}

#[test]
fn cloned_handles_share_one_writer() {
    let written = Arc::new(Mutex::new(Vec::new()));
    let sink = written.clone();
    let handle = TerminalInputHandle::new(move |bytes| {
        sink.lock().expect("written lock").push(bytes);
    });
    let other = handle.clone();
    handle.write(b"a".to_vec());
    other.write(b"b".to_vec());
    assert_eq!(vec![b"a".to_vec(), b"b".to_vec()], *written.lock().unwrap());
}

#[test]
fn defaults_match_a_standard_terminal() {
    let size = TerminalSize::default();
    assert_eq!(
        size,
        TerminalSize {
            rows: 24,
            cols: 80,
            pixel_width: 0,
            pixel_height: 0
        }
    );
    let config = LocalConfig::default();
    assert!(config.shell.is_none());
    assert!(config.working_dir.is_none());
    assert_eq!(
        config.env,
        vec![
            ("TERM".to_string(), "xterm-256color".to_string()),
            ("COLORTERM".to_string(), "truecolor".to_string()),
            ("CLICOLOR".to_string(), "1".to_string()),
            ("CLICOLOR_FORCE".to_string(), "1".to_string()),
        ]
    );
}
