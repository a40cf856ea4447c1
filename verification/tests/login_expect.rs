use terminal::login_expect::compile_login_send;
use terminal::login_expect::parse_send_escapes;
use terminal::login_expect::MAX_PENDING_BYTES;
use terminal::ssh_expect::SshAccountExpect;
use terminal::ssh_expect::SshLoginExpect;
use terminal::ssh_expect::TerminalExpectSend;
use terminal::telnet_expect::TelnetLoginScript;
use terminal::telnet_expect::TelnetLoginStep;

fn config(username: (&str, &str), password: (&str, &str)) -> SshAccountExpect {
    SshAccountExpect {
        username: TerminalExpectSend {
            expect: username.0.to_string(),
            send: username.1.to_string(),
        },
        password: TerminalExpectSend {
            expect: password.0.to_string(),
            send: password.1.to_string(),
        },
    }
}

#[test]
fn runs_username_then_password_once() {
    let mut script = SshLoginExpect::new(
        &config(
            (r"(?i)(?:login|username)\s*:", "admin"),
            (r"(?i)password\s*:", "secret"),
        ),
        "fallback-user",
        Some("fallback-password"),
    )
    .unwrap();

    assert_eq!(
        script.advance(b"Username: Password: Password:"),
        vec![b"admin\r".to_vec(), b"secret\r".to_vec()]
    );
    assert!(script.advance(b"Username: Password:").is_empty());
    assert!(script.is_complete());
}

#[test]
fn supports_password_only_expect() {
    let mut script = SshLoginExpect::new(
        &config(("", ""), (r"(?i)password\s*:", "")),
        "admin",
        Some("secret"),
    )
    .unwrap();

    assert_eq!(script.advance(b"Password: "), vec![b"secret\r".to_vec()]);
}

#[test]
fn empty_send_uses_runtime_credentials() {
    let mut script = SshLoginExpect::new(
        &config(("Username:", ""), ("Password:", "")),
        "runtime-user",
        Some("runtime-password"),
    )
    .unwrap();

    assert_eq!(
        script.advance(b"Username: Password:"),
        vec![b"runtime-user\r".to_vec(), b"runtime-password\r".to_vec()]
    );
}

#[test]
fn explicit_send_overrides_runtime_credentials_and_supports_escapes() {
    let mut script = SshLoginExpect::new(
        &config(("Username:", r"operator\r"), ("Password:", r"secret\x21")),
        "runtime-user",
        Some("runtime-password"),
    )
    .unwrap();

    assert_eq!(
        script.advance(b"Username: Password:"),
        vec![b"operator\r".to_vec(), b"secret!\r".to_vec()]
    );
}

#[test]
fn matches_across_output_reads() {
    let mut script = SshLoginExpect::new(
        &config(("", ""), (r"(?i)password\s*:", "secret")),
        "admin",
        None,
    )
    .unwrap();

    assert!(script.advance(b"Pass").is_empty());
    assert_eq!(script.advance(b"word: "), vec![b"secret\r".to_vec()]);
}

#[test]
fn rejects_missing_runtime_fallback() {
    let error = SshLoginExpect::new(&config(("", ""), ("Password:", "")), "admin", None)
        .err()
        .expect("missing password fallback should fail");
    assert!(error.message().contains("runtime fallback"));
}

#[test]
fn rejects_send_without_expect_and_invalid_or_empty_regex() {
    assert!(
        SshLoginExpect::new(&config(("", "admin"), ("", "")), "admin", None)
            .err()
            .unwrap()
            .message()
            .contains("expect is required")
    );
    assert!(SshLoginExpect::new(&config(("(", "admin"), ("", "")), "admin", None).is_err());
    assert!(
        SshLoginExpect::new(&config((".*", "admin"), ("", "")), "admin", None)
            .err()
            .unwrap()
            .message()
            .contains("cannot match empty input")
    );
}

#[test]
fn pending_buffer_is_bounded() {
    let mut script =
        SshLoginExpect::new(&config(("", ""), ("Password:", "secret")), "admin", None).unwrap();
    script.advance(&vec![b'x'; MAX_PENDING_BYTES * 3]);
    assert!(script.pending_len() <= MAX_PENDING_BYTES);
}

fn script(steps: &[TelnetLoginStep]) -> TelnetLoginScript {
    TelnetLoginScript::new(steps).expect("valid Telnet expect regex")
}

#[test]
fn matches_case_insensitive_regex_across_reads() {
    let mut script = script(&[TelnetLoginStep {
        expect: r"(?i)(?:login|username)\s*:".to_string(),
        send: "admin".to_string(),
    }]);

    assert!(script.advance(b"Welcome\r\nUser").is_empty());
    assert_eq!(script.advance(b"name : "), vec![b"admin\r".to_vec()]);
    assert!(script.is_complete());
}

#[test]
fn runs_steps_in_order_within_one_chunk_once_each() {
    let mut script = script(&[
        TelnetLoginStep {
            expect: r"(?i)(?:login|username)\s*:".to_string(),
            send: "admin".to_string(),
        },
        TelnetLoginStep {
            expect: r"(?i)password\s*:".to_string(),
            send: "secret".to_string(),
        },
    ]);

    assert_eq!(
        script.advance(b"Username: Password: Password: "),
        vec![b"admin\r".to_vec(), b"secret\r".to_vec()]
    );
    assert!(script.advance(b"Username: Password: ").is_empty());
}

#[test]
fn consumes_output_through_regex_match_end() {
    let mut script = script(&[
        TelnetLoginStep {
            expect: r"user(name)?\s*:".to_string(),
            send: "admin".to_string(),
        },
        TelnetLoginStep {
            expect: r"password\s*:".to_string(),
            send: "secret".to_string(),
        },
    ]);

    assert_eq!(
        script.advance(b"username: password: "),
        vec![b"admin\r".to_vec(), b"secret\r".to_vec()]
    );
}

#[test]
fn supports_send_escapes_and_does_not_duplicate_enter() {
    let mut script = script(&[
        TelnetLoginStep {
            expect: r"login:\r\n".to_string(),
            send: r"admin\r".to_string(),
        },
        TelnetLoginStep {
            expect: "Password:".to_string(),
            send: r"secret\x21".to_string(),
        },
    ]);

    assert_eq!(script.advance(b"login:\r\n"), vec![b"admin\r".to_vec()]);
    assert_eq!(script.advance(b"Password: "), vec![b"secret!\r".to_vec()]);
}

#[test]
fn pending_buffer_is_bounded_and_still_matches_across_reads() {
    let mut script = script(&[TelnetLoginStep {
        expect: "password:".to_string(),
        send: "secret".to_string(),
    }]);

    script.advance(&vec![b'x'; MAX_PENDING_BYTES * 3]);
    assert!(script.pending_len() <= MAX_PENDING_BYTES);
    assert!(script.advance(b"pass").is_empty());
    assert_eq!(script.advance(b"word: "), vec![b"secret\r".to_vec()]);
}

#[test]
fn invalid_regex_returns_error_without_panicking() {
    let result = TelnetLoginScript::new(&[TelnetLoginStep {
        expect: "(?i)(login".to_string(),
        send: "admin".to_string(),
    }]);
    assert!(result.is_err());
}

#[test]
fn rejects_regex_that_matches_empty_input() {
    let result = TelnetLoginScript::new(&[TelnetLoginStep {
        expect: "a*".to_string(),
        send: "admin".to_string(),
    }]);
    assert!(result.is_err());
}

#[test]
fn skips_empty_expect_steps() {
    let mut script = script(&[
        TelnetLoginStep {
            expect: String::new(),
            send: "skip-me".to_string(),
        },
        TelnetLoginStep {
            expect: "ready>".to_string(),
            send: "go".to_string(),
        },
    ]);

    assert_eq!(script.advance(b"ready> "), vec![b"go\r".to_vec()]);
    assert!(script.is_complete());
}

#[test]
fn send_escapes_cover_every_form() {
    assert_eq!(parse_send_escapes(r"a\r\n\t\0\\b"), b"a\r\n\t\0\\b".to_vec());
    assert_eq!(parse_send_escapes(r"\x41\x6a"), b"Aj".to_vec());
    assert_eq!(parse_send_escapes(r"\xZ1"), b"\\xZ1".to_vec());
    assert_eq!(parse_send_escapes(r"\q"), b"\\q".to_vec());
    assert_eq!(parse_send_escapes("end\\"), b"end\\".to_vec());
    assert_eq!(parse_send_escapes(r"\x4"), b"\\x4".to_vec());
}

#[test]
fn login_send_ends_in_one_line_break() {
    assert_eq!(compile_login_send(""), b"\r".to_vec());
    assert_eq!(compile_login_send(r"yes\n"), b"yes\n".to_vec());
    assert_eq!(compile_login_send("yes"), b"yes\r".to_vec());
}

#[test]
fn ssh_errors_name_the_prompt() {
    let error = SshLoginExpect::new(&config(("", ""), ("", "pw")), "admin", None).err().unwrap();
    assert_eq!(error.message(), "SSH password expect is required when send is configured");
    let error = SshLoginExpect::new(&config(("(", "x"), ("", "")), "admin", None).err().unwrap();
    assert_eq!(error.message(), "invalid SSH username expect regular expression");
    let error = SshLoginExpect::new(&config(("User:", ""), ("", "")), "", None).err().unwrap();
    assert_eq!(error.message(), "SSH username expect has no send value or runtime fallback");
}

#[test]
fn completed_script_ignores_output_and_empty_output_changes_nothing() {
    let mut script = script(&[TelnetLoginStep {
        expect: "ok".to_string(),
        send: "go".to_string(),
    }]);
    assert!(script.advance(b"").is_empty());
    assert_eq!(script.pending_len(), 0);
    assert_eq!(script.advance(b"ok"), vec![b"go\r".to_vec()]);
    assert_eq!(script.pending_len(), 0);
    assert!(script.advance(b"ok ok").is_empty());
}

#[test]
fn empty_configuration_is_complete_at_once() {
    let mut script = SshLoginExpect::new(&config(("", ""), ("", "")), "admin", None).unwrap();
    assert!(script.is_complete());
    assert!(script.advance(b"Password:").is_empty());
}
