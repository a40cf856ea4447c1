use std::io;
use terminal::telnet::{
    TelnetCodec, TelnetDisconnectReason, TELNET_COMMAND_AYT, TELNET_COMMAND_DO,
    TELNET_COMMAND_DONT, TELNET_COMMAND_IAC, TELNET_COMMAND_SB, TELNET_COMMAND_SE,
    TELNET_COMMAND_WILL, TELNET_COMMAND_WONT, TELNET_MAX_PENDING_BYTES, TELNET_OPTION_BINARY,
    TELNET_OPTION_ECHO, TELNET_OPTION_NAWS, TELNET_OPTION_TERMINAL_TYPE, TELNET_TERMINAL_TYPE_IS,
    TELNET_TERMINAL_TYPE_SEND,
};

fn enable_terminal_type(codec: &mut TelnetCodec) {
    let (_, responses) = codec.filter_server_bytes(&[
        TELNET_COMMAND_IAC,
        TELNET_COMMAND_DO,
        TELNET_OPTION_TERMINAL_TYPE,
    ]);
    assert!(responses.contains(&vec![
        TELNET_COMMAND_IAC,
        TELNET_COMMAND_WILL,
        TELNET_OPTION_TERMINAL_TYPE
    ]));
}

#[test]
fn telnet_codec_filters_negotiation_and_answers_supported_options() {
    let mut codec = TelnetCodec::new(80, 24);
    let (data, responses) = codec.filter_server_bytes(&[
        b'h',
        TELNET_COMMAND_IAC,
        TELNET_COMMAND_DO,
        TELNET_OPTION_NAWS,
        TELNET_COMMAND_IAC,
        TELNET_COMMAND_WILL,
        TELNET_OPTION_ECHO,
        b'i',
    ]);

    assert_eq!(data, b"hi");
    assert!(responses.contains(&vec![
        TELNET_COMMAND_IAC,
        TELNET_COMMAND_WILL,
        TELNET_OPTION_NAWS
    ]));
    assert!(responses.contains(&vec![
        TELNET_COMMAND_IAC,
        TELNET_COMMAND_DO,
        TELNET_OPTION_ECHO
    ]));
    assert!(responses.iter().any(|response| response.starts_with(&[
        TELNET_COMMAND_IAC,
        TELNET_COMMAND_SB,
        TELNET_OPTION_NAWS
    ])));
}

#[test]
fn telnet_codec_answers_are_you_there() {
    let mut codec = TelnetCodec::new(80, 24);

    let (data, responses) =
        codec.filter_server_bytes(&[TELNET_COMMAND_IAC, TELNET_COMMAND_AYT]);

    assert!(data.is_empty());
    assert_eq!(responses, vec![b"\r\n[Navop: yes]\r\n".to_vec()]);
}

#[test]
fn telnet_codec_buffers_incomplete_negotiation_across_reads() {
    let mut codec = TelnetCodec::new(80, 24);

    let (data, responses) = codec.filter_server_bytes(&[b'a', TELNET_COMMAND_IAC]);
    assert_eq!(data, b"a");
    assert!(responses.is_empty());

    let (data, responses) =
        codec.filter_server_bytes(&[TELNET_COMMAND_DO, TELNET_OPTION_NAWS, b'b']);
    assert_eq!(data, b"b");
    assert!(responses.contains(&vec![
        TELNET_COMMAND_IAC,
        TELNET_COMMAND_WILL,
        TELNET_OPTION_NAWS
    ]));
    assert!(codec.naws_message().is_some());
}

#[test]
fn telnet_codec_buffers_subnegotiation_across_reads() {
    let mut codec = TelnetCodec::new(80, 24);
    enable_terminal_type(&mut codec);

    let (data, responses) = codec.filter_server_bytes(&[
        TELNET_COMMAND_IAC,
        TELNET_COMMAND_SB,
        TELNET_OPTION_TERMINAL_TYPE,
    ]);
    assert!(data.is_empty());
    assert!(responses.is_empty());

    let (data, responses) = codec.filter_server_bytes(&[
        TELNET_TERMINAL_TYPE_SEND,
        TELNET_COMMAND_IAC,
        TELNET_COMMAND_SE,
        b'x',
    ]);
    assert_eq!(data, b"x");
    assert_eq!(1, responses.len());
    assert!(responses[0].starts_with(&[
        TELNET_COMMAND_IAC,
        TELNET_COMMAND_SB,
        TELNET_OPTION_TERMINAL_TYPE,
        TELNET_TERMINAL_TYPE_IS,
    ]));
}

#[test]
fn telnet_codec_answers_terminal_type_subnegotiation() {
    let mut codec = TelnetCodec::new(80, 24);
    enable_terminal_type(&mut codec);
    let (data, responses) = codec.filter_server_bytes(&[
        TELNET_COMMAND_IAC,
        TELNET_COMMAND_SB,
        TELNET_OPTION_TERMINAL_TYPE,
        TELNET_TERMINAL_TYPE_SEND,
        TELNET_COMMAND_IAC,
        TELNET_COMMAND_SE,
    ]);

    assert!(data.is_empty());
    assert_eq!(1, responses.len());
    assert!(responses[0].starts_with(&[
        TELNET_COMMAND_IAC,
        TELNET_COMMAND_SB,
        TELNET_OPTION_TERMINAL_TYPE,
        TELNET_TERMINAL_TYPE_IS,
    ]));
    assert!(
        responses[0]
            .windows(b"xterm-256color".len())
            .any(|window| window == b"xterm-256color")
    );
    assert!(responses[0].ends_with(&[TELNET_COMMAND_IAC, TELNET_COMMAND_SE]));
}

#[test]
fn telnet_codec_unescapes_iac_iac_inside_subnegotiation() {
    let mut codec = TelnetCodec::new(80, 24);
    enable_terminal_type(&mut codec);

    // IAC IAC 在 SB payload 内应反转义为单个 0xFF。
    codec.filter_server_bytes(&[
        TELNET_COMMAND_IAC,
        TELNET_COMMAND_SB,
        TELNET_OPTION_TERMINAL_TYPE,
        TELNET_TERMINAL_TYPE_SEND,
        TELNET_COMMAND_IAC,
        TELNET_COMMAND_IAC,
        TELNET_COMMAND_IAC,
        TELNET_COMMAND_SE,
    ]);

    assert_eq!(
        codec.last_subnegotiation_payload(),
        Some(&[TELNET_OPTION_TERMINAL_TYPE, TELNET_TERMINAL_TYPE_SEND, 0xFF][..])
    );
}

#[test]
fn telnet_codec_escapes_client_iac_bytes() {
    let mut codec = TelnetCodec::new(80, 24);
    assert_eq!(
        codec.encode_client_data(&[b'a', TELNET_COMMAND_IAC, b'b']),
        vec![b'a', TELNET_COMMAND_IAC, TELNET_COMMAND_IAC, b'b']
    );
}

#[test]
fn telnet_codec_rejects_unsupported_options_once() {
    let mut codec = TelnetCodec::new(80, 24);
    let (data, responses) =
        codec.filter_server_bytes(&[TELNET_COMMAND_IAC, TELNET_COMMAND_DO, TELNET_OPTION_ECHO]);
    assert!(data.is_empty());
    assert!(responses.contains(&vec![
        TELNET_COMMAND_IAC,
        TELNET_COMMAND_WONT,
        TELNET_OPTION_ECHO
    ]));

    let (_, responses) =
        codec.filter_server_bytes(&[TELNET_COMMAND_IAC, TELNET_COMMAND_DO, TELNET_OPTION_ECHO]);
    assert!(responses.is_empty(), "已拒绝的重复 DO 不应反复产生 WONT");
}

#[test]
fn telnet_negotiation_is_idempotent_and_directions_are_independent() {
    let mut codec = TelnetCodec::new(80, 24);

    let (_, responses) =
        codec.filter_server_bytes(&[TELNET_COMMAND_IAC, TELNET_COMMAND_DO, TELNET_OPTION_NAWS]);
    assert_eq!(2, responses.len(), "首次 DO NAWS 应回复 WILL + NAWS");
    let (_, responses) =
        codec.filter_server_bytes(&[TELNET_COMMAND_IAC, TELNET_COMMAND_DO, TELNET_OPTION_NAWS]);
    assert!(responses.is_empty(), "重复 DO NAWS 不应重复应答");

    let (_, responses) = codec.filter_server_bytes(&[
        TELNET_COMMAND_IAC,
        TELNET_COMMAND_DONT,
        TELNET_OPTION_NAWS,
    ]);
    assert_eq!(
        responses,
        vec![vec![
            TELNET_COMMAND_IAC,
            TELNET_COMMAND_WONT,
            TELNET_OPTION_NAWS
        ]]
    );
    let (_, responses) = codec.filter_server_bytes(&[
        TELNET_COMMAND_IAC,
        TELNET_COMMAND_DONT,
        TELNET_OPTION_NAWS,
    ]);
    assert!(responses.is_empty(), "重复 DONT 不应重复 WONT");

    // 远端 BINARY 独立于本端 BINARY。
    let (_, responses) = codec.filter_server_bytes(&[
        TELNET_COMMAND_IAC,
        TELNET_COMMAND_WILL,
        TELNET_OPTION_BINARY,
    ]);
    assert_eq!(
        responses,
        vec![vec![
            TELNET_COMMAND_IAC,
            TELNET_COMMAND_DO,
            TELNET_OPTION_BINARY
        ]]
    );
    let (_, responses) = codec.filter_server_bytes(&[
        TELNET_COMMAND_IAC,
        TELNET_COMMAND_WILL,
        TELNET_OPTION_BINARY,
    ]);
    assert!(responses.is_empty(), "重复 WILL BINARY 不应重复 DO");

    // 远端 WONT 不影响本端发送编码；本端仍按 NVT 编码。
    codec.filter_server_bytes(&[
        TELNET_COMMAND_IAC,
        TELNET_COMMAND_WONT,
        TELNET_OPTION_BINARY,
    ]);
    assert_eq!(codec.encode_client_data(b"\r"), Vec::<u8>::new());
    assert_eq!(codec.flush_client_data(), b"\r\0");
}

#[test]
fn telnet_nvt_encoder_handles_cr_lf_cr_nul_and_cross_chunk_cr() {
    let mut codec = TelnetCodec::new(80, 24);

    assert_eq!(codec.encode_client_data(b"a\r\nb"), b"a\r\nb");
    assert_eq!(codec.encode_client_data(b"a\rb"), b"a\r\0b");

    // 跨 write() 的 CR LF 边界。
    assert_eq!(codec.encode_client_data(b"line\r"), b"line");
    assert_eq!(codec.encode_client_data(b"\nnext"), b"\r\nnext");

    // 单独的 Enter 最终 flush 为 CR NUL。
    assert_eq!(codec.encode_client_data(b"admin\r"), b"admin");
    assert!(codec.has_pending_client_cr());
    assert_eq!(codec.flush_client_data(), b"\r\0");
}

#[test]
fn telnet_binary_enables_raw_cr_but_still_escapes_iac() {
    let mut codec = TelnetCodec::new(80, 24);
    codec.filter_server_bytes(&[TELNET_COMMAND_IAC, TELNET_COMMAND_DO, TELNET_OPTION_BINARY]);

    assert_eq!(codec.encode_client_data(b"\r"), b"\r");
    assert_eq!(codec.flush_client_data(), Vec::<u8>::new());
    assert_eq!(
        codec.encode_client_data(&[TELNET_COMMAND_IAC]),
        vec![TELNET_COMMAND_IAC, TELNET_COMMAND_IAC]
    );
}

#[test]
fn telnet_pending_nvt_cr_keeps_pre_binary_encoding() {
    let mut codec = TelnetCodec::new(80, 24);
    assert!(codec.encode_client_data(b"\r").is_empty());
    assert!(codec.has_pending_client_cr());

    codec.filter_server_bytes(&[TELNET_COMMAND_IAC, TELNET_COMMAND_DO, TELNET_OPTION_BINARY]);

    assert_eq!(
        codec.flush_client_data(),
        b"\r\0",
        "BINARY 协商不应把协商前暂存的 NVT CR 改成裸 CR"
    );
}

#[test]
fn telnet_oversized_subnegotiation_discards_until_valid_iac_se() {
    let mut codec = TelnetCodec::new(80, 24);
    let (data, _) = codec.filter_server_bytes(&[
        TELNET_COMMAND_IAC,
        TELNET_COMMAND_SB,
        TELNET_OPTION_TERMINAL_TYPE,
    ]);
    assert!(data.is_empty());

    let (data, _) = codec.filter_server_bytes(&[b'x'; TELNET_MAX_PENDING_BYTES + 16]);
    assert!(data.is_empty(), "超限后 SB payload 不应泄漏进终端");

    let (data, responses) = codec.filter_server_bytes(&[
        b'l',
        b'e',
        b'a',
        b'k',
        TELNET_COMMAND_IAC,
        TELNET_COMMAND_SE,
        b'o',
        b'k',
    ]);
    assert_eq!(data, b"ok", "丢弃状态应持续到合法 IAC SE");
    assert!(responses.is_empty());
}

#[test]
fn telnet_naws_message_waits_for_server_negotiation_and_escapes_iac_payload() {
    let mut codec = TelnetCodec::new(80, 24);
    assert!(codec.naws_message().is_none());

    // 服务端 DO NAWS 后才允许发送窗口尺寸。
    codec.filter_server_bytes(&[TELNET_COMMAND_IAC, TELNET_COMMAND_DO, TELNET_OPTION_NAWS]);

    // 让宽高字节恰好包含 0xFF，验证子协商载荷内的 IAC 转义。
    codec.set_window_size(0x01FF, 24);
    let message = codec.naws_message().expect("NAWS 已协商");
    let payload = &message[3..message.len() - 2];
    assert_eq!(payload.len(), 5, "0xFF 低字节应被转义为两个字节");
    assert_eq!(payload[0], 0x01);
    assert_eq!(payload[1], TELNET_COMMAND_IAC);
    assert_eq!(payload[2], TELNET_COMMAND_IAC);
    assert_eq!(payload[3], 0x00);
    assert_eq!(payload[4], 0x18);
}

#[test]
fn disconnect_reason_distinguishes_eof_from_write_errors() {
    assert_eq!(TelnetDisconnectReason::Eof.user_message(), None);
    assert_eq!(TelnetDisconnectReason::Shutdown.user_message(), None);

    let write_error = io::Error::new(io::ErrorKind::BrokenPipe, "broken pipe");
    let message = TelnetDisconnectReason::Write {
        operation: "用户输入发送",
        error: write_error,
    }
    .user_message()
    .expect("write error should be visible");
    assert!(message.contains("用户输入发送"));
    assert!(message.contains("broken pipe"));

    let read_error = io::Error::new(io::ErrorKind::ConnectionReset, "reset");
    assert!(
        TelnetDisconnectReason::Read(read_error)
            .user_message()
            .expect("read error should be visible")
            .contains("读取 Telnet 数据失败")
    );
}

