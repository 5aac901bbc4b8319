use ssh3::proto::address::{ForwardingAddressFamily, IpAddr, SocketAddr};
use ssh3::proto::header::{
    build_forwarding_additional_bytes, parse_forwarding_payload, parse_tcp_forwarding_payload,
    parse_udp_forwarding_payload, ChannelHeader, SSH_FRAME_TYPE,
};
use ssh3::proto::message::{
    ChannelOpenConfirmationMessage, ChannelOpenFailureMessage, ChannelRequest,
    ChannelRequestMessage, DataOrExtendedDataMessage, ForwardingProtocol, ForwardingRequest,
    Message, SSH_EXTENDED_DATA_NONE, SSH_MSG_CHANNEL_DATA, SSH_MSG_CHANNEL_EXTENDED_DATA,
    SSH_MSG_CHANNEL_OPEN_CONFIRMATION, SSH_MSG_CHANNEL_OPEN_FAILURE, SSH_MSG_CHANNEL_REQUEST,
};
use ssh3::proto::request::{
    ExecRequest, ExitSignalRequest, ExitStatusRequest, PtyRequest, SignalRequest,
    SubsystemRequest, WindowChangeRequest, X11Request,
};
use ssh3::proto::wire::{
    append_ssh_bytes, append_var_int, append_var_int_with_len, min_u64, read_bool, read_ssh_bytes,
    read_var_int, ssh_string_len, var_int_len, write_bool, Error, Reader, MAX_VARINT,
};

const EXTENDED_DATA_TYPE: u64 = 10_000_000;

fn patterned_bytes(len: usize) -> Vec<u8> {
    (0..len).map(|i| (i % 251) as u8).collect()
}

fn parse_message(bytes: &[u8]) -> Message {
    Message::parse(&mut Reader::new(bytes)).unwrap()
}

fn encode_request_bytes(request_type: &[u8], want_reply: bool, payload: &[u8]) -> Vec<u8> {
    let mut out = Vec::new();
    append_var_int(&mut out, SSH_MSG_CHANNEL_REQUEST);
    append_ssh_bytes(&mut out, request_type);
    write_bool(&mut out, want_reply);
    out.extend_from_slice(payload);
    out
}

#[test]
fn var_int_round_trips_at_boundaries() {
    let cases = [
        (0, vec![0x00]),
        (63, vec![0x3f]),
        (64, vec![0x40, 0x40]),
        (16_383, vec![0x7f, 0xff]),
        (16_384, vec![0x80, 0x00, 0x40, 0x00]),
        (1_073_741_823, vec![0xbf, 0xff, 0xff, 0xff]),
        (
            1_073_741_824,
            vec![0xc0, 0x00, 0x00, 0x00, 0x40, 0x00, 0x00, 0x00],
        ),
        (
            MAX_VARINT,
            vec![0xff, 0xff, 0xff, 0xff, 0xff, 0xff, 0xff, 0xff],
        ),
    ];

    for (value, expected) in cases {
        let mut encoded = Vec::new();
        append_var_int(&mut encoded, value);
        assert_eq!(encoded, expected);
        assert_eq!(var_int_len(value), expected.len());

        let mut cursor = Reader::new(&encoded);
        let decoded = read_var_int(&mut cursor).unwrap();
        assert_eq!(decoded, value);
    }
}

#[test]
fn append_var_int_with_explicit_length_uses_requested_size() {
    let mut encoded = Vec::new();
    append_var_int_with_len(&mut encoded, 63, 2);
    assert_eq!(encoded, vec![0x40, 0x3f]);
}

#[test]
fn ssh_bytes_round_trip() {
    let value = b"ssh3-bytes".to_vec();
    let mut encoded = Vec::new();
    append_ssh_bytes(&mut encoded, &value);
    assert_eq!(encoded.len(), ssh_string_len(&value));

    let mut cursor = Reader::new(&encoded);
    let decoded = read_ssh_bytes(&mut cursor).unwrap();
    assert_eq!(decoded, value);
}

#[test]
fn min_u64_returns_the_smaller_value() {
    assert_eq!(min_u64(4, 9), 4);
    assert_eq!(min_u64(9, 4), 4);
}

#[test]
fn encodes_and_parses_channel_headers() {
    let header = ChannelHeader {
        conversation_stream_id: 42,
        channel_type: b"session".to_vec(),
        max_packet_size: 32_768,
    };
    let extra = vec![1, 2, 3, 4];
    let encoded = header.encode(Some(&extra));

    let mut cursor = Reader::new(&encoded);
    let frame_type = read_var_int(&mut cursor).unwrap();
    assert_eq!(frame_type, SSH_FRAME_TYPE);
    let parsed = ChannelHeader::parse_payload(&mut cursor).unwrap();
    assert_eq!(parsed, header);
    assert_eq!(cursor.remaining(), extra);
}

#[test]
fn encodes_and_parses_ipv4_forwarding_payloads() {
    let payload = build_forwarding_additional_bytes(IpAddr::V4([192, 0, 2, 15]), 443);
    let expected = SocketAddr { ip: IpAddr::V4([192, 0, 2, 15]), port: 443 };

    assert_eq!(
        parse_forwarding_payload(&mut Reader::new(&payload)).unwrap(),
        expected
    );
    assert_eq!(
        parse_udp_forwarding_payload(&mut Reader::new(&payload)).unwrap(),
        expected
    );
    assert_eq!(
        parse_tcp_forwarding_payload(&mut Reader::new(&payload)).unwrap(),
        expected
    );
}

#[test]
fn encodes_and_parses_ipv6_forwarding_payloads() {
    let octets = [0x20, 0x01, 0x0d, 0xb8, 0, 0, 0, 1, 0, 0, 0, 0, 0, 0, 0, 1];
    let payload = build_forwarding_additional_bytes(IpAddr::V6(octets), 8443);
    let expected = SocketAddr { ip: IpAddr::V6(octets), port: 8443 };

    assert_eq!(
        parse_forwarding_payload(&mut Reader::new(&payload)).unwrap(),
        expected
    );
}

#[test]
fn frame_type_matches_the_go_constant() {
    let mut encoded = Vec::new();
    append_var_int(&mut encoded, SSH_FRAME_TYPE);
    assert_eq!(
        encoded,
        vec![0xc0, 0x00, 0x00, 0x00, 0xaf, 0x36, 0x27, 0xe6]
    );
}

#[test]
fn parses_and_writes_data_messages() {
    let large_data = patterned_bytes(128 * 1024);
    let cases = [
        Vec::from(b"hello, world!".as_slice()),
        Vec::new(),
        large_data,
    ];

    for data in cases {
        let message = Message::Data(DataOrExtendedDataMessage {
            data_type: SSH_EXTENDED_DATA_NONE,
            data: data.clone(),
        });
        let mut expected = Vec::new();
        append_var_int(&mut expected, SSH_MSG_CHANNEL_DATA);
        append_ssh_bytes(&mut expected, &data);

        assert_eq!(message.encoded_len(), expected.len());
        assert_eq!(message.to_vec(), expected);
        assert_eq!(parse_message(&expected), message);
    }
}

#[test]
fn parses_and_writes_extended_data_messages() {
    let large_data = patterned_bytes(128 * 1024);
    let cases = [
        Vec::from(b"hello, world!".as_slice()),
        Vec::new(),
        large_data,
    ];

    for data in cases {
        let message = Message::Data(DataOrExtendedDataMessage {
            data_type: EXTENDED_DATA_TYPE,
            data: data.clone(),
        });
        let mut expected = Vec::new();
        append_var_int(&mut expected, SSH_MSG_CHANNEL_EXTENDED_DATA);
        append_var_int(&mut expected, EXTENDED_DATA_TYPE);
        append_ssh_bytes(&mut expected, &data);

        assert_eq!(message.encoded_len(), expected.len());
        assert_eq!(message.to_vec(), expected);
        assert_eq!(parse_message(&expected), message);
    }
}

#[test]
fn parses_and_writes_channel_request_messages() {
    let large_bytes = patterned_bytes(1024);
    let term = large_bytes[..100].to_vec();
    let encoded_modes = large_bytes[100..600].to_vec();
    let x11_protocol = large_bytes[..100].to_vec();
    let x11_cookie = large_bytes[100..500].to_vec();
    let exec_command = large_bytes.clone();
    let subsystem_name = large_bytes.clone();
    let signal_name = large_bytes.clone();
    let exit_signal_name = large_bytes[..100].to_vec();
    let error_message = large_bytes[100..500].to_vec();
    let language_tag = large_bytes[500..700].to_vec();

    let pty_payload = {
        let mut payload = Vec::new();
        append_ssh_bytes(&mut payload, &term);
        append_var_int(&mut payload, 9_001);
        append_var_int(&mut payload, 9_002);
        append_var_int(&mut payload, 9_003);
        append_var_int(&mut payload, 9_004);
        append_ssh_bytes(&mut payload, &encoded_modes);
        payload
    };
    let pty_message = Message::ChannelRequest(ChannelRequestMessage {
        want_reply: true,
        request: ChannelRequest::Pty(PtyRequest {
            term,
            char_width: 9_001,
            char_height: 9_002,
            pixel_width: 9_003,
            pixel_height: 9_004,
            encoded_terminal_modes: encoded_modes,
        }),
    });
    let pty_bytes = encode_request_bytes(b"pty-req", true, &pty_payload);

    let x11_payload = {
        let mut payload = Vec::new();
        write_bool(&mut payload, false);
        append_ssh_bytes(&mut payload, &x11_protocol);
        append_ssh_bytes(&mut payload, &x11_cookie);
        append_var_int(&mut payload, 4_096);
        payload
    };
    let x11_message = Message::ChannelRequest(ChannelRequestMessage {
        want_reply: false,
        request: ChannelRequest::X11(X11Request {
            single_connection: false,
            x11_authentication_protocol: x11_protocol,
            x11_authentication_cookie: x11_cookie,
            x11_screen_number: 4_096,
        }),
    });
    let x11_bytes = encode_request_bytes(b"x11-req", false, &x11_payload);

    let shell_message = Message::ChannelRequest(ChannelRequestMessage {
        want_reply: true,
        request: ChannelRequest::Shell,
    });
    let shell_bytes = encode_request_bytes(b"shell", true, &[]);

    let exec_payload = {
        let mut payload = Vec::new();
        append_ssh_bytes(&mut payload, &exec_command);
        payload
    };
    let exec_message = Message::ChannelRequest(ChannelRequestMessage {
        want_reply: false,
        request: ChannelRequest::Exec(ExecRequest {
            command: exec_command,
        }),
    });
    let exec_bytes = encode_request_bytes(b"exec", false, &exec_payload);

    let subsystem_payload = {
        let mut payload = Vec::new();
        append_ssh_bytes(&mut payload, &subsystem_name);
        payload
    };
    let subsystem_message = Message::ChannelRequest(ChannelRequestMessage {
        want_reply: true,
        request: ChannelRequest::Subsystem(SubsystemRequest { subsystem_name }),
    });
    let subsystem_bytes = encode_request_bytes(b"subsystem", true, &subsystem_payload);

    let window_change_payload = {
        let mut payload = Vec::new();
        append_var_int(&mut payload, 80);
        append_var_int(&mut payload, 24);
        append_var_int(&mut payload, 1_280);
        append_var_int(&mut payload, 720);
        payload
    };
    let window_change_message = Message::ChannelRequest(ChannelRequestMessage {
        want_reply: false,
        request: ChannelRequest::WindowChange(WindowChangeRequest {
            char_width: 80,
            char_height: 24,
            pixel_width: 1_280,
            pixel_height: 720,
        }),
    });
    let window_change_bytes =
        encode_request_bytes(b"window-change", false, &window_change_payload);

    let signal_payload = {
        let mut payload = Vec::new();
        append_ssh_bytes(&mut payload, &signal_name);
        payload
    };
    let signal_message = Message::ChannelRequest(ChannelRequestMessage {
        want_reply: true,
        request: ChannelRequest::Signal(SignalRequest {
            signal_name_without_sig: signal_name,
        }),
    });
    let signal_bytes = encode_request_bytes(b"signal", true, &signal_payload);

    let exit_status_payload = {
        let mut payload = Vec::new();
        append_var_int(&mut payload, 255);
        payload
    };
    let exit_status_message = Message::ChannelRequest(ChannelRequestMessage {
        want_reply: false,
        request: ChannelRequest::ExitStatus(ExitStatusRequest { exit_status: 255 }),
    });
    let exit_status_bytes = encode_request_bytes(b"exit-status", false, &exit_status_payload);

    let exit_signal_payload = {
        let mut payload = Vec::new();
        append_ssh_bytes(&mut payload, &exit_signal_name);
        write_bool(&mut payload, true);
        append_ssh_bytes(&mut payload, &error_message);
        append_ssh_bytes(&mut payload, &language_tag);
        payload
    };
    let exit_signal_message = Message::ChannelRequest(ChannelRequestMessage {
        want_reply: true,
        request: ChannelRequest::ExitSignal(ExitSignalRequest {
            signal_name_without_sig: exit_signal_name,
            core_dumped: true,
            error_message_utf8: error_message,
            language_tag,
        }),
    });
    let exit_signal_bytes = encode_request_bytes(b"exit-signal", true, &exit_signal_payload);

    let forwarding_payload = {
        let mut payload = Vec::new();
        append_var_int(&mut payload, ForwardingProtocol::Tcp.as_u64());
        append_var_int(&mut payload, 4);
        payload.extend_from_slice(&[192, 0, 2, 10]);
        payload.extend_from_slice(&443u16.to_be_bytes());
        payload
    };
    let forwarding_message = Message::ChannelRequest(ChannelRequestMessage {
        want_reply: false,
        request: ChannelRequest::ForwardPort(ForwardingRequest {
            protocol: ForwardingProtocol::Tcp,
            ip_address: IpAddr::V4([192, 0, 2, 10]),
            port: 443,
        }),
    });
    let forwarding_bytes = encode_request_bytes(b"forward-port", false, &forwarding_payload);

    let cases = [
        (pty_message, pty_bytes),
        (x11_message, x11_bytes),
        (shell_message, shell_bytes),
        (exec_message, exec_bytes),
        (subsystem_message, subsystem_bytes),
        (window_change_message, window_change_bytes),
        (signal_message, signal_bytes),
        (exit_status_message, exit_status_bytes),
        (exit_signal_message, exit_signal_bytes),
        (forwarding_message, forwarding_bytes),
    ];

    for (message, expected_bytes) in cases {
        assert_eq!(message.encoded_len(), expected_bytes.len());
        assert_eq!(message.to_vec(), expected_bytes);
        assert_eq!(parse_message(&expected_bytes), message);
    }
}

#[test]
fn parses_and_writes_channel_open_confirmation_messages() {
    let message = Message::ChannelOpenConfirmation(ChannelOpenConfirmationMessage {
        max_packet_size: 32_768,
    });
    let mut expected = Vec::new();
    append_var_int(&mut expected, SSH_MSG_CHANNEL_OPEN_CONFIRMATION);
    append_var_int(&mut expected, 32_768);

    assert_eq!(message.encoded_len(), expected.len());
    assert_eq!(message.to_vec(), expected);
    assert_eq!(parse_message(&expected), message);
}

#[test]
fn parses_and_writes_channel_open_failure_messages() {
    let error_message = patterned_bytes(100);
    let language_tag = patterned_bytes(32);
    let message = Message::ChannelOpenFailure(ChannelOpenFailureMessage {
        reason_code: 4_096,
        error_message_utf8: error_message.clone(),
        language_tag: language_tag.clone(),
    });
    let mut expected = Vec::new();
    append_var_int(&mut expected, SSH_MSG_CHANNEL_OPEN_FAILURE);
    append_var_int(&mut expected, 4_096);
    append_ssh_bytes(&mut expected, &error_message);
    append_ssh_bytes(&mut expected, &language_tag);

    assert_eq!(message.encoded_len(), expected.len());
    assert_eq!(message.to_vec(), expected);
    assert_eq!(parse_message(&expected), message);
}

#[test]
fn messages_without_a_body_round_trip() {
    let cases = [
        (Message::ChannelEof, vec![0x40, 96]),
        (Message::ChannelClose, vec![0x40, 97]),
        (Message::ChannelSuccess, vec![0x40, 99]),
        (Message::ChannelFailure, vec![0x40, 100]),
    ];
    for (message, bytes) in cases {
        assert_eq!(message.encoded_len(), 2);
        assert_eq!(message.to_vec(), bytes);
        assert_eq!(parse_message(&bytes), message);
    }
}

#[test]
fn truncated_input_is_reported_and_nothing_is_consumed() {
    let message = Message::Data(DataOrExtendedDataMessage {
        data_type: SSH_EXTENDED_DATA_NONE,
        data: b"hello".to_vec(),
    });
    let bytes = message.to_vec();
    for length in 0..bytes.len() {
        let mut reader = Reader::new(&bytes[..length]);
        assert_eq!(Message::parse(&mut reader), Err(Error::UnexpectedEof));
        assert_eq!(reader.remaining(), &bytes[..length]);
    }
}

#[test]
fn each_malformed_input_has_its_error() {
    let mut unknown = Vec::new();
    append_var_int(&mut unknown, 7);
    assert_eq!(
        Message::parse(&mut Reader::new(&unknown)),
        Err(Error::UnknownMessageType(7))
    );

    let request = encode_request_bytes(b"dance", true, &[]);
    assert_eq!(
        Message::parse(&mut Reader::new(&request)),
        Err(Error::UnknownRequestType(b"dance".to_vec()))
    );

    let mut bad_bool = Vec::new();
    append_var_int(&mut bad_bool, SSH_MSG_CHANNEL_REQUEST);
    append_ssh_bytes(&mut bad_bool, b"shell");
    bad_bool.push(2);
    assert_eq!(
        Message::parse(&mut Reader::new(&bad_bool)),
        Err(Error::InvalidBool(2))
    );
    assert_eq!(read_bool(&mut Reader::new(&[9])), Err(Error::InvalidBool(9)));

    let mut protocol = Vec::new();
    append_var_int(&mut protocol, 9);
    let forwarding = encode_request_bytes(b"forward-port", false, &protocol);
    assert_eq!(
        Message::parse(&mut Reader::new(&forwarding)),
        Err(Error::InvalidForwardingProtocol(9))
    );

    let mut family = Vec::new();
    append_var_int(&mut family, 5);
    assert_eq!(
        parse_forwarding_payload(&mut Reader::new(&family)),
        Err(Error::InvalidAddressFamily(5))
    );
}

#[test]
fn wrong_input_is_gone_as_far_as_it_was_read() {
    let after = |bytes: &[u8]| {
        let mut reader = Reader::new(bytes);
        Message::parse(&mut reader).unwrap_err();
        reader.remaining().to_vec()
    };
    let mut reader = Reader::new(&[9, 1]);
    assert_eq!(read_bool(&mut reader), Err(Error::InvalidBool(9)));
    assert_eq!(reader.remaining(), &[1]);
    assert_eq!(read_bool(&mut reader), Ok(true));
    assert_eq!(read_bool(&mut reader), Err(Error::UnexpectedEof));

    let mut unknown = Vec::new();
    append_var_int(&mut unknown, 700);
    unknown.extend_from_slice(b"rest");
    assert_eq!(after(&unknown), b"rest");
    assert_eq!(after(&encode_request_bytes(b"dance", true, b"rest")), b"rest");

    let mut bad_bool = Vec::new();
    append_var_int(&mut bad_bool, SSH_MSG_CHANNEL_REQUEST);
    append_ssh_bytes(&mut bad_bool, b"shell");
    bad_bool.extend_from_slice(b"\x02rest");
    assert_eq!(after(&bad_bool), b"rest");

    assert_eq!(after(&encode_request_bytes(b"forward-port", false, b"\x09rest")), b"rest");
    assert_eq!(after(&encode_request_bytes(b"forward-port", false, b"\x00\x05rest")), b"rest");
    let mut reader = Reader::new(b"\x05rest");
    assert_eq!(parse_forwarding_payload(&mut reader), Err(Error::InvalidAddressFamily(5)));
    assert_eq!(reader.remaining(), b"rest");
}

#[test]
fn numbers_of_families_and_protocols_are_read_back() {
    assert_eq!(ForwardingAddressFamily::try_from(4).map(|family| family.octet_len()), Ok(4));
    assert_eq!(ForwardingAddressFamily::try_from(6).map(|family| family.octet_len()), Ok(16));
    assert_eq!(ForwardingProtocol::try_from(ForwardingProtocol::Udp.as_u64()), Ok(ForwardingProtocol::Udp));
    assert_eq!(ForwardingProtocol::try_from(ForwardingProtocol::Tcp.as_u64()), Ok(ForwardingProtocol::Tcp));
}

#[test]
fn errors_are_put_in_words() {
    assert_eq!(Error::UnexpectedEof.message(), "failed to fill whole buffer");
    assert_eq!(Error::InvalidBool(7).message(), "invalid SSH boolean byte: 7");
    assert_eq!(
        Error::InvalidLength(u64::MAX).message(),
        "SSH string length does not fit in memory: 18446744073709551615"
    );
    assert_eq!(Error::UnknownMessageType(80).message(), "unknown SSH message type: 80");
    assert_eq!(
        Error::UnknownRequestType(vec![1, 23, 255]).message(),
        format!("unknown channel request type: {:?}", vec![1u8, 23, 255])
    );
    assert_eq!(
        Error::UnknownRequestType(Vec::new()).message(),
        "unknown channel request type: []"
    );
    assert_eq!(
        Error::InvalidForwardingProtocol(9).message(),
        "invalid forwarding protocol: 9"
    );
    assert_eq!(Error::InvalidAddressFamily(10).message(), "invalid address family: 10");
}
