use ssh3::conversation::channel::{
    AcceptedChannel, Channel, ChannelError, ChannelOpenFailure, ConversationDatagramSender,
};
use ssh3::conversation::queue::{AcceptQueue, DatagramQueue};
use ssh3::conversation::router::{
    dispatch_datagram, read_incoming_channel, ChannelSetupError, Dispatch, IncomingChannelRouter,
    RouteIncomingChannelError,
};
use ssh3::conversation::state::{Conversation, ConversationError, DANGLING_DATAGRAM_QUEUE_SIZE};
use ssh3::proto::address::{IpAddr, SocketAddr};
use ssh3::proto::header::{build_forwarding_additional_bytes, ChannelHeader, SSH_FRAME_TYPE};
use ssh3::proto::message::{
    ChannelOpenConfirmationMessage, ChannelOpenFailureMessage, ChannelRequest,
    ChannelRequestMessage, DataOrExtendedDataMessage, Message, SSH_EXTENDED_DATA_NONE,
};
use ssh3::proto::request::SignalRequest;
use ssh3::proto::wire::{append_var_int, Error, Reader};

fn id() -> [u8; 32] {
    [7; 32]
}

fn channel(channel_type: &[u8], sent: bool, received: bool) -> Channel {
    Channel::new(10, id(), 42, channel_type.to_vec(), 1024, None, false, sent, received, 8, None)
}

fn data(bytes: &[u8]) -> Message {
    Message::Data(DataOrExtendedDataMessage {
        data_type: SSH_EXTENDED_DATA_NONE,
        data: bytes.to_vec(),
    })
}

fn signal() -> Message {
    Message::ChannelRequest(ChannelRequestMessage {
        want_reply: true,
        request: ChannelRequest::Signal(SignalRequest {
            signal_name_without_sig: b"TERM".to_vec(),
        }),
    })
}

#[test]
fn accept_queue_delivers_items_in_order() {
    let mut queue = AcceptQueue::new();
    queue.add(1);
    queue.add(2);

    assert_eq!(queue.next(), Some(1));
    assert_eq!(queue.next(), Some(2));
    assert_eq!(queue.next(), None);
}

#[test]
fn datagram_queue_blocks_until_space_and_preserves_order() {
    let mut queue = DatagramQueue::new(1);
    assert!(queue.add(vec![1]));
    assert!(!queue.add(vec![2]));
    assert!(!queue.has_room());
    assert_eq!(queue.next(), Some(vec![1]));
    assert!(queue.has_room());
    assert!(queue.add(vec![2]));
    assert_eq!(queue.next(), Some(vec![2]));
    assert_eq!(queue.next(), None);
}

#[test]
fn write_data_sends_header_once_and_chunks_payload() {
    let mut channel =
        Channel::new(11, id(), 22, b"session".to_vec(), 5, None, true, true, true, 4, None);

    let (parts, written) = channel.write_data(b"abcdefg", SSH_EXTENDED_DATA_NONE);
    let mut expected = ChannelHeader {
        conversation_stream_id: 11,
        channel_type: b"session".to_vec(),
        max_packet_size: 5,
    }
    .encode(None);
    let header_len = expected.len();
    for chunk in [
        b"ab".as_slice(),
        b"cd".as_slice(),
        b"ef".as_slice(),
        b"g".as_slice(),
    ] {
        expected.extend_from_slice(&data(chunk).to_vec());
    }

    assert_eq!(written, Ok(expected.len() - header_len));
    assert_eq!(parts.concat(), expected);
    assert_eq!(channel.maybe_send_header(), None);
}

#[test]
fn a_packet_size_below_the_overhead_is_refused() {
    let mut channel =
        Channel::new(11, id(), 22, b"session".to_vec(), 2, None, false, true, true, 4, None);
    let (parts, written) = channel.write_data(b"abc", SSH_EXTENDED_DATA_NONE);
    assert!(parts.is_empty());
    let error = written.unwrap_err();
    assert_eq!(
        error,
        ChannelError::MaxPacketSizeTooSmall { max_packet_size: 2, message_overhead: 3 }
    );
    assert_eq!(
        error.message(""),
        "max packet size 2 is too small for message overhead 3"
    );
}

#[test]
fn next_message_handles_confirmation_then_returns_message() {
    let mut bytes = Message::ChannelOpenConfirmation(ChannelOpenConfirmationMessage {
        max_packet_size: 4096,
    })
    .to_vec();
    bytes.extend_from_slice(&signal().to_vec());

    let mut channel = channel(b"session", true, false);
    channel.receive(&bytes);
    assert_eq!(channel.next_message(), Ok(Some(signal())));
    assert!(channel.confirm_received());
    assert_eq!(channel.next_message(), Ok(None));
}

#[test]
fn delivery_does_not_depend_on_how_the_bytes_are_cut() {
    let mut bytes = Message::ChannelOpenConfirmation(ChannelOpenConfirmationMessage {
        max_packet_size: 4096,
    })
    .to_vec();
    bytes.extend_from_slice(&data(b"hello").to_vec());
    bytes.extend_from_slice(&signal().to_vec());

    let mut channel = channel(b"session", true, false);
    let mut delivered = Vec::new();
    for byte in &bytes {
        channel.receive(&[*byte]);
        while let Some(message) = channel.next_message().unwrap() {
            delivered.push(message);
        }
    }
    assert_eq!(delivered, vec![data(b"hello"), signal()]);
}

#[test]
fn a_wrong_message_is_reported_once() {
    let mut channel = channel(b"session", true, true);
    channel.receive(&[7]);
    channel.receive(&signal().to_vec());
    assert_eq!(
        channel.next_message(),
        Err(ChannelError::Proto(Error::UnknownMessageType(7)))
    );
    assert_eq!(channel.next_message(), Ok(Some(signal())));
    assert_eq!(channel.next_message(), Ok(None));
}

#[test]
fn next_message_returns_non_confirmed_error() {
    let mut channel = channel(b"session", false, true);
    channel.receive(&data(b"hello").to_vec());
    match channel.next_message() {
        Err(ChannelError::NonConfirmed(error)) => {
            assert_eq!(error.message, data(b"hello"));
            assert_eq!(
                error.message("M"),
                "message M received on a non-confirmed channel"
            );
        }
        other => panic!("expected non-confirmed error, got {other:?}"),
    }
}

#[test]
fn a_refused_channel_reports_the_reason() {
    let mut channel = channel(b"session", true, false);
    channel.receive(
        &Message::ChannelOpenFailure(ChannelOpenFailureMessage {
            reason_code: 3,
            error_message_utf8: b"no".to_vec(),
            language_tag: Vec::new(),
        })
        .to_vec(),
    );
    let error = channel.wait_for_confirmation().unwrap_err();
    assert_eq!(
        error,
        ChannelError::OpenFailure(ChannelOpenFailure {
            reason_code: 3,
            error_message_utf8: b"no".to_vec(),
        })
    );
    assert_eq!(error.message(""), "channel open failure: reason 3: no");
}

#[test]
fn send_datagram_uses_conversation_sender() {
    let mut channel = Channel::new(
        11,
        id(),
        22,
        b"direct-udp".to_vec(),
        1024,
        Some(ConversationDatagramSender::new(11, 22)),
        false,
        true,
        true,
        4,
        None,
    );

    let (parts, sent) = channel.send_datagram(&[9, 8, 7]);

    let mut expected = Vec::new();
    append_var_int(&mut expected, 11);
    append_var_int(&mut expected, 22);
    expected.extend_from_slice(&[9, 8, 7]);
    assert!(parts.is_none());
    assert_eq!(sent, Ok(expected));
}

#[test]
fn a_channel_without_a_sender_sends_no_datagram() {
    let mut channel = channel(b"session", true, true);
    let (_, sent) = channel.send_datagram(&[1]);
    match sent {
        Err(ChannelError::DatagramSenderMissing(error)) => {
            assert_eq!(error.channel_id, 42);
            assert_eq!(error.message(), "datagram sent on non-datagram channel 42");
        }
        other => panic!("expected a missing sender, got {other:?}"),
    }
    channel.set_datagram_sender(ConversationDatagramSender::new(10, 42));
    assert_eq!(channel.send_datagram(&[1]), (None, Ok(vec![10, 42, 1])));
}

fn confirmation(max_packet_size: u64) -> Vec<u8> {
    Message::ChannelOpenConfirmation(ChannelOpenConfirmationMessage { max_packet_size }).to_vec()
}

#[test]
fn accept_channel_confirms_and_registers_channel() {
    let mut conversation = Conversation::new(10, id(), 2048, 8);
    conversation.queue_incoming_channel(channel(b"session", false, true));
    let (accepted, parts) = conversation.accept_channel_with_metadata().unwrap();

    assert_eq!(accepted.channel().channel_id(), 42);
    assert_eq!(accepted.channel().channel_type(), b"session");
    assert_eq!(parts.concat(), confirmation(2048));
    conversation.confirm_and_register_channel(accepted);
    assert!(conversation.channel_mut(42).is_some());
    assert!(conversation.channel_mut(43).is_none());
    assert!(conversation.accept_channel_with_metadata().is_none());
}

#[test]
fn accept_channel_with_metadata_preserves_udp_forwarding_target() {
    let mut conversation = Conversation::new(10, id(), 2048, 8);
    let remote_addr = SocketAddr { ip: IpAddr::V4([192, 0, 2, 10]), port: 443 };
    conversation.queue_incoming_accepted_channel(AcceptedChannel::UdpForwarding {
        channel: channel(b"direct-udp", false, true),
        remote_addr,
    });
    let (accepted, parts) = conversation.accept_channel_with_metadata().unwrap();

    match &accepted {
        AcceptedChannel::UdpForwarding { channel, remote_addr: accepted_remote_addr } => {
            assert_eq!(channel.channel_id(), 42);
            assert_eq!(*accepted_remote_addr, remote_addr);
        }
        _ => panic!("expected UDP forwarding channel"),
    }
    assert_eq!(parts.concat(), confirmation(2048));
}

#[test]
fn accept_channel_with_metadata_preserves_tcp_forwarding_target() {
    let mut conversation = Conversation::new(10, id(), 2048, 8);
    let remote_addr = SocketAddr { ip: IpAddr::V4([198, 51, 100, 25]), port: 22 };
    conversation.queue_incoming_accepted_channel(AcceptedChannel::TcpForwarding {
        channel: channel(b"direct-tcp", false, true),
        remote_addr,
    });
    let (accepted, parts) = conversation.accept_channel_with_metadata().unwrap();

    match &accepted {
        AcceptedChannel::TcpForwarding { channel, remote_addr: accepted_remote_addr } => {
            assert_eq!(channel.channel_id(), 42);
            assert_eq!(*accepted_remote_addr, remote_addr);
        }
        _ => panic!("expected TCP forwarding channel"),
    }
    assert_eq!(parts.concat(), confirmation(2048));
}

fn datagram_for(channel_id: u64, bytes: &[u8]) -> Vec<u8> {
    let mut datagram = Vec::new();
    append_var_int(&mut datagram, channel_id);
    datagram.extend_from_slice(bytes);
    datagram
}

#[test]
fn dangling_datagrams_are_delivered_when_channel_is_added() {
    let mut conversation = Conversation::new(10, id(), 2048, 8);

    match conversation.add_datagram(&datagram_for(42, &[1, 2, 3])) {
        Err(ConversationError::ChannelNotFound { channel_id }) => assert_eq!(channel_id, 42),
        other => panic!("expected missing channel error, got {other:?}"),
    }

    conversation.open_channel(42, b"session".to_vec(), 1024, 8);
    let channel = conversation.channel_mut(42).unwrap();
    assert_eq!(channel.receive_datagram(), Some(vec![1, 2, 3]));
    assert_eq!(channel.receive_datagram(), None);
}

#[test]
fn the_last_early_datagram_waits_for_its_channel() {
    let mut conversation = Conversation::new(10, id(), 2048, 8);
    for i in 0..3u8 {
        assert!(conversation.add_datagram(&datagram_for(42, &[i])).is_err());
    }
    conversation.open_channel(42, b"session".to_vec(), 1024, 1);
    for i in 3..2 + DANGLING_DATAGRAM_QUEUE_SIZE as u8 {
        assert_eq!(conversation.add_datagram(&datagram_for(42, &[i])), Ok(true));
    }
    assert_eq!(conversation.add_datagram(&datagram_for(42, &[99])), Ok(false));
    let channel = conversation.channel_mut(42).unwrap();
    for i in 2..2 + DANGLING_DATAGRAM_QUEUE_SIZE as u8 {
        assert_eq!(channel.receive_datagram(), Some(vec![i]));
    }
    assert_eq!(channel.receive_datagram(), None);
}

#[test]
fn udp_forwarding_channels_send_prefixed_datagrams() {
    let conversation = Conversation::new(10, id(), 2048, 8);
    let (mut channel, _) = conversation.open_udp_forwarding_channel(
        77,
        1024,
        8,
        SocketAddr { ip: IpAddr::V4([192, 0, 2, 8]), port: 443 },
    );

    let (_, sent) = channel.send_datagram(&[5, 4, 3]);

    let mut expected = Vec::new();
    append_var_int(&mut expected, 10);
    append_var_int(&mut expected, 77);
    expected.extend_from_slice(&[5, 4, 3]);
    assert_eq!(sent, Ok(expected));
}

#[test]
fn tcp_forwarding_channels_write_forwarding_headers_immediately() {
    let conversation = Conversation::new(10, id(), 2048, 8);
    let (_channel, header) = conversation.open_tcp_forwarding_channel(
        77,
        1024,
        8,
        SocketAddr { ip: IpAddr::V4([198, 51, 100, 1]), port: 22 },
    );

    let expected = ChannelHeader {
        conversation_stream_id: 10,
        channel_type: b"direct-tcp".to_vec(),
        max_packet_size: 1024,
    }
    .encode(Some(&build_forwarding_additional_bytes(
        IpAddr::V4([198, 51, 100, 1]),
        22,
    )));
    assert_eq!(header, expected);
}

fn header_bytes(stream: u64, channel_type: &[u8], more: Option<&[u8]>) -> Vec<u8> {
    ChannelHeader {
        conversation_stream_id: stream,
        channel_type: channel_type.to_vec(),
        max_packet_size: 1024,
    }
    .encode(more)
}

#[test]
fn incoming_channels_round_trip_with_core_messages() {
    let mut bytes = header_bytes(10, b"session", None);
    bytes.extend_from_slice(&signal().to_vec());
    let mut reader = Reader::new(&bytes);
    let incoming = read_incoming_channel(4, &mut reader).unwrap();
    let rest = reader.remaining().to_vec();

    let mut channel = incoming.into_channel(id(), None, 8);
    assert_eq!(channel.channel_id(), 4);
    assert_eq!(channel.conversation_stream_id(), 10);
    assert_eq!(channel.channel_type(), b"session");
    let parts = channel.confirm_channel(2048);
    assert_eq!(parts.concat(), confirmation(2048));
    channel.confirmed();
    channel.receive(&rest);
    assert_eq!(channel.next_message(), Ok(Some(signal())));
}

#[test]
fn tcp_forwarding_channels_accept_as_typed_forwarding_channels() {
    let target = build_forwarding_additional_bytes(IpAddr::V4([203, 0, 113, 9]), 80);
    let bytes = header_bytes(10, b"direct-tcp", Some(&target));
    let incoming = read_incoming_channel(8, &mut Reader::new(&bytes)).unwrap();
    let conversation = Conversation::new(10, id(), 2048, 8);
    let accepted = incoming.into_accepted_channel_for_conversation(&conversation);
    assert_eq!(
        accepted.remote_addr(),
        Some(SocketAddr { ip: IpAddr::V4([203, 0, 113, 9]), port: 80 })
    );
    assert!(matches!(accepted, AcceptedChannel::TcpForwarding { .. }));
}

#[test]
fn other_streams_are_no_channels() {
    let mut bytes = Vec::new();
    append_var_int(&mut bytes, SSH_FRAME_TYPE + 1);
    bytes.extend_from_slice(b"rest");
    let mut reader = Reader::new(&bytes);
    let error = match read_incoming_channel(8, &mut reader) {
        Err(error) => error,
        Ok(_) => panic!("expected an error"),
    };
    assert_eq!(
        error,
        ChannelSetupError::UnexpectedFrameType { frame_type: SSH_FRAME_TYPE + 1 }
    );
    assert_eq!(reader.remaining(), b"rest");
    assert_eq!(
        error.message(),
        format!("unexpected SSH3 frame type: {}", SSH_FRAME_TYPE + 1)
    );
}

#[test]
fn router_queues_channels_for_registered_conversations() {
    let mut router = IncomingChannelRouter::new();
    router.register_conversation(Conversation::new(10, id(), 2048, 8));
    let bytes = header_bytes(10, b"session", None);
    let incoming = read_incoming_channel(4, &mut Reader::new(&bytes)).unwrap();
    assert!(router.route_incoming_channel(incoming).is_ok());

    let mut conversation = router.unregister_conversation(10).unwrap();
    let (accepted, _) = conversation.accept_channel_with_metadata().unwrap();
    assert_eq!(accepted.channel().channel_id(), 4);
    assert!(router.conversation(10).is_none());
}

#[test]
fn router_rejects_unknown_conversations() {
    let mut router = IncomingChannelRouter::new();
    let bytes = header_bytes(10, b"session", None);
    let incoming = read_incoming_channel(4, &mut Reader::new(&bytes)).unwrap();
    let error = match router.route_incoming_channel(incoming) {
        Err(error) => error,
        Ok(_) => panic!("expected an error"),
    };
    assert_eq!(
        error,
        RouteIncomingChannelError::UnknownConversation { control_stream_id: 10, channel_id: 4 }
    );
    assert_eq!(
        error.message(),
        "no registered conversation for control stream 10 while routing channel 4"
    );
}

fn addressed(control_stream_id: u64, channel_id: u64, bytes: &[u8]) -> Vec<u8> {
    let mut datagram = Vec::new();
    append_var_int(&mut datagram, control_stream_id);
    datagram.extend_from_slice(&datagram_for(channel_id, bytes));
    datagram
}

#[test]
fn server_driver_routes_datagrams_into_the_registered_conversation() {
    let mut conversation = Conversation::new(10, id(), 2048, 8);
    conversation.open_channel(42, b"direct-udp".to_vec(), 1024, 1);

    assert_eq!(
        dispatch_datagram(&mut conversation, &addressed(11, 42, &[1])),
        Ok(Dispatch::Ignored)
    );
    assert_eq!(
        dispatch_datagram(&mut conversation, &addressed(10, 42, &[1])),
        Ok(Dispatch::Delivered)
    );
    assert_eq!(
        dispatch_datagram(&mut conversation, &addressed(10, 42, &[2])),
        Ok(Dispatch::Full)
    );
    let channel = conversation.channel_mut(42).unwrap();
    assert_eq!(channel.receive_datagram(), Some(vec![1]));
    assert_eq!(channel.receive_datagram(), None);

    let mut router = IncomingChannelRouter::new();
    router.register_conversation(conversation);
    assert_eq!(
        router.route_registered_datagram(&addressed(10, 42, &[2])),
        Ok(Dispatch::Delivered)
    );
    assert_eq!(
        router.route_registered_datagram(&addressed(9, 42, &[2])),
        Ok(Dispatch::Ignored)
    );
    let mut conversation = router.unregister_conversation(10).unwrap();
    assert_eq!(conversation.channel_mut(42).unwrap().receive_datagram(), Some(vec![2]));
}

#[test]
fn a_sent_datagram_arrives_at_the_other_end() {
    let near = Conversation::new(10, id(), 2048, 8);
    let mut far = Conversation::new(10, id(), 2048, 8);
    let remote = SocketAddr { ip: IpAddr::V4([192, 0, 2, 8]), port: 443 };
    let (mut channel, _) = near.open_udp_forwarding_channel(77, 1024, 8, remote);
    far.open_channel(77, b"direct-udp".to_vec(), 1024, 8);

    let (_, sent) = channel.send_datagram(b"ping");
    assert_eq!(dispatch_datagram(&mut far, &sent.unwrap()), Ok(Dispatch::Delivered));
    assert_eq!(far.channel_mut(77).unwrap().receive_datagram(), Some(b"ping".to_vec()));
}
