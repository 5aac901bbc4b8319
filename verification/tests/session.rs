//! Both ends of a session, joined by the bytes that they write.

use ssh3::client::config::SessionRequest;
use ssh3::client::session::{
    initial_session_requests, signal_request, window_change_request, Capture, LocalTerminalInfo,
    SessionEnd, TerminalSize,
};
use ssh3::conversation::router::{read_incoming_channel, IncomingChannelRouter};
use ssh3::conversation::state::Conversation;
use ssh3::proto::message::{
    ChannelRequest, ChannelRequestMessage, Message, SSH_EXTENDED_DATA_NONE,
    SSH_EXTENDED_DATA_STDERR,
};
use ssh3::proto::request::ExitStatusRequest;
use ssh3::proto::wire::Reader;
use ssh3::server::session::{
    send_channel_request_reply, Answer, PendingPty, Session, SessionCommand, SessionPtySize,
    SessionStep, Signal,
};

const CONTROL: u64 = 10;
const STREAM: u64 = 4;

/// The conversation of the client, and the router of the server, on which nothing has happened.
fn ends() -> (Conversation, IncomingChannelRouter) {
    let mut router = IncomingChannelRouter::new();
    router.register_conversation(Conversation::new(CONTROL, [7; 32], 1024, 8));
    (Conversation::new(CONTROL, [7; 32], 1024, 8), router)
}

/// Opens a session channel, and returns what confirms it.
fn open(
    client: &mut Conversation,
    server: &mut IncomingChannelRouter,
    max_packet_size: u64,
    first: Vec<ChannelRequestMessage>,
) -> Vec<u8> {
    client.open_channel(STREAM, b"session".to_vec(), max_packet_size, 8);
    let channel = client.channel_mut(STREAM).unwrap();
    let mut sent = Vec::new();
    for request in first {
        sent.extend(channel.send_request(request).concat());
    }
    let mut reader = Reader::new(&sent);
    let incoming = read_incoming_channel(STREAM, &mut reader).unwrap();
    let rest = reader.remaining().to_vec();
    assert_eq!(server.route_incoming_channel(incoming), Ok(CONTROL));
    let conversation = server.conversation_mut(CONTROL).unwrap();
    let (accepted, parts) = conversation.accept_channel_with_metadata().unwrap();
    conversation.confirm_and_register_channel(accepted);
    conversation.channel_mut(STREAM).unwrap().receive(&rest);
    parts.concat()
}

/// Hands bytes to the server, and returns the messages in them.
fn at_server(server: &mut IncomingChannelRouter, bytes: &[u8]) -> Vec<Message> {
    let channel = server.conversation_mut(CONTROL).unwrap().channel_mut(STREAM).unwrap();
    channel.receive(bytes);
    let mut messages = Vec::new();
    while let Ok(Some(message)) = channel.next_message() {
        messages.push(message);
    }
    messages
}

fn answer(note: Option<&str>, reply: Option<bool>) -> Answer {
    Answer { note: note.map(|note| note.to_string()), reply }
}

#[test]
fn a_command_runs_as_asked_and_its_output_is_captured() {
    let (mut client, mut server) = ends();
    let request = SessionRequest::Exec("printf 'ä b'".to_string());
    let confirmation = open(&mut client, &mut server, 20, initial_session_requests(&request, None));

    let mut session = Session::new();
    let mut messages = at_server(&mut server, b"").into_iter();
    assert_eq!(
        session.on_message(messages.next().unwrap()),
        SessionStep::Start { command: SessionCommand::Exec("printf 'ä b'".to_string()), pty: None }
    );
    assert_eq!(session.on_outcome(None), answer(None, Some(true)));
    assert_eq!(messages.next(), None);

    let channel = server.conversation_mut(CONTROL).unwrap().channel_mut(STREAM).unwrap();
    let mut sent = send_channel_request_reply(channel, true).concat();
    let output: Vec<u8> = (0..200).collect();
    let (parts, written) = channel.write_data(&output, SSH_EXTENDED_DATA_NONE);
    assert!(parts.len() > 1);
    assert_eq!(written, Ok(parts.concat().len()));
    sent.extend(parts.concat());
    sent.extend(channel.write_data(b"warning", SSH_EXTENDED_DATA_STDERR).0.concat());
    let ended = ChannelRequestMessage {
        want_reply: false,
        request: ChannelRequest::ExitStatus(ExitStatusRequest { exit_status: 3 }),
    };
    sent.extend(channel.send_request(ended).concat());

    let channel = client.channel_mut(STREAM).unwrap();
    channel.receive(&confirmation);
    channel.receive(&sent);
    assert_eq!(channel.wait_for_confirmation(), Ok(true));
    let mut capture = Capture::new();
    let mut end = None;
    while let Ok(Some(message)) = channel.next_message() {
        end = end.or(capture.on_message(message));
    }
    assert_eq!(end, Some(SessionEnd::Exit(3)));
    let captured = capture.finish(SessionEnd::Exit(3), None).unwrap();
    assert_eq!(captured.stdout, output);
    assert_eq!(captured.stderr, b"warning");
}

#[test]
fn a_shell_runs_on_the_terminal_of_the_client() {
    let (mut client, mut server) = ends();
    let mut size =
        TerminalSize { char_width: 80, char_height: 24, pixel_width: 640, pixel_height: 480 };
    let terminal = LocalTerminalInfo { term: Some("xterm".to_string()), size };
    let first = initial_session_requests(&SessionRequest::Shell, Some(&terminal));
    open(&mut client, &mut server, 1024, first);

    let mut session = Session::new();
    let mut messages = at_server(&mut server, b"").into_iter();
    assert_eq!(
        session.on_message(messages.next().unwrap()),
        SessionStep::Answer(answer(None, Some(true)))
    );
    let told = |size: TerminalSize| SessionPtySize {
        char_width: size.char_width,
        char_height: size.char_height,
        pixel_width: size.pixel_width,
        pixel_height: size.pixel_height,
    };
    assert_eq!(
        session.on_message(messages.next().unwrap()),
        SessionStep::Start {
            command: SessionCommand::Shell,
            pty: Some(PendingPty { term: Some("xterm".to_string()), size: told(size) }),
        }
    );
    session.on_outcome(None);

    size.char_width = 132;
    let channel = client.channel_mut(STREAM).unwrap();
    let mut sent = channel.send_request(window_change_request(size)).concat();
    sent.extend(channel.send_request(signal_request("INT")).concat());
    let mut messages = at_server(&mut server, &sent).into_iter();
    assert_eq!(
        session.on_message(messages.next().unwrap()),
        SessionStep::Resize(told(size))
    );
    assert_eq!(session.on_outcome(None), answer(None, None));
    assert_eq!(session.on_message(messages.next().unwrap()), SessionStep::Signal(Signal::Int));
    assert_eq!(session.on_outcome(None), answer(None, None));
    assert_eq!(messages.next(), None);
}

#[test]
fn what_a_client_writes_is_the_input_of_the_process() {
    let (mut client, mut server) = ends();
    let first = initial_session_requests(&SessionRequest::Shell, None);
    open(&mut client, &mut server, 20, first);
    let mut session = Session::new();
    for message in at_server(&mut server, b"") {
        session.on_message(message);
        session.on_outcome(None);
    }

    let written: Vec<u8> = (0..100).rev().collect();
    let channel = client.channel_mut(STREAM).unwrap();
    let sent = channel.write_data(&written, SSH_EXTENDED_DATA_NONE).0.concat();
    let mut input = Vec::new();
    for byte in sent {
        for message in at_server(&mut server, &[byte]) {
            match session.on_message(message) {
                SessionStep::Input(data) => input.extend(data),
                other => panic!("unexpected step: {other:?}"),
            }
        }
    }
    assert_eq!(input, written);
}

#[test]
fn a_channel_can_be_accepted_whatever_it_is_for() {
    let (mut client, mut server) = ends();
    client.open_channel(STREAM, b"session".to_vec(), 1024, 8);
    let header = client.channel_mut(STREAM).unwrap().maybe_send_header().unwrap();
    assert_eq!(client.channel_mut(STREAM).unwrap().maybe_send_header(), None);
    let incoming = read_incoming_channel(STREAM, &mut Reader::new(&header)).unwrap();
    assert!(server.conversation_mut(CONTROL + 1).is_none());
    server.route_incoming_channel(incoming).unwrap();
    let conversation = server.conversation_mut(CONTROL).unwrap();
    let (channel, _) = conversation.accept_channel().unwrap();
    assert_eq!(channel.channel_type(), b"session");
    assert!(channel.has_room_for_datagram());
    assert!(conversation.accept_channel().is_none());
}
