//! What a client asks a session for, and how it follows one.

use crate::client::config::{SessionRequest, SessionRequestView};
use crate::client::error::{ClientError, ClientErrorView};
use crate::conversation::channel::{chunk_size, chunks, concatenated, data_messages, ChannelView};
use crate::proto::header::AGENT_CHANNEL;
use crate::proto::message::{
    ChannelRequest, ChannelRequestMessage, ChannelRequestMessageView, ChannelRequestView,
    DataOrExtendedDataMessageView, Message, MessageView, SSH_EXTENDED_DATA_NONE,
    SSH_EXTENDED_DATA_STDERR,
};
use crate::proto::request::{
    ExecRequest, ExecRequestView, ExitSignalRequest, ExitSignalRequestView, PtyRequest,
    PtyRequestView, SignalRequest, SignalRequestView, WindowChangeRequest,
};
use crate::proto::wire::MAX_VARINT;
use crate::server::process::{report_of, Output};
use crate::server::session::{
    refusal, signal_of_text, SessionCommandView, SessionStepView, SessionView,
};
use crate::text::{lossy, same_bytes, text_view};
use vstd::prelude::*;
use vstd::slice::slice_to_vec;
use vstd::string::*;
use vstd::utf8::{encode_utf8, encode_utf8_decode_utf8, encode_utf8_valid_utf8};

verus! {

/// The size of the terminal of the client.
#[derive(Clone, Copy, Debug, PartialEq, Eq, Structural)]
pub struct TerminalSize {
    pub char_width: u16,
    pub char_height: u16,
    pub pixel_width: u16,
    pub pixel_height: u16,
}

/// The terminal of the client.
#[derive(Clone, Debug, PartialEq, Eq)]
pub struct LocalTerminalInfo {
    pub term: Option<String>,
    pub size: TerminalSize,
}

/// The mathematical counterpart of [`LocalTerminalInfo`].
pub struct LocalTerminalInfoView {
    pub term: Option<Seq<char>>,
    pub size: TerminalSize,
}

impl View for LocalTerminalInfo {
    type V = LocalTerminalInfoView;

    open spec fn view(&self) -> LocalTerminalInfoView {
        LocalTerminalInfoView { term: text_view(self.term), size: self.size }
    }
}

/// Asks for a terminal like the one of the client.
pub open spec fn pty_request_for(terminal: LocalTerminalInfoView) -> ChannelRequestMessageView {
    ChannelRequestMessageView {
        want_reply: true,
        request: ChannelRequestView::Pty(
            PtyRequestView {
                term: match terminal.term {
                    Some(term) => encode_utf8(term),
                    None => Seq::empty(),
                },
                char_width: terminal.size.char_width as u64,
                char_height: terminal.size.char_height as u64,
                pixel_width: terminal.size.pixel_width as u64,
                pixel_height: terminal.size.pixel_height as u64,
                encoded_terminal_modes: Seq::empty(),
            },
        ),
    }
}

pub fn pty_request(terminal: &LocalTerminalInfo) -> (message: ChannelRequestMessage)
    ensures
        message@ == pty_request_for(terminal@),
{
    let term: Vec<u8> = match &terminal.term {
        Some(term) => slice_to_vec(term.as_str().as_bytes()),
        None => Vec::new(),
    };
    ChannelRequestMessage {
        want_reply: true,
        request: ChannelRequest::Pty(
            PtyRequest {
                term,
                char_width: terminal.size.char_width as u64,
                char_height: terminal.size.char_height as u64,
                pixel_width: terminal.size.pixel_width as u64,
                pixel_height: terminal.size.pixel_height as u64,
                encoded_terminal_modes: Vec::new(),
            },
        ),
    }
}

/// Tells that the terminal of the client changed its size.
pub open spec fn window_change_for(size: TerminalSize) -> ChannelRequestMessageView {
    ChannelRequestMessageView {
        want_reply: false,
        request: ChannelRequestView::WindowChange(
            WindowChangeRequest {
                char_width: size.char_width as u64,
                char_height: size.char_height as u64,
                pixel_width: size.pixel_width as u64,
                pixel_height: size.pixel_height as u64,
            },
        ),
    }
}

pub fn window_change_request(size: TerminalSize) -> (message: ChannelRequestMessage)
    ensures
        message@ == window_change_for(size),
{
    ChannelRequestMessage {
        want_reply: false,
        request: ChannelRequest::WindowChange(
            WindowChangeRequest {
                char_width: size.char_width as u64,
                char_height: size.char_height as u64,
                pixel_width: size.pixel_width as u64,
                pixel_height: size.pixel_height as u64,
            },
        ),
    }
}

/// Sends a signal on.
pub open spec fn signal_for(name: Seq<char>) -> ChannelRequestMessageView {
    ChannelRequestMessageView {
        want_reply: false,
        request: ChannelRequestView::Signal(
            SignalRequestView { signal_name_without_sig: encode_utf8(name) },
        ),
    }
}

pub fn signal_request(signal_name: &str) -> (message: ChannelRequestMessage)
    ensures
        message@ == signal_for(signal_name@),
{
    ChannelRequestMessage {
        want_reply: false,
        request: ChannelRequest::Signal(
            SignalRequest { signal_name_without_sig: slice_to_vec(signal_name.as_bytes()) },
        ),
    }
}

/// Asks for what the session is to run.
pub open spec fn run_request_for(request: SessionRequestView) -> ChannelRequestMessageView {
    ChannelRequestMessageView {
        want_reply: true,
        request: match request {
            SessionRequestView::Shell => ChannelRequestView::Shell,
            SessionRequestView::Exec(command) => ChannelRequestView::Exec(
                ExecRequestView { command: encode_utf8(command) },
            ),
        },
    }
}

/// What a client asks a session for first: a terminal for a shell, where the client has one, and
/// what is to run.
pub open spec fn initial_requests_for(
    request: SessionRequestView,
    terminal: Option<LocalTerminalInfoView>,
) -> Seq<ChannelRequestMessageView> {
    match (request, terminal) {
        (SessionRequestView::Shell, Some(terminal)) => seq![
            pty_request_for(terminal),
            run_request_for(request),
        ],
        _ => seq![run_request_for(request)],
    }
}

pub open spec fn requests_view(requests: Seq<ChannelRequestMessage>) -> Seq<
    ChannelRequestMessageView,
> {
    requests.map_values(|request: ChannelRequestMessage| request@)
}

pub fn initial_session_requests(
    request: &SessionRequest,
    terminal: Option<&LocalTerminalInfo>,
) -> (requests: Vec<ChannelRequestMessage>)
    ensures
        requests_view(requests@) == initial_requests_for(
            request@,
            match terminal {
                Some(terminal) => Some(terminal@),
                None => None,
            },
        ),
{
    let mut requests: Vec<ChannelRequestMessage> = Vec::new();
    let wanted: ChannelRequest = match request {
        SessionRequest::Shell => {
            if let Some(terminal) = terminal {
                requests.push(pty_request(terminal));
            }
            ChannelRequest::Shell
        },
        SessionRequest::Exec(command) => ChannelRequest::Exec(
            ExecRequest { command: slice_to_vec(command.as_str().as_bytes()) },
        ),
    };
    requests.push(ChannelRequestMessage { want_reply: true, request: wanted });
    proof {
        assert(requests_view(requests@) =~= initial_requests_for(
            request@,
            match terminal {
                Some(terminal) => Some(terminal@),
                None => None,
            },
        ));
    }
    requests
}

/// A server runs the command that a client asks for, letter for letter, and without a terminal.
pub proof fn command_runs_as_asked(command: Seq<char>)
    ensures
        ({
            let asked = MessageView::ChannelRequest(
                run_request_for(SessionRequestView::Exec(command)),
            );
            SessionView::fresh().step(asked).1 == (SessionStepView::Start {
                command: SessionCommandView::Exec(command),
                pty: None,
            })
        }),
{
    lemma_text_is_read_back(command);
}

/// A server starts the shell that a client with a terminal asks for on a terminal of the same name
/// and size. A terminal with an empty name has none there.
pub proof fn shell_runs_on_the_same_terminal(terminal: LocalTerminalInfoView)
    ensures
        ({
            let asked = initial_requests_for(SessionRequestView::Shell, Some(terminal));
            let waiting = SessionView::fresh().after(MessageView::ChannelRequest(asked[0]), None);
            &&& asked.len() == 2
            &&& waiting.step(MessageView::ChannelRequest(asked[1])).1
                matches SessionStepView::Start { command, pty: Some(pty) }
            &&& command is Shell
            &&& pty.term == match terminal.term {
                Some(term) => if term.len() > 0 {
                    Some(term)
                } else {
                    None
                },
                None => None,
            }
            &&& pty.size.char_width == terminal.size.char_width
            &&& pty.size.char_height == terminal.size.char_height
            &&& pty.size.pixel_width == terminal.size.pixel_width
            &&& pty.size.pixel_height == terminal.size.pixel_height
        }),
{
    if let Some(term) = terminal.term {
        lemma_text_is_read_back(term);
    }
}

/// A running session on a terminal takes the size that a client tells.
pub proof fn resize_is_read_back(session: SessionView, size: TerminalSize)
    requires
        session.running == Some(true),
    ensures
        session.step(MessageView::ChannelRequest(window_change_for(size))).1
            matches SessionStepView::Resize(told) && told.char_width == size.char_width
            && told.char_height == size.char_height && told.pixel_width == size.pixel_width
            && told.pixel_height == size.pixel_height,
{
}

/// A server sends a running session the signal that a client names.
pub proof fn signal_is_read_back(session: SessionView, name: Seq<char>)
    requires
        session.running is Some,
    ensures
        session.step(MessageView::ChannelRequest(signal_for(name))).1 == match signal_of_text(
            name,
        ) {
            Some(signal) => SessionStepView::Signal(signal),
            None => refusal("unsupported signal: "@ + name + "\n"@, false),
        },
{
    lemma_text_is_read_back(name);
}

proof fn lemma_text_is_read_back(text: Seq<char>)
    ensures
        lossy(encode_utf8(text)) == text,
        (text.len() == 0) == (encode_utf8(text).len() == 0),
{
    encode_utf8_valid_utf8(text);
    encode_utf8_decode_utf8(text);
    if encode_utf8(text).len() == 0 {
        encode_utf8_decode_utf8(Seq::empty());
        assert(encode_utf8(text) =~= encode_utf8(Seq::empty()));
    }
}

/// A number as the lowest 32 bits of it count with a sign.
pub open spec fn signed_status(status: u64) -> i32 {
    let low = status % 0x1_0000_0000;
    if low < 0x8000_0000 {
        low as i32
    } else {
        (low - 0x1_0000_0000) as i32
    }
}

fn to_signed_status(status: u64) -> (signed: i32)
    ensures
        signed == signed_status(status),
{
    let low: u64 = status % 0x1_0000_0000;
    if low < 0x8000_0000 {
        low as i32
    } else {
        (low as i64 - 0x1_0000_0000) as i32
    }
}

/// What a message of a session means to the client.
#[derive(Clone, Debug, PartialEq, Eq)]
pub enum SessionEvent {
    Stdout(Vec<u8>),
    Stderr(Vec<u8>),
    /// The session ended with this status.
    Exit(i32),
    /// A signal ended the session.
    Signal(ExitSignalRequest),
    Ignore,
}

/// The mathematical counterpart of [`SessionEvent`].
pub enum SessionEventView {
    Stdout(Seq<u8>),
    Stderr(Seq<u8>),
    Exit(i32),
    Signal(ExitSignalRequestView),
    Ignore,
}

impl View for SessionEvent {
    type V = SessionEventView;

    open spec fn view(&self) -> SessionEventView {
        match *self {
            SessionEvent::Stdout(data) => SessionEventView::Stdout(data@),
            SessionEvent::Stderr(data) => SessionEventView::Stderr(data@),
            SessionEvent::Exit(status) => SessionEventView::Exit(status),
            SessionEvent::Signal(signal) => SessionEventView::Signal(signal@),
            SessionEvent::Ignore => SessionEventView::Ignore,
        }
    }
}

/// What a message of a session means to the client.
pub open spec fn event_of(message: MessageView) -> SessionEventView {
    match message {
        MessageView::Data(data) => if data.data_type == SSH_EXTENDED_DATA_NONE {
            SessionEventView::Stdout(data.data)
        } else if data.data_type == SSH_EXTENDED_DATA_STDERR {
            SessionEventView::Stderr(data.data)
        } else {
            SessionEventView::Ignore
        },
        MessageView::ChannelRequest(message) => match message.request {
            ChannelRequestView::ExitStatus(status) => SessionEventView::Exit(
                signed_status(status.exit_status),
            ),
            ChannelRequestView::ExitSignal(signal) => SessionEventView::Signal(signal),
            _ => SessionEventView::Ignore,
        },
        _ => SessionEventView::Ignore,
    }
}

/// A client reads the exit code of the process from the report that the server sends of it, as it
/// is where there is one that is not negative.
pub proof fn exit_code_is_read_back(code: i32)
    requires
        code >= 0,
    ensures
        event_of(MessageView::ChannelRequest(report_of(Some(code)))) == SessionEventView::Exit(
            code,
        ),
{
}

/// What a process prints on an output is printed by the client on the same output.
pub proof fn output_is_printed_on_the_same_output(output: Output, data: Seq<u8>)
    ensures
        event_of(
            MessageView::Data(DataOrExtendedDataMessageView { data_type: output.carrier(), data }),
        ) == match output {
            Output::Stdout => SessionEventView::Stdout(data),
            Output::Stderr => SessionEventView::Stderr(data),
        },
{
}

pub fn session_event(message: Message) -> (event: SessionEvent)
    ensures
        event@ == event_of(message@),
{
    match message {
        Message::Data(data) => if data.data_type == SSH_EXTENDED_DATA_NONE {
            SessionEvent::Stdout(data.data)
        } else if data.data_type == SSH_EXTENDED_DATA_STDERR {
            SessionEvent::Stderr(data.data)
        } else {
            SessionEvent::Ignore
        },
        Message::ChannelRequest(message) => match message.request {
            ChannelRequest::ExitStatus(status) => SessionEvent::Exit(
                to_signed_status(status.exit_status),
            ),
            ChannelRequest::ExitSignal(signal) => SessionEvent::Signal(signal),
            _ => SessionEvent::Ignore,
        },
        _ => SessionEvent::Ignore,
    }
}

/// What a session printed, and how it ended.
#[derive(Clone, Debug, PartialEq, Eq)]
pub struct CapturedSession {
    pub server_header: Option<String>,
    pub exit_status: i32,
    pub stdout: Vec<u8>,
    pub stderr: Vec<u8>,
}

/// The mathematical counterpart of [`CapturedSession`].
pub struct CapturedSessionView {
    pub server_header: Option<Seq<char>>,
    pub exit_status: i32,
    pub stdout: Seq<u8>,
    pub stderr: Seq<u8>,
}

impl View for CapturedSession {
    type V = CapturedSessionView;

    open spec fn view(&self) -> CapturedSessionView {
        CapturedSessionView {
            server_header: text_view(self.server_header),
            exit_status: self.exit_status,
            stdout: self.stdout@,
            stderr: self.stderr@,
        }
    }
}

/// How a session ended.
#[derive(Clone, Debug, PartialEq, Eq)]
pub enum SessionEnd {
    Exit(i32),
    Signal(ExitSignalRequest),
}

/// The mathematical counterpart of [`SessionEnd`].
pub enum SessionEndView {
    Exit(i32),
    Signal(ExitSignalRequestView),
}

impl View for SessionEnd {
    type V = SessionEndView;

    open spec fn view(&self) -> SessionEndView {
        match *self {
            SessionEnd::Exit(status) => SessionEndView::Exit(status),
            SessionEnd::Signal(signal) => SessionEndView::Signal(signal@),
        }
    }
}

/// What a session printed so far.
#[derive(Clone, Debug, PartialEq, Eq)]
pub struct Capture {
    pub stdout: Vec<u8>,
    pub stderr: Vec<u8>,
}

/// The mathematical counterpart of [`Capture`].
pub struct CaptureView {
    pub stdout: Seq<u8>,
    pub stderr: Seq<u8>,
}

impl View for Capture {
    type V = CaptureView;

    open spec fn view(&self) -> CaptureView {
        CaptureView { stdout: self.stdout@, stderr: self.stderr@ }
    }
}

/// What some messages print on the standard output, one after the other.
pub open spec fn stdout_of(messages: Seq<MessageView>) -> Seq<u8>
    decreases messages.len(),
{
    if messages.len() == 0 {
        Seq::empty()
    } else {
        stdout_of(messages.drop_last()) + match event_of(messages.last()) {
            SessionEventView::Stdout(data) => data,
            _ => Seq::empty(),
        }
    }
}

/// What some messages print on the standard error, one after the other.
pub open spec fn stderr_of(messages: Seq<MessageView>) -> Seq<u8>
    decreases messages.len(),
{
    if messages.len() == 0 {
        Seq::empty()
    } else {
        stderr_of(messages.drop_last()) + match event_of(messages.last()) {
            SessionEventView::Stderr(data) => data,
            _ => Seq::empty(),
        }
    }
}

impl CaptureView {
    pub open spec fn empty() -> CaptureView {
        CaptureView { stdout: Seq::empty(), stderr: Seq::empty() }
    }

    /// What was printed after one more message.
    pub open spec fn with(self, message: MessageView) -> CaptureView {
        match event_of(message) {
            SessionEventView::Stdout(data) => CaptureView { stdout: self.stdout + data, ..self },
            SessionEventView::Stderr(data) => CaptureView { stderr: self.stderr + data, ..self },
            _ => self,
        }
    }

    /// How the session ended, where the message ends it.
    pub open spec fn end(message: MessageView) -> Option<SessionEndView> {
        match event_of(message) {
            SessionEventView::Exit(status) => Some(SessionEndView::Exit(status)),
            SessionEventView::Signal(signal) => Some(SessionEndView::Signal(signal)),
            _ => None,
        }
    }

    /// What was printed after some messages.
    pub open spec fn after(messages: Seq<MessageView>) -> CaptureView
        decreases messages.len(),
    {
        if messages.len() == 0 {
            CaptureView::empty()
        } else {
            CaptureView::after(messages.drop_last()).with(messages.last())
        }
    }

    /// What is captured is what the messages carry, in their order, nothing left out and nothing
    /// added.
    pub proof fn captures_the_data(messages: Seq<MessageView>)
        ensures
            CaptureView::after(messages) == (CaptureView {
                stdout: stdout_of(messages),
                stderr: stderr_of(messages),
            }),
        decreases messages.len(),
    {
        if messages.len() > 0 {
            CaptureView::captures_the_data(messages.drop_last());
            let before = CaptureView::after(messages.drop_last());
            assert(before.stdout + Seq::<u8>::empty() =~= before.stdout);
            assert(before.stderr + Seq::<u8>::empty() =~= before.stderr);
        }
    }
}

proof fn lemma_pieces_are_printed(pieces: Seq<Seq<u8>>)
    ensures
        stdout_of(data_messages(pieces, SSH_EXTENDED_DATA_NONE)) == concatenated(pieces),
        stderr_of(data_messages(pieces, SSH_EXTENDED_DATA_NONE)) == Seq::<u8>::empty(),
        stdout_of(data_messages(pieces, SSH_EXTENDED_DATA_STDERR)) == Seq::<u8>::empty(),
        stderr_of(data_messages(pieces, SSH_EXTENDED_DATA_STDERR)) == concatenated(pieces),
    decreases pieces.len(),
{
    if pieces.len() > 0 {
        let before = pieces.drop_last();
        let plain = data_messages(pieces, SSH_EXTENDED_DATA_NONE);
        let errors = data_messages(pieces, SSH_EXTENDED_DATA_STDERR);
        lemma_pieces_are_printed(before);
        assert(plain.drop_last() =~= data_messages(before, SSH_EXTENDED_DATA_NONE));
        assert(errors.drop_last() =~= data_messages(before, SSH_EXTENDED_DATA_STDERR));
        lemma_concatenated_last(pieces);
        assert(Seq::<u8>::empty() + Seq::<u8>::empty() =~= Seq::<u8>::empty());
    }
}

proof fn lemma_concatenated_last(pieces: Seq<Seq<u8>>)
    requires
        pieces.len() > 0,
    ensures
        concatenated(pieces) == concatenated(pieces.drop_last()) + pieces.last(),
    decreases pieces.len(),
{
    if pieces.len() == 1 {
        assert(pieces.skip(1) =~= Seq::<Seq<u8>>::empty());
        assert(pieces.drop_last() =~= Seq::<Seq<u8>>::empty());
        assert(concatenated(pieces) =~= concatenated(pieces.drop_last()) + pieces.last());
    } else {
        lemma_concatenated_last(pieces.skip(1));
        assert(pieces.skip(1).drop_last() =~= pieces.drop_last().skip(1));
        assert(concatenated(pieces) =~= concatenated(pieces.drop_last()) + pieces.last());
    }
}

/// A client captures what a process on the server prints, on the output on which it prints it, as
/// it was printed.
pub proof fn printed_data_is_captured(
    client: ChannelView,
    server: ChannelView,
    data: Seq<u8>,
    on_stderr: bool,
)
    requires
        client.confirm_sent,
        client.received.len() == 0,
        data.len() <= MAX_VARINT,
        data.len() <= usize::MAX,
    ensures
        ({
            let data_type = if on_stderr {
                SSH_EXTENDED_DATA_STDERR
            } else {
                SSH_EXTENDED_DATA_NONE
            };
            let sent = concatenated(server.data_parts(data, data_type));
            CaptureView::after(client.fed(sent).deliveries()) == (if on_stderr {
                CaptureView { stdout: Seq::empty(), stderr: data }
            } else {
                CaptureView { stdout: data, stderr: Seq::empty() }
            })
        }),
{
    let data_type = if on_stderr {
        SSH_EXTENDED_DATA_STDERR
    } else {
        SSH_EXTENDED_DATA_NONE
    };
    let sent = concatenated(server.data_parts(data, data_type));
    client.written_data_arrives(server, data, data_type);
    CaptureView::captures_the_data(client.fed(sent).deliveries());
    lemma_pieces_are_printed(chunks(data, chunk_size(server.info.max_packet_size, data_type)));
}

impl Capture {
    pub fn new() -> (capture: Self)
        ensures
            capture@ == CaptureView::empty(),
    {
        let capture = Capture { stdout: Vec::new(), stderr: Vec::new() };
        proof {
            assert(capture@.stdout =~= Seq::<u8>::empty());
            assert(capture@.stderr =~= Seq::<u8>::empty());
        }
        capture
    }

    /// Takes what a message prints, and tells how the session ended where the message ends it.
    pub fn on_message(&mut self, message: Message) -> (end: Option<SessionEnd>)
        ensures
            final(self)@ == old(self)@.with(message@),
            (match end {
                Some(end) => Some(end@),
                None => None,
            }) == CaptureView::end(message@),
    {
        match session_event(message) {
            SessionEvent::Stdout(data) => {
                self.stdout.extend_from_slice(data.as_slice());
                proof {
                    assert(self@.stdout =~= old(self)@.stdout + data@);
                }
                None
            },
            SessionEvent::Stderr(data) => {
                self.stderr.extend_from_slice(data.as_slice());
                proof {
                    assert(self@.stderr =~= old(self)@.stderr + data@);
                }
                None
            },
            SessionEvent::Exit(status) => Some(SessionEnd::Exit(status)),
            SessionEvent::Signal(signal) => Some(SessionEnd::Signal(signal)),
            SessionEvent::Ignore => None,
        }
    }

    /// What a client makes of a session that ended.
    pub fn finish(self, end: SessionEnd, server_header: Option<String>) -> (result: Result<
        CapturedSession,
        ClientError,
    >)
        ensures
            (match result {
                Ok(session) => Ok(session@),
                Err(error) => Err(error@),
            }) == match end@ {
                SessionEndView::Exit(exit_status) => Ok(
                    CapturedSessionView {
                        server_header: text_view(server_header),
                        exit_status,
                        stdout: self@.stdout,
                        stderr: self@.stderr,
                    },
                ),
                SessionEndView::Signal(signal) => Err(ClientErrorView::ExitSignal(signal)),
            },
    {
        match end {
            SessionEnd::Exit(exit_status) => Ok(
                CapturedSession {
                    server_header,
                    exit_status,
                    stdout: self.stdout,
                    stderr: self.stderr,
                },
            ),
            SessionEnd::Signal(signal) => Err(ClientError::ExitSignal(signal)),
        }
    }
}

/// Whether a channel of this type leads to the agent of the client.
pub fn is_agent_channel(channel_type: &[u8]) -> (agent: bool)
    ensures
        agent == (channel_type@ == "agent-connection".spec_bytes()),
{
    same_bytes(channel_type, AGENT_CHANNEL.as_bytes())
}

/// What a message on a channel to the agent carries to it: ordinary data does, nothing else.
pub fn agent_data(message: Message) -> (data: Option<Vec<u8>>)
    ensures
        crate::text::bytes_view(data) == match message@ {
            MessageView::Data(data) => if data.data_type == SSH_EXTENDED_DATA_NONE {
                Some(data.data)
            } else {
                None
            },
            _ => None,
        },
{
    match message {
        Message::Data(data) => if data.data_type == SSH_EXTENDED_DATA_NONE {
            Some(data.data)
        } else {
            None
        },
        _ => None,
    }
}

/// Data is printed on the output of its type, an exit status and a signal end the session, and
/// nothing else does anything.
pub proof fn messages_mean_what_they_carry(message: MessageView)
    ensures
        message matches MessageView::Data(data) ==> {
            &&& data.data_type == 0 ==> event_of(message) == SessionEventView::Stdout(data.data)
            &&& data.data_type == 1 ==> event_of(message) == SessionEventView::Stderr(data.data)
            &&& data.data_type > 1 ==> event_of(message) is Ignore
        },
        message matches MessageView::ChannelRequest(request) ==> {
            &&& request.request matches ChannelRequestView::ExitSignal(signal) ==> event_of(message)
                == SessionEventView::Signal(signal)
            &&& request.request matches ChannelRequestView::ExitStatus(status) ==> event_of(message)
                == SessionEventView::Exit(signed_status(status.exit_status))
            &&& !(request.request is ExitSignal) && !(request.request is ExitStatus) ==> event_of(
                message,
            ) is Ignore
        },
        !(message is Data) && !(message is ChannelRequest) ==> event_of(message) is Ignore,
{
}

/// A status counts with its sign, as 32 bits hold it.
pub proof fn status_counts_with_its_sign(status: u64, code: i32)
    ensures
        status < 0x8000_0000 ==> signed_status(status) == status,
        0x8000_0000 <= status < 0x1_0000_0000 ==> signed_status(status) == status - 0x1_0000_0000,
        status + 0x1_0000_0000 <= u64::MAX ==> signed_status((status + 0x1_0000_0000) as u64)
            == signed_status(status),
        code >= 0 ==> signed_status(code as u64) == code,
{
}

/// A command is asked for alone, with or without a terminal; a shell is asked for behind the
/// terminal of the client, where it has one. Each of them wants a reply.
pub proof fn client_asks_for_what_it_runs(
    command: Seq<char>,
    terminal: LocalTerminalInfoView,
    request: SessionRequestView,
    given: Option<LocalTerminalInfoView>,
)
    ensures
        initial_requests_for(SessionRequestView::Exec(command), given) == seq![
            ChannelRequestMessageView {
                want_reply: true,
                request: ChannelRequestView::Exec(
                    ExecRequestView { command: encode_utf8(command) },
                ),
            },
        ],
        initial_requests_for(SessionRequestView::Shell, None) == seq![
            ChannelRequestMessageView { want_reply: true, request: ChannelRequestView::Shell },
        ],
        initial_requests_for(SessionRequestView::Shell, Some(terminal)).len() == 2,
        initial_requests_for(SessionRequestView::Shell, Some(terminal))[0].request is Pty,
        initial_requests_for(SessionRequestView::Shell, Some(terminal))[1].request is Shell,
        forall|i: int|
            0 <= i < initial_requests_for(request, given).len() ==> (
            #[trigger] initial_requests_for(request, given)[i]).want_reply,
        pty_request_for(terminal).request matches ChannelRequestView::Pty(
            pty,
        ) && pty.encoded_terminal_modes.len() == 0,
{
}

/// Neither a change of the window nor a signal wants a reply.
pub proof fn notices_want_no_reply(size: TerminalSize, name: Seq<char>)
    ensures
        !window_change_for(size).want_reply,
        !signal_for(name).want_reply,
{
}

/// A session ends with the message that tells how, and with no other; and only data adds to what is
/// captured.
pub proof fn session_ends_with_its_exit(capture: CaptureView, message: MessageView)
    ensures
        event_of(message) matches SessionEventView::Exit(status) ==> CaptureView::end(message)
            == Some(SessionEndView::Exit(status)),
        event_of(message) matches SessionEventView::Signal(signal) ==> CaptureView::end(message)
            == Some(SessionEndView::Signal(signal)),
        !(event_of(message) is Exit) && !(event_of(message) is Signal) ==> CaptureView::end(message)
            is None,
        event_of(message) matches SessionEventView::Stdout(data) ==> capture.with(message) == (
        CaptureView { stdout: capture.stdout + data, stderr: capture.stderr }),
        event_of(message) matches SessionEventView::Stderr(data) ==> capture.with(message) == (
        CaptureView { stdout: capture.stdout, stderr: capture.stderr + data }),
        !(event_of(message) is Stdout) && !(event_of(message) is Stderr) ==> capture.with(message)
            == capture,
{
}

} // verus!
