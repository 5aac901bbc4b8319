//! A session channel on the server: from each message to the step that it asks for, and from each
//! step's outcome to what the peer is told.

use crate::conversation::channel::{
    chunk_size, chunks, concatenated, data_overhead, parts_view, result_view, total_len, Channel,
    ChannelError, ChannelErrorView, ChannelView,
};
use crate::proto::header::SESSION_CHANNEL;
use crate::proto::message::{
    ChannelRequest, ChannelRequestMessage, ChannelRequestView, DataOrExtendedDataMessage, Message,
    MessageView, FORWARD_AGENT, SSH_EXTENDED_DATA_NONE, SSH_EXTENDED_DATA_STDERR,
};
use crate::proto::request::{
    ExecRequestView, PtyRequest, PtyRequestView, SignalRequestView, WindowChangeRequest,
};
use crate::proto::wire::MAX_VARINT;
use crate::text::{
    encoded_text_is_read_back, joined, lossy, lossy_text, same_bytes, same_chars, stands_at,
    text_view, upper_chars, uppered,
};
use vstd::prelude::*;
use vstd::string::*;

verus! {

/// The size of a terminal, in the range that terminals have.
#[derive(Clone, Copy, Debug, PartialEq, Eq, Structural)]
pub struct SessionPtySize {
    pub char_width: u16,
    pub char_height: u16,
    pub pixel_width: u16,
    pub pixel_height: u16,
}

/// A number, or the largest that sixteen bits hold where that is smaller.
pub open spec fn clamped(value: u64) -> u16 {
    if value <= u16::MAX {
        value as u16
    } else {
        u16::MAX
    }
}

pub fn clamp_u64_to_u16(value: u64) -> (clamped_value: u16)
    ensures
        clamped_value == clamped(value),
{
    if value <= u16::MAX as u64 {
        value as u16
    } else {
        u16::MAX
    }
}

impl SessionPtySize {
    pub open spec fn of_pty_request(request: PtyRequestView) -> SessionPtySize {
        SessionPtySize {
            char_width: clamped(request.char_width),
            char_height: clamped(request.char_height),
            pixel_width: clamped(request.pixel_width),
            pixel_height: clamped(request.pixel_height),
        }
    }

    pub open spec fn of_window_change(request: WindowChangeRequest) -> SessionPtySize {
        SessionPtySize {
            char_width: clamped(request.char_width),
            char_height: clamped(request.char_height),
            pixel_width: clamped(request.pixel_width),
            pixel_height: clamped(request.pixel_height),
        }
    }

    pub fn from_pty_request(request: &PtyRequest) -> (size: Self)
        ensures
            size == SessionPtySize::of_pty_request(request@),
    {
        SessionPtySize {
            char_width: clamp_u64_to_u16(request.char_width),
            char_height: clamp_u64_to_u16(request.char_height),
            pixel_width: clamp_u64_to_u16(request.pixel_width),
            pixel_height: clamp_u64_to_u16(request.pixel_height),
        }
    }

    pub fn from_window_change(request: &WindowChangeRequest) -> (size: Self)
        ensures
            size == SessionPtySize::of_window_change(*request),
    {
        SessionPtySize {
            char_width: clamp_u64_to_u16(request.char_width),
            char_height: clamp_u64_to_u16(request.char_height),
            pixel_width: clamp_u64_to_u16(request.pixel_width),
            pixel_height: clamp_u64_to_u16(request.pixel_height),
        }
    }
}

/// Bytes as text, or nothing where there are none.
pub open spec fn text_of_bytes(bytes: Seq<u8>) -> Option<Seq<char>> {
    if bytes.len() == 0 {
        None
    } else {
        Some(lossy(bytes))
    }
}

pub fn ssh_bytes_to_string(bytes: &[u8]) -> (text: Option<String>)
    ensures
        text_view(text) == text_of_bytes(bytes@),
{
    if bytes.len() == 0 {
        None
    } else {
        Some(lossy_text(bytes))
    }
}

/// A terminal that was asked for and is to be made when the session starts.
#[derive(Clone, Debug, PartialEq, Eq)]
pub struct PendingPty {
    pub term: Option<String>,
    pub size: SessionPtySize,
}

/// The mathematical counterpart of [`PendingPty`].
pub struct PendingPtyView {
    pub term: Option<Seq<char>>,
    pub size: SessionPtySize,
}

impl View for PendingPty {
    type V = PendingPtyView;

    open spec fn view(&self) -> PendingPtyView {
        PendingPtyView { term: text_view(self.term), size: self.size }
    }
}

pub open spec fn pty_view(pty: Option<PendingPty>) -> Option<PendingPtyView> {
    match pty {
        Some(pty) => Some(pty@),
        None => None,
    }
}

/// What a session runs.
#[derive(Clone, Debug, PartialEq, Eq)]
pub enum SessionCommand {
    Shell,
    Exec(String),
}

/// The mathematical counterpart of [`SessionCommand`].
pub enum SessionCommandView {
    Shell,
    Exec(Seq<char>),
}

impl View for SessionCommand {
    type V = SessionCommandView;

    open spec fn view(&self) -> SessionCommandView {
        match *self {
            SessionCommand::Shell => SessionCommandView::Shell,
            SessionCommand::Exec(command) => SessionCommandView::Exec(command@),
        }
    }
}

/// The signals that can be sent to a session.
#[derive(Clone, Copy, Debug, PartialEq, Eq, Structural)]
pub enum Signal {
    Abrt,
    Alrm,
    Bus,
    Chld,
    Cont,
    Fpe,
    Hup,
    Ill,
    Int,
    Pipe,
    Quit,
    Segv,
    Stop,
    Term,
    Trap,
    Tstp,
    Ttin,
    Ttou,
    Usr1,
    Usr2,
    Winch,
    Xcpu,
    Xfsz,
}

/// The signal that a name in upper case stands for, without the `SIG` in front.
pub open spec fn named_signal(name: Seq<char>) -> Option<Signal> {
    if name == "ABRT"@ || name == "IOT"@ {
        Some(Signal::Abrt)
    } else if name == "ALRM"@ {
        Some(Signal::Alrm)
    } else if name == "BUS"@ {
        Some(Signal::Bus)
    } else if name == "CHLD"@ || name == "CLD"@ {
        Some(Signal::Chld)
    } else if name == "CONT"@ {
        Some(Signal::Cont)
    } else if name == "FPE"@ {
        Some(Signal::Fpe)
    } else if name == "HUP"@ {
        Some(Signal::Hup)
    } else if name == "ILL"@ {
        Some(Signal::Ill)
    } else if name == "INT"@ {
        Some(Signal::Int)
    } else if name == "PIPE"@ {
        Some(Signal::Pipe)
    } else if name == "QUIT"@ {
        Some(Signal::Quit)
    } else if name == "SEGV"@ {
        Some(Signal::Segv)
    } else if name == "STOP"@ {
        Some(Signal::Stop)
    } else if name == "TERM"@ {
        Some(Signal::Term)
    } else if name == "TRAP"@ {
        Some(Signal::Trap)
    } else if name == "TSTP"@ {
        Some(Signal::Tstp)
    } else if name == "TTIN"@ {
        Some(Signal::Ttin)
    } else if name == "TTOU"@ {
        Some(Signal::Ttou)
    } else if name == "USR1"@ {
        Some(Signal::Usr1)
    } else if name == "USR2"@ {
        Some(Signal::Usr2)
    } else if name == "WINCH"@ {
        Some(Signal::Winch)
    } else if name == "XCPU"@ {
        Some(Signal::Xcpu)
    } else if name == "XFSZ"@ {
        Some(Signal::Xfsz)
    } else {
        None
    }
}

/// A signal's name without one `SIG` in front.
pub open spec fn without_sig(name: Seq<char>) -> Seq<char> {
    if stands_at(name, "SIG"@, 0) {
        name.skip(3)
    } else {
        name
    }
}

/// The signal that a request names, in either case and with or without `SIG` in front.
pub open spec fn requested_signal(name: Seq<u8>) -> Option<Signal> {
    signal_of_text(lossy(name))
}

/// The signal that a text names, in either case and with or without `SIG` in front.
pub open spec fn signal_of_text(text: Seq<char>) -> Option<Signal> {
    named_signal(without_sig(uppered(text)))
}

fn signal_named(name: &[char]) -> (signal: Option<Signal>)
    ensures
        signal == named_signal(name@),
{
    if same_chars(name, "ABRT") || same_chars(name, "IOT") {
        Some(Signal::Abrt)
    } else if same_chars(name, "ALRM") {
        Some(Signal::Alrm)
    } else if same_chars(name, "BUS") {
        Some(Signal::Bus)
    } else if same_chars(name, "CHLD") || same_chars(name, "CLD") {
        Some(Signal::Chld)
    } else if same_chars(name, "CONT") {
        Some(Signal::Cont)
    } else if same_chars(name, "FPE") {
        Some(Signal::Fpe)
    } else if same_chars(name, "HUP") {
        Some(Signal::Hup)
    } else if same_chars(name, "ILL") {
        Some(Signal::Ill)
    } else if same_chars(name, "INT") {
        Some(Signal::Int)
    } else if same_chars(name, "PIPE") {
        Some(Signal::Pipe)
    } else if same_chars(name, "QUIT") {
        Some(Signal::Quit)
    } else if same_chars(name, "SEGV") {
        Some(Signal::Segv)
    } else if same_chars(name, "STOP") {
        Some(Signal::Stop)
    } else if same_chars(name, "TERM") {
        Some(Signal::Term)
    } else if same_chars(name, "TRAP") {
        Some(Signal::Trap)
    } else if same_chars(name, "TSTP") {
        Some(Signal::Tstp)
    } else if same_chars(name, "TTIN") {
        Some(Signal::Ttin)
    } else if same_chars(name, "TTOU") {
        Some(Signal::Ttou)
    } else if same_chars(name, "USR1") {
        Some(Signal::Usr1)
    } else if same_chars(name, "USR2") {
        Some(Signal::Usr2)
    } else if same_chars(name, "WINCH") {
        Some(Signal::Winch)
    } else if same_chars(name, "XCPU") {
        Some(Signal::Xcpu)
    } else if same_chars(name, "XFSZ") {
        Some(Signal::Xfsz)
    } else {
        None
    }
}

/// The signal that a text names, in either case and with or without `SIG` in front.
pub fn parse_signal_name(text: &str) -> (signal: Option<Signal>)
    ensures
        signal == signal_of_text(text@),
{
    let upper: Vec<char> = upper_chars(text);
    proof {
        reveal_strlit("SIG");
    }
    if has_sig(upper.as_slice()) {
        let name: &[char] = vstd::slice::slice_subrange(upper.as_slice(), 3, upper.len());
        proof {
            assert(name@ =~= upper@.skip(3));
        }
        signal_named(name)
    } else {
        signal_named(upper.as_slice())
    }
}

fn has_sig(name: &[char]) -> (found: bool)
    ensures
        found == stands_at(name@, "SIG"@, 0),
        found ==> name@.len() >= 3,
{
    proof {
        reveal_strlit("SIG");
    }
    crate::text::has_at(name, "SIG", 0)
}

/// The signal that a signal request names.
pub fn parse_signal_request(name: &[u8]) -> (signal: Option<Signal>)
    ensures
        signal == requested_signal(name@),
{
    let text: String = lossy_text(name);
    parse_signal_name(text.as_str())
}

/// What the server does next for a session channel.
#[derive(Clone, Debug, PartialEq, Eq)]
pub enum SessionStep {
    /// Write the note to the peer's standard error, then reply to the request.
    Answer(Answer),
    /// Name a request that sessions do not have in a note, then reply to it.
    Unsupported { request: ChannelRequest, reply: Option<bool> },
    /// Start the process, on a terminal where one was asked for, and tell how it went.
    Start { command: SessionCommand, pty: Option<PendingPty> },
    /// Send the signal to the process, and tell how it went.
    Signal(Signal),
    /// Resize the terminal of the process, and tell how it went.
    Resize(SessionPtySize),
    /// Open the socket behind which the peer's agent stands, and tell how it went.
    OpenAgent,
    /// Write the data to the input of the process.
    Input(Vec<u8>),
    /// Leave the channel, after closing the input of the process and waiting for it as told.
    Finish { close_input: bool, wait_for_exit: bool },
}

/// What the peer is told.
#[derive(Clone, Debug, PartialEq, Eq)]
pub struct Answer {
    pub note: Option<String>,
    pub reply: Option<bool>,
}

/// The mathematical counterpart of [`Answer`].
pub struct AnswerView {
    pub note: Option<Seq<char>>,
    pub reply: Option<bool>,
}

impl View for Answer {
    type V = AnswerView;

    open spec fn view(&self) -> AnswerView {
        AnswerView { note: text_view(self.note), reply: self.reply }
    }
}

/// The mathematical counterpart of [`SessionStep`].
pub enum SessionStepView {
    Answer(AnswerView),
    Unsupported { request: ChannelRequestView, reply: Option<bool> },
    Start { command: SessionCommandView, pty: Option<PendingPtyView> },
    Signal(Signal),
    Resize(SessionPtySize),
    OpenAgent,
    Input(Seq<u8>),
    Finish { close_input: bool, wait_for_exit: bool },
}

impl View for SessionStep {
    type V = SessionStepView;

    open spec fn view(&self) -> SessionStepView {
        match *self {
            SessionStep::Answer(answer) => SessionStepView::Answer(answer@),
            SessionStep::Unsupported { request, reply } => SessionStepView::Unsupported {
                request: request@,
                reply,
            },
            SessionStep::Start { command, pty } => SessionStepView::Start {
                command: command@,
                pty: pty_view(pty),
            },
            SessionStep::Signal(signal) => SessionStepView::Signal(signal),
            SessionStep::Resize(size) => SessionStepView::Resize(size),
            SessionStep::OpenAgent => SessionStepView::OpenAgent,
            SessionStep::Input(data) => SessionStepView::Input(data@),
            SessionStep::Finish { close_input, wait_for_exit } => SessionStepView::Finish {
                close_input,
                wait_for_exit,
            },
        }
    }
}

/// A step whose outcome is not known yet.
#[derive(Clone, Copy, Debug, PartialEq, Eq, Structural)]
pub enum Attempt {
    Start { on_pty: bool, want_reply: bool },
    Signal { want_reply: bool },
    Resize { want_reply: bool },
    OpenAgent,
}

/// The state of a session channel.
#[derive(Clone, Debug)]
pub struct Session {
    pending_pty: Option<PendingPty>,
    agent_forwarding: bool,
    /// Whether the running process has a terminal; nothing runs where this is `None`.
    running: Option<bool>,
    attempt: Option<Attempt>,
}

/// The mathematical counterpart of [`Session`].
pub struct SessionView {
    pub pending_pty: Option<PendingPtyView>,
    pub agent_forwarding: bool,
    pub running: Option<bool>,
    pub attempt: Option<Attempt>,
}

impl View for Session {
    type V = SessionView;

    closed spec fn view(&self) -> SessionView {
        SessionView {
            pending_pty: pty_view(self.pending_pty),
            agent_forwarding: self.agent_forwarding,
            running: self.running,
            attempt: self.attempt,
        }
    }
}

/// The reply to a request, where one is wanted.
pub open spec fn reply(want_reply: bool, success: bool) -> Option<bool> {
    if want_reply {
        Some(success)
    } else {
        None
    }
}

/// A step that refuses a request and says why.
pub open spec fn refusal(note: Seq<char>, want_reply: bool) -> SessionStepView {
    SessionStepView::Answer(AnswerView { note: Some(note), reply: reply(want_reply, false) })
}

/// A step that grants a request at once.
pub open spec fn grant(want_reply: bool) -> SessionStepView {
    SessionStepView::Answer(AnswerView { note: None, reply: reply(want_reply, true) })
}

/// A step that does nothing.
pub open spec fn nothing() -> SessionStepView {
    SessionStepView::Answer(AnswerView { note: None, reply: None })
}

impl SessionView {
    /// A channel on which nothing has happened.
    pub open spec fn fresh() -> SessionView {
        SessionView { pending_pty: None, agent_forwarding: false, running: None, attempt: None }
    }

    /// What a request to run `command` comes to: the session starts once.
    pub open spec fn start(self, command: SessionCommandView, want_reply: bool) -> (
        SessionView,
        SessionStepView,
    ) {
        if self.running is Some {
            (self, refusal("session is already running\n"@, want_reply))
        } else {
            let attempt = Attempt::Start { on_pty: self.pending_pty is Some, want_reply };
            (
                SessionView { attempt: Some(attempt), ..self },
                SessionStepView::Start { command, pty: self.pending_pty },
            )
        }
    }

    /// What a request comes to.
    pub open spec fn requested(self, request: ChannelRequestView, want_reply: bool) -> (
        SessionView,
        SessionStepView,
    ) {
        match request {
            ChannelRequestView::Pty(pty) => if self.running is Some {
                (self, refusal("cannot request a PTY after the session has started\n"@, want_reply))
            } else {
                let pending = PendingPtyView {
                    term: text_of_bytes(pty.term),
                    size: SessionPtySize::of_pty_request(pty),
                };
                (SessionView { pending_pty: Some(pending), ..self }, grant(want_reply))
            },
            ChannelRequestView::Shell => self.start(SessionCommandView::Shell, want_reply),
            ChannelRequestView::Exec(exec) => {
                let command = match text_of_bytes(exec.command) {
                    Some(text) => text,
                    None => Seq::empty(),
                };
                self.start(SessionCommandView::Exec(command), want_reply)
            },
            ChannelRequestView::Signal(signal) => if self.running is None {
                (self, refusal("cannot signal a session before it has started\n"@, want_reply))
            } else {
                match requested_signal(signal.signal_name_without_sig) {
                    Some(named) => (
                        SessionView { attempt: Some(Attempt::Signal { want_reply }), ..self },
                        SessionStepView::Signal(named),
                    ),
                    None => (
                        self,
                        refusal(
                            "unsupported signal: "@ + lossy(signal.signal_name_without_sig) + "\n"@,
                            want_reply,
                        ),
                    ),
                }
            },
            ChannelRequestView::WindowChange(change) => {
                let size = SessionPtySize::of_window_change(change);
                match (self.running, self.pending_pty) {
                    (Some(true), _) => (
                        SessionView { attempt: Some(Attempt::Resize { want_reply }), ..self },
                        SessionStepView::Resize(size),
                    ),
                    (Some(false), _) => (
                        self,
                        refusal("window-change requires a PTY-backed session\n"@, want_reply),
                    ),
                    (None, Some(pending)) => (
                        SessionView {
                            pending_pty: Some(PendingPtyView { size, ..pending }),
                            ..self
                        },
                        grant(want_reply),
                    ),
                    (None, None) => (
                        self,
                        refusal(
                            "window-change requires a pending or running PTY session\n"@,
                            want_reply,
                        ),
                    ),
                }
            },
            _ => (
                self,
                SessionStepView::Unsupported { request, reply: reply(want_reply, false) },
            ),
        }
    }

    /// What data comes to.
    pub open spec fn received(self, data_type: u64, data: Seq<u8>) -> (
        SessionView,
        SessionStepView,
    ) {
        if data_type != SSH_EXTENDED_DATA_NONE {
            (self, refusal("unsupported extended data message\n"@, false))
        } else if self.running is Some {
            (self, SessionStepView::Input(data))
        } else if data == FORWARD_AGENT.spec_bytes() {
            if self.agent_forwarding {
                (self, nothing())
            } else {
                (
                    SessionView { attempt: Some(Attempt::OpenAgent), ..self },
                    SessionStepView::OpenAgent,
                )
            }
        } else {
            (self, refusal("cannot send session data before the session has started\n"@, false))
        }
    }

    /// What a message comes to.
    pub open spec fn step(self, message: MessageView) -> (SessionView, SessionStepView) {
        match message {
            MessageView::ChannelRequest(message) => self.requested(
                message.request,
                message.want_reply,
            ),
            MessageView::Data(message) => self.received(message.data_type, message.data),
            MessageView::ChannelEof => (
                self,
                SessionStepView::Finish {
                    close_input: self.running is Some,
                    wait_for_exit: self.running is Some,
                },
            ),
            MessageView::ChannelClose => (
                self,
                SessionStepView::Finish { close_input: self.running is Some, wait_for_exit: false },
            ),
            _ => (self, nothing()),
        }
    }

    /// What the outcome of the attempted step comes to; `failure` says what went wrong, if
    /// anything did.
    pub open spec fn outcome(self, failure: Option<Seq<char>>) -> (SessionView, AnswerView) {
        let success = failure is None;
        let note = match failure {
            Some(text) => Some(text + "\n"@),
            None => None,
        };
        let after = SessionView { attempt: None, ..self };
        match self.attempt {
            Some(Attempt::Start { on_pty, want_reply }) => (
                if success {
                    SessionView { running: Some(on_pty), ..after }
                } else {
                    after
                },
                AnswerView { note, reply: reply(want_reply, success) },
            ),
            Some(Attempt::Signal { want_reply }) => (
                after,
                AnswerView { note, reply: reply(want_reply, success) },
            ),
            Some(Attempt::Resize { want_reply }) => (
                after,
                AnswerView { note, reply: reply(want_reply, success) },
            ),
            Some(Attempt::OpenAgent) => (
                SessionView { agent_forwarding: self.agent_forwarding || success, ..after },
                AnswerView { note, reply: None },
            ),
            None => (self, AnswerView { note: None, reply: None }),
        }
    }

    /// Whether a step has an outcome that the session waits for.
    pub open spec fn awaited(step: SessionStepView) -> bool {
        step is Start || step is Signal || step is Resize || step is OpenAgent
    }

    /// The reply that a step carries.
    pub open spec fn carried_reply(step: SessionStepView) -> Option<bool> {
        match step {
            SessionStepView::Answer(answer) => answer.reply,
            SessionStepView::Unsupported { reply, .. } => reply,
            _ => None,
        }
    }

    /// The state after a message and, where the step has one, its outcome.
    pub open spec fn after(self, message: MessageView, failure: Option<Seq<char>>) -> SessionView {
        let (next, step) = self.step(message);
        if SessionView::awaited(step) {
            next.outcome(failure).0
        } else {
            next
        }
    }

    /// The replies that a message gets, at once or after its outcome.
    pub open spec fn replies(self, message: MessageView, failure: Option<Seq<char>>) -> Seq<bool> {
        let (next, step) = self.step(message);
        let at_once = SessionView::carried_reply(step);
        let later = if SessionView::awaited(step) {
            next.outcome(failure).1.reply
        } else {
            None
        };
        let first = match at_once {
            Some(success) => seq![success],
            None => Seq::empty(),
        };
        let second = match later {
            Some(success) => seq![success],
            None => Seq::empty(),
        };
        first + second
    }

    /// A request that wants a reply gets exactly one, whatever comes of it; anything else gets
    /// none.
    pub proof fn each_request_is_answered_once(
        self,
        message: MessageView,
        failure: Option<Seq<char>>,
    )
        requires
            self.attempt is None,
        ensures
            self.replies(message, failure).len() == (if message matches MessageView::ChannelRequest(
                request,
            ) && request.want_reply {
                1nat
            } else {
                0
            }),
    {
    }

    /// Once a process runs, no message starts another, none makes it stop running, and none
    /// takes or gives it a terminal.
    pub proof fn session_starts_once(self, message: MessageView, failure: Option<Seq<char>>)
        requires
            self.attempt is None,
            self.running is Some,
        ensures
            !(self.step(message).1 is Start),
            self.after(message, failure).running == self.running,
    {
    }

    /// A session starts on the terminal that was asked for last, in the size that was asked for
    /// last; and while nothing runs, a refused start leaves everything as it was.
    pub proof fn session_starts_on_the_pending_terminal(
        self,
        command: SessionCommandView,
        want_reply: bool,
        failure: Option<Seq<char>>,
    )
        requires
            self.attempt is None,
            self.running is None,
        ensures
            ({
                let (next, step) = self.start(command, want_reply);
                let (last, answer) = next.outcome(failure);
                &&& step == (SessionStepView::Start { command, pty: self.pending_pty })
                &&& failure is None ==> last == (SessionView {
                    running: Some(self.pending_pty is Some),
                    ..self
                })
                &&& failure is Some ==> last == self
            }),
    {
    }

    /// What a client writes to a running session reaches the input of its process, in the same
    /// order and as it was written.
    pub proof fn written_data_is_input(
        self,
        server: ChannelView,
        client: ChannelView,
        data: Seq<u8>,
    )
        requires
            self.running is Some,
            server.confirm_sent,
            server.received.len() == 0,
            data.len() <= MAX_VARINT,
            data.len() <= usize::MAX,
        ensures
            ({
                let sent = concatenated(client.data_parts(data, SSH_EXTENDED_DATA_NONE));
                let messages = server.fed(sent).deliveries();
                let pieces = chunks(
                    data,
                    chunk_size(client.info.max_packet_size, SSH_EXTENDED_DATA_NONE),
                );
                &&& messages.len() == pieces.len()
                &&& forall|i: int|
                    0 <= i < messages.len() ==> self.step(#[trigger] messages[i]) == (
                        self,
                        SessionStepView::Input(pieces[i]),
                    )
                &&& concatenated(pieces) == data
            }),
    {
        server.written_data_arrives(client, data, SSH_EXTENDED_DATA_NONE);
    }

    /// The agent's socket is opened at most once.
    pub proof fn agent_is_opened_once(self, message: MessageView, failure: Option<Seq<char>>)
        requires
            self.attempt is None,
            self.agent_forwarding,
        ensures
            !(self.step(message).1 is OpenAgent),
            self.after(message, failure).agent_forwarding,
    {
    }
}

fn reply_to(want_reply: bool, success: bool) -> (result: Option<bool>)
    ensures
        result == reply(want_reply, success),
{
    if want_reply {
        Some(success)
    } else {
        None
    }
}

fn refused(note: &str, want_reply: bool) -> (step: SessionStep)
    ensures
        step@ == refusal(note@, want_reply),
{
    SessionStep::Answer(
        Answer { note: Some(note.to_owned()), reply: reply_to(want_reply, false) },
    )
}

fn granted(want_reply: bool) -> (step: SessionStep)
    ensures
        step@ == grant(want_reply),
{
    SessionStep::Answer(Answer { note: None, reply: reply_to(want_reply, true) })
}

fn copied_text(text: &Option<String>) -> (copy: Option<String>)
    ensures
        text_view(copy) == text_view(*text),
{
    match text {
        Some(text) => Some(text.as_str().to_owned()),
        None => None,
    }
}

fn copied_pty(pty: &Option<PendingPty>) -> (copy: Option<PendingPty>)
    ensures
        pty_view(copy) == pty_view(*pty),
{
    match pty {
        Some(pty) => Some(PendingPty { term: copied_text(&pty.term), size: pty.size }),
        None => None,
    }
}

impl Session {
    pub fn new() -> (session: Self)
        ensures
            session@ == SessionView::fresh(),
    {
        Session { pending_pty: None, agent_forwarding: false, running: None, attempt: None }
    }

    /// Whether the outcome of a step is to be told before the next message.
    pub fn awaits_outcome(&self) -> (awaits: bool)
        ensures
            awaits == (self@.attempt is Some),
    {
        self.attempt.is_some()
    }

    fn start(&mut self, command: SessionCommand, want_reply: bool) -> (step: SessionStep)
        ensures
            (final(self)@, step@) == old(self)@.start(command@, want_reply),
    {
        if self.running.is_some() {
            return refused("session is already running\n", want_reply);
        }
        let on_pty: bool = self.pending_pty.is_some();
        self.attempt = Some(Attempt::Start { on_pty, want_reply });
        SessionStep::Start { command, pty: copied_pty(&self.pending_pty) }
    }

    fn signal(&mut self, name: &[u8], want_reply: bool) -> (step: SessionStep)
        requires
            old(self)@.running is Some,
        ensures
            match requested_signal(name@) {
                Some(named) => {
                    &&& final(self)@ == (SessionView {
                        attempt: Some(Attempt::Signal { want_reply }),
                        ..old(self)@
                    })
                    &&& step@ == SessionStepView::Signal(named)
                },
                None => {
                    &&& final(self)@ == old(self)@
                    &&& step@ == refusal(
                        "unsupported signal: "@ + lossy(name@) + "\n"@,
                        want_reply,
                    )
                },
            },
    {
        match parse_signal_request(name) {
            Some(named) => {
                self.attempt = Some(Attempt::Signal { want_reply });
                SessionStep::Signal(named)
            },
            None => {
                let text: String = lossy_text(name);
                let note: String = joined("unsupported signal: ", text.as_str());
                refused(joined(note.as_str(), "\n").as_str(), want_reply)
            },
        }
    }

    fn resize(&mut self, size: SessionPtySize, want_reply: bool) -> (step: SessionStep)
        ensures
            match (old(self)@.running, old(self)@.pending_pty) {
                (Some(true), _) => {
                    &&& final(self)@ == (SessionView {
                        attempt: Some(Attempt::Resize { want_reply }),
                        ..old(self)@
                    })
                    &&& step@ == SessionStepView::Resize(size)
                },
                (Some(false), _) => {
                    &&& final(self)@ == old(self)@
                    &&& step@ == refusal(
                        "window-change requires a PTY-backed session\n"@,
                        want_reply,
                    )
                },
                (None, Some(pending)) => {
                    &&& final(self)@ == (SessionView {
                        pending_pty: Some(PendingPtyView { size, ..pending }),
                        ..old(self)@
                    })
                    &&& step@ == grant(want_reply)
                },
                (None, None) => {
                    &&& final(self)@ == old(self)@
                    &&& step@ == refusal(
                        "window-change requires a pending or running PTY session\n"@,
                        want_reply,
                    )
                },
            },
    {
        match self.running {
            Some(true) => {
                self.attempt = Some(Attempt::Resize { want_reply });
                return SessionStep::Resize(size);
            },
            Some(false) => {
                return refused("window-change requires a PTY-backed session\n", want_reply);
            },
            None => {},
        }
        let pending: Option<PendingPty> = copied_pty(&self.pending_pty);
        match pending {
            Some(pty) => {
                self.pending_pty = Some(PendingPty { term: pty.term, size });
                granted(want_reply)
            },
            None => refused(
                "window-change requires a pending or running PTY session\n",
                want_reply,
            ),
        }
    }

    fn on_request(&mut self, message: ChannelRequestMessage) -> (step: SessionStep)
        ensures
            (final(self)@, step@) == old(self)@.requested(message@.request, message@.want_reply),
    {
        let want_reply: bool = message.want_reply;
        match message.request {
            ChannelRequest::Pty(pty) => if self.running.is_some() {
                refused("cannot request a PTY after the session has started\n", want_reply)
            } else {
                self.pending_pty = Some(
                    PendingPty {
                        term: ssh_bytes_to_string(pty.term.as_slice()),
                        size: SessionPtySize::from_pty_request(&pty),
                    },
                );
                granted(want_reply)
            },
            ChannelRequest::Shell => self.start(SessionCommand::Shell, want_reply),
            ChannelRequest::Exec(exec) => {
                let command: String = match ssh_bytes_to_string(exec.command.as_slice()) {
                    Some(text) => text,
                    None => {
                        proof {
                            reveal_strlit("");
                            assert(""@ =~= Seq::<char>::empty());
                        }
                        "".to_owned()
                    },
                };
                self.start(SessionCommand::Exec(command), want_reply)
            },
            ChannelRequest::Signal(signal) => if self.running.is_none() {
                refused("cannot signal a session before it has started\n", want_reply)
            } else {
                self.signal(signal.signal_name_without_sig.as_slice(), want_reply)
            },
            ChannelRequest::WindowChange(change) => self.resize(
                SessionPtySize::from_window_change(&change),
                want_reply,
            ),
            request => SessionStep::Unsupported { request, reply: reply_to(want_reply, false) },
        }
    }

    fn on_data(&mut self, message: DataOrExtendedDataMessage) -> (step: SessionStep)
        ensures
            (final(self)@, step@) == old(self)@.received(message@.data_type, message@.data),
    {
        if message.data_type != SSH_EXTENDED_DATA_NONE {
            return refused("unsupported extended data message\n", false);
        }
        if self.running.is_some() {
            return SessionStep::Input(message.data);
        }
        if same_bytes(message.data.as_slice(), FORWARD_AGENT.as_bytes()) {
            if self.agent_forwarding {
                return SessionStep::Answer(Answer { note: None, reply: None });
            }
            self.attempt = Some(Attempt::OpenAgent);
            return SessionStep::OpenAgent;
        }
        refused("cannot send session data before the session has started\n", false)
    }

    /// What to do about the next message.
    pub fn on_message(&mut self, message: Message) -> (step: SessionStep)
        requires
            old(self)@.attempt is None,
        ensures
            (final(self)@, step@) == old(self)@.step(message@),
    {
        let running: bool = self.running.is_some();
        match message {
            Message::ChannelRequest(message) => self.on_request(message),
            Message::Data(message) => self.on_data(message),
            Message::ChannelEof => SessionStep::Finish {
                close_input: running,
                wait_for_exit: running,
            },
            Message::ChannelClose => SessionStep::Finish {
                close_input: running,
                wait_for_exit: false,
            },
            _ => SessionStep::Answer(Answer { note: None, reply: None }),
        }
    }

    /// What to do when the peer is gone.
    pub fn on_input_terminated(&self) -> (step: SessionStep)
        ensures
            step@ == (SessionStepView::Finish {
                close_input: self@.running is Some,
                wait_for_exit: false,
            }),
    {
        SessionStep::Finish { close_input: self.running.is_some(), wait_for_exit: false }
    }

    /// What to tell the peer about the step that was attempted; `failure` says what went wrong,
    /// if anything did.
    pub fn on_outcome(&mut self, failure: Option<&str>) -> (answer: Answer)
        requires
            old(self)@.attempt is Some,
        ensures
            (final(self)@, answer@) == old(self)@.outcome(
                match failure {
                    Some(text) => Some(text@),
                    None => None,
                },
            ),
    {
        let success: bool = failure.is_none();
        let note: Option<String> = match failure {
            Some(text) => Some(joined(text, "\n")),
            None => None,
        };
        let attempt: Option<Attempt> = self.attempt;
        self.attempt = None;
        match attempt {
            Some(Attempt::Start { on_pty, want_reply }) => {
                if success {
                    self.running = Some(on_pty);
                }
                Answer { note, reply: reply_to(want_reply, success) }
            },
            Some(Attempt::Signal { want_reply }) => Answer {
                note,
                reply: reply_to(want_reply, success),
            },
            Some(Attempt::Resize { want_reply }) => Answer {
                note,
                reply: reply_to(want_reply, success),
            },
            Some(Attempt::OpenAgent) => {
                if success {
                    self.agent_forwarding = true;
                }
                Answer { note, reply: None }
            },
            None => Answer { note, reply: None },
        }
    }
}

/// The note about a request that sessions do not have, which `form` describes.
pub fn unsupported_request_note(form: &str) -> (note: String)
    ensures
        note@ == "unsupported session request: "@ + form@ + "\n"@,
{
    joined(joined("unsupported session request: ", form).as_str(), "\n")
}

/// Whether a channel of this type carries a session.
pub fn is_session_channel(channel_type: &[u8]) -> (session: bool)
    ensures
        session == (channel_type@ == "session".spec_bytes()),
{
    same_bytes(channel_type, SESSION_CHANNEL.as_bytes())
}

/// The note about a plain channel that is no session.
pub fn unsupported_channel_note(channel_type: &[u8]) -> (note: String)
    ensures
        note@ == "unsupported channel type: "@ + lossy(channel_type@) + "\n"@,
{
    let text: String = lossy_text(channel_type);
    joined(joined("unsupported channel type: ", text.as_str()).as_str(), "\n")
}

/// What is to be written to reply to a request.
pub fn send_channel_request_reply(channel: &mut Channel, success: bool) -> (parts: Vec<Vec<u8>>)
    ensures
        parts_view(parts@) == old(channel)@.header_parts().push(
            (if success {
                MessageView::ChannelSuccess
            } else {
                MessageView::ChannelFailure
            }).encoding(),
        ),
        final(channel)@ == old(channel)@.header_sent(),
{
    if success {
        channel.send_request_success()
    } else {
        channel.send_request_failure()
    }
}

/// What is to be written to put a note on the peer's standard error.
pub fn write_stderr(channel: &mut Channel, message: &[u8]) -> (result: (
    Vec<Vec<u8>>,
    Result<(), ChannelError>,
))
    requires
        message@.len() <= MAX_VARINT,
        total_len(old(channel)@.data_parts(message@, SSH_EXTENDED_DATA_STDERR)) <= usize::MAX,
    ensures
        final(channel)@ == old(channel)@.header_sent(),
        ({
            let overhead = data_overhead(SSH_EXTENDED_DATA_STDERR);
            if old(channel)@.info.max_packet_size < overhead {
                &&& parts_view(result.0@) == old(channel)@.header_parts()
                &&& result_view(result.1) == Err::<(), ChannelErrorView>(
                    ChannelErrorView::MaxPacketSizeTooSmall {
                        max_packet_size: old(channel)@.info.max_packet_size,
                        message_overhead: overhead,
                    },
                )
            } else {
                &&& parts_view(result.0@) == old(channel)@.header_parts() + old(
                    channel,
                )@.data_parts(message@, SSH_EXTENDED_DATA_STDERR)
                &&& result.1 is Ok
            }
        }),
{
    let (parts, written) = channel.write_data(message, SSH_EXTENDED_DATA_STDERR);
    match written {
        Ok(_) => (parts, Ok(())),
        Err(error) => (parts, Err(error)),
    }
}

/// A number that a terminal has stays as it is, and a larger one becomes the largest.
pub proof fn sizes_stay_in_range(value: u64)
    ensures
        value <= 65_535 ==> clamped(value) == value,
        value > 65_535 ==> clamped(value) == 65_535,
{
}

/// A terminal is as large as it is asked to be, each way, when it is asked for as when it changes.
pub proof fn terminal_has_the_size_that_is_asked_for(
    pty: PtyRequestView,
    change: WindowChangeRequest,
)
    requires
        pty.char_width <= 65_535,
        pty.char_height <= 65_535,
        pty.pixel_width <= 65_535,
        pty.pixel_height <= 65_535,
        change.char_width == pty.char_width,
        change.char_height == pty.char_height,
        change.pixel_width == pty.pixel_width,
        change.pixel_height == pty.pixel_height,
    ensures
        SessionPtySize::of_pty_request(pty).char_width == pty.char_width,
        SessionPtySize::of_pty_request(pty).char_height == pty.char_height,
        SessionPtySize::of_pty_request(pty).pixel_width == pty.pixel_width,
        SessionPtySize::of_pty_request(pty).pixel_height == pty.pixel_height,
        SessionPtySize::of_window_change(change) == SessionPtySize::of_pty_request(pty),
{
}

/// Each signal goes by its name, two of them by a second, and no other name stands for a signal.
pub proof fn signals_go_by_their_names(name: Seq<char>)
    ensures
        named_signal("ABRT"@) == Some(Signal::Abrt),
        named_signal("IOT"@) == Some(Signal::Abrt),
        named_signal("ALRM"@) == Some(Signal::Alrm),
        named_signal("BUS"@) == Some(Signal::Bus),
        named_signal("CHLD"@) == Some(Signal::Chld),
        named_signal("CLD"@) == Some(Signal::Chld),
        named_signal("CONT"@) == Some(Signal::Cont),
        named_signal("FPE"@) == Some(Signal::Fpe),
        named_signal("HUP"@) == Some(Signal::Hup),
        named_signal("ILL"@) == Some(Signal::Ill),
        named_signal("INT"@) == Some(Signal::Int),
        named_signal("PIPE"@) == Some(Signal::Pipe),
        named_signal("QUIT"@) == Some(Signal::Quit),
        named_signal("SEGV"@) == Some(Signal::Segv),
        named_signal("STOP"@) == Some(Signal::Stop),
        named_signal("TERM"@) == Some(Signal::Term),
        named_signal("TRAP"@) == Some(Signal::Trap),
        named_signal("TSTP"@) == Some(Signal::Tstp),
        named_signal("TTIN"@) == Some(Signal::Ttin),
        named_signal("TTOU"@) == Some(Signal::Ttou),
        named_signal("USR1"@) == Some(Signal::Usr1),
        named_signal("USR2"@) == Some(Signal::Usr2),
        named_signal("WINCH"@) == Some(Signal::Winch),
        named_signal("XCPU"@) == Some(Signal::Xcpu),
        named_signal("XFSZ"@) == Some(Signal::Xfsz),
        named_signal(name) is Some ==> {
            ||| name == "ABRT"@
            ||| name == "IOT"@
            ||| name == "ALRM"@
            ||| name == "BUS"@
            ||| name == "CHLD"@
            ||| name == "CLD"@
            ||| name == "CONT"@
            ||| name == "FPE"@
            ||| name == "HUP"@
            ||| name == "ILL"@
            ||| name == "INT"@
            ||| name == "PIPE"@
            ||| name == "QUIT"@
            ||| name == "SEGV"@
            ||| name == "STOP"@
            ||| name == "TERM"@
            ||| name == "TRAP"@
            ||| name == "TSTP"@
            ||| name == "TTIN"@
            ||| name == "TTOU"@
            ||| name == "USR1"@
            ||| name == "USR2"@
            ||| name == "WINCH"@
            ||| name == "XCPU"@
            ||| name == "XFSZ"@
        },
{
    reveal_strlit("ABRT");
    reveal_strlit("IOT");
    reveal_strlit("ALRM");
    reveal_strlit("BUS");
    reveal_strlit("CHLD");
    reveal_strlit("CLD");
    reveal_strlit("CONT");
    reveal_strlit("FPE");
    reveal_strlit("HUP");
    reveal_strlit("ILL");
    reveal_strlit("INT");
    reveal_strlit("PIPE");
    reveal_strlit("QUIT");
    reveal_strlit("SEGV");
    reveal_strlit("STOP");
    reveal_strlit("TERM");
    reveal_strlit("TRAP");
    reveal_strlit("TSTP");
    reveal_strlit("TTIN");
    reveal_strlit("TTOU");
    reveal_strlit("USR1");
    reveal_strlit("USR2");
    reveal_strlit("WINCH");
    reveal_strlit("XCPU");
    reveal_strlit("XFSZ");
    assert("ABRT"@[0] == 'A');
    assert("ABRT"@[1] == 'B');
    assert("ABRT"@[2] == 'R');
    assert("ABRT"@[3] == 'T');
    assert("IOT"@[0] == 'I');
    assert("IOT"@[1] == 'O');
    assert("IOT"@[2] == 'T');
    assert("ALRM"@[0] == 'A');
    assert("ALRM"@[1] == 'L');
    assert("ALRM"@[2] == 'R');
    assert("ALRM"@[3] == 'M');
    assert("BUS"@[0] == 'B');
    assert("BUS"@[1] == 'U');
    assert("BUS"@[2] == 'S');
    assert("CHLD"@[0] == 'C');
    assert("CHLD"@[1] == 'H');
    assert("CHLD"@[2] == 'L');
    assert("CHLD"@[3] == 'D');
    assert("CLD"@[0] == 'C');
    assert("CLD"@[1] == 'L');
    assert("CLD"@[2] == 'D');
    assert("CONT"@[0] == 'C');
    assert("CONT"@[1] == 'O');
    assert("CONT"@[2] == 'N');
    assert("CONT"@[3] == 'T');
    assert("FPE"@[0] == 'F');
    assert("FPE"@[1] == 'P');
    assert("FPE"@[2] == 'E');
    assert("HUP"@[0] == 'H');
    assert("HUP"@[1] == 'U');
    assert("HUP"@[2] == 'P');
    assert("ILL"@[0] == 'I');
    assert("ILL"@[1] == 'L');
    assert("ILL"@[2] == 'L');
    assert("INT"@[0] == 'I');
    assert("INT"@[1] == 'N');
    assert("INT"@[2] == 'T');
    assert("PIPE"@[0] == 'P');
    assert("PIPE"@[1] == 'I');
    assert("PIPE"@[2] == 'P');
    assert("PIPE"@[3] == 'E');
    assert("QUIT"@[0] == 'Q');
    assert("QUIT"@[1] == 'U');
    assert("QUIT"@[2] == 'I');
    assert("QUIT"@[3] == 'T');
    assert("SEGV"@[0] == 'S');
    assert("SEGV"@[1] == 'E');
    assert("SEGV"@[2] == 'G');
    assert("SEGV"@[3] == 'V');
    assert("STOP"@[0] == 'S');
    assert("STOP"@[1] == 'T');
    assert("STOP"@[2] == 'O');
    assert("STOP"@[3] == 'P');
    assert("TERM"@[0] == 'T');
    assert("TERM"@[1] == 'E');
    assert("TERM"@[2] == 'R');
    assert("TERM"@[3] == 'M');
    assert("TRAP"@[0] == 'T');
    assert("TRAP"@[1] == 'R');
    assert("TRAP"@[2] == 'A');
    assert("TRAP"@[3] == 'P');
    assert("TSTP"@[0] == 'T');
    assert("TSTP"@[1] == 'S');
    assert("TSTP"@[2] == 'T');
    assert("TSTP"@[3] == 'P');
    assert("TTIN"@[0] == 'T');
    assert("TTIN"@[1] == 'T');
    assert("TTIN"@[2] == 'I');
    assert("TTIN"@[3] == 'N');
    assert("TTOU"@[0] == 'T');
    assert("TTOU"@[1] == 'T');
    assert("TTOU"@[2] == 'O');
    assert("TTOU"@[3] == 'U');
    assert("USR1"@[0] == 'U');
    assert("USR1"@[1] == 'S');
    assert("USR1"@[2] == 'R');
    assert("USR1"@[3] == '1');
    assert("USR2"@[0] == 'U');
    assert("USR2"@[1] == 'S');
    assert("USR2"@[2] == 'R');
    assert("USR2"@[3] == '2');
    assert("WINCH"@[0] == 'W');
    assert("WINCH"@[1] == 'I');
    assert("WINCH"@[2] == 'N');
    assert("WINCH"@[3] == 'C');
    assert("WINCH"@[4] == 'H');
    assert("XCPU"@[0] == 'X');
    assert("XCPU"@[1] == 'C');
    assert("XCPU"@[2] == 'P');
    assert("XCPU"@[3] == 'U');
    assert("XFSZ"@[0] == 'X');
    assert("XFSZ"@[1] == 'F');
    assert("XFSZ"@[2] == 'S');
    assert("XFSZ"@[3] == 'Z');
}

/// A signal is named in any case, with `SIG` in front or without.
pub proof fn signals_are_named_in_any_case(text: Seq<char>, other: Seq<char>)
    ensures
        uppered(text) == uppered(other) ==> signal_of_text(text) == signal_of_text(other),
        uppered(text) == text ==> signal_of_text("SIG"@ + text) == named_signal(text),
        uppered(text) == text && !(text.len() >= 3 && text.take(3) == "SIG"@) ==> signal_of_text(
            text,
        ) == named_signal(text),
        requested_signal(vstd::utf8::encode_utf8(text)) == signal_of_text(text),
{
    reveal_strlit("SIG");
    encoded_text_is_read_back(text);
    if uppered(text) == text {
        let whole = "SIG"@ + text;
        assert("SIG"@ =~= seq!['S', 'I', 'G']);
        assert(uppered(whole) =~= "SIG"@ + uppered(text)) by {
            assert forall|i: int| 0 <= i < whole.len() implies uppered(whole)[i] == ("SIG"@
                + uppered(text))[i] by {
                if i < 3 {
                    assert(whole[i] == "SIG"@[i]);
                } else {
                    assert(whole[i] == text[i - 3]);
                }
            }
        }
        assert(whole.subrange(0, 3) =~= "SIG"@);
        assert(whole.skip(3) =~= text);
        if text.len() >= 3 {
            assert(text.subrange(0, 3) =~= text.take(3));
        }
    }
}

/// While nothing runs, a terminal is granted with the name and the size that it is asked for with,
/// in place of any before, and a shell or a command starts on it, the command as it is; a terminal
/// that was asked for takes any other size.
pub proof fn session_is_prepared_and_started(session: SessionView, want_reply: bool)
    requires
        session.running is None,
    ensures
        ({
            let granted = SessionStepView::Answer(
                AnswerView {
                    note: None,
                    reply: if want_reply {
                        Some(true)
                    } else {
                        None
                    },
                },
            );
            &&& forall|pty: PtyRequestView| #[trigger]
                session.requested(ChannelRequestView::Pty(pty), want_reply) == (
                    SessionView {
                        pending_pty: Some(
                            PendingPtyView {
                                term: if pty.term.len() == 0 {
                                    None
                                } else {
                                    Some(lossy(pty.term))
                                },
                                size: SessionPtySize::of_pty_request(pty),
                            },
                        ),
                        ..session
                    },
                    granted,
                )
            &&& session.requested(ChannelRequestView::Shell, want_reply).1 == (
            SessionStepView::Start {
                command: SessionCommandView::Shell,
                pty: session.pending_pty,
            })
            &&& forall|exec: ExecRequestView|
                exec.command.len() > 0 ==> (#[trigger] session.requested(
                    ChannelRequestView::Exec(exec),
                    want_reply,
                )).1 == (SessionStepView::Start {
                    command: SessionCommandView::Exec(lossy(exec.command)),
                    pty: session.pending_pty,
                })
            &&& forall|exec: ExecRequestView|
                exec.command.len() == 0 ==> (#[trigger] session.requested(
                    ChannelRequestView::Exec(exec),
                    want_reply,
                )).1 == (SessionStepView::Start {
                    command: SessionCommandView::Exec(Seq::empty()),
                    pty: session.pending_pty,
                })
            &&& session.pending_pty matches Some(pending) ==> forall|
                change: WindowChangeRequest,
            | #[trigger]
                session.requested(ChannelRequestView::WindowChange(change), want_reply) == (
                    SessionView {
                        pending_pty: Some(
                            PendingPtyView {
                                term: pending.term,
                                size: SessionPtySize::of_window_change(change),
                            },
                        ),
                        ..session
                    },
                    granted,
                )
        }),
{
}

/// While a process runs, data is its input, every signal that is named is sent to it, and its
/// terminal, where it has one, is resized.
pub proof fn running_session_is_worked_with(
    session: SessionView,
    want_reply: bool,
    data: Seq<u8>,
    signal: SignalRequestView,
    change: WindowChangeRequest,
)
    requires
        session.running is Some,
    ensures
        session.received(0, data) == (session, SessionStepView::Input(data)),
        requested_signal(signal.signal_name_without_sig) matches Some(named) ==> session.requested(
            ChannelRequestView::Signal(signal),
            want_reply,
        ).1 == SessionStepView::Signal(named),
        session.running == Some(true) ==> session.requested(
            ChannelRequestView::WindowChange(change),
            want_reply,
        ).1 == SessionStepView::Resize(SessionPtySize::of_window_change(change)),
{
}

/// What cannot be done is refused, with a note that says why and with a reply where one is wanted,
/// and nothing changes.
pub proof fn what_cannot_be_done_is_refused(
    session: SessionView,
    want_reply: bool,
    request: ChannelRequestView,
    data_type: u64,
    data: Seq<u8>,
)
    ensures
        ({
            let (after, step) = session.requested(request, want_reply);
            let no = if want_reply {
                Some(false)
            } else {
                None
            };
            let refused = |note: Seq<char>|
                after == session && step == SessionStepView::Answer(
                    AnswerView { note: Some(note), reply: no },
                );
            &&& session.running is Some && (request is Shell || request is Exec) ==> refused(
                "session is already running\n"@,
            )
            &&& session.running is Some && request is Pty ==> refused(
                "cannot request a PTY after the session has started\n"@,
            )
            &&& session.running is None && request is Signal ==> refused(
                "cannot signal a session before it has started\n"@,
            )
            &&& session.running is Some ==> (request matches ChannelRequestView::Signal(signal)
                ==> requested_signal(signal.signal_name_without_sig) is None ==> refused(
                "unsupported signal: "@ + lossy(signal.signal_name_without_sig) + "\n"@,
            ))
            &&& session.running == Some(false) && request is WindowChange ==> refused(
                "window-change requires a PTY-backed session\n"@,
            )
            &&& session.running is None && session.pending_pty is None && request is WindowChange
                ==> refused("window-change requires a pending or running PTY session\n"@)
            &&& request is X11 || request is Subsystem || request is ExitStatus || request
                is ExitSignal || request is ForwardPort ==> after == session && step == (
            SessionStepView::Unsupported { request, reply: no })
        }),
        ({
            let (after, step) = session.received(data_type, data);
            let refused = |note: Seq<char>|
                after == session && step == SessionStepView::Answer(
                    AnswerView { note: Some(note), reply: None },
                );
            &&& data_type != 0 ==> refused("unsupported extended data message\n"@)
            &&& data_type == 0 && session.running is None && data != "forward-agent".spec_bytes()
                ==> refused("cannot send session data before the session has started\n"@)
        }),
{
}

/// The agent is opened when it is asked for before the session starts, unless it is already.
pub proof fn agent_is_opened_when_it_is_asked_for(session: SessionView)
    requires
        session.running is None,
    ensures
        ({
            let (after, step) = session.received(0, "forward-agent".spec_bytes());
            &&& !session.agent_forwarding ==> step is OpenAgent && after == (SessionView {
                attempt: Some(Attempt::OpenAgent),
                ..session
            })
            &&& session.agent_forwarding ==> after == session && step == SessionStepView::Answer(
                AnswerView { note: None, reply: None },
            )
        }),
{
}

/// Each message goes where it belongs: a request and data to those who know them, the end of the
/// input to the process, which is then waited for, the end of the channel to the process, which is
/// not; any other message changes nothing and is not answered.
pub proof fn messages_go_where_they_belong(session: SessionView, message: MessageView)
    ensures
        message matches MessageView::ChannelRequest(request) ==> session.step(message)
            == session.requested(request.request, request.want_reply),
        message matches MessageView::Data(data) ==> session.step(message) == session.received(
            data.data_type,
            data.data,
        ),
        message is ChannelEof ==> session.step(message) == (
            session,
            SessionStepView::Finish {
                close_input: session.running is Some,
                wait_for_exit: session.running is Some,
            },
        ),
        message is ChannelClose ==> session.step(message) == (
            session,
            SessionStepView::Finish { close_input: session.running is Some, wait_for_exit: false },
        ),
        message is ChannelOpenConfirmation || message is ChannelOpenFailure || message
            is ChannelSuccess || message is ChannelFailure ==> session.step(message) == (
            session,
            SessionStepView::Answer(AnswerView { note: None, reply: None }),
        ),
{
}

/// What was attempted is answered as it went: a failure is noted as it is told and replied to as a
/// failure, a success is replied to as one without a note; only a start that succeeded leaves a
/// process running, and only an agent that was opened one that is forwarded.
pub proof fn attempts_are_answered_as_they_went(
    session: SessionView,
    failure: Option<Seq<char>>,
)
    requires
        session.attempt is Some,
    ensures
        ({
            let (after, answer) = session.outcome(failure);
            let attempt = session.attempt->0;
            let wanted = match attempt {
                Attempt::Start { want_reply, .. } => want_reply,
                Attempt::Signal { want_reply } => want_reply,
                Attempt::Resize { want_reply } => want_reply,
                Attempt::OpenAgent => false,
            };
            &&& after.attempt is None
            &&& after.pending_pty == session.pending_pty
            &&& failure matches Some(text) ==> answer.note == Some(text + "\n"@)
            &&& failure is None ==> answer.note is None
            &&& wanted ==> answer.reply == Some(failure is None)
            &&& !wanted ==> answer.reply is None
            &&& attempt matches Attempt::Start { on_pty, .. } ==> (failure is None ==> after.running
                == Some(on_pty))
            &&& !(attempt is Start) || failure is Some ==> after.running == session.running
            &&& attempt is OpenAgent && failure is None ==> after.agent_forwarding
            &&& !(attempt is OpenAgent) || failure is Some ==> after.agent_forwarding
                == session.agent_forwarding
        }),
{
}

/// A step whose outcome is awaited is remembered with the wish for a reply, and no other is.
pub proof fn awaited_steps_are_remembered(session: SessionView, message: MessageView)
    requires
        session.attempt is None,
    ensures
        ({
            let (after, step) = session.step(message);
            let wanted = message is ChannelRequest && message->ChannelRequest_0.want_reply;
            &&& after.attempt is Some <==> step is Start || step is Signal || step is Resize || step
                is OpenAgent
            &&& step is Start ==> after.attempt == Some(
                Attempt::Start { on_pty: session.pending_pty is Some, want_reply: wanted },
            )
            &&& step is Signal ==> after.attempt == Some(Attempt::Signal { want_reply: wanted })
            &&& step is Resize ==> after.attempt == Some(Attempt::Resize { want_reply: wanted })
            &&& after.running == session.running
            &&& after.agent_forwarding == session.agent_forwarding
        }),
        SessionView::fresh().running is None,
        SessionView::fresh().pending_pty is None,
        !SessionView::fresh().agent_forwarding,
        SessionView::fresh().attempt is None,
{
}

/// Bytes are read as the text that they stand for, and nothing is not read at all.
pub proof fn bytes_are_read_as_text(bytes: Seq<u8>)
    ensures
        bytes.len() > 0 ==> text_of_bytes(bytes) == Some(lossy(bytes)),
        bytes.len() == 0 ==> text_of_bytes(bytes) is None,
{
}

} // verus!
