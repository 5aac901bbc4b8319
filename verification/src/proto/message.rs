//! The messages exchanged on a channel.

use crate::proto::address::{
    append_socket_addr, read_socket_addr, socket_addr_len, IpAddr, IpAddrView, SocketAddr,
    SocketAddrView,
};
use crate::proto::request::{
    bytes_encodable, ExecRequest, ExecRequestView, ExitSignalRequest, ExitSignalRequestView,
    ExitStatusRequest, PtyRequest, PtyRequestView, SignalRequest, SignalRequestView,
    SubsystemRequest, SubsystemRequestView, WindowChangeRequest, X11Request, X11RequestView,
};
use crate::proto::wire::{
    append_ssh_bytes, append_var_int, bool_encoding, bool_extends, bool_parsed, bool_round_trip,
    read_bool, read_ssh_bytes, read_var_int, reads, reads_or_stops, ssh_bytes_encoding,
    ssh_bytes_extends, ssh_bytes_parsed, ssh_bytes_parsed_fits, ssh_bytes_round_trip, ssh_string_len, stands,
    var_int_bytes, var_int_bytes_round_trip, var_int_extends, var_int_len, var_int_parsed,
    var_int_parsed_fits, write_bool, Error, ErrorView, Parsed, Reader, Stopped,
    MAX_VARINT,
};
use crate::text::same_bytes;
use vstd::prelude::*;
use vstd::slice::slice_to_vec;
use vstd::string::*;

verus! {

pub const SSH_MSG_DISCONNECT: u64 = 1;

pub const SSH_MSG_IGNORE: u64 = 2;

pub const SSH_MSG_UNIMPLEMENTED: u64 = 3;

pub const SSH_MSG_DEBUG: u64 = 4;

pub const SSH_MSG_SERVICE_REQUEST: u64 = 5;

pub const SSH_MSG_SERVICE_ACCEPT: u64 = 6;

pub const SSH_MSG_KEXINIT: u64 = 20;

pub const SSH_MSG_NEWKEYS: u64 = 21;

pub const SSH_MSG_USERAUTH_REQUEST: u64 = 50;

pub const SSH_MSG_USERAUTH_FAILURE: u64 = 51;

pub const SSH_MSG_USERAUTH_SUCCESS: u64 = 52;

pub const SSH_MSG_USERAUTH_BANNER: u64 = 53;

pub const SSH_MSG_GLOBAL_REQUEST: u64 = 80;

pub const SSH_MSG_REQUEST_SUCCESS: u64 = 81;

pub const SSH_MSG_REQUEST_FAILURE: u64 = 82;

pub const SSH_MSG_CHANNEL_OPEN: u64 = 90;

pub const SSH_MSG_CHANNEL_OPEN_CONFIRMATION: u64 = 91;

pub const SSH_MSG_CHANNEL_OPEN_FAILURE: u64 = 92;

pub const SSH_MSG_CHANNEL_WINDOW_ADJUST: u64 = 93;

pub const SSH_MSG_CHANNEL_DATA: u64 = 94;

pub const SSH_MSG_CHANNEL_EXTENDED_DATA: u64 = 95;

pub const SSH_MSG_CHANNEL_EOF: u64 = 96;

pub const SSH_MSG_CHANNEL_CLOSE: u64 = 97;

pub const SSH_MSG_CHANNEL_REQUEST: u64 = 98;

pub const SSH_MSG_CHANNEL_SUCCESS: u64 = 99;

pub const SSH_MSG_CHANNEL_FAILURE: u64 = 100;

/// Tells ordinary data from the streams of extended data.
pub type SshDataType = u64;

pub const SSH_EXTENDED_DATA_NONE: u64 = 0;

pub const SSH_EXTENDED_DATA_STDERR: u64 = 1;

/// The data that asks for the agent of the client, before a session starts.
pub const FORWARD_AGENT: &'static str = "forward-agent";

/// The transport that a forwarded port carries.
#[derive(Clone, Copy, Debug, PartialEq, Eq, Structural)]
pub enum ForwardingProtocol {
    Udp,
    Tcp,
}

impl ForwardingProtocol {
    pub open spec fn number(self) -> u64 {
        match self {
            ForwardingProtocol::Udp => 0,
            ForwardingProtocol::Tcp => 1,
        }
    }

    pub fn as_u64(self) -> (number: u64)
        ensures
            number == self.number(),
    {
        match self {
            ForwardingProtocol::Udp => 0,
            ForwardingProtocol::Tcp => 1,
        }
    }

    pub fn try_from(value: u64) -> (result: Result<Self, Error>)
        ensures
            match result {
                Ok(protocol) => protocol.number() == value,
                Err(error) => value > 1 && error@ == ErrorView::InvalidForwardingProtocol(value),
            },
    {
        match value {
            0 => Ok(ForwardingProtocol::Udp),
            1 => Ok(ForwardingProtocol::Tcp),
            _ => Err(Error::InvalidForwardingProtocol(value)),
        }
    }
}

/// Asks for a port to be forwarded.
#[derive(Clone, Copy, Debug, PartialEq, Eq)]
pub struct ForwardingRequest {
    pub protocol: ForwardingProtocol,
    pub ip_address: IpAddr,
    pub port: u16,
}

/// The mathematical counterpart of [`ForwardingRequest`].
pub struct ForwardingRequestView {
    pub protocol: ForwardingProtocol,
    pub ip_address: IpAddrView,
    pub port: u16,
}

impl View for ForwardingRequest {
    type V = ForwardingRequestView;

    open spec fn view(&self) -> ForwardingRequestView {
        ForwardingRequestView {
            protocol: self.protocol,
            ip_address: self.ip_address@,
            port: self.port,
        }
    }
}

impl ForwardingRequestView {
    pub open spec fn encodable(self) -> bool {
        self.ip_address.valid()
    }

    pub open spec fn target(self) -> SocketAddrView {
        SocketAddrView { ip: self.ip_address, port: self.port }
    }

    pub open spec fn encoding(self) -> Seq<u8> {
        var_int_bytes(self.protocol.number()) + self.target().encoding()
    }

    pub open spec fn parsed(bytes: Seq<u8>) -> Parsed<ForwardingRequestView> {
        match var_int_parsed(bytes) {
            Err(error) => Err(error),
            Ok((protocol, rest)) => if protocol > 1 {
                Err((ErrorView::InvalidForwardingProtocol(protocol), rest))
            } else {
                match SocketAddrView::parsed(rest) {
                    Err(error) => Err(error),
                    Ok((target, rest)) => Ok(
                        (
                            ForwardingRequestView {
                                protocol: if protocol == 0 {
                                    ForwardingProtocol::Udp
                                } else {
                                    ForwardingProtocol::Tcp
                                },
                                ip_address: target.ip,
                                port: target.port,
                            },
                            rest,
                        ),
                    ),
                }
            },
        }
    }

    /// The encoding of a request reads back as the request, whatever bytes follow it.
    pub proof fn round_trip(self, rest: Seq<u8>)
        requires
            self.encodable(),
        ensures
            Self::parsed(self.encoding() + rest) == Ok::<
                (ForwardingRequestView, Seq<u8>),
                Stopped,
            >((self, rest)),
    {
        let tail = self.target().encoding() + rest;
        self.target().round_trip(rest);
        var_int_bytes_round_trip(self.protocol.number(), tail);
        assert(self.encoding() + rest =~= var_int_bytes(self.protocol.number()) + tail);
    }

    /// Whatever parses can be encoded again.
    pub proof fn parsed_encodable(bytes: Seq<u8>)
        ensures
            Self::parsed(bytes) matches Ok((value, rest)) ==> value.encodable() && rest.len()
                <= bytes.len(),
            Self::parsed(bytes) matches Err((_, rest)) ==> rest.len() <= bytes.len(),
    {
        var_int_parsed_fits(bytes);
        if let Ok((_, rest)) = var_int_parsed(bytes) {
            SocketAddrView::parsed_valid(rest);
        }
    }

    /// A parse stands when more bytes follow.
    pub proof fn extends(bytes: Seq<u8>, more: Seq<u8>)
        ensures
            stands(Self::parsed(bytes), Self::parsed(bytes + more), more),
    {
        var_int_extends(bytes, more);
        if let Ok((_, rest)) = var_int_parsed(bytes) {
            SocketAddrView::extends(rest, more);
        }
    }
}

impl ForwardingRequest {
    fn target(&self) -> (target: SocketAddr)
        ensures
            target@ == self@.target(),
    {
        SocketAddr { ip: self.ip_address, port: self.port }
    }

    pub(crate) fn parse(reader: &mut Reader) -> (result: Result<Self, Error>)
        ensures
            reads_or_stops(
                result,
                |value: ForwardingRequest| value@,
                final(reader)@,
                ForwardingRequestView::parsed(old(reader)@),
            ),
    {
        let number: u64 = read_var_int(reader)?;
        let protocol: ForwardingProtocol = ForwardingProtocol::try_from(number)?;
        let target: SocketAddr = read_socket_addr(reader)?;
        Ok(ForwardingRequest { protocol, ip_address: target.ip, port: target.port })
    }

    pub(crate) fn encoded_len(&self) -> (length: usize)
        requires
            self@.encoding().len() <= usize::MAX,
        ensures
            length == self@.encoding().len(),
    {
        var_int_len(self.protocol.as_u64()) + socket_addr_len(self.target())
    }

    pub(crate) fn encode(&self, out: &mut Vec<u8>)
        ensures
            final(out)@ == old(out)@ + self@.encoding(),
    {
        append_var_int(out, self.protocol.as_u64());
        append_socket_addr(out, self.target());
        proof {
            assert(out@ =~= old(out)@ + self@.encoding());
        }
    }
}

/// A request made on a channel.
#[derive(Clone, Debug, PartialEq, Eq)]
pub enum ChannelRequest {
    Pty(PtyRequest),
    X11(X11Request),
    Shell,
    Exec(ExecRequest),
    Subsystem(SubsystemRequest),
    WindowChange(WindowChangeRequest),
    Signal(SignalRequest),
    ExitStatus(ExitStatusRequest),
    ExitSignal(ExitSignalRequest),
    ForwardPort(ForwardingRequest),
}

/// The mathematical counterpart of [`ChannelRequest`].
pub enum ChannelRequestView {
    Pty(PtyRequestView),
    X11(X11RequestView),
    Shell,
    Exec(ExecRequestView),
    Subsystem(SubsystemRequestView),
    WindowChange(WindowChangeRequest),
    Signal(SignalRequestView),
    ExitStatus(ExitStatusRequest),
    ExitSignal(ExitSignalRequestView),
    ForwardPort(ForwardingRequestView),
}

impl View for ChannelRequest {
    type V = ChannelRequestView;

    open spec fn view(&self) -> ChannelRequestView {
        match *self {
            ChannelRequest::Pty(request) => ChannelRequestView::Pty(request@),
            ChannelRequest::X11(request) => ChannelRequestView::X11(request@),
            ChannelRequest::Shell => ChannelRequestView::Shell,
            ChannelRequest::Exec(request) => ChannelRequestView::Exec(request@),
            ChannelRequest::Subsystem(request) => ChannelRequestView::Subsystem(request@),
            ChannelRequest::WindowChange(request) => ChannelRequestView::WindowChange(request@),
            ChannelRequest::Signal(request) => ChannelRequestView::Signal(request@),
            ChannelRequest::ExitStatus(request) => ChannelRequestView::ExitStatus(request@),
            ChannelRequest::ExitSignal(request) => ChannelRequestView::ExitSignal(request@),
            ChannelRequest::ForwardPort(request) => ChannelRequestView::ForwardPort(request@),
        }
    }
}

impl ChannelRequestView {
    pub open spec fn encodable(self) -> bool {
        match self {
            ChannelRequestView::Pty(request) => request.encodable(),
            ChannelRequestView::X11(request) => request.encodable(),
            ChannelRequestView::Shell => true,
            ChannelRequestView::Exec(request) => request.encodable(),
            ChannelRequestView::Subsystem(request) => request.encodable(),
            ChannelRequestView::WindowChange(request) => request.encodable(),
            ChannelRequestView::Signal(request) => request.encodable(),
            ChannelRequestView::ExitStatus(request) => request.encodable(),
            ChannelRequestView::ExitSignal(request) => request.encodable(),
            ChannelRequestView::ForwardPort(request) => request.encodable(),
        }
    }

    /// The name that announces the kind of request.
    pub open spec fn request_type(self) -> Seq<u8> {
        match self {
            ChannelRequestView::Pty(_) => "pty-req".spec_bytes(),
            ChannelRequestView::X11(_) => "x11-req".spec_bytes(),
            ChannelRequestView::Shell => "shell".spec_bytes(),
            ChannelRequestView::Exec(_) => "exec".spec_bytes(),
            ChannelRequestView::Subsystem(_) => "subsystem".spec_bytes(),
            ChannelRequestView::WindowChange(_) => "window-change".spec_bytes(),
            ChannelRequestView::Signal(_) => "signal".spec_bytes(),
            ChannelRequestView::ExitStatus(_) => "exit-status".spec_bytes(),
            ChannelRequestView::ExitSignal(_) => "exit-signal".spec_bytes(),
            ChannelRequestView::ForwardPort(_) => "forward-port".spec_bytes(),
        }
    }

    /// What follows the name and the reply flag.
    pub open spec fn payload(self) -> Seq<u8> {
        match self {
            ChannelRequestView::Pty(request) => request.encoding(),
            ChannelRequestView::X11(request) => request.encoding(),
            ChannelRequestView::Shell => Seq::empty(),
            ChannelRequestView::Exec(request) => request.encoding(),
            ChannelRequestView::Subsystem(request) => request.encoding(),
            ChannelRequestView::WindowChange(request) => request.encoding(),
            ChannelRequestView::Signal(request) => request.encoding(),
            ChannelRequestView::ExitStatus(request) => request.encoding(),
            ChannelRequestView::ExitSignal(request) => request.encoding(),
            ChannelRequestView::ForwardPort(request) => request.encoding(),
        }
    }

    /// Reads the payload of a request of the given kind.
    pub open spec fn parsed(request_type: Seq<u8>, bytes: Seq<u8>) -> Parsed<ChannelRequestView> {
        if request_type == "pty-req".spec_bytes() {
            match PtyRequestView::parsed(bytes) {
                Err(error) => Err(error),
                Ok((request, rest)) => Ok((ChannelRequestView::Pty(request), rest)),
            }
        } else if request_type == "x11-req".spec_bytes() {
            match X11RequestView::parsed(bytes) {
                Err(error) => Err(error),
                Ok((request, rest)) => Ok((ChannelRequestView::X11(request), rest)),
            }
        } else if request_type == "shell".spec_bytes() {
            Ok((ChannelRequestView::Shell, bytes))
        } else if request_type == "exec".spec_bytes() {
            match ExecRequestView::parsed(bytes) {
                Err(error) => Err(error),
                Ok((request, rest)) => Ok((ChannelRequestView::Exec(request), rest)),
            }
        } else if request_type == "subsystem".spec_bytes() {
            match SubsystemRequestView::parsed(bytes) {
                Err(error) => Err(error),
                Ok((request, rest)) => Ok((ChannelRequestView::Subsystem(request), rest)),
            }
        } else if request_type == "window-change".spec_bytes() {
            match WindowChangeRequest::parsed(bytes) {
                Err(error) => Err(error),
                Ok((request, rest)) => Ok((ChannelRequestView::WindowChange(request), rest)),
            }
        } else if request_type == "signal".spec_bytes() {
            match SignalRequestView::parsed(bytes) {
                Err(error) => Err(error),
                Ok((request, rest)) => Ok((ChannelRequestView::Signal(request), rest)),
            }
        } else if request_type == "exit-status".spec_bytes() {
            match ExitStatusRequest::parsed(bytes) {
                Err(error) => Err(error),
                Ok((request, rest)) => Ok((ChannelRequestView::ExitStatus(request), rest)),
            }
        } else if request_type == "exit-signal".spec_bytes() {
            match ExitSignalRequestView::parsed(bytes) {
                Err(error) => Err(error),
                Ok((request, rest)) => Ok((ChannelRequestView::ExitSignal(request), rest)),
            }
        } else if request_type == "forward-port".spec_bytes() {
            match ForwardingRequestView::parsed(bytes) {
                Err(error) => Err(error),
                Ok((request, rest)) => Ok((ChannelRequestView::ForwardPort(request), rest)),
            }
        } else {
            Err((ErrorView::UnknownRequestType(request_type), bytes))
        }
    }

    /// A payload reads back as the request it was written for, whatever bytes follow it.
    pub proof fn round_trip(self, rest: Seq<u8>)
        requires
            self.encodable(),
        ensures
            Self::parsed(self.request_type(), self.payload() + rest) == Ok::<
                (ChannelRequestView, Seq<u8>),
                Stopped,
            >((self, rest)),
    {
        lemma_request_types_differ();
        match self {
            ChannelRequestView::Pty(request) => request.round_trip(rest),
            ChannelRequestView::X11(request) => request.round_trip(rest),
            ChannelRequestView::Shell => {
                assert(Seq::<u8>::empty() + rest =~= rest);
            },
            ChannelRequestView::Exec(request) => request.round_trip(rest),
            ChannelRequestView::Subsystem(request) => request.round_trip(rest),
            ChannelRequestView::WindowChange(request) => request.round_trip(rest),
            ChannelRequestView::Signal(request) => request.round_trip(rest),
            ChannelRequestView::ExitStatus(request) => request.round_trip(rest),
            ChannelRequestView::ExitSignal(request) => request.round_trip(rest),
            ChannelRequestView::ForwardPort(request) => request.round_trip(rest),
        }
    }

    /// Whatever parses can be encoded again.
    pub proof fn parsed_encodable(request_type: Seq<u8>, bytes: Seq<u8>)
        ensures
            Self::parsed(request_type, bytes) matches Ok((value, rest)) ==> value.encodable()
                && rest.len() <= bytes.len() && value.request_type() == request_type,
            Self::parsed(request_type, bytes) matches Err((_, rest)) ==> rest.len() <= bytes.len(),
    {
        PtyRequestView::parsed_encodable(bytes);
        X11RequestView::parsed_encodable(bytes);
        ExecRequestView::parsed_encodable(bytes);
        SubsystemRequestView::parsed_encodable(bytes);
        WindowChangeRequest::parsed_encodable(bytes);
        SignalRequestView::parsed_encodable(bytes);
        ExitStatusRequest::parsed_encodable(bytes);
        ExitSignalRequestView::parsed_encodable(bytes);
        ForwardingRequestView::parsed_encodable(bytes);
    }

    /// A parse stands when more bytes follow.
    pub proof fn extends(request_type: Seq<u8>, bytes: Seq<u8>, more: Seq<u8>)
        ensures
            stands(
                Self::parsed(request_type, bytes),
                Self::parsed(request_type, bytes + more),
                more,
            ),
    {
        PtyRequestView::extends(bytes, more);
        X11RequestView::extends(bytes, more);
        ExecRequestView::extends(bytes, more);
        SubsystemRequestView::extends(bytes, more);
        WindowChangeRequest::extends(bytes, more);
        SignalRequestView::extends(bytes, more);
        ExitStatusRequest::extends(bytes, more);
        ExitSignalRequestView::extends(bytes, more);
        ForwardingRequestView::extends(bytes, more);
    }
}

/// The names of the requests are told apart by their lengths and a few letters.
proof fn lemma_request_types_differ()
    ensures
        "pty-req".spec_bytes().len() == 7,
        "x11-req".spec_bytes().len() == 7,
        "shell".spec_bytes().len() == 5,
        "exec".spec_bytes().len() == 4,
        "subsystem".spec_bytes().len() == 9,
        "window-change".spec_bytes().len() == 13,
        "signal".spec_bytes().len() == 6,
        "exit-status".spec_bytes().len() == 11,
        "exit-signal".spec_bytes().len() == 11,
        "forward-port".spec_bytes().len() == 12,
        "pty-req".spec_bytes() != "x11-req".spec_bytes(),
        "exit-status".spec_bytes() != "exit-signal".spec_bytes(),
{
    reveal_strlit("pty-req");
    assert("pty-req".is_ascii());
    reveal_strlit("x11-req");
    assert("x11-req".is_ascii());
    reveal_strlit("shell");
    assert("shell".is_ascii());
    reveal_strlit("exec");
    assert("exec".is_ascii());
    reveal_strlit("subsystem");
    assert("subsystem".is_ascii());
    reveal_strlit("window-change");
    assert("window-change".is_ascii());
    reveal_strlit("signal");
    assert("signal".is_ascii());
    reveal_strlit("exit-status");
    assert("exit-status".is_ascii());
    reveal_strlit("exit-signal");
    assert("exit-signal".is_ascii());
    reveal_strlit("forward-port");
    assert("forward-port".is_ascii());
    assert("pty-req".spec_bytes()[0] == 'p' as u8);
    assert("x11-req".spec_bytes()[0] == 'x' as u8);
    assert("exit-status".spec_bytes()[6] == 't' as u8);
    assert("exit-signal".spec_bytes()[6] == 'i' as u8);
}

impl ChannelRequest {
    pub(crate) fn parse(request_type: &[u8], reader: &mut Reader) -> (result: Result<Self, Error>)
        ensures
            reads_or_stops(
                result,
                |value: ChannelRequest| value@,
                final(reader)@,
                ChannelRequestView::parsed(request_type@, old(reader)@),
            ),
    {
        if same_bytes(request_type, "pty-req".as_bytes()) {
            Ok(ChannelRequest::Pty(PtyRequest::parse(reader)?))
        } else if same_bytes(request_type, "x11-req".as_bytes()) {
            Ok(ChannelRequest::X11(X11Request::parse(reader)?))
        } else if same_bytes(request_type, "shell".as_bytes()) {
            Ok(ChannelRequest::Shell)
        } else if same_bytes(request_type, "exec".as_bytes()) {
            Ok(ChannelRequest::Exec(ExecRequest::parse(reader)?))
        } else if same_bytes(request_type, "subsystem".as_bytes()) {
            Ok(ChannelRequest::Subsystem(SubsystemRequest::parse(reader)?))
        } else if same_bytes(request_type, "window-change".as_bytes()) {
            Ok(ChannelRequest::WindowChange(WindowChangeRequest::parse(reader)?))
        } else if same_bytes(request_type, "signal".as_bytes()) {
            Ok(ChannelRequest::Signal(SignalRequest::parse(reader)?))
        } else if same_bytes(request_type, "exit-status".as_bytes()) {
            Ok(ChannelRequest::ExitStatus(ExitStatusRequest::parse(reader)?))
        } else if same_bytes(request_type, "exit-signal".as_bytes()) {
            Ok(ChannelRequest::ExitSignal(ExitSignalRequest::parse(reader)?))
        } else if same_bytes(request_type, "forward-port".as_bytes()) {
            Ok(ChannelRequest::ForwardPort(ForwardingRequest::parse(reader)?))
        } else {
            Err(Error::UnknownRequestType(slice_to_vec(request_type)))
        }
    }

    pub(crate) fn request_type(&self) -> (name: &'static [u8])
        ensures
            name@ == self@.request_type(),
    {
        match self {
            ChannelRequest::Pty(_) => "pty-req".as_bytes(),
            ChannelRequest::X11(_) => "x11-req".as_bytes(),
            ChannelRequest::Shell => "shell".as_bytes(),
            ChannelRequest::Exec(_) => "exec".as_bytes(),
            ChannelRequest::Subsystem(_) => "subsystem".as_bytes(),
            ChannelRequest::WindowChange(_) => "window-change".as_bytes(),
            ChannelRequest::Signal(_) => "signal".as_bytes(),
            ChannelRequest::ExitStatus(_) => "exit-status".as_bytes(),
            ChannelRequest::ExitSignal(_) => "exit-signal".as_bytes(),
            ChannelRequest::ForwardPort(_) => "forward-port".as_bytes(),
        }
    }

    pub(crate) fn encoded_payload_len(&self) -> (length: usize)
        requires
            self@.encodable(),
            self@.payload().len() <= usize::MAX,
        ensures
            length == self@.payload().len(),
    {
        match self {
            ChannelRequest::Pty(request) => request.encoded_len(),
            ChannelRequest::X11(request) => request.encoded_len(),
            ChannelRequest::Shell => 0,
            ChannelRequest::Exec(request) => request.encoded_len(),
            ChannelRequest::Subsystem(request) => request.encoded_len(),
            ChannelRequest::WindowChange(request) => request.encoded_len(),
            ChannelRequest::Signal(request) => request.encoded_len(),
            ChannelRequest::ExitStatus(request) => request.encoded_len(),
            ChannelRequest::ExitSignal(request) => request.encoded_len(),
            ChannelRequest::ForwardPort(request) => request.encoded_len(),
        }
    }

    pub(crate) fn encode_payload(&self, out: &mut Vec<u8>)
        requires
            self@.encodable(),
        ensures
            final(out)@ == old(out)@ + self@.payload(),
    {
        match self {
            ChannelRequest::Pty(request) => request.encode(out),
            ChannelRequest::X11(request) => request.encode(out),
            ChannelRequest::Shell => {
                proof {
                    assert(out@ =~= old(out)@ + self@.payload());
                }
            },
            ChannelRequest::Exec(request) => request.encode(out),
            ChannelRequest::Subsystem(request) => request.encode(out),
            ChannelRequest::WindowChange(request) => request.encode(out),
            ChannelRequest::Signal(request) => request.encode(out),
            ChannelRequest::ExitStatus(request) => request.encode(out),
            ChannelRequest::ExitSignal(request) => request.encode(out),
            ChannelRequest::ForwardPort(request) => request.encode(out),
        }
    }
}

/// Accepts a channel.
#[derive(Clone, Copy, Debug, PartialEq, Eq, Structural)]
pub struct ChannelOpenConfirmationMessage {
    pub max_packet_size: u64,
}

impl ChannelOpenConfirmationMessage {
    pub open spec fn encodable(self) -> bool {
        self.max_packet_size <= MAX_VARINT
    }

    pub open spec fn encoding(self) -> Seq<u8> {
        var_int_bytes(SSH_MSG_CHANNEL_OPEN_CONFIRMATION) + var_int_bytes(self.max_packet_size)
    }

    /// Reads what follows the message type.
    pub open spec fn parsed(bytes: Seq<u8>) -> Parsed<ChannelOpenConfirmationMessage> {
        match var_int_parsed(bytes) {
            Err(error) => Err(error),
            Ok((max_packet_size, rest)) => Ok(
                (ChannelOpenConfirmationMessage { max_packet_size }, rest),
            ),
        }
    }

    pub(crate) fn parse_payload(reader: &mut Reader) -> (result: Result<Self, Error>)
        ensures
            reads_or_stops(
                result,
                |value: ChannelOpenConfirmationMessage| value,
                final(reader)@,
                Self::parsed(old(reader)@),
            ),
    {
        let max_packet_size: u64 = read_var_int(reader)?;
        Ok(ChannelOpenConfirmationMessage { max_packet_size })
    }

    /// How many bytes [`Self::encode`] writes.
    pub fn encoded_len(&self) -> (length: usize)
        requires
            self.encodable(),
        ensures
            length == self.encoding().len(),
    {
        var_int_len(SSH_MSG_CHANNEL_OPEN_CONFIRMATION) + var_int_len(self.max_packet_size)
    }

    pub fn encode(&self, out: &mut Vec<u8>)
        requires
            self.encodable(),
        ensures
            final(out)@ == old(out)@ + self.encoding(),
    {
        append_var_int(out, SSH_MSG_CHANNEL_OPEN_CONFIRMATION);
        append_var_int(out, self.max_packet_size);
        proof {
            assert(out@ =~= old(out)@ + self.encoding());
        }
    }
}

/// Refuses a channel.
#[derive(Clone, Debug, PartialEq, Eq)]
pub struct ChannelOpenFailureMessage {
    pub reason_code: u64,
    pub error_message_utf8: Vec<u8>,
    pub language_tag: Vec<u8>,
}

/// The mathematical counterpart of [`ChannelOpenFailureMessage`].
pub struct ChannelOpenFailureMessageView {
    pub reason_code: u64,
    pub error_message_utf8: Seq<u8>,
    pub language_tag: Seq<u8>,
}

impl View for ChannelOpenFailureMessage {
    type V = ChannelOpenFailureMessageView;

    open spec fn view(&self) -> ChannelOpenFailureMessageView {
        ChannelOpenFailureMessageView {
            reason_code: self.reason_code,
            error_message_utf8: self.error_message_utf8@,
            language_tag: self.language_tag@,
        }
    }
}

impl ChannelOpenFailureMessageView {
    pub open spec fn encodable(self) -> bool {
        &&& self.reason_code <= MAX_VARINT
        &&& bytes_encodable(self.error_message_utf8)
        &&& bytes_encodable(self.language_tag)
    }

    pub open spec fn encoding(self) -> Seq<u8> {
        var_int_bytes(SSH_MSG_CHANNEL_OPEN_FAILURE) + var_int_bytes(self.reason_code)
            + ssh_bytes_encoding(self.error_message_utf8) + ssh_bytes_encoding(self.language_tag)
    }

    /// Reads what follows the message type.
    pub open spec fn parsed(bytes: Seq<u8>) -> Parsed<ChannelOpenFailureMessageView> {
        match var_int_parsed(bytes) {
            Err(error) => Err(error),
            Ok((reason_code, rest)) => match ssh_bytes_parsed(rest) {
                Err(error) => Err(error),
                Ok((error_message_utf8, rest)) => match ssh_bytes_parsed(rest) {
                    Err(error) => Err(error),
                    Ok((language_tag, rest)) => Ok(
                        (
                            ChannelOpenFailureMessageView {
                                reason_code,
                                error_message_utf8,
                                language_tag,
                            },
                            rest,
                        ),
                    ),
                },
            },
        }
    }
}

impl ChannelOpenFailureMessage {
    pub(crate) fn parse_payload(reader: &mut Reader) -> (result: Result<Self, Error>)
        ensures
            reads_or_stops(
                result,
                |value: ChannelOpenFailureMessage| value@,
                final(reader)@,
                ChannelOpenFailureMessageView::parsed(old(reader)@),
            ),
    {
        let reason_code: u64 = read_var_int(reader)?;
        let error_message_utf8: Vec<u8> = read_ssh_bytes(reader)?;
        let language_tag: Vec<u8> = read_ssh_bytes(reader)?;
        Ok(ChannelOpenFailureMessage { reason_code, error_message_utf8, language_tag })
    }

    /// How many bytes [`Self::encode`] writes.
    pub fn encoded_len(&self) -> (length: usize)
        requires
            self@.encodable(),
            self@.encoding().len() <= usize::MAX,
        ensures
            length == self@.encoding().len(),
    {
        var_int_len(SSH_MSG_CHANNEL_OPEN_FAILURE) + var_int_len(self.reason_code) + ssh_string_len(
            &self.error_message_utf8,
        ) + ssh_string_len(&self.language_tag)
    }

    pub fn encode(&self, out: &mut Vec<u8>)
        requires
            self@.encodable(),
        ensures
            final(out)@ == old(out)@ + self@.encoding(),
    {
        append_var_int(out, SSH_MSG_CHANNEL_OPEN_FAILURE);
        append_var_int(out, self.reason_code);
        append_ssh_bytes(out, &self.error_message_utf8);
        append_ssh_bytes(out, &self.language_tag);
        proof {
            assert(out@ =~= old(out)@ + self@.encoding());
        }
    }
}

/// Carries data: ordinary data where the type is [`SSH_EXTENDED_DATA_NONE`], a stream of extended
/// data otherwise.
#[derive(Clone, Debug, PartialEq, Eq)]
pub struct DataOrExtendedDataMessage {
    pub data_type: SshDataType,
    pub data: Vec<u8>,
}

/// The mathematical counterpart of [`DataOrExtendedDataMessage`].
pub struct DataOrExtendedDataMessageView {
    pub data_type: SshDataType,
    pub data: Seq<u8>,
}

impl View for DataOrExtendedDataMessage {
    type V = DataOrExtendedDataMessageView;

    open spec fn view(&self) -> DataOrExtendedDataMessageView {
        DataOrExtendedDataMessageView { data_type: self.data_type, data: self.data@ }
    }
}

impl DataOrExtendedDataMessageView {
    pub open spec fn encodable(self) -> bool {
        self.data_type <= MAX_VARINT && bytes_encodable(self.data)
    }

    /// What precedes the data: the message type and, for extended data, the data type.
    pub open spec fn prefix(data_type: SshDataType) -> Seq<u8> {
        if data_type == SSH_EXTENDED_DATA_NONE {
            var_int_bytes(SSH_MSG_CHANNEL_DATA)
        } else {
            var_int_bytes(SSH_MSG_CHANNEL_EXTENDED_DATA) + var_int_bytes(data_type)
        }
    }

    pub open spec fn encoding(self) -> Seq<u8> {
        Self::prefix(self.data_type) + ssh_bytes_encoding(self.data)
    }

    /// Reads what follows the message type of ordinary data.
    pub open spec fn data_parsed(bytes: Seq<u8>) -> Parsed<DataOrExtendedDataMessageView> {
        match ssh_bytes_parsed(bytes) {
            Err(error) => Err(error),
            Ok((data, rest)) => Ok(
                (
                    DataOrExtendedDataMessageView { data_type: SSH_EXTENDED_DATA_NONE, data },
                    rest,
                ),
            ),
        }
    }

    /// Reads what follows the message type of extended data.
    pub open spec fn extended_parsed(bytes: Seq<u8>) -> Parsed<DataOrExtendedDataMessageView> {
        match var_int_parsed(bytes) {
            Err(error) => Err(error),
            Ok((data_type, rest)) => match ssh_bytes_parsed(rest) {
                Err(error) => Err(error),
                Ok((data, rest)) => Ok((DataOrExtendedDataMessageView { data_type, data }, rest)),
            },
        }
    }
}

impl DataOrExtendedDataMessage {
    pub(crate) fn parse_data_payload(reader: &mut Reader) -> (result: Result<Self, Error>)
        ensures
            reads_or_stops(
                result,
                |value: DataOrExtendedDataMessage| value@,
                final(reader)@,
                DataOrExtendedDataMessageView::data_parsed(old(reader)@),
            ),
    {
        let data: Vec<u8> = read_ssh_bytes(reader)?;
        Ok(DataOrExtendedDataMessage { data_type: SSH_EXTENDED_DATA_NONE, data })
    }

    pub(crate) fn parse_extended_payload(reader: &mut Reader) -> (result: Result<Self, Error>)
        ensures
            reads_or_stops(
                result,
                |value: DataOrExtendedDataMessage| value@,
                final(reader)@,
                DataOrExtendedDataMessageView::extended_parsed(old(reader)@),
            ),
    {
        let data_type: u64 = read_var_int(reader)?;
        let data: Vec<u8> = read_ssh_bytes(reader)?;
        Ok(DataOrExtendedDataMessage { data_type, data })
    }

    /// How many bytes [`Self::encode`] writes.
    pub fn encoded_len(&self) -> (length: usize)
        requires
            self@.encodable(),
            self@.encoding().len() <= usize::MAX,
        ensures
            length == self@.encoding().len(),
    {
        if self.data_type == SSH_EXTENDED_DATA_NONE {
            var_int_len(SSH_MSG_CHANNEL_DATA) + ssh_string_len(&self.data)
        } else {
            var_int_len(SSH_MSG_CHANNEL_EXTENDED_DATA) + var_int_len(self.data_type)
                + ssh_string_len(&self.data)
        }
    }

    pub fn encode(&self, out: &mut Vec<u8>)
        requires
            self@.encodable(),
        ensures
            final(out)@ == old(out)@ + self@.encoding(),
    {
        if self.data_type == SSH_EXTENDED_DATA_NONE {
            append_var_int(out, SSH_MSG_CHANNEL_DATA);
        } else {
            append_var_int(out, SSH_MSG_CHANNEL_EXTENDED_DATA);
            append_var_int(out, self.data_type);
        }
        append_ssh_bytes(out, &self.data);
        proof {
            assert(out@ =~= old(out)@ + self@.encoding());
        }
    }
}

/// A request on a channel, and whether its sender wants to know how it went.
#[derive(Clone, Debug, PartialEq, Eq)]
pub struct ChannelRequestMessage {
    pub want_reply: bool,
    pub request: ChannelRequest,
}

/// The mathematical counterpart of [`ChannelRequestMessage`].
pub struct ChannelRequestMessageView {
    pub want_reply: bool,
    pub request: ChannelRequestView,
}

impl View for ChannelRequestMessage {
    type V = ChannelRequestMessageView;

    open spec fn view(&self) -> ChannelRequestMessageView {
        ChannelRequestMessageView { want_reply: self.want_reply, request: self.request@ }
    }
}

impl ChannelRequestMessageView {
    pub open spec fn encodable(self) -> bool {
        self.request.encodable()
    }

    pub open spec fn encoding(self) -> Seq<u8> {
        var_int_bytes(SSH_MSG_CHANNEL_REQUEST) + ssh_bytes_encoding(self.request.request_type())
            + bool_encoding(self.want_reply) + self.request.payload()
    }

    /// Reads what follows the message type.
    pub open spec fn parsed(bytes: Seq<u8>) -> Parsed<ChannelRequestMessageView> {
        match ssh_bytes_parsed(bytes) {
            Err(error) => Err(error),
            Ok((request_type, rest)) => match bool_parsed(rest) {
                Err(error) => Err(error),
                Ok((want_reply, rest)) => match ChannelRequestView::parsed(request_type, rest) {
                    Err(error) => Err(error),
                    Ok((request, rest)) => Ok(
                        (ChannelRequestMessageView { want_reply, request }, rest),
                    ),
                },
            },
        }
    }
}

impl ChannelRequestMessage {
    pub(crate) fn parse_payload(reader: &mut Reader) -> (result: Result<Self, Error>)
        ensures
            reads_or_stops(
                result,
                |value: ChannelRequestMessage| value@,
                final(reader)@,
                ChannelRequestMessageView::parsed(old(reader)@),
            ),
    {
        let request_type: Vec<u8> = read_ssh_bytes(reader)?;
        let want_reply: bool = read_bool(reader)?;
        let request: ChannelRequest = ChannelRequest::parse(&request_type, reader)?;
        Ok(ChannelRequestMessage { want_reply, request })
    }

    /// How many bytes [`Self::encode`] writes.
    pub fn encoded_len(&self) -> (length: usize)
        requires
            self@.encodable(),
            self@.encoding().len() <= usize::MAX,
        ensures
            length == self@.encoding().len(),
    {
        proof {
            lemma_request_types_differ();
        }
        var_int_len(SSH_MSG_CHANNEL_REQUEST) + ssh_string_len(self.request.request_type()) + 1
            + self.request.encoded_payload_len()
    }

    pub fn encode(&self, out: &mut Vec<u8>)
        requires
            self@.encodable(),
        ensures
            final(out)@ == old(out)@ + self@.encoding(),
    {
        proof {
            lemma_request_types_differ();
        }
        append_var_int(out, SSH_MSG_CHANNEL_REQUEST);
        append_ssh_bytes(out, self.request.request_type());
        write_bool(out, self.want_reply);
        self.request.encode_payload(out);
        proof {
            assert(out@ =~= old(out)@ + self@.encoding());
        }
    }
}

/// A message on a channel.
#[derive(Clone, Debug, PartialEq, Eq)]
pub enum Message {
    ChannelRequest(ChannelRequestMessage),
    ChannelOpenConfirmation(ChannelOpenConfirmationMessage),
    ChannelOpenFailure(ChannelOpenFailureMessage),
    Data(DataOrExtendedDataMessage),
    /// The sender sends no more data.
    ChannelEof,
    /// The sender is done with the channel.
    ChannelClose,
    /// The last request that wanted a reply was granted.
    ChannelSuccess,
    /// The last request that wanted a reply was refused.
    ChannelFailure,
}

/// The mathematical counterpart of [`Message`].
pub enum MessageView {
    ChannelRequest(ChannelRequestMessageView),
    ChannelOpenConfirmation(ChannelOpenConfirmationMessage),
    ChannelOpenFailure(ChannelOpenFailureMessageView),
    Data(DataOrExtendedDataMessageView),
    ChannelEof,
    ChannelClose,
    ChannelSuccess,
    ChannelFailure,
}

impl View for Message {
    type V = MessageView;

    open spec fn view(&self) -> MessageView {
        match *self {
            Message::ChannelRequest(message) => MessageView::ChannelRequest(message@),
            Message::ChannelOpenConfirmation(message) => MessageView::ChannelOpenConfirmation(
                message,
            ),
            Message::ChannelOpenFailure(message) => MessageView::ChannelOpenFailure(message@),
            Message::Data(message) => MessageView::Data(message@),
            Message::ChannelEof => MessageView::ChannelEof,
            Message::ChannelClose => MessageView::ChannelClose,
            Message::ChannelSuccess => MessageView::ChannelSuccess,
            Message::ChannelFailure => MessageView::ChannelFailure,
        }
    }
}

impl MessageView {
    /// Whether every field of the message can be written on the wire.
    pub open spec fn encodable(self) -> bool {
        match self {
            MessageView::ChannelRequest(message) => message.encodable(),
            MessageView::ChannelOpenConfirmation(message) => message.encodable(),
            MessageView::ChannelOpenFailure(message) => message.encodable(),
            MessageView::Data(message) => message.encodable(),
            _ => true,
        }
    }

    pub open spec fn encoding(self) -> Seq<u8> {
        match self {
            MessageView::ChannelRequest(message) => message.encoding(),
            MessageView::ChannelOpenConfirmation(message) => message.encoding(),
            MessageView::ChannelOpenFailure(message) => message.encoding(),
            MessageView::Data(message) => message.encoding(),
            MessageView::ChannelEof => var_int_bytes(SSH_MSG_CHANNEL_EOF),
            MessageView::ChannelClose => var_int_bytes(SSH_MSG_CHANNEL_CLOSE),
            MessageView::ChannelSuccess => var_int_bytes(SSH_MSG_CHANNEL_SUCCESS),
            MessageView::ChannelFailure => var_int_bytes(SSH_MSG_CHANNEL_FAILURE),
        }
    }

    /// Reads what follows a message type.
    pub open spec fn body_parsed(kind: u64, bytes: Seq<u8>) -> Parsed<MessageView> {
        if kind == SSH_MSG_CHANNEL_REQUEST {
            match ChannelRequestMessageView::parsed(bytes) {
                Err(error) => Err(error),
                Ok((message, rest)) => Ok((MessageView::ChannelRequest(message), rest)),
            }
        } else if kind == SSH_MSG_CHANNEL_OPEN_CONFIRMATION {
            match ChannelOpenConfirmationMessage::parsed(bytes) {
                Err(error) => Err(error),
                Ok((message, rest)) => Ok((MessageView::ChannelOpenConfirmation(message), rest)),
            }
        } else if kind == SSH_MSG_CHANNEL_OPEN_FAILURE {
            match ChannelOpenFailureMessageView::parsed(bytes) {
                Err(error) => Err(error),
                Ok((message, rest)) => Ok((MessageView::ChannelOpenFailure(message), rest)),
            }
        } else if kind == SSH_MSG_CHANNEL_DATA {
            match DataOrExtendedDataMessageView::data_parsed(bytes) {
                Err(error) => Err(error),
                Ok((message, rest)) => Ok((MessageView::Data(message), rest)),
            }
        } else if kind == SSH_MSG_CHANNEL_EXTENDED_DATA {
            match DataOrExtendedDataMessageView::extended_parsed(bytes) {
                Err(error) => Err(error),
                Ok((message, rest)) => Ok((MessageView::Data(message), rest)),
            }
        } else if kind == SSH_MSG_CHANNEL_EOF {
            Ok((MessageView::ChannelEof, bytes))
        } else if kind == SSH_MSG_CHANNEL_CLOSE {
            Ok((MessageView::ChannelClose, bytes))
        } else if kind == SSH_MSG_CHANNEL_SUCCESS {
            Ok((MessageView::ChannelSuccess, bytes))
        } else if kind == SSH_MSG_CHANNEL_FAILURE {
            Ok((MessageView::ChannelFailure, bytes))
        } else {
            Err((ErrorView::UnknownMessageType(kind), bytes))
        }
    }

    pub open spec fn parsed(bytes: Seq<u8>) -> Parsed<MessageView> {
        match var_int_parsed(bytes) {
            Err(error) => Err(error),
            Ok((kind, rest)) => Self::body_parsed(kind, rest),
        }
    }

    /// An encoded message reads back as itself, whatever bytes follow it.
    pub proof fn round_trip(self, rest: Seq<u8>)
        requires
            self.encodable(),
        ensures
            Self::parsed(self.encoding() + rest) == Ok::<(MessageView, Seq<u8>), Stopped>(
                (self, rest),
            ),
    {
        match self {
            MessageView::ChannelRequest(message) => {
                lemma_request_types_differ();
                let tail_3 = message.request.payload() + rest;
                let tail_2 = bool_encoding(message.want_reply) + tail_3;
                let tail_1 = ssh_bytes_encoding(message.request.request_type()) + tail_2;
                message.request.round_trip(rest);
                bool_round_trip(message.want_reply, tail_3);
                ssh_bytes_round_trip(message.request.request_type(), tail_2);
                var_int_bytes_round_trip(SSH_MSG_CHANNEL_REQUEST, tail_1);
                assert(self.encoding() + rest =~= var_int_bytes(SSH_MSG_CHANNEL_REQUEST) + tail_1);
            },
            MessageView::ChannelOpenConfirmation(message) => {
                let tail = var_int_bytes(message.max_packet_size) + rest;
                var_int_bytes_round_trip(message.max_packet_size, rest);
                var_int_bytes_round_trip(SSH_MSG_CHANNEL_OPEN_CONFIRMATION, tail);
                assert(self.encoding() + rest =~= var_int_bytes(SSH_MSG_CHANNEL_OPEN_CONFIRMATION)
                    + tail);
            },
            MessageView::ChannelOpenFailure(message) => {
                let tail_3 = ssh_bytes_encoding(message.language_tag) + rest;
                let tail_2 = ssh_bytes_encoding(message.error_message_utf8) + tail_3;
                let tail_1 = var_int_bytes(message.reason_code) + tail_2;
                ssh_bytes_round_trip(message.language_tag, rest);
                ssh_bytes_round_trip(message.error_message_utf8, tail_3);
                var_int_bytes_round_trip(message.reason_code, tail_2);
                var_int_bytes_round_trip(SSH_MSG_CHANNEL_OPEN_FAILURE, tail_1);
                assert(self.encoding() + rest =~= var_int_bytes(SSH_MSG_CHANNEL_OPEN_FAILURE)
                    + tail_1);
            },
            MessageView::Data(message) => {
                let tail = ssh_bytes_encoding(message.data) + rest;
                ssh_bytes_round_trip(message.data, rest);
                if message.data_type == SSH_EXTENDED_DATA_NONE {
                    var_int_bytes_round_trip(SSH_MSG_CHANNEL_DATA, tail);
                    assert(self.encoding() + rest =~= var_int_bytes(SSH_MSG_CHANNEL_DATA) + tail);
                } else {
                    let typed = var_int_bytes(message.data_type) + tail;
                    var_int_bytes_round_trip(message.data_type, tail);
                    var_int_bytes_round_trip(SSH_MSG_CHANNEL_EXTENDED_DATA, typed);
                    assert(self.encoding() + rest =~= var_int_bytes(SSH_MSG_CHANNEL_EXTENDED_DATA)
                        + typed);
                }
            },
            MessageView::ChannelEof => var_int_bytes_round_trip(SSH_MSG_CHANNEL_EOF, rest),
            MessageView::ChannelClose => var_int_bytes_round_trip(SSH_MSG_CHANNEL_CLOSE, rest),
            MessageView::ChannelSuccess => var_int_bytes_round_trip(SSH_MSG_CHANNEL_SUCCESS, rest),
            MessageView::ChannelFailure => var_int_bytes_round_trip(SSH_MSG_CHANNEL_FAILURE, rest),
        }
    }

    /// Whatever parses can be encoded again, and a message, right or wrong, takes at least one
    /// byte.
    pub proof fn parsed_encodable(bytes: Seq<u8>)
        ensures
            Self::parsed(bytes) matches Ok((value, rest)) ==> value.encodable() && rest.len()
                < bytes.len(),
            Self::parsed(bytes) matches Err((error, rest)) ==> error is UnexpectedEof || rest.len()
                < bytes.len(),
    {
        var_int_parsed_fits(bytes);
        if let Ok((kind, body)) = var_int_parsed(bytes) {
            var_int_parsed_fits(body);
            ssh_bytes_parsed_fits(body);
            if let Ok((_, rest)) = var_int_parsed(body) {
                ssh_bytes_parsed_fits(rest);
                if let Ok((_, rest)) = ssh_bytes_parsed(rest) {
                    ssh_bytes_parsed_fits(rest);
                }
            }
            if let Ok((request_type, rest)) = ssh_bytes_parsed(body) {
                if let Ok((_, rest)) = bool_parsed(rest) {
                    ChannelRequestView::parsed_encodable(request_type, rest);
                }
            }
        }
    }

    /// A parse stands when more bytes follow: a message that was read does not depend on what
    /// comes behind it, and only an input that ended too early may read differently.
    pub proof fn extends(bytes: Seq<u8>, more: Seq<u8>)
        ensures
            stands(Self::parsed(bytes), Self::parsed(bytes + more), more),
    {
        var_int_extends(bytes, more);
        if let Ok((kind, body)) = var_int_parsed(bytes) {
            var_int_extends(body, more);
            ssh_bytes_extends(body, more);
            if let Ok((_, rest)) = var_int_parsed(body) {
                ssh_bytes_extends(rest, more);
                if let Ok((_, rest)) = ssh_bytes_parsed(rest) {
                    ssh_bytes_extends(rest, more);
                }
            }
            if let Ok((request_type, rest)) = ssh_bytes_parsed(body) {
                bool_extends(rest, more);
                if let Ok((_, rest)) = bool_parsed(rest) {
                    ChannelRequestView::extends(request_type, rest, more);
                }
            }
        }
    }
}

impl Message {
    /// Reads one message. Nothing is consumed where the input ends too early.
    pub fn parse(reader: &mut Reader) -> (result: Result<Self, Error>)
        ensures
            reads(
                result,
                |value: Message| value@,
                old(reader)@,
                final(reader)@,
                MessageView::parsed(old(reader)@),
            ),
    {
        let start: &[u8] = reader.remaining();
        let result: Result<Message, Error> = Message::parse_from(reader);
        if matches!(result, Err(Error::UnexpectedEof)) {
            reader.rewind(start);
        }
        result
    }

    fn parse_from(reader: &mut Reader) -> (result: Result<Self, Error>)
        ensures
            reads_or_stops(
                result,
                |value: Message| value@,
                final(reader)@,
                MessageView::parsed(old(reader)@),
            ),
    {
        match read_var_int(reader)? {
            SSH_MSG_CHANNEL_REQUEST => Ok(
                Message::ChannelRequest(ChannelRequestMessage::parse_payload(reader)?),
            ),
            SSH_MSG_CHANNEL_OPEN_CONFIRMATION => Ok(
                Message::ChannelOpenConfirmation(
                    ChannelOpenConfirmationMessage::parse_payload(reader)?,
                ),
            ),
            SSH_MSG_CHANNEL_OPEN_FAILURE => Ok(
                Message::ChannelOpenFailure(ChannelOpenFailureMessage::parse_payload(reader)?),
            ),
            SSH_MSG_CHANNEL_DATA => Ok(
                Message::Data(DataOrExtendedDataMessage::parse_data_payload(reader)?),
            ),
            SSH_MSG_CHANNEL_EXTENDED_DATA => Ok(
                Message::Data(DataOrExtendedDataMessage::parse_extended_payload(reader)?),
            ),
            SSH_MSG_CHANNEL_EOF => Ok(Message::ChannelEof),
            SSH_MSG_CHANNEL_CLOSE => Ok(Message::ChannelClose),
            SSH_MSG_CHANNEL_SUCCESS => Ok(Message::ChannelSuccess),
            SSH_MSG_CHANNEL_FAILURE => Ok(Message::ChannelFailure),
            kind => Err(Error::UnknownMessageType(kind)),
        }
    }

    /// How many bytes [`Self::encode`] writes.
    pub fn encoded_len(&self) -> (length: usize)
        requires
            self@.encodable(),
            self@.encoding().len() <= usize::MAX,
        ensures
            length == self@.encoding().len(),
    {
        match self {
            Message::ChannelRequest(message) => message.encoded_len(),
            Message::ChannelOpenConfirmation(message) => message.encoded_len(),
            Message::ChannelOpenFailure(message) => message.encoded_len(),
            Message::Data(message) => message.encoded_len(),
            Message::ChannelEof => var_int_len(SSH_MSG_CHANNEL_EOF),
            Message::ChannelClose => var_int_len(SSH_MSG_CHANNEL_CLOSE),
            Message::ChannelSuccess => var_int_len(SSH_MSG_CHANNEL_SUCCESS),
            Message::ChannelFailure => var_int_len(SSH_MSG_CHANNEL_FAILURE),
        }
    }

    pub fn encode(&self, out: &mut Vec<u8>)
        requires
            self@.encodable(),
        ensures
            final(out)@ == old(out)@ + self@.encoding(),
    {
        match self {
            Message::ChannelRequest(message) => message.encode(out),
            Message::ChannelOpenConfirmation(message) => message.encode(out),
            Message::ChannelOpenFailure(message) => message.encode(out),
            Message::Data(message) => message.encode(out),
            Message::ChannelEof => append_var_int(out, SSH_MSG_CHANNEL_EOF),
            Message::ChannelClose => append_var_int(out, SSH_MSG_CHANNEL_CLOSE),
            Message::ChannelSuccess => append_var_int(out, SSH_MSG_CHANNEL_SUCCESS),
            Message::ChannelFailure => append_var_int(out, SSH_MSG_CHANNEL_FAILURE),
        }
    }

    /// The message as it travels.
    pub fn to_vec(&self) -> (bytes: Vec<u8>)
        requires
            self@.encodable(),
        ensures
            bytes@ == self@.encoding(),
    {
        let mut out: Vec<u8> = Vec::new();
        self.encode(&mut out);
        proof {
            assert(Seq::<u8>::empty() + self@.encoding() =~= self@.encoding());
        }
        out
    }
}

/// Every message starts with the number of its kind, and its fields follow in their order.
pub proof fn messages_are_laid_out(
    confirmation: ChannelOpenConfirmationMessage,
    failure: ChannelOpenFailureMessageView,
    data: Seq<u8>,
    data_type: SshDataType,
    message: ChannelRequestMessageView,
)
    ensures
        (MessageView::ChannelOpenConfirmation(confirmation)).encoding() == var_int_bytes(91)
            + var_int_bytes(confirmation.max_packet_size),
        (MessageView::ChannelOpenFailure(failure)).encoding() == var_int_bytes(92) + var_int_bytes(
            failure.reason_code,
        ) + ssh_bytes_encoding(failure.error_message_utf8) + ssh_bytes_encoding(
            failure.language_tag,
        ),
        (MessageView::Data(DataOrExtendedDataMessageView { data_type: 0, data })).encoding()
            == var_int_bytes(94) + ssh_bytes_encoding(data),
        data_type != 0 ==> (MessageView::Data(
            DataOrExtendedDataMessageView { data_type, data },
        )).encoding() == var_int_bytes(95) + var_int_bytes(data_type) + ssh_bytes_encoding(data),
        (MessageView::ChannelEof).encoding() == var_int_bytes(96),
        (MessageView::ChannelClose).encoding() == var_int_bytes(97),
        (MessageView::ChannelRequest(message)).encoding() == var_int_bytes(98)
            + ssh_bytes_encoding(message.request.request_type()) + bool_encoding(
            message.want_reply,
        ) + message.request.payload(),
        (MessageView::ChannelSuccess).encoding() == var_int_bytes(99),
        (MessageView::ChannelFailure).encoding() == var_int_bytes(100),
{
}

/// Every request goes under its own name, with its fields in their order.
pub proof fn requests_are_laid_out(request: ChannelRequestView)
    ensures
        match request {
            ChannelRequestView::Pty(pty) => request.request_type() == "pty-req".spec_bytes()
                && request.payload() == ssh_bytes_encoding(pty.term) + var_int_bytes(
                pty.char_width,
            ) + var_int_bytes(pty.char_height) + var_int_bytes(pty.pixel_width) + var_int_bytes(
                pty.pixel_height,
            ) + ssh_bytes_encoding(pty.encoded_terminal_modes),
            ChannelRequestView::X11(x11) => request.request_type() == "x11-req".spec_bytes()
                && request.payload() == bool_encoding(x11.single_connection) + ssh_bytes_encoding(
                x11.x11_authentication_protocol,
            ) + ssh_bytes_encoding(x11.x11_authentication_cookie) + var_int_bytes(
                x11.x11_screen_number,
            ),
            ChannelRequestView::Shell => request.request_type() == "shell".spec_bytes()
                && request.payload() == Seq::<u8>::empty(),
            ChannelRequestView::Exec(exec) => request.request_type() == "exec".spec_bytes()
                && request.payload() == ssh_bytes_encoding(exec.command),
            ChannelRequestView::Subsystem(subsystem) => request.request_type()
                == "subsystem".spec_bytes() && request.payload() == ssh_bytes_encoding(
                subsystem.subsystem_name,
            ),
            ChannelRequestView::WindowChange(size) => request.request_type()
                == "window-change".spec_bytes() && request.payload() == var_int_bytes(
                size.char_width,
            ) + var_int_bytes(size.char_height) + var_int_bytes(size.pixel_width) + var_int_bytes(
                size.pixel_height,
            ),
            ChannelRequestView::Signal(signal) => request.request_type() == "signal".spec_bytes()
                && request.payload() == ssh_bytes_encoding(signal.signal_name_without_sig),
            ChannelRequestView::ExitStatus(exit) => request.request_type()
                == "exit-status".spec_bytes() && request.payload() == var_int_bytes(
                exit.exit_status,
            ),
            ChannelRequestView::ExitSignal(exit) => request.request_type()
                == "exit-signal".spec_bytes() && request.payload() == ssh_bytes_encoding(
                exit.signal_name_without_sig,
            ) + bool_encoding(exit.core_dumped) + ssh_bytes_encoding(exit.error_message_utf8)
                + ssh_bytes_encoding(exit.language_tag),
            ChannelRequestView::ForwardPort(forward) => request.request_type()
                == "forward-port".spec_bytes() && request.payload() == var_int_bytes(
                if forward.protocol is Udp {
                    0
                } else {
                    1
                },
            ) + (SocketAddrView { ip: forward.ip_address, port: forward.port }).encoding(),
        },
{
}

/// A message of another kind is refused as soon as its number is read, and a request under another
/// name behind the wish for a reply; what is behind them is left.
pub proof fn other_kinds_are_refused(
    kind: u64,
    name: Seq<u8>,
    want_reply: bool,
    rest: Seq<u8>,
)
    requires
        kind <= MAX_VARINT,
        kind != 91 && kind != 92 && !(94 <= kind <= 100),
        bytes_encodable(name),
        name != "pty-req".spec_bytes(),
        name != "x11-req".spec_bytes(),
        name != "shell".spec_bytes(),
        name != "exec".spec_bytes(),
        name != "subsystem".spec_bytes(),
        name != "window-change".spec_bytes(),
        name != "signal".spec_bytes(),
        name != "exit-status".spec_bytes(),
        name != "exit-signal".spec_bytes(),
        name != "forward-port".spec_bytes(),
    ensures
        MessageView::parsed(var_int_bytes(kind) + rest) == Err::<(MessageView, Seq<u8>), Stopped>(
            (ErrorView::UnknownMessageType(kind), rest),
        ),
        MessageView::parsed(
            var_int_bytes(98) + ssh_bytes_encoding(name) + bool_encoding(want_reply) + rest,
        ) == Err::<(MessageView, Seq<u8>), Stopped>((ErrorView::UnknownRequestType(name), rest)),
{
    var_int_bytes_round_trip(kind, rest);
    let tail_2 = bool_encoding(want_reply) + rest;
    let tail_1 = ssh_bytes_encoding(name) + tail_2;
    var_int_bytes_round_trip(98, tail_1);
    ssh_bytes_round_trip(name, tail_2);
    bool_round_trip(want_reply, rest);
    assert(var_int_bytes(98) + ssh_bytes_encoding(name) + bool_encoding(want_reply) + rest
        =~= var_int_bytes(98) + tail_1);
}

/// Nothing is forwarded by another protocol than the two there are: a request for one is refused as
/// soon as its number is read.
pub proof fn other_protocols_are_refused(protocol: u64, rest: Seq<u8>)
    requires
        2 <= protocol <= MAX_VARINT,
    ensures
        ForwardingRequestView::parsed(var_int_bytes(protocol) + rest) == Err::<
            (ForwardingRequestView, Seq<u8>),
            Stopped,
        >((ErrorView::InvalidForwardingProtocol(protocol), rest)),
{
    var_int_bytes_round_trip(protocol, rest);
}

} // verus!
