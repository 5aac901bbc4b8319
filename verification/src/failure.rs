//! Which failures only mean that the peer is gone.

use crate::text::{contains, has_part, lower_chars, lowered, text_holds_its_parts};
use vstd::prelude::*;
use vstd::string::*;

verus! {

/// The kinds of I/O failures that are told apart.
#[derive(Clone, Copy, Debug, PartialEq, Eq, Structural)]
pub enum IoErrorKind {
    BrokenPipe,
    ConnectionAborted,
    ConnectionReset,
    NotConnected,
    UnexpectedEof,
    InvalidData,
    InvalidInput,
    Other,
}

/// The ways in which a connection is lost.
#[derive(Clone, Copy, Debug, PartialEq, Eq, Structural)]
pub enum ConnectionFailure {
    VersionMismatch,
    TransportError,
    ConnectionClosed,
    ApplicationClosed,
    Reset,
    TimedOut,
    LocallyClosed,
    CidsExhausted,
}

/// An I/O failure: its kind, the lost connection behind it where there is one, and its message.
#[derive(Clone, Debug, PartialEq, Eq)]
pub struct IoFailure {
    pub kind: IoErrorKind,
    pub connection: Option<ConnectionFailure>,
    pub message: String,
}

/// A failure on a channel.
#[derive(Clone, Debug, PartialEq, Eq)]
pub enum ChannelFailure {
    Io(IoFailure),
    Other,
}

/// A failure in a conversation.
#[derive(Clone, Debug, PartialEq, Eq)]
pub enum ConversationFailure {
    Channel(ChannelFailure),
    Other,
}

/// A failure to open a channel.
#[derive(Clone, Debug, PartialEq, Eq)]
pub enum OpenChannelFailure {
    Connection(ConnectionFailure),
    Conversation(ConversationFailure),
}

/// A failure to accept a channel.
#[derive(Clone, Debug, PartialEq, Eq)]
pub enum AcceptChannelFailure {
    Connection(ConnectionFailure),
    Other,
}

/// A failure to hand an accepted channel to its conversation.
#[derive(Clone, Debug, PartialEq, Eq)]
pub enum RouteFailure {
    Accept(AcceptChannelFailure),
    Other,
}

/// A failure to dispatch a datagram.
#[derive(Clone, Debug, PartialEq, Eq)]
pub enum DatagramFailure {
    Connection(ConnectionFailure),
    Other,
}

/// A failure of the server.
#[derive(Clone, Debug, PartialEq, Eq)]
pub enum ServerFailure {
    Connection(ConnectionFailure),
    OpenChannel(OpenChannelFailure),
    AcceptChannel(AcceptChannelFailure),
    RouteAcceptedChannel(RouteFailure),
    DatagramDispatch(DatagramFailure),
    Conversation(ConversationFailure),
    Channel(ChannelFailure),
    Io(IoFailure),
    Other,
}

/// A failure of the client.
#[derive(Clone, Debug, PartialEq, Eq)]
pub enum ClientFailure {
    Connection(ConnectionFailure),
    OpenChannel(OpenChannelFailure),
    Channel(ChannelFailure),
    Io(IoFailure),
    Other,
}

impl ConnectionFailure {
    /// Whether the connection was closed or fell silent, rather than being broken.
    pub open spec fn benign(self) -> bool {
        self is ApplicationClosed || self is ConnectionClosed || self is LocallyClosed
            || self is TimedOut
    }
}

impl IoErrorKind {
    /// Whether failures of this kind say that the other side is gone.
    pub open spec fn benign(self) -> bool {
        self is BrokenPipe || self is ConnectionAborted || self is ConnectionReset
            || self is NotConnected || self is UnexpectedEof
    }
}

impl IoFailure {
    /// Whether the failure says that the other side is gone: by its kind, by the connection
    /// behind it, or by the words of its message in either case.
    pub open spec fn benign(self) -> bool {
        let message = lowered(self.message@);
        ||| self.kind.benign()
        ||| self.connection matches Some(failure) && failure.benign()
        ||| has_part(message, "connection lost"@)
        ||| has_part(message, "closed stream"@)
        ||| has_part(message, "connection closed"@)
    }
}

impl ChannelFailure {
    pub open spec fn benign(self) -> bool {
        self matches ChannelFailure::Io(failure) && failure.benign()
    }
}

impl ConversationFailure {
    pub open spec fn benign(self) -> bool {
        self matches ConversationFailure::Channel(failure) && failure.benign()
    }
}

impl OpenChannelFailure {
    pub open spec fn benign(self) -> bool {
        match self {
            OpenChannelFailure::Connection(failure) => failure.benign(),
            OpenChannelFailure::Conversation(failure) => failure.benign(),
        }
    }
}

impl AcceptChannelFailure {
    pub open spec fn benign(self) -> bool {
        self matches AcceptChannelFailure::Connection(failure) && failure.benign()
    }
}

impl RouteFailure {
    pub open spec fn benign(self) -> bool {
        self matches RouteFailure::Accept(failure) && failure.benign()
    }
}

impl DatagramFailure {
    pub open spec fn benign(self) -> bool {
        self matches DatagramFailure::Connection(failure) && failure.benign()
    }
}

impl ServerFailure {
    pub open spec fn benign(self) -> bool {
        match self {
            ServerFailure::Connection(failure) => failure.benign(),
            ServerFailure::OpenChannel(failure) => failure.benign(),
            ServerFailure::AcceptChannel(failure) => failure.benign(),
            ServerFailure::RouteAcceptedChannel(failure) => failure.benign(),
            ServerFailure::DatagramDispatch(failure) => failure.benign(),
            ServerFailure::Conversation(failure) => failure.benign(),
            ServerFailure::Channel(failure) => failure.benign(),
            ServerFailure::Io(failure) => failure.benign(),
            ServerFailure::Other => false,
        }
    }
}

impl ClientFailure {
    /// Whether the failure says that the other side is gone. For a channel that could not be
    /// opened only the connection counts.
    pub open spec fn benign(self) -> bool {
        match self {
            ClientFailure::Connection(failure) => failure.benign(),
            ClientFailure::OpenChannel(OpenChannelFailure::Connection(failure)) => failure.benign(),
            ClientFailure::OpenChannel(OpenChannelFailure::Conversation(_)) => false,
            ClientFailure::Channel(failure) => failure.benign(),
            ClientFailure::Io(failure) => failure.benign(),
            ClientFailure::Other => false,
        }
    }
}

pub fn is_benign_connection_error(failure: ConnectionFailure) -> (benign: bool)
    ensures
        benign == failure.benign(),
{
    match failure {
        ConnectionFailure::ApplicationClosed => true,
        ConnectionFailure::ConnectionClosed => true,
        ConnectionFailure::LocallyClosed => true,
        ConnectionFailure::TimedOut => true,
        _ => false,
    }
}

fn is_benign_kind(kind: IoErrorKind) -> (benign: bool)
    ensures
        benign == kind.benign(),
{
    match kind {
        IoErrorKind::BrokenPipe => true,
        IoErrorKind::ConnectionAborted => true,
        IoErrorKind::ConnectionReset => true,
        IoErrorKind::NotConnected => true,
        IoErrorKind::UnexpectedEof => true,
        _ => false,
    }
}

pub fn is_benign_io_error(failure: &IoFailure) -> (benign: bool)
    ensures
        benign == failure.benign(),
{
    if is_benign_kind(failure.kind) {
        return true;
    }
    if let Some(connection) = failure.connection {
        if is_benign_connection_error(connection) {
            return true;
        }
    }
    let message: Vec<char> = lower_chars(failure.message.as_str());
    contains(message.as_slice(), "connection lost") || contains(
        message.as_slice(),
        "closed stream",
    ) || contains(message.as_slice(), "connection closed")
}

pub fn is_benign_channel_error(failure: &ChannelFailure) -> (benign: bool)
    ensures
        benign == failure.benign(),
{
    match failure {
        ChannelFailure::Io(failure) => is_benign_io_error(failure),
        ChannelFailure::Other => false,
    }
}

/// Whether a failed read on a session channel only means that the peer is gone.
pub fn is_session_input_terminated(failure: &ChannelFailure) -> (terminated: bool)
    ensures
        terminated == failure.benign(),
{
    is_benign_channel_error(failure)
}

pub fn is_benign_conversation_error(failure: &ConversationFailure) -> (benign: bool)
    ensures
        benign == failure.benign(),
{
    match failure {
        ConversationFailure::Channel(failure) => is_benign_channel_error(failure),
        ConversationFailure::Other => false,
    }
}

pub fn is_benign_open_channel_error(failure: &OpenChannelFailure) -> (benign: bool)
    ensures
        benign == failure.benign(),
{
    match failure {
        OpenChannelFailure::Connection(failure) => is_benign_connection_error(*failure),
        OpenChannelFailure::Conversation(failure) => is_benign_conversation_error(failure),
    }
}

pub fn is_benign_accept_channel_error(failure: &AcceptChannelFailure) -> (benign: bool)
    ensures
        benign == failure.benign(),
{
    match failure {
        AcceptChannelFailure::Connection(failure) => is_benign_connection_error(*failure),
        AcceptChannelFailure::Other => false,
    }
}

pub fn is_benign_route_error(failure: &RouteFailure) -> (benign: bool)
    ensures
        benign == failure.benign(),
{
    match failure {
        RouteFailure::Accept(failure) => is_benign_accept_channel_error(failure),
        RouteFailure::Other => false,
    }
}

pub fn is_benign_datagram_error(failure: &DatagramFailure) -> (benign: bool)
    ensures
        benign == failure.benign(),
{
    match failure {
        DatagramFailure::Connection(failure) => is_benign_connection_error(*failure),
        DatagramFailure::Other => false,
    }
}

pub fn is_benign_server_error(failure: &ServerFailure) -> (benign: bool)
    ensures
        benign == failure.benign(),
{
    match failure {
        ServerFailure::Connection(failure) => is_benign_connection_error(*failure),
        ServerFailure::OpenChannel(failure) => is_benign_open_channel_error(failure),
        ServerFailure::AcceptChannel(failure) => is_benign_accept_channel_error(failure),
        ServerFailure::RouteAcceptedChannel(failure) => is_benign_route_error(failure),
        ServerFailure::DatagramDispatch(failure) => is_benign_datagram_error(failure),
        ServerFailure::Conversation(failure) => is_benign_conversation_error(failure),
        ServerFailure::Channel(failure) => is_benign_channel_error(failure),
        ServerFailure::Io(failure) => is_benign_io_error(failure),
        ServerFailure::Other => false,
    }
}

pub fn is_benign_client_error(failure: &ClientFailure) -> (benign: bool)
    ensures
        benign == failure.benign(),
{
    match failure {
        ClientFailure::Connection(failure) => is_benign_connection_error(*failure),
        ClientFailure::OpenChannel(OpenChannelFailure::Connection(failure)) =>
            is_benign_connection_error(*failure),
        ClientFailure::OpenChannel(OpenChannelFailure::Conversation(_)) => false,
        ClientFailure::Channel(failure) => is_benign_channel_error(failure),
        ClientFailure::Io(failure) => is_benign_io_error(failure),
        ClientFailure::Other => false,
    }
}

/// A connection that was closed, by either end, or that fell silent is lost without harm, however
/// the loss is told; one that is broken is not.
pub proof fn closed_connections_do_no_harm(connection: ConnectionFailure, message: String)
    ensures
        connection.benign() <==> connection is ApplicationClosed || connection is ConnectionClosed
            || connection is LocallyClosed || connection is TimedOut,
        (ServerFailure::Connection(connection)).benign() == connection.benign(),
        (ServerFailure::OpenChannel(OpenChannelFailure::Connection(connection))).benign()
            == connection.benign(),
        (ServerFailure::AcceptChannel(AcceptChannelFailure::Connection(connection))).benign()
            == connection.benign(),
        (ServerFailure::RouteAcceptedChannel(
            RouteFailure::Accept(AcceptChannelFailure::Connection(connection)),
        )).benign() == connection.benign(),
        (ServerFailure::DatagramDispatch(DatagramFailure::Connection(connection))).benign()
            == connection.benign(),
        (RouteFailure::Accept(AcceptChannelFailure::Connection(connection))).benign()
            == connection.benign(),
        (DatagramFailure::Connection(connection)).benign() == connection.benign(),
        (ClientFailure::Connection(connection)).benign() == connection.benign(),
        (ClientFailure::OpenChannel(OpenChannelFailure::Connection(connection))).benign()
            == connection.benign(),
        connection.benign() ==> (IoFailure {
            kind: IoErrorKind::Other,
            connection: Some(connection),
            message,
        }).benign(),
{
}

/// An input or an output whose other side is gone fails without harm, whether its kind, the
/// connection behind it or its words tell so, in whatever case they are written.
pub proof fn other_side_that_is_gone_does_no_harm(
    failure: IoFailure,
    before: Seq<char>,
    after: Seq<char>,
)
    ensures
        failure.kind is BrokenPipe || failure.kind is ConnectionAborted || failure.kind
            is ConnectionReset || failure.kind is NotConnected || failure.kind is UnexpectedEof
            ==> failure.benign(),
        lowered(failure.message@) == before + "connection lost"@ + after ==> failure.benign(),
        lowered(failure.message@) == before + "closed stream"@ + after ==> failure.benign(),
        lowered(failure.message@) == before + "connection closed"@ + after ==> failure.benign(),
{
    text_holds_its_parts(before, "connection lost"@, after);
    text_holds_its_parts(before, "closed stream"@, after);
    text_holds_its_parts(before, "connection closed"@, after);
}

/// Any other failure of an input or an output counts.
pub proof fn other_failures_count(failure: IoFailure)
    requires
        failure.kind is InvalidData || failure.kind is InvalidInput || failure.kind is Other,
        failure.connection is None || failure.connection->0 is VersionMismatch
            || failure.connection->0 is TransportError || failure.connection->0 is Reset
            || failure.connection->0 is CidsExhausted,
        !has_part(lowered(failure.message@), "connection lost"@),
        !has_part(lowered(failure.message@), "closed stream"@),
        !has_part(lowered(failure.message@), "connection closed"@),
    ensures
        !failure.benign(),
{
}

/// A failure of an input or an output does as much harm wherever it occurs, but where a client opens
/// a channel; and a failure of another nature always counts.
pub proof fn failures_count_wherever_they_occur(failure: IoFailure)
    ensures
        ({
            let channel = ChannelFailure::Io(failure);
            let conversation = ConversationFailure::Channel(channel);
            let opening = OpenChannelFailure::Conversation(conversation);
            &&& channel.benign() == failure.benign()
            &&& conversation.benign() == failure.benign()
            &&& opening.benign() == failure.benign()
            &&& (ServerFailure::Io(failure)).benign() == failure.benign()
            &&& (ServerFailure::Channel(channel)).benign() == failure.benign()
            &&& (ServerFailure::Conversation(conversation)).benign() == failure.benign()
            &&& (ServerFailure::OpenChannel(opening)).benign() == failure.benign()
            &&& (ClientFailure::Io(failure)).benign() == failure.benign()
            &&& (ClientFailure::Channel(channel)).benign() == failure.benign()
            &&& !(ClientFailure::OpenChannel(opening)).benign()
        }),
        !(ChannelFailure::Other).benign(),
        !(ConversationFailure::Other).benign(),
        !(AcceptChannelFailure::Other).benign(),
        !(RouteFailure::Other).benign(),
        !(DatagramFailure::Other).benign(),
        !(ServerFailure::Other).benign(),
        !(ClientFailure::Other).benign(),
{
}

} // verus!
