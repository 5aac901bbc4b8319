//! The extended CONNECT request that opens a conversation, and the response to it.

use crate::conversation::channel::ConversationId;
use crate::conversation::state::{Conversation, ConversationView};
use crate::text::{bytes_view, same_text, text_view};
use vstd::prelude::*;
use vstd::string::*;
use vstd::utf8::decode_utf8;

verus! {

/// The protocol that a conversation asks for.
pub const SSH3_PROTOCOL_NAME: &'static str = "ssh3";

/// The label under which both ends derive the identifier of a conversation.
pub const SSH3_EXPORTER_LABEL: &'static str = "EXPORTER-SSH3";

/// The length of the identifier of a conversation.
pub const SSH3_CONVERSATION_ID_LEN: usize = 32;

/// The header that names the user.
pub const SSH3_USER_HEADER: &'static str = "x-ssh3-user";

/// How both ends name themselves.
pub const SSH3_VERSION_STRING: &'static str =
    "SSH 3.0 ssh3-rust 0.1.0 experimental_spec_version=alpha-00";

/// The method of the request.
pub const CONNECT: &'static str = "CONNECT";

/// The status that opens a conversation.
pub const STATUS_OK: u16 = 200;

/// The status that refuses a user.
pub const STATUS_UNAUTHORIZED: u16 = 401;

/// The status that refuses a request for anything else.
pub const STATUS_NOT_FOUND: u16 = 404;

/// The value of the `:protocol` pseudo-header of an extended CONNECT request.
#[derive(Clone, Debug, PartialEq, Eq, Hash)]
pub struct Protocol(String);

impl View for Protocol {
    type V = Seq<char>;

    closed spec fn view(&self) -> Seq<char> {
        self.0@
    }
}

impl Protocol {
    pub fn new(value: String) -> (protocol: Self)
        ensures
            protocol@ == value@,
    {
        Protocol(value)
    }

    pub fn web_transport() -> (protocol: Self)
        ensures
            protocol@ == "webtransport"@,
    {
        Protocol("webtransport".to_owned())
    }

    pub fn connect_udp() -> (protocol: Self)
        ensures
            protocol@ == "connect-udp"@,
    {
        Protocol("connect-udp".to_owned())
    }

    pub fn as_str(&self) -> (text: &str)
        ensures
            text@ == self@,
    {
        self.0.as_str()
    }
}

/// The protocol of conversations.
pub fn ssh3_protocol() -> (protocol: Protocol)
    ensures
        protocol@ == "ssh3"@,
{
    Protocol::new(SSH3_PROTOCOL_NAME.to_owned())
}

/// Which extensions of HTTP/3 an end offers.
#[derive(Clone, Copy, Debug, PartialEq, Eq, Structural)]
pub struct ConnectionSettings {
    pub extended_connect: bool,
    pub datagram: bool,
}

/// Lets a client ask for conversations and carry their datagrams.
pub fn configure_client_builder(builder: &mut ConnectionSettings)
    ensures
        *final(builder) == (ConnectionSettings { extended_connect: true, datagram: true }),
{
    builder.extended_connect = true;
    builder.datagram = true;
}

/// Lets a server accept conversations and carry their datagrams.
pub fn configure_server_builder(builder: &mut ConnectionSettings)
    ensures
        *final(builder) == (ConnectionSettings { extended_connect: true, datagram: true }),
{
    builder.extended_connect = true;
    builder.datagram = true;
}

/// A byte that the value of a header can hold.
pub open spec fn header_byte(byte: u8) -> bool {
    byte == 9 || (byte >= 32 && byte != 127)
}

/// A byte of a header's value that stands for a character.
pub open spec fn visible_byte(byte: u8) -> bool {
    byte == 9 || (byte >= 32 && byte < 127)
}

/// Whether a text can be the value of a header.
pub open spec fn valid_header(bytes: Seq<u8>) -> bool {
    forall|i: int| 0 <= i < bytes.len() ==> header_byte(#[trigger] bytes[i])
}

/// Whether the value of a header can be read as text.
pub open spec fn visible_header(bytes: Seq<u8>) -> bool {
    forall|i: int| 0 <= i < bytes.len() ==> visible_byte(#[trigger] bytes[i])
}

/// The value of a header as text, where it can be read so.
pub open spec fn header_text_of(value: Option<Seq<u8>>) -> Option<Seq<char>> {
    match value {
        Some(bytes) => if visible_header(bytes) {
            Some(decode_utf8(bytes))
        } else {
            None
        },
        None => None,
    }
}

/// The value of a header with this text: `http::HeaderValue::from_str`. It exists exactly where
/// every byte of the text is a tab or is from 32 on and not 127, and then holds these bytes.
#[verifier::external_body]
pub(crate) fn header_value(text: &str) -> (value: Option<Vec<u8>>)
    ensures
        match value {
            Some(bytes) => valid_header(text.spec_bytes()) && bytes@ == text.spec_bytes(),
            None => !valid_header(text.spec_bytes()),
        },
{
    http::HeaderValue::from_str(text).ok().map(|value| value.as_bytes().to_vec())
}

/// The text of a header's value: `http::HeaderValue::to_str`, on the value made of these bytes.
/// It exists exactly where every byte is a tab or from 32 to 126, and is what the bytes encode.
#[verifier::external_body]
pub(crate) fn header_text(bytes: &[u8]) -> (text: Option<String>)
    ensures
        text_view(text) == header_text_of(Some(bytes@)),
{
    let value = http::HeaderValue::from_bytes(bytes).ok()?;
    value.to_str().ok().map(|text| text.to_owned())
}

/// An address: its text, and the parts of it that are read.
#[derive(Clone, Debug, PartialEq, Eq)]
pub struct Uri {
    pub text: String,
    pub host: Option<String>,
    pub port: Option<u16>,
    pub query: Option<String>,
}

/// The mathematical counterpart of [`Uri`].
pub struct UriView {
    pub text: Seq<char>,
    pub host: Option<Seq<char>>,
    pub port: Option<u16>,
    pub query: Option<Seq<char>>,
}

impl View for Uri {
    type V = UriView;

    open spec fn view(&self) -> UriView {
        UriView {
            text: self.text@,
            host: text_view(self.host),
            port: self.port,
            query: text_view(self.query),
        }
    }
}

/// The address that a text holds, or why it holds none.
pub uninterp spec fn uri_of(text: Seq<char>) -> Result<UriView, Seq<char>>;

pub open spec fn uri_view(result: Result<Uri, String>) -> Result<UriView, Seq<char>> {
    match result {
        Ok(uri) => Ok(uri@),
        Err(text) => Err(text@),
    }
}

/// `http::Uri::from_str`: its result is named, an address by its parts, an error by its message.
#[verifier::external_body]
pub(crate) fn parse_uri(text: &str) -> (result: Result<Uri, String>)
    ensures
        uri_view(result) == uri_of(text@),
{
    let uri = text.parse::<http::Uri>().map_err(|error| error.to_string())?;
    Ok(Uri {
        text: uri.to_string(),
        host: uri.host().map(|host| host.to_owned()),
        port: uri.port_u16(),
        query: uri.query().map(|query| query.to_owned()),
    })
}

/// What is read of a request: its method and protocol, the query of its address, and the headers
/// that conversations have.
#[derive(Clone, Debug, PartialEq, Eq)]
pub struct Request {
    pub method: String,
    pub uri: String,
    pub query: Option<String>,
    pub protocol: Option<Protocol>,
    pub user_agent: Option<Vec<u8>>,
    pub user: Option<Vec<u8>>,
    pub authorization: Option<Vec<u8>>,
}

/// The mathematical counterpart of [`Request`].
pub struct RequestView {
    pub method: Seq<char>,
    pub uri: Seq<char>,
    pub query: Option<Seq<char>>,
    pub protocol: Option<Seq<char>>,
    pub user_agent: Option<Seq<u8>>,
    pub user: Option<Seq<u8>>,
    pub authorization: Option<Seq<u8>>,
}

pub open spec fn protocol_view(protocol: Option<Protocol>) -> Option<Seq<char>> {
    match protocol {
        Some(protocol) => Some(protocol@),
        None => None,
    }
}

impl View for Request {
    type V = RequestView;

    open spec fn view(&self) -> RequestView {
        RequestView {
            method: self.method@,
            uri: self.uri@,
            query: text_view(self.query),
            protocol: protocol_view(self.protocol),
            user_agent: bytes_view(self.user_agent),
            user: bytes_view(self.user),
            authorization: bytes_view(self.authorization),
        }
    }
}

impl RequestView {
    /// Whether the request asks for a conversation.
    pub open spec fn is_ssh3_connect(self) -> bool {
        self.method == CONNECT@ && self.protocol == Some(SSH3_PROTOCOL_NAME@)
    }

    /// The request that opens a conversation at an address.
    pub open spec fn connect(uri: Seq<char>, query: Option<Seq<char>>, agent: Seq<u8>) -> Self {
        RequestView {
            method: CONNECT@,
            uri,
            query,
            protocol: Some(SSH3_PROTOCOL_NAME@),
            user_agent: Some(agent),
            user: None,
            authorization: None,
        }
    }
}

/// Why a request or a response cannot be built.
#[derive(Clone, Copy, Debug, PartialEq, Eq, Structural)]
pub enum BuildConnectRequestError {
    InvalidUserAgent,
}

impl BuildConnectRequestError {
    pub fn message(&self) -> (text: String)
        ensures
            text@ == "failed to parse header value"@,
    {
        "failed to parse header value".to_owned()
    }
}

/// The request that opens a conversation at `uri`, whose query is `query`.
pub fn build_connect_request(
    uri: String,
    query: Option<String>,
    user_agent: &str,
) -> (result: Result<Request, BuildConnectRequestError>)
    ensures
        match result {
            Ok(request) => valid_header(user_agent.spec_bytes()) && request@
                == RequestView::connect(uri@, text_view(query), user_agent.spec_bytes()),
            Err(error) => !valid_header(user_agent.spec_bytes()) && error
                == BuildConnectRequestError::InvalidUserAgent,
        },
{
    match header_value(user_agent) {
        Some(value) => Ok(
            Request {
                method: CONNECT.to_owned(),
                uri,
                query,
                protocol: Some(ssh3_protocol()),
                user_agent: Some(value),
                user: None,
                authorization: None,
            },
        ),
        None => Err(BuildConnectRequestError::InvalidUserAgent),
    }
}

/// The protocol that a request asks for.
pub fn request_protocol(request: &Request) -> (protocol: Option<&Protocol>)
    ensures
        (match protocol {
            Some(protocol) => Some(protocol@),
            None => None,
        }) == request@.protocol,
{
    match &request.protocol {
        Some(protocol) => Some(protocol),
        None => None,
    }
}

/// Whether a request asks for a conversation.
pub fn is_ssh3_connect(request: &Request) -> (connect: bool)
    ensures
        connect == request@.is_ssh3_connect(),
{
    same_text(request.method.as_str(), CONNECT) && match request_protocol(request) {
        Some(protocol) => same_text(protocol.as_str(), SSH3_PROTOCOL_NAME),
        None => false,
    }
}

/// How a client names itself.
pub fn request_user_agent(request: &Request) -> (text: Option<String>)
    ensures
        text_view(text) == header_text_of(request@.user_agent),
{
    match &request.user_agent {
        Some(value) => header_text(value.as_slice()),
        None => None,
    }
}

/// What is read of a response: its status, and how the server names itself.
#[derive(Clone, Debug, PartialEq, Eq)]
pub struct Response {
    pub status: u16,
    pub server: Option<Vec<u8>>,
}

/// The mathematical counterpart of [`Response`].
pub struct ResponseView {
    pub status: u16,
    pub server: Option<Seq<u8>>,
}

impl View for Response {
    type V = ResponseView;

    open spec fn view(&self) -> ResponseView {
        ResponseView { status: self.status, server: bytes_view(self.server) }
    }
}

/// The response with a status from a server that names itself.
pub fn response_with_server_header(
    status: u16,
    server_version: &str,
) -> (result: Result<Response, BuildConnectRequestError>)
    ensures
        match result {
            Ok(response) => valid_header(server_version.spec_bytes()) && response@ == (
            ResponseView { status, server: Some(server_version.spec_bytes()) }),
            Err(error) => !valid_header(server_version.spec_bytes()) && error
                == BuildConnectRequestError::InvalidUserAgent,
        },
{
    match header_value(server_version) {
        Some(value) => Ok(Response { status, server: Some(value) }),
        None => Err(BuildConnectRequestError::InvalidUserAgent),
    }
}

/// How a server names itself.
pub fn response_server_header(response: &Response) -> (text: Option<String>)
    ensures
        text_view(text) == header_text_of(response@.server),
{
    match &response.server {
        Some(value) => header_text(value.as_slice()),
        None => None,
    }
}

/// A refused conversation: the server answered with this status.
#[derive(Clone, Copy, Debug, PartialEq, Eq, Structural)]
pub struct UnexpectedStatus {
    pub status: u16,
}

/// The conversation that a response opens: only one with [`STATUS_OK`] does.
pub fn establish_client_conversation(
    status: u16,
    control_stream_id: u64,
    conversation_id: ConversationId,
    max_packet_size: u64,
    default_datagrams_queue_size: usize,
) -> (result: Result<Conversation, UnexpectedStatus>)
    ensures
        match result {
            Ok(conversation) => status == STATUS_OK && conversation@ == ConversationView::opened(
                control_stream_id,
                conversation_id@,
                max_packet_size,
                default_datagrams_queue_size as nat,
            ),
            Err(error) => status != STATUS_OK && error == (UnexpectedStatus { status }),
        },
{
    if status != STATUS_OK {
        return Err(UnexpectedStatus { status });
    }
    Ok(
        Conversation::new(
            control_stream_id,
            conversation_id,
            max_packet_size,
            default_datagrams_queue_size,
        ),
    )
}

/// The request that a client builds asks for a conversation, and a name that can be read as text
/// is read back from it.
pub proof fn built_request_opens_a_conversation(
    uri: Seq<char>,
    query: Option<Seq<char>>,
    agent: Seq<u8>,
)
    ensures
        RequestView::connect(uri, query, agent).is_ssh3_connect(),
        visible_header(agent) ==> valid_header(agent) && header_text_of(
            RequestView::connect(uri, query, agent).user_agent,
        ) == Some(decode_utf8(agent)),
{
    if visible_header(agent) {
        assert forall|i: int| 0 <= i < agent.len() implies header_byte(#[trigger] agent[i]) by {
            assert(visible_byte(agent[i]));
        }
    }
}

/// The request that a client builds asks for the protocol and with the method that a server answers,
/// at the address and with the query that it is for, and says nothing else yet; any other method or
/// protocol asks for no conversation.
pub proof fn conversation_is_asked_for_by_method_and_protocol(
    request: RequestView,
    uri: Seq<char>,
    query: Option<Seq<char>>,
    agent: Seq<u8>,
)
    ensures
        request.is_ssh3_connect() <==> request.method == "CONNECT"@ && request.protocol == Some(
            "ssh3"@,
        ),
        ({
            let built = RequestView::connect(uri, query, agent);
            &&& built.method == "CONNECT"@
            &&& built.protocol == Some("ssh3"@)
            &&& built.uri == uri
            &&& built.query == query
            &&& built.user_agent == Some(agent)
            &&& built.user is None
            &&& built.authorization is None
        }),
        STATUS_OK == 200,
        STATUS_UNAUTHORIZED == 401,
        STATUS_NOT_FOUND == 404,
{
}

/// A header can hold every text of ASCII but its control characters, of which it can hold the tab,
/// and is read back as it is; it can be read as text where it holds nothing else.
pub proof fn headers_hold_what_can_be_seen(bytes: Seq<u8>)
    ensures
        valid_header(bytes) <==> forall|i: int|
            0 <= i < bytes.len() ==> (#[trigger] bytes[i] >= 32 && bytes[i] != 127 || bytes[i]
                == 9),
        header_text_of(Some(bytes)) == (if (forall|i: int|
            0 <= i < bytes.len() ==> (32 <= #[trigger] bytes[i] <= 126 || bytes[i] == 9)) {
            Some(decode_utf8(bytes))
        } else {
            None
        }),
        header_text_of(None) is None,
{
    if valid_header(bytes) {
        assert forall|i: int| 0 <= i < bytes.len() implies (#[trigger] bytes[i] >= 32 && bytes[i]
            != 127 || bytes[i] == 9) by {
            assert(header_byte(bytes[i]));
        }
    }
    if visible_header(bytes) {
        assert forall|i: int| 0 <= i < bytes.len() implies (32 <= #[trigger] bytes[i] <= 126
            || bytes[i] == 9) by {
            assert(visible_byte(bytes[i]));
        }
    }
}

} // verus!
