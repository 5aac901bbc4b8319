//! What a client is configured with, and where it connects.

use crate::client::error::{ClientError, ClientErrorView};
use crate::failure::IoErrorKind;
use crate::http::{Uri, UriView, SSH3_VERSION_STRING};
use crate::proto::address::SocketAddr;
use crate::relay::{bind_address_for, unspecified_like};
use crate::text::{byte_strings_view, bytes_view, same_bytes, text_view, trim, trimmed};
use rustls::pki_types::CertificateDer;
use vstd::prelude::*;
use vstd::slice::slice_subrange;
use vstd::string::*;

verus! {

/// Which key of an agent signs.
#[derive(Clone, Debug, PartialEq, Eq)]
pub enum AgentSelection {
    /// The first that can.
    First,
    /// The one whose public key is in this file.
    PublicKey(Vec<u8>),
}

/// The mathematical counterpart of [`AgentSelection`].
pub enum AgentSelectionView {
    First,
    PublicKey(Seq<u8>),
}

impl View for AgentSelection {
    type V = AgentSelectionView;

    open spec fn view(&self) -> AgentSelectionView {
        match *self {
            AgentSelection::First => AgentSelectionView::First,
            AgentSelection::PublicKey(path) => AgentSelectionView::PublicKey(path@),
        }
    }
}

/// How a client logs in at an identity provider.
#[derive(Clone, Debug, PartialEq, Eq)]
pub struct OidcConfig {
    pub issuer_url: String,
    pub client_id: String,
    pub client_secret: Option<String>,
    pub use_pkce: bool,
}

/// The mathematical counterpart of [`OidcConfig`].
pub struct OidcConfigView {
    pub issuer_url: Seq<char>,
    pub client_id: Seq<char>,
    pub client_secret: Option<Seq<char>>,
    pub use_pkce: bool,
}

impl View for OidcConfig {
    type V = OidcConfigView;

    open spec fn view(&self) -> OidcConfigView {
        OidcConfigView {
            issuer_url: self.issuer_url@,
            client_id: self.client_id@,
            client_secret: text_view(self.client_secret),
            use_pkce: self.use_pkce,
        }
    }
}

/// Which servers a client believes.
#[derive(Clone, Debug, PartialEq, Eq)]
pub enum TrustStrategy {
    WebPkiRoots,
    /// Those that these certificates vouch for.
    Certificates(Vec<Vec<u8>>),
    Insecure,
}

/// The mathematical counterpart of [`TrustStrategy`].
pub enum TrustStrategyView {
    WebPkiRoots,
    Certificates(Seq<Seq<u8>>),
    Insecure,
}

impl View for TrustStrategy {
    type V = TrustStrategyView;

    open spec fn view(&self) -> TrustStrategyView {
        match *self {
            TrustStrategy::WebPkiRoots => TrustStrategyView::WebPkiRoots,
            TrustStrategy::Certificates(certificates) => TrustStrategyView::Certificates(
                byte_strings_view(certificates@),
            ),
            TrustStrategy::Insecure => TrustStrategyView::Insecure,
        }
    }
}

/// The configuration of a client. Paths are byte strings.
#[derive(Clone, Debug, PartialEq, Eq)]
pub struct ClientConfig {
    pub target_url: Uri,
    pub server_name: Option<String>,
    pub username: Option<String>,
    pub identity_file: Option<Vec<u8>>,
    pub agent: Option<AgentSelection>,
    pub agent_socket: Option<Vec<u8>>,
    pub forward_agent: bool,
    pub password: Option<String>,
    pub bearer_token: Option<String>,
    pub oidc: Option<OidcConfig>,
    pub user_agent: String,
    pub max_packet_size: u64,
    pub default_datagrams_queue_size: usize,
    pub trust: TrustStrategy,
}

/// The mathematical counterpart of [`ClientConfig`].
pub struct ClientConfigView {
    pub target_url: UriView,
    pub server_name: Option<Seq<char>>,
    pub username: Option<Seq<char>>,
    pub identity_file: Option<Seq<u8>>,
    pub agent: Option<AgentSelectionView>,
    pub agent_socket: Option<Seq<u8>>,
    pub forward_agent: bool,
    pub password: Option<Seq<char>>,
    pub bearer_token: Option<Seq<char>>,
    pub oidc: Option<OidcConfigView>,
    pub user_agent: Seq<char>,
    pub max_packet_size: u64,
    pub default_datagrams_queue_size: nat,
    pub trust: TrustStrategyView,
}

pub open spec fn agent_view(agent: Option<AgentSelection>) -> Option<AgentSelectionView> {
    match agent {
        Some(selection) => Some(selection@),
        None => None,
    }
}

pub open spec fn oidc_view(oidc: Option<OidcConfig>) -> Option<OidcConfigView> {
    match oidc {
        Some(oidc) => Some(oidc@),
        None => None,
    }
}

impl View for ClientConfig {
    type V = ClientConfigView;

    open spec fn view(&self) -> ClientConfigView {
        ClientConfigView {
            target_url: self.target_url@,
            server_name: text_view(self.server_name),
            username: text_view(self.username),
            identity_file: bytes_view(self.identity_file),
            agent: agent_view(self.agent),
            agent_socket: bytes_view(self.agent_socket),
            forward_agent: self.forward_agent,
            password: text_view(self.password),
            bearer_token: text_view(self.bearer_token),
            oidc: oidc_view(self.oidc),
            user_agent: self.user_agent@,
            max_packet_size: self.max_packet_size,
            default_datagrams_queue_size: self.default_datagrams_queue_size as nat,
            trust: self.trust@,
        }
    }
}

/// One where something is there.
pub open spec fn counted(there: bool) -> nat {
    if there {
        1
    } else {
        0
    }
}

/// A text without the white space around it, where anything is left of it.
pub open spec fn worded(text: Option<Seq<char>>) -> Option<Seq<char>> {
    match text {
        Some(text) => if trimmed(text).len() > 0 {
            Some(trimmed(text))
        } else {
            None
        },
        None => None,
    }
}

impl ClientConfigView {
    /// The configuration of a client that is told only where to connect.
    pub open spec fn standard(target_url: UriView) -> ClientConfigView {
        ClientConfigView {
            target_url,
            server_name: None,
            username: None,
            identity_file: None,
            agent: None,
            agent_socket: None,
            forward_agent: false,
            password: None,
            bearer_token: None,
            oidc: None,
            user_agent: SSH3_VERSION_STRING@,
            max_packet_size: 30_000,
            default_datagrams_queue_size: 10,
            trust: TrustStrategyView::WebPkiRoots,
        }
    }

    /// In how many ways the client is told to say who it is. A token of white space is none.
    pub open spec fn auth_methods(self) -> nat {
        counted(self.identity_file is Some) + counted(self.agent is Some) + counted(
            self.password is Some,
        ) + counted(worded(self.bearer_token) is Some) + counted(self.oidc is Some)
    }
}

impl ClientConfig {
    /// The configuration of a client that is told only where to connect.
    pub fn new(target_url: Uri) -> (config: Self)
        ensures
            config@ == ClientConfigView::standard(target_url@),
    {
        ClientConfig {
            target_url,
            server_name: None,
            username: None,
            identity_file: None,
            agent: None,
            agent_socket: None,
            forward_agent: false,
            password: None,
            bearer_token: None,
            oidc: None,
            user_agent: SSH3_VERSION_STRING.to_owned(),
            max_packet_size: 30_000,
            default_datagrams_queue_size: 10,
            trust: TrustStrategy::WebPkiRoots,
        }
    }
}

/// The token that a client is given, without the white space around it.
pub fn given_token(config: &ClientConfig) -> (token: Option<String>)
    ensures
        text_view(token) == worded(config@.bearer_token),
{
    match &config.bearer_token {
        Some(token) => {
            let token: String = trim(token.as_str());
            if token.as_str().unicode_len() > 0 {
                Some(token)
            } else {
                None
            }
        },
        None => None,
    }
}

/// In how many ways a client is told to say who it is.
pub fn auth_method_count(config: &ClientConfig) -> (count: usize)
    ensures
        count == config@.auth_methods(),
{
    let mut count: usize = 0;
    if config.identity_file.is_some() {
        count = count + 1;
    }
    if config.agent.is_some() {
        count = count + 1;
    }
    if config.password.is_some() {
        count = count + 1;
    }
    if given_token(config).is_some() {
        count = count + 1;
    }
    if config.oidc.is_some() {
        count = count + 1;
    }
    count
}

/// The certificates in a text in the format PEM, or why there are none to read.
pub uninterp spec fn pem_certificates_of(bytes: Seq<u8>) -> Result<Seq<Seq<u8>>, Seq<char>>;

/// `rustls_pemfile::certs`, all of it: its result is named, an error by its message. Of bytes in
/// memory it has no errors but of invalid data.
#[verifier::external_body]
fn pem_certificates(bytes: &[u8]) -> (result: Result<Vec<Vec<u8>>, String>)
    ensures
        (match result {
            Ok(certificates) => Ok(byte_strings_view(certificates@)),
            Err(text) => Err(text@),
        }) == pem_certificates_of(bytes@),
{
    let mut reader = bytes;
    rustls_pemfile::certs(&mut reader)
        .map(|certificate| certificate.map(|certificate| certificate.to_vec()))
        .collect::<Result<Vec<Vec<u8>>, std::io::Error>>()
        .map_err(|error| error.to_string())
}

/// Whether a file starts as one in the format PEM does.
pub open spec fn is_pem(bytes: Seq<u8>) -> bool {
    let start = "-----BEGIN".spec_bytes();
    bytes.len() >= start.len() && bytes.take(start.len() as int) == start
}

/// The certificates that a file holds: those of a text in the format PEM, of which there has to be
/// one, or the whole file as the only one.
pub open spec fn certificates_of(bytes: Seq<u8>) -> Result<Seq<Seq<u8>>, ClientErrorView> {
    if is_pem(bytes) {
        certificates_read(pem_certificates_of(bytes))
    } else {
        Ok(seq![bytes])
    }
}

/// What reading a text in the format PEM comes to.
pub open spec fn certificates_read(read: Result<Seq<Seq<u8>>, Seq<char>>) -> Result<
    Seq<Seq<u8>>,
    ClientErrorView,
> {
    match read {
        Ok(certificates) => if certificates.len() == 0 {
            Err(ClientErrorView::InvalidCertificateBundle)
        } else {
            Ok(certificates)
        },
        Err(text) => Err(ClientErrorView::Io(IoErrorKind::InvalidData, text)),
    }
}

pub open spec fn certificates_view(result: Result<Vec<Vec<u8>>, ClientError>) -> Result<
    Seq<Seq<u8>>,
    ClientErrorView,
> {
    match result {
        Ok(certificates) => Ok(byte_strings_view(certificates@)),
        Err(error) => Err(error@),
    }
}

/// What reading a text in the format PEM comes to.
pub fn check_certificates(read: Result<Vec<Vec<u8>>, String>) -> (result: Result<
    Vec<Vec<u8>>,
    ClientError,
>)
    ensures
        certificates_view(result) == certificates_read(
            match read {
                Ok(certificates) => Ok(byte_strings_view(certificates@)),
                Err(text) => Err(text@),
            },
        ),
{
    match read {
        Ok(certificates) => if certificates.len() == 0 {
            Err(ClientError::InvalidCertificateBundle)
        } else {
            Ok(certificates)
        },
        Err(text) => Err(ClientError::Io(IoErrorKind::InvalidData, text)),
    }
}

/// The certificates that a file holds.
pub fn load_certificates(bytes: Vec<u8>) -> (result: Result<Vec<Vec<u8>>, ClientError>)
    ensures
        certificates_view(result) == certificates_of(bytes@),
{
    let start: &[u8] = "-----BEGIN".as_bytes();
    if bytes.len() >= start.len() && same_bytes(
        slice_subrange(bytes.as_slice(), 0, start.len()),
        start,
    ) {
        proof {
            assert(bytes@.subrange(0, start@.len() as int) =~= bytes@.take(start@.len() as int));
        }
        check_certificates(pem_certificates(bytes.as_slice()))
    } else {
        proof {
            assert(bytes@.subrange(0, start@.len() as int) =~= bytes@.take(start@.len() as int));
        }
        let mut certificates: Vec<Vec<u8>> = Vec::new();
        certificates.push(bytes);
        proof {
            assert(byte_strings_view(certificates@) =~= seq![bytes@]);
        }
        Ok(certificates)
    }
}

/// How many of some certificates can vouch for a server.
pub uninterp spec fn usable_certificates_of(certificates: Seq<Seq<u8>>) -> nat;

/// `rustls::RootCertStore::add_parsable_certificates` on an empty store: the number of the
/// certificates that it adds is named.
#[verifier::external_body]
fn usable_certificates(certificates: &[Vec<u8>]) -> (added: usize)
    ensures
        added == usable_certificates_of(byte_strings_view(certificates@)),
{
    let certificates = certificates.iter().map(|der| CertificateDer::from(der.as_slice()));
    rustls::RootCertStore::empty().add_parsable_certificates(certificates).0
}

/// Refuses to trust certificates of which none is usable; `added` is how many are.
pub fn check_usable(trust: &TrustStrategy, added: usize) -> (result: Result<(), ClientError>)
    ensures
        match result {
            Ok(()) => trust@ is Certificates ==> added > 0,
            Err(error) => {
                &&& trust@ is Certificates
                &&& added == 0
                &&& error@ == ClientErrorView::InvalidCertificateBundle
            },
        },
{
    match trust {
        TrustStrategy::Certificates(_) => if added == 0 {
            Err(ClientError::InvalidCertificateBundle)
        } else {
            Ok(())
        },
        _ => Ok(()),
    }
}

/// Refuses to trust certificates of which none can vouch for a server.
pub fn check_trust(trust: &TrustStrategy) -> (result: Result<(), ClientError>)
    ensures
        match result {
            Ok(()) => trust@ matches TrustStrategyView::Certificates(certificates)
                ==> usable_certificates_of(certificates) > 0,
            Err(error) => {
                &&& trust@ matches TrustStrategyView::Certificates(certificates)
                &&& usable_certificates_of(certificates) == 0
                &&& error@ == ClientErrorView::InvalidCertificateBundle
            },
        },
{
    match trust {
        TrustStrategy::Certificates(certificates) => check_usable(
            trust,
            usable_certificates(certificates.as_slice()),
        ),
        _ => Ok(()),
    }
}

/// What a client asks a server to run.
#[derive(Clone, Debug, PartialEq, Eq)]
pub enum SessionRequest {
    Shell,
    Exec(String),
}

/// The mathematical counterpart of [`SessionRequest`].
pub enum SessionRequestView {
    Shell,
    Exec(Seq<char>),
}

impl View for SessionRequest {
    type V = SessionRequestView;

    open spec fn view(&self) -> SessionRequestView {
        match *self {
            SessionRequest::Shell => SessionRequestView::Shell,
            SessionRequest::Exec(command) => SessionRequestView::Exec(command@),
        }
    }
}

/// The port of a server whose address names none.
pub const DEFAULT_PORT: u16 = 443;

/// Where a client connects: the host and the port to look up, and the name that the server has to
/// prove.
#[derive(Clone, Debug, PartialEq, Eq)]
pub struct Target {
    pub host: String,
    pub port: u16,
    pub server_name: String,
}

/// Where a client connects. An address without a host leads nowhere.
pub fn resolve_target(uri: &Uri, server_name: Option<&str>) -> (result: Result<Target, ClientError>)
    ensures
        match (result, uri@.host) {
            (Ok(target), Some(host)) => {
                &&& target.host@ == host
                &&& target.port == match uri@.port {
                    Some(port) => port,
                    None => 443,
                }
                &&& target.server_name@ == match server_name {
                    Some(name) => name@,
                    None => host,
                }
            },
            (Err(error), None) => error@ == ClientErrorView::MissingHost,
            _ => false,
        },
{
    match &uri.host {
        Some(host) => Ok(
            Target {
                host: host.as_str().to_owned(),
                port: match uri.port {
                    Some(port) => port,
                    None => DEFAULT_PORT,
                },
                server_name: match server_name {
                    Some(name) => name.to_owned(),
                    None => host.as_str().to_owned(),
                },
            },
        ),
        None => Err(ClientError::MissingHost),
    }
}

/// The address from which a client connects.
pub fn client_bind_addr(remote_addr: &SocketAddr) -> (local: SocketAddr)
    ensures
        local@ == unspecified_like(remote_addr@),
{
    bind_address_for(remote_addr)
}

/// A client that is told only where to connect goes there, says nothing of who it is, and believes
/// the servers that the public roots vouch for.
pub proof fn standard_client_says_nothing(target_url: UriView)
    ensures
        ({
            let config = ClientConfigView::standard(target_url);
            &&& config.target_url == target_url
            &&& config.server_name is None
            &&& config.username is None
            &&& config.auth_methods() == 0
            &&& config.agent_socket is None
            &&& !config.forward_agent
            &&& config.user_agent == SSH3_VERSION_STRING@
            &&& config.max_packet_size == 30_000
            &&& config.default_datagrams_queue_size == 10
            &&& config.trust is WebPkiRoots
        }),
{
}

/// Each way to say who the client is counts once; a token of white space is none.
pub proof fn each_way_counts_once(config: ClientConfigView)
    ensures
        config.auth_methods() == (if config.identity_file is Some {
            1int
        } else {
            0
        }) + (if config.agent is Some {
            1int
        } else {
            0
        }) + (if config.password is Some {
            1int
        } else {
            0
        }) + (if config.bearer_token is Some && trimmed(config.bearer_token->0).len() > 0 {
            1int
        } else {
            0
        }) + (if config.oidc is Some {
            1int
        } else {
            0
        }),
{
}

/// A file in the format PEM is all the certificates in it, of which there has to be one; any other
/// file is one certificate.
pub proof fn file_is_its_certificates(bytes: Seq<u8>, rest: Seq<u8>)
    ensures
        ({
            let pem = "-----BEGIN".spec_bytes() + rest;
            &&& pem_certificates_of(pem) matches Ok(found) ==> found.len() > 0 ==> certificates_of(
                pem,
            ) == Ok::<Seq<Seq<u8>>, ClientErrorView>(found)
            &&& pem_certificates_of(pem) matches Ok(found) ==> found.len() == 0 ==> certificates_of(
                pem,
            ) == Err::<Seq<Seq<u8>>, ClientErrorView>(ClientErrorView::InvalidCertificateBundle)
            &&& pem_certificates_of(pem) matches Err(reason) ==> certificates_of(pem) == Err::<
                Seq<Seq<u8>>,
                ClientErrorView,
            >(ClientErrorView::Io(IoErrorKind::InvalidData, reason))
        }),
        !("-----BEGIN".spec_bytes()).is_prefix_of(bytes) ==> certificates_of(bytes) == Ok::<
            Seq<Seq<u8>>,
            ClientErrorView,
        >(seq![bytes]),
{
    let start = "-----BEGIN".spec_bytes();
    assert((start + rest).take(start.len() as int) =~= start);
    assert(bytes.subrange(0, start.len() as int) =~= bytes.take(start.len() as int));
}

} // verus!
