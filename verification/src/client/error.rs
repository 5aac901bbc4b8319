//! Why a client fails.

use crate::auth::error::{AuthError, AuthErrorView};
use crate::failure::IoErrorKind;
use crate::http::BuildConnectRequestError;
use crate::proto::request::{ExitSignalRequest, ExitSignalRequestView};
use crate::text::{joined, lossy, lossy_text};
use vstd::prelude::*;
use vstd::string::*;

verus! {

/// Why logging in at an identity provider fails.
#[derive(Clone, Debug, PartialEq, Eq)]
pub enum OidcError {
    /// A failure of the machine: its kind, and in words.
    Io(IoErrorKind, String),
    /// A failure of the provider or on the way to it, in words.
    Reqwest(String),
    /// An address that is none, in words.
    Url(String),
    InvalidResponse(&'static str),
    ProviderError(String),
}

/// The mathematical counterpart of [`OidcError`].
pub enum OidcErrorView {
    Io(IoErrorKind, Seq<char>),
    Reqwest(Seq<char>),
    Url(Seq<char>),
    InvalidResponse(Seq<char>),
    ProviderError(Seq<char>),
}

impl View for OidcError {
    type V = OidcErrorView;

    open spec fn view(&self) -> OidcErrorView {
        match *self {
            OidcError::Io(kind, text) => OidcErrorView::Io(kind, text@),
            OidcError::Reqwest(text) => OidcErrorView::Reqwest(text@),
            OidcError::Url(text) => OidcErrorView::Url(text@),
            OidcError::InvalidResponse(text) => OidcErrorView::InvalidResponse(text@),
            OidcError::ProviderError(text) => OidcErrorView::ProviderError(text@),
        }
    }
}

impl OidcErrorView {
    /// The error in words.
    pub open spec fn message(self) -> Seq<char> {
        match self {
            OidcErrorView::Io(_, text) => text,
            OidcErrorView::Reqwest(text) => text,
            OidcErrorView::Url(text) => text,
            OidcErrorView::InvalidResponse(text) => text,
            OidcErrorView::ProviderError(text) => text,
        }
    }
}

impl OidcError {
    /// The error in words.
    pub fn message(&self) -> (text: String)
        ensures
            text@ == self@.message(),
    {
        match self {
            OidcError::Io(_, text) => text.as_str().to_owned(),
            OidcError::Reqwest(text) => text.as_str().to_owned(),
            OidcError::Url(text) => text.as_str().to_owned(),
            OidcError::InvalidResponse(text) => (*text).to_owned(),
            OidcError::ProviderError(text) => text.as_str().to_owned(),
        }
    }
}

/// Why a client fails.
#[derive(Clone, Debug, PartialEq, Eq)]
pub enum ClientError {
    MissingHost,
    /// A request that cannot be built.
    BuildRequest(BuildConnectRequestError),
    /// A failure of the machine or of an agent: its kind, and in words.
    Io(IoErrorKind, String),
    InvalidCertificateBundle,
    InvalidHeaderValue,
    /// A key or a signature is not in the format of SSH.
    SshKey(String),
    Auth(AuthError),
    Oidc(OidcError),
    MissingUsernameForIdentity,
    MissingUsernameForAgent,
    MissingUsernameForPassword,
    AgentUnavailable,
    AgentKeyNotFound,
    UnsupportedAgentKey(String),
    ConflictingAuthenticationMethods,
    ExitSignal(ExitSignalRequest),
}

/// The mathematical counterpart of [`ClientError`].
pub enum ClientErrorView {
    MissingHost,
    BuildRequest(BuildConnectRequestError),
    Io(IoErrorKind, Seq<char>),
    InvalidCertificateBundle,
    InvalidHeaderValue,
    SshKey(Seq<char>),
    Auth(AuthErrorView),
    Oidc(OidcErrorView),
    MissingUsernameForIdentity,
    MissingUsernameForAgent,
    MissingUsernameForPassword,
    AgentUnavailable,
    AgentKeyNotFound,
    UnsupportedAgentKey(Seq<char>),
    ConflictingAuthenticationMethods,
    ExitSignal(ExitSignalRequestView),
}

impl View for ClientError {
    type V = ClientErrorView;

    open spec fn view(&self) -> ClientErrorView {
        match *self {
            ClientError::MissingHost => ClientErrorView::MissingHost,
            ClientError::BuildRequest(error) => ClientErrorView::BuildRequest(error),
            ClientError::Io(kind, text) => ClientErrorView::Io(kind, text@),
            ClientError::InvalidCertificateBundle => ClientErrorView::InvalidCertificateBundle,
            ClientError::InvalidHeaderValue => ClientErrorView::InvalidHeaderValue,
            ClientError::SshKey(text) => ClientErrorView::SshKey(text@),
            ClientError::Auth(error) => ClientErrorView::Auth(error@),
            ClientError::Oidc(error) => ClientErrorView::Oidc(error@),
            ClientError::MissingUsernameForIdentity => ClientErrorView::MissingUsernameForIdentity,
            ClientError::MissingUsernameForAgent => ClientErrorView::MissingUsernameForAgent,
            ClientError::MissingUsernameForPassword => ClientErrorView::MissingUsernameForPassword,
            ClientError::AgentUnavailable => ClientErrorView::AgentUnavailable,
            ClientError::AgentKeyNotFound => ClientErrorView::AgentKeyNotFound,
            ClientError::UnsupportedAgentKey(name) => ClientErrorView::UnsupportedAgentKey(name@),
            ClientError::ConflictingAuthenticationMethods =>
                ClientErrorView::ConflictingAuthenticationMethods,
            ClientError::ExitSignal(signal) => ClientErrorView::ExitSignal(signal@),
        }
    }
}

impl ClientErrorView {
    /// The error in words.
    pub open spec fn message(self) -> Seq<char> {
        match self {
            ClientErrorView::MissingHost => "target URL is missing a host"@,
            ClientErrorView::BuildRequest(_) => "failed to parse header value"@,
            ClientErrorView::Io(_, text) => text,
            ClientErrorView::InvalidCertificateBundle =>
                "certificate bundle did not contain any valid certificates"@,
            ClientErrorView::InvalidHeaderValue => "failed to parse header value"@,
            ClientErrorView::SshKey(text) => text,
            ClientErrorView::Auth(error) => error.message(),
            ClientErrorView::Oidc(error) => error.message(),
            ClientErrorView::MissingUsernameForIdentity =>
                "an identity file requires an explicit username"@,
            ClientErrorView::MissingUsernameForAgent =>
                "SSH agent authentication requires an explicit username"@,
            ClientErrorView::MissingUsernameForPassword =>
                "password authentication requires an explicit username"@,
            ClientErrorView::AgentUnavailable => "no SSH agent is available"@,
            ClientErrorView::AgentKeyNotFound => "no matching SSH agent key was found"@,
            ClientErrorView::UnsupportedAgentKey(name) =>
                "unsupported SSH agent key algorithm: "@ + name,
            ClientErrorView::ConflictingAuthenticationMethods =>
                "configure only one of: identity file, SSH agent, password, raw bearer token, or OIDC"@,
            ClientErrorView::ExitSignal(signal) => "remote process exited with signal "@ + lossy(
                signal.signal_name_without_sig,
            ) + ": "@ + lossy(signal.error_message_utf8),
        }
    }
}

impl ClientError {
    /// The error in words.
    pub fn message(&self) -> (text: String)
        ensures
            text@ == self@.message(),
    {
        match self {
            ClientError::MissingHost => "target URL is missing a host".to_owned(),
            ClientError::BuildRequest(error) => error.message(),
            ClientError::Io(_, text) => text.as_str().to_owned(),
            ClientError::InvalidCertificateBundle =>
                "certificate bundle did not contain any valid certificates".to_owned(),
            ClientError::InvalidHeaderValue => "failed to parse header value".to_owned(),
            ClientError::SshKey(text) => text.as_str().to_owned(),
            ClientError::Auth(error) => error.message(),
            ClientError::Oidc(error) => error.message(),
            ClientError::MissingUsernameForIdentity =>
                "an identity file requires an explicit username".to_owned(),
            ClientError::MissingUsernameForAgent =>
                "SSH agent authentication requires an explicit username".to_owned(),
            ClientError::MissingUsernameForPassword =>
                "password authentication requires an explicit username".to_owned(),
            ClientError::AgentUnavailable => "no SSH agent is available".to_owned(),
            ClientError::AgentKeyNotFound => "no matching SSH agent key was found".to_owned(),
            ClientError::UnsupportedAgentKey(name) => joined(
                "unsupported SSH agent key algorithm: ",
                name.as_str(),
            ),
            ClientError::ConflictingAuthenticationMethods =>
                "configure only one of: identity file, SSH agent, password, raw bearer token, or OIDC".to_owned(),
            ClientError::ExitSignal(signal) => {
                let name: String = lossy_text(signal.signal_name_without_sig.as_slice());
                let reason: String = lossy_text(signal.error_message_utf8.as_slice());
                let named: String = joined("remote process exited with signal ", name.as_str());
                joined(joined(named.as_str(), ": ").as_str(), reason.as_str())
            },
        }
    }
}

/// An error is told in the words that it came with, or that its reason did, and an exit by a signal
/// with the name of the signal and what was said of it.
pub proof fn client_errors_are_told_in_their_words(
    kind: IoErrorKind,
    text: Seq<char>,
    auth: AuthErrorView,
    oidc: OidcErrorView,
    signal: ExitSignalRequestView,
)
    ensures
        (OidcErrorView::Io(kind, text)).message() == text,
        (OidcErrorView::Reqwest(text)).message() == text,
        (OidcErrorView::Url(text)).message() == text,
        (OidcErrorView::InvalidResponse(text)).message() == text,
        (OidcErrorView::ProviderError(text)).message() == text,
        (ClientErrorView::Io(kind, text)).message() == text,
        (ClientErrorView::SshKey(text)).message() == text,
        (ClientErrorView::Auth(auth)).message() == auth.message(),
        (ClientErrorView::Oidc(oidc)).message() == oidc.message(),
        (ClientErrorView::UnsupportedAgentKey(text)).message()
            == "unsupported SSH agent key algorithm: "@ + text,
        (ClientErrorView::ExitSignal(signal)).message() == "remote process exited with signal "@
            + lossy(signal.signal_name_without_sig) + ": "@ + lossy(signal.error_message_utf8),
{
}

} // verus!
