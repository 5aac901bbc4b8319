//! How a client says who it is.

use crate::auth::encoding::{standard_char, standard_encode, standard_text};
use crate::auth::token::bearer_authorization_value;
use crate::client::config::{
    auth_method_count, given_token, worded, AgentSelection, AgentSelectionView, ClientConfig,
    ClientConfigView, OidcConfig, OidcConfigView,
};
use crate::client::error::{ClientError, ClientErrorView};
use crate::http::{
    build_connect_request, header_text_of, header_value, valid_header, visible_byte,
    BuildConnectRequestError, Request, RequestView,
};
use crate::server::authorization::{
    after_scheme, authorization_of, requested_user, RequestAuthorizationView,
};
use crate::text::{first_at_is, is_white_space, joined, lowered, text_view, trimmed};
use vstd::prelude::*;
use vstd::slice::slice_to_vec;
use vstd::string::*;
use vstd::utf8::{
    encode_utf8, encode_utf8_decode_utf8, encode_utf8_valid_utf8, is_ascii_chars,
    is_ascii_chars_encode_utf8,
};

verus! {

/// A text that a header carries as it is.
pub open spec fn visible_text(text: Seq<char>) -> bool {
    forall|i: int| 0 <= i < text.len() ==> ' ' <= #[trigger] text[i] <= '~'
}

proof fn lemma_header_of_visible_text(text: Seq<char>)
    requires
        visible_text(text),
    ensures
        header_text_of(Some(encode_utf8(text))) == Some(text),
{
    assert(is_ascii_chars(text)) by {
        assert forall|i: int| 0 <= i < text.len() implies 0 <= #[trigger] text[i] as nat
            && (text[i] as nat) < 128 by {
            assert(' ' <= text[i] <= '~');
        }
    }
    is_ascii_chars_encode_utf8(text);
    encode_utf8_decode_utf8(text);
    let bytes = encode_utf8(text);
    assert forall|i: int| 0 <= i < bytes.len() implies visible_byte(#[trigger] bytes[i]) by {
        assert(' ' <= text[i] <= '~');
        assert(bytes[i] == text[i] as u8);
    }
}

proof fn lemma_nothing_to_trim(text: Seq<char>)
    requires
        forall|i: int| 0 <= i < text.len() ==> !is_white_space(#[trigger] text[i]),
    ensures
        trimmed(text) == text,
{
    if text.len() > 0 {
        assert(!is_white_space(text[0]));
        assert(!is_white_space(text[text.len() - 1]));
        assert(text.last() == text[text.len() - 1]);
    }
}

proof fn lemma_after_scheme(scheme: Seq<char>, rest: Seq<char>)
    ensures
        after_scheme(scheme + " "@ + rest, scheme) == Some(trimmed(rest)),
{
    reveal_strlit(" ");
    let value = scheme + " "@ + rest;
    assert(value.take(scheme.len() as int) =~= scheme);
    assert(value.skip(scheme.len() as int + 1) =~= rest);
}

/// The value of a header that gives a name and a password.
pub open spec fn basic_value(username: Seq<char>, password: Seq<char>) -> Seq<char> {
    "Basic "@ + standard_text(encode_utf8(username + ":"@ + password))
}

/// The value of the header that gives a name and a password. A server reads them back, where the
/// name has no colon.
pub fn basic_authorization_value(username: &str, password: &str) -> (value: String)
    ensures
        value@ == basic_value(username@, password@),
        !username@.contains(':') ==> authorization_of(Some(encode_utf8(value@))) == (
        RequestAuthorizationView::Basic { username: username@, password: password@ }),
{
    let credentials: String = joined(joined(username, ":").as_str(), password);
    let encoded: String = standard_encode(credentials.as_str().as_bytes());
    let value: String = joined("Basic ", encoded.as_str());
    proof {
        reveal_strlit("Basic ");
        reveal_strlit("Basic");
        reveal_strlit(" ");
        reveal_strlit(":");
        assert(visible_text(value@)) by {
            assert forall|i: int| 0 <= i < value@.len() implies ' ' <= #[trigger] value@[i]
                <= '~' by {
                if i >= 6 {
                    assert(value@[i] == encoded@[i - 6]);
                    assert(standard_char(encoded@[i - 6]));
                }
            }
        }
        lemma_header_of_visible_text(value@);
        assert(value@ =~= "Basic"@ + " "@ + encoded@);
        lemma_after_scheme("Basic"@, encoded@);
        assert forall|i: int| 0 <= i < encoded@.len() implies !is_white_space(
            #[trigger] encoded@[i],
        ) by {
            assert(standard_char(encoded@[i]));
        }
        lemma_nothing_to_trim(encoded@);
        encode_utf8_valid_utf8(credentials@);
        encode_utf8_decode_utf8(credentials@);
        if !username@.contains(':') {
            assert forall|j: int| 0 <= j < username@.len() implies credentials@[j] != ':' by {
                assert(credentials@[j] == username@[j]);
                assert(username@.contains(username@[j]));
            }
            assert(credentials@[username@.len() as int] == ':');
            first_at_is(credentials@, ':', username@.len() as int);
            assert(credentials@.take(username@.len() as int) =~= username@);
            assert(credentials@.skip(username@.len() as int + 1) =~= password@);
        }
    }
    value
}

/// A server reads a token back from the header that carries it, where the token is visible text
/// without blanks around it.
pub proof fn token_is_read_back(token: Seq<char>)
    requires
        token.len() > 0,
        visible_text(token),
        trimmed(token) == token,
    ensures
        authorization_of(Some(encode_utf8("Bearer "@ + token))) == RequestAuthorizationView::Bearer(
            token,
        ),
{
    reveal_strlit("Bearer ");
    reveal_strlit("Bearer");
    reveal_strlit("Basic");
    reveal_strlit(" ");
    let value = "Bearer "@ + token;
    assert(visible_text(value)) by {
        assert forall|i: int| 0 <= i < value.len() implies ' ' <= #[trigger] value[i] <= '~' by {
            if i >= 7 {
                assert(value[i] == token[i - 7]);
            }
        }
    }
    lemma_header_of_visible_text(value);
    assert(value =~= "Bearer"@ + " "@ + token);
    lemma_after_scheme("Bearer"@, token);
    assert(lowered(value.take(5))[1] == 'e');
    assert(lowered("Basic"@)[1] == 'a');
}

/// What a client says of itself before it connects.
#[derive(Clone, Debug, PartialEq, Eq)]
pub enum Precomputed {
    /// This value of the authorization header.
    Header(String),
    /// The token that logging in at an identity provider gives.
    LogIn(OidcConfig),
    /// Nothing yet.
    Nothing,
}

/// The mathematical counterpart of [`Precomputed`].
pub enum PrecomputedView {
    Header(Seq<char>),
    LogIn(OidcConfigView),
    Nothing,
}

impl View for Precomputed {
    type V = PrecomputedView;

    open spec fn view(&self) -> PrecomputedView {
        match *self {
            Precomputed::Header(value) => PrecomputedView::Header(value@),
            Precomputed::LogIn(oidc) => PrecomputedView::LogIn(oidc@),
            Precomputed::Nothing => PrecomputedView::Nothing,
        }
    }
}

/// What a client says of itself before it connects: a token that it is given, that of an identity
/// provider, or a password. Only one way to say it may be configured.
pub open spec fn precomputed(config: ClientConfigView) -> Result<PrecomputedView, ClientErrorView> {
    if config.auth_methods() > 1 {
        Err(ClientErrorView::ConflictingAuthenticationMethods)
    } else {
        match (worded(config.bearer_token), config.oidc, config.password) {
            (Some(token), _, _) => Ok(PrecomputedView::Header("Bearer "@ + token)),
            (None, Some(oidc), _) => Ok(PrecomputedView::LogIn(oidc)),
            (None, None, Some(password)) => match config.username {
                Some(username) => Ok(PrecomputedView::Header(basic_value(username, password))),
                None => Err(ClientErrorView::MissingUsernameForPassword),
            },
            (None, None, None) => Ok(PrecomputedView::Nothing),
        }
    }
}

fn copied_oidc(oidc: &OidcConfig) -> (copy: OidcConfig)
    ensures
        copy@ == oidc@,
{
    OidcConfig {
        issuer_url: oidc.issuer_url.as_str().to_owned(),
        client_id: oidc.client_id.as_str().to_owned(),
        client_secret: match &oidc.client_secret {
            Some(secret) => Some(secret.as_str().to_owned()),
            None => None,
        },
        use_pkce: oidc.use_pkce,
    }
}

pub fn precomputed_authorization_header(config: &ClientConfig) -> (result: Result<
    Precomputed,
    ClientError,
>)
    ensures
        (match result {
            Ok(said) => Ok(said@),
            Err(error) => Err(error@),
        }) == precomputed(config@),
{
    if auth_method_count(config) > 1 {
        return Err(ClientError::ConflictingAuthenticationMethods);
    }
    if let Some(token) = given_token(config) {
        return Ok(Precomputed::Header(bearer_authorization_value(token.as_str())));
    }
    if let Some(oidc) = &config.oidc {
        return Ok(Precomputed::LogIn(copied_oidc(oidc)));
    }
    match &config.password {
        Some(password) => match &config.username {
            Some(username) => Ok(
                Precomputed::Header(
                    basic_authorization_value(username.as_str(), password.as_str()),
                ),
            ),
            None => Err(ClientError::MissingUsernameForPassword),
        },
        None => Ok(Precomputed::Nothing),
    }
}

/// The request that a client opens a conversation with, but for the authorization.
pub open spec fn request_for(config: ClientConfigView) -> Result<RequestView, ClientErrorView> {
    let agent = encode_utf8(config.user_agent);
    let request = RequestView::connect(config.target_url.text, config.target_url.query, agent);
    if !valid_header(agent) {
        Err(ClientErrorView::BuildRequest(BuildConnectRequestError::InvalidUserAgent))
    } else {
        match config.username {
            Some(username) => if valid_header(encode_utf8(username)) {
                Ok(RequestView { user: Some(encode_utf8(username)), ..request })
            } else {
                Err(ClientErrorView::InvalidHeaderValue)
            },
            None => Ok(request),
        }
    }
}

pub fn client_request(config: &ClientConfig) -> (result: Result<Request, ClientError>)
    ensures
        (match result {
            Ok(request) => Ok(request@),
            Err(error) => Err(error@),
        }) == request_for(config@),
{
    let query: Option<String> = match &config.target_url.query {
        Some(query) => Some(query.as_str().to_owned()),
        None => None,
    };
    let uri: String = config.target_url.text.as_str().to_owned();
    let mut request: Request = match build_connect_request(
        uri,
        query,
        config.user_agent.as_str(),
    ) {
        Ok(request) => request,
        Err(error) => {
            return Err(ClientError::BuildRequest(error));
        },
    };
    match &config.username {
        Some(username) => match header_value(username.as_str()) {
            Some(value) => {
                request.user = Some(value);
                Ok(request)
            },
            None => Err(ClientError::InvalidHeaderValue),
        },
        None => Ok(request),
    }
}

/// Where the authorization of a request comes from.
#[derive(Clone, Debug, PartialEq, Eq)]
pub enum AuthorizationSource {
    /// This value of the header.
    Header(String),
    /// A token that the key in this file signs.
    Identity { path: Vec<u8>, username: String },
    /// A token that an agent signs.
    Agent { selection: AgentSelection, username: String },
    Nothing,
}

/// The mathematical counterpart of [`AuthorizationSource`].
pub enum AuthorizationSourceView {
    Header(Seq<char>),
    Identity { path: Seq<u8>, username: Seq<char> },
    Agent { selection: AgentSelectionView, username: Seq<char> },
    Nothing,
}

impl View for AuthorizationSource {
    type V = AuthorizationSourceView;

    open spec fn view(&self) -> AuthorizationSourceView {
        match *self {
            AuthorizationSource::Header(value) => AuthorizationSourceView::Header(value@),
            AuthorizationSource::Identity { path, username } => AuthorizationSourceView::Identity {
                path: path@,
                username: username@,
            },
            AuthorizationSource::Agent { selection, username } => AuthorizationSourceView::Agent {
                selection: selection@,
                username: username@,
            },
            AuthorizationSource::Nothing => AuthorizationSourceView::Nothing,
        }
    }
}

/// Where the authorization of a request comes from, where `header` was settled before connecting.
pub open spec fn source_of(config: ClientConfigView, header: Option<Seq<char>>) -> Result<
    AuthorizationSourceView,
    ClientErrorView,
> {
    match (header, config.identity_file, config.agent) {
        (Some(value), _, _) => Ok(AuthorizationSourceView::Header(value)),
        (None, Some(path), _) => match config.username {
            Some(username) => Ok(AuthorizationSourceView::Identity { path, username }),
            None => Err(ClientErrorView::MissingUsernameForIdentity),
        },
        (None, None, Some(selection)) => match config.username {
            Some(username) => Ok(AuthorizationSourceView::Agent { selection, username }),
            None => Err(ClientErrorView::MissingUsernameForAgent),
        },
        (None, None, None) => Ok(AuthorizationSourceView::Nothing),
    }
}

pub fn authorization_source(config: &ClientConfig, header: Option<String>) -> (result: Result<
    AuthorizationSource,
    ClientError,
>)
    ensures
        (match result {
            Ok(source) => Ok(source@),
            Err(error) => Err(error@),
        }) == source_of(config@, text_view(header)),
{
    if let Some(value) = header {
        return Ok(AuthorizationSource::Header(value));
    }
    if let Some(path) = &config.identity_file {
        return match &config.username {
            Some(username) => Ok(
                AuthorizationSource::Identity {
                    path: slice_to_vec(path.as_slice()),
                    username: username.as_str().to_owned(),
                },
            ),
            None => Err(ClientError::MissingUsernameForIdentity),
        };
    }
    match &config.agent {
        Some(selection) => match &config.username {
            Some(username) => Ok(
                AuthorizationSource::Agent {
                    selection: match selection {
                        AgentSelection::First => AgentSelection::First,
                        AgentSelection::PublicKey(path) => AgentSelection::PublicKey(
                            slice_to_vec(path.as_slice()),
                        ),
                    },
                    username: username.as_str().to_owned(),
                },
            ),
            None => Err(ClientError::MissingUsernameForAgent),
        },
        None => Ok(AuthorizationSource::Nothing),
    }
}

/// Puts the authorization into a request.
pub fn set_authorization(request: &mut Request, value: &str) -> (result: Result<(), ClientError>)
    ensures
        match result {
            Ok(()) => valid_header(value.spec_bytes()) && final(request)@ == (RequestView {
                authorization: Some(value.spec_bytes()),
                ..old(request)@
            }),
            Err(error) => {
                &&& !valid_header(value.spec_bytes())
                &&& error@ == ClientErrorView::InvalidHeaderValue
                &&& final(request)@ == old(request)@
            },
        },
{
    match header_value(value) {
        Some(bytes) => {
            request.authorization = Some(bytes);
            Ok(())
        },
        None => Err(ClientError::InvalidHeaderValue),
    }
}

/// A client that is given one way to say who it is uses it: a token goes into the header as it is,
/// without the white space around it, a provider is asked, and a password goes into the header with
/// the name of the user.
pub proof fn given_way_is_used(config: ClientConfigView)
    ensures
        ({
            let others = config.identity_file is Some || config.agent is Some;
            let token = config.bearer_token is Some && trimmed(config.bearer_token->0).len() > 0;
            &&& !others && token && config.oidc is None && config.password is None ==> precomputed(
                config,
            ) == Ok::<PrecomputedView, ClientErrorView>(
                PrecomputedView::Header("Bearer "@ + trimmed(config.bearer_token->0)),
            )
            &&& !others && !token && config.oidc is Some && config.password is None ==> precomputed(
                config,
            ) == Ok::<PrecomputedView, ClientErrorView>(PrecomputedView::LogIn(config.oidc->0))
            &&& !others && !token && config.oidc is None && config.password is Some
                && config.username is Some ==> precomputed(config) == Ok::<
                PrecomputedView,
                ClientErrorView,
            >(
                PrecomputedView::Header(
                    "Basic "@ + standard_text(
                        encode_utf8(config.username->0 + ":"@ + config.password->0),
                    ),
                ),
            )
            &&& !others && !token && config.oidc is None && config.password is Some
                && config.username is None ==> precomputed(config) == Err::<
                PrecomputedView,
                ClientErrorView,
            >(ClientErrorView::MissingUsernameForPassword)
            &&& !(config.identity_file is Some && config.agent is Some) && !token && config.oidc
                is None && config.password is None ==> precomputed(config) == Ok::<
                PrecomputedView,
                ClientErrorView,
            >(PrecomputedView::Nothing)
        }),
{
}

/// A client that is given two ways to say who it is uses none.
pub proof fn two_ways_are_refused(config: ClientConfigView)
    ensures
        ({
            let identity = config.identity_file is Some;
            let agent = config.agent is Some;
            let password = config.password is Some;
            let token = config.bearer_token is Some && trimmed(config.bearer_token->0).len() > 0;
            let oidc = config.oidc is Some;
            let two = identity && (agent || password || token || oidc) || agent && (password
                || token || oidc) || password && (token || oidc) || token && oidc;
            two <==> precomputed(config) == Err::<PrecomputedView, ClientErrorView>(
                ClientErrorView::ConflictingAuthenticationMethods,
            )
        }),
{
}

/// What was settled before connecting goes into the request; otherwise the key in the file signs,
/// and otherwise the agent, either for the user, without whom they cannot.
pub proof fn key_signs_for_the_user(config: ClientConfigView, header: Option<Seq<char>>)
    ensures
        header matches Some(value) ==> source_of(config, header) == Ok::<
            AuthorizationSourceView,
            ClientErrorView,
        >(AuthorizationSourceView::Header(value)),
        header is None && config.identity_file is Some && config.username is Some ==> source_of(
            config,
            header,
        ) == Ok::<AuthorizationSourceView, ClientErrorView>(
            AuthorizationSourceView::Identity {
                path: config.identity_file->0,
                username: config.username->0,
            },
        ),
        header is None && config.identity_file is None && config.agent is Some && config.username
            is Some ==> source_of(config, header) == Ok::<AuthorizationSourceView, ClientErrorView>(
            AuthorizationSourceView::Agent {
                selection: config.agent->0,
                username: config.username->0,
            },
        ),
        header is None && config.identity_file is Some && config.username is None ==> source_of(
            config,
            header,
        ) == Err::<AuthorizationSourceView, ClientErrorView>(
            ClientErrorView::MissingUsernameForIdentity,
        ),
        header is None && config.identity_file is None && config.agent is Some && config.username
            is None ==> source_of(config, header) == Err::<
            AuthorizationSourceView,
            ClientErrorView,
        >(ClientErrorView::MissingUsernameForAgent),
        header is None && config.identity_file is None && config.agent is None ==> source_of(
            config,
            header,
        ) == Ok::<AuthorizationSourceView, ClientErrorView>(AuthorizationSourceView::Nothing),
{
}

/// A server that reads the request of a client reads the name of the client's user, where that is
/// visible text without blanks around it, and looks that user up, whatever else the request says; a
/// client without a user leaves it to the query and the server.
pub proof fn server_reads_the_client_s_user(
    config: ClientConfigView,
    request: RequestView,
    default_user: Option<Seq<char>>,
)
    requires
        request_for(config) == Ok::<RequestView, ClientErrorView>(request),
    ensures
        request.is_ssh3_connect(),
        request.uri == config.target_url.text,
        request.query == config.target_url.query,
        request.user_agent == Some(encode_utf8(config.user_agent)),
        request.authorization is None,
        config.username matches Some(username) ==> visible_text(username) && trimmed(username)
            == username && username.len() > 0 ==> requested_user(request, default_user) == Some(
            username,
        ),
        config.username is None ==> request.user is None,
{
    if let Some(username) = config.username {
        if visible_text(username) {
            lemma_header_of_visible_text(username);
        }
    }
}

/// A request is made wherever the names of the client and of its user can be in headers.
pub proof fn request_is_made(config: ClientConfigView)
    ensures
        valid_header(encode_utf8(config.user_agent)) && (config.username is None || valid_header(
            encode_utf8(config.username->0),
        )) <==> request_for(config) is Ok,
        !valid_header(encode_utf8(config.user_agent)) ==> request_for(config) == Err::<
            RequestView,
            ClientErrorView,
        >(ClientErrorView::BuildRequest(BuildConnectRequestError::InvalidUserAgent)),
        valid_header(encode_utf8(config.user_agent)) && config.username is Some && !valid_header(
            encode_utf8(config.username->0),
        ) ==> request_for(config) == Err::<RequestView, ClientErrorView>(
            ClientErrorView::InvalidHeaderValue,
        ),
{
}

} // verus!
