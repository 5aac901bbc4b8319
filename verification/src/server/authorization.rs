//! Whether a request opens a conversation, and for whom.

use crate::auth::encoding::{standard_bytes, standard_decode};
use crate::auth::identity::{identities_view, AuthorizedIdentity, AuthorizedIdentityView};
use crate::auth::token::{
    bearer_check, claims_view, header_view, verify_bearer_token, JwtClaims, JwtClaimsView,
    JwtHeader, JwtHeaderView,
};
use crate::http::{
    header_text, header_text_of, is_ssh3_connect, visible_header, Request, RequestView,
    STATUS_NOT_FOUND, STATUS_OK, STATUS_UNAUTHORIZED,
};
use crate::server::config::{
    configured_authorized_identity_paths, should_authenticate, ServerConfig, ServerConfigView,
    SessionUser, SessionUserView,
};
use crate::text::{
    byte_strings_view, chars_of, first_at_is, lower_chars, lowered, same_text, split_once,
    split_once_at, text_between, text_view, trim, trimmed, utf8_text,
};
use vstd::prelude::*;
use vstd::string::*;
use vstd::utf8::{
    decode_utf8, encode_utf8, encode_utf8_decode_utf8, encode_utf8_valid_utf8, valid_utf8,
};

verus! {

/// The key and the value of an entry of a query.
pub open spec fn query_entry(entry: Seq<char>) -> (Seq<char>, Seq<char>) {
    match split_once_at(entry, '=') {
        Some((key, value)) => (key, value),
        None => (entry, Seq::empty()),
    }
}

/// The first value of a key in a query that is not empty.
pub open spec fn query_value(query: Seq<char>, name: Seq<char>) -> Option<Seq<char>>
    decreases query.len(),
{
    let rest = split_once_at(query, '&');
    let entry = match rest {
        Some((entry, _)) => entry,
        None => query,
    };
    let (key, value) = query_entry(entry);
    if key == name && value.len() > 0 {
        Some(value)
    } else {
        match rest {
            Some((_, rest)) => if rest.len() < query.len() {
                query_value(rest, name)
            } else {
                None
            },
            None => None,
        }
    }
}

fn entry_value(entry: &str, name: &str) -> (found: Option<String>)
    ensures
        text_view(found) == (if query_entry(entry@).0 == name@ && query_entry(entry@).1.len() > 0 {
            Some(query_entry(entry@).1)
        } else {
            None
        }),
{
    match split_once(entry, '=') {
        Some((key, value)) => if same_text(key.as_str(), name) && value.as_str().unicode_len() > 0 {
            Some(value)
        } else {
            None
        },
        None => None,
    }
}

/// The first value of a key in a query that is not empty.
pub fn extract_query_param(query: &str, name: &str) -> (value: Option<String>)
    ensures
        text_view(value) == query_value(query@, name@),
    decreases query@.len(),
{
    match split_once(query, '&') {
        Some((entry, rest)) => {
            proof {
                crate::text::first_at_bounds(query@, '&');
            }
            match entry_value(entry.as_str(), name) {
                Some(value) => Some(value),
                None => extract_query_param(rest.as_str(), name),
            }
        },
        None => entry_value(query, name),
    }
}

/// How a request says who it is from.
#[derive(Clone, Debug, PartialEq, Eq)]
pub enum RequestAuthorization {
    Absent,
    Basic { username: String, password: String },
    Bearer(String),
}

/// The mathematical counterpart of [`RequestAuthorization`].
pub enum RequestAuthorizationView {
    Absent,
    Basic { username: Seq<char>, password: Seq<char> },
    Bearer(Seq<char>),
}

impl View for RequestAuthorization {
    type V = RequestAuthorizationView;

    open spec fn view(&self) -> RequestAuthorizationView {
        match *self {
            RequestAuthorization::Absent => RequestAuthorizationView::Absent,
            RequestAuthorization::Basic { username, password } => RequestAuthorizationView::Basic {
                username: username@,
                password: password@,
            },
            RequestAuthorization::Bearer(token) => RequestAuthorizationView::Bearer(token@),
        }
    }
}

/// What follows the name of a scheme, in either case, and a blank.
pub open spec fn after_scheme(value: Seq<char>, scheme: Seq<char>) -> Option<Seq<char>> {
    if value.len() > scheme.len() && lowered(value.take(scheme.len() as int)) == lowered(scheme)
        && value[scheme.len() as int] == ' ' {
        Some(trimmed(value.skip(scheme.len() as int + 1)))
    } else {
        None
    }
}

/// What the decoded credentials of the basic scheme say: the name is what comes before the first
/// colon.
pub open spec fn basic_credentials(bytes: Seq<u8>) -> RequestAuthorizationView {
    if valid_utf8(bytes) {
        match split_once_at(decode_utf8(bytes), ':') {
            Some((username, password)) => RequestAuthorizationView::Basic { username, password },
            None => RequestAuthorizationView::Absent,
        }
    } else {
        RequestAuthorizationView::Absent
    }
}

/// What the text of an authorization header says.
pub open spec fn authorization_of_text(text: Seq<char>) -> RequestAuthorizationView {
    match after_scheme(text, "Basic"@) {
        Some(encoded) => match standard_bytes(encoded) {
            Some(bytes) => basic_credentials(bytes),
            None => RequestAuthorizationView::Absent,
        },
        None => match after_scheme(text, "Bearer"@) {
            Some(token) => if token.len() > 0 {
                RequestAuthorizationView::Bearer(token)
            } else {
                RequestAuthorizationView::Absent
            },
            None => RequestAuthorizationView::Absent,
        },
    }
}

/// What the authorization header of a request says.
pub open spec fn authorization_of(value: Option<Seq<u8>>) -> RequestAuthorizationView {
    match header_text_of(value) {
        Some(text) => authorization_of_text(text),
        None => RequestAuthorizationView::Absent,
    }
}

fn strip_scheme(value: &str, scheme: &str) -> (rest: Option<String>)
    ensures
        text_view(rest) == after_scheme(value@, scheme@),
{
    let chars: Vec<char> = chars_of(value);
    let len: usize = scheme.unicode_len();
    if chars.len() <= len {
        return None;
    }
    let prefix: String = text_between(value, 0, len);
    proof {
        assert(prefix@ =~= value@.take(len as int));
    }
    let lower_prefix: Vec<char> = lower_chars(prefix.as_str());
    let lower_scheme: Vec<char> = lower_chars(scheme);
    if !same_char_lists(&lower_prefix, &lower_scheme) || chars[len] != ' ' {
        return None;
    }
    let rest: String = text_between(value, len + 1, chars.len());
    proof {
        assert(rest@ =~= value@.skip(len + 1));
    }
    Some(trim(rest.as_str()))
}

fn same_char_lists(a: &Vec<char>, b: &Vec<char>) -> (same: bool)
    ensures
        same == (a@ == b@),
{
    if a.len() != b.len() {
        return false;
    }
    let mut i: usize = 0;
    while i < a.len()
        invariant
            a@.len() == b@.len(),
            i <= a@.len(),
            forall|j: int| 0 <= j < i ==> a@[j] == b@[j],
        decreases a@.len() - i,
    {
        if a[i] != b[i] {
            return false;
        }
        i = i + 1;
    }
    proof {
        assert(a@ =~= b@);
    }
    true
}

/// What the decoded credentials of the basic scheme say.
pub fn parse_basic_credentials(bytes: Vec<u8>) -> (authorization: RequestAuthorization)
    ensures
        authorization@ == basic_credentials(bytes@),
{
    match utf8_text(bytes) {
        Some(text) => match split_once(text.as_str(), ':') {
            Some((username, password)) => RequestAuthorization::Basic { username, password },
            None => RequestAuthorization::Absent,
        },
        None => RequestAuthorization::Absent,
    }
}

fn parse_authorization_text(text: &str) -> (authorization: RequestAuthorization)
    ensures
        authorization@ == authorization_of_text(text@),
{
    match strip_scheme(text, "Basic") {
        Some(encoded) => match standard_decode(encoded.as_str()) {
            Some(bytes) => parse_basic_credentials(bytes),
            None => RequestAuthorization::Absent,
        },
        None => match strip_scheme(text, "Bearer") {
            Some(token) => if token.as_str().unicode_len() > 0 {
                RequestAuthorization::Bearer(token)
            } else {
                RequestAuthorization::Absent
            },
            None => RequestAuthorization::Absent,
        },
    }
}

/// What the authorization header of a request says.
pub fn parse_request_authorization(request: &Request) -> (authorization: RequestAuthorization)
    ensures
        authorization@ == authorization_of(request@.authorization),
{
    match &request.authorization {
        Some(value) => match header_text(value.as_slice()) {
            Some(text) => parse_authorization_text(text.as_str()),
            None => RequestAuthorization::Absent,
        },
        None => RequestAuthorization::Absent,
    }
}

/// The user that the header for it names.
pub open spec fn user_of_header(value: Option<Seq<u8>>) -> Option<Seq<char>> {
    match header_text_of(value) {
        Some(text) => if trimmed(text).len() > 0 {
            Some(trimmed(text))
        } else {
            None
        },
        None => None,
    }
}

/// The user that a request is for: by the header, by the query, or by the configuration.
pub open spec fn requested_user(request: RequestView, default_user: Option<Seq<char>>) -> Option<
    Seq<char>,
> {
    match user_of_header(request.user) {
        Some(user) => Some(user),
        None => {
            let queried = match request.query {
                Some(query) => query_value(query, "user"@),
                None => None,
            };
            match queried {
                Some(user) => Some(user),
                None => default_user,
            }
        },
    }
}

/// The user whose session is asked for: who gives a password is that user.
pub open spec fn session_user_name(
    request: RequestView,
    authorization: RequestAuthorizationView,
    default_user: Option<Seq<char>>,
) -> Option<Seq<char>> {
    match authorization {
        RequestAuthorizationView::Basic { username, .. } => if username.len() > 0 {
            Some(username)
        } else {
            requested_user(request, default_user)
        },
        _ => requested_user(request, default_user),
    }
}

fn header_user(value: &Option<Vec<u8>>) -> (user: Option<String>)
    ensures
        text_view(user) == user_of_header(crate::text::bytes_view(*value)),
{
    match value {
        Some(value) => match header_text(value.as_slice()) {
            Some(text) => {
                let user: String = trim(text.as_str());
                if user.as_str().unicode_len() > 0 {
                    Some(user)
                } else {
                    None
                }
            },
            None => None,
        },
        None => None,
    }
}

/// The user that a request is for.
pub fn requested_username(request: &Request, config: &ServerConfig) -> (user: Option<String>)
    ensures
        text_view(user) == requested_user(request@, config@.default_user),
{
    if let Some(user) = header_user(&request.user) {
        return Some(user);
    }
    if let Some(query) = &request.query {
        if let Some(user) = extract_query_param(query.as_str(), "user") {
            return Some(user);
        }
    }
    match &config.default_user {
        Some(user) => Some(user.as_str().to_owned()),
        None => None,
    }
}

/// The user whose session is asked for.
pub fn session_username(
    request: &Request,
    authorization: &RequestAuthorization,
    config: &ServerConfig,
) -> (user: Option<String>)
    ensures
        text_view(user) == session_user_name(request@, authorization@, config@.default_user),
{
    if let RequestAuthorization::Basic { username, .. } = authorization {
        if username.as_str().unicode_len() > 0 {
            return Some(username.as_str().to_owned());
        }
    }
    requested_username(request, config)
}

/// What a request asks of the server first.
#[derive(Clone, Debug, PartialEq, Eq)]
pub enum Opening {
    /// Answer with this status, and be done.
    Refuse(u16),
    /// Look the user up, and refuse the request where there is none.
    LookUp { username: String, authorization: RequestAuthorization },
}

/// The mathematical counterpart of [`Opening`].
pub enum OpeningView {
    Refuse(u16),
    LookUp { username: Seq<char>, authorization: RequestAuthorizationView },
}

impl View for Opening {
    type V = OpeningView;

    open spec fn view(&self) -> OpeningView {
        match *self {
            Opening::Refuse(status) => OpeningView::Refuse(status),
            Opening::LookUp { username, authorization } => OpeningView::LookUp {
                username: username@,
                authorization: authorization@,
            },
        }
    }
}

/// What a request asks of the server first.
pub open spec fn opening_of(request: RequestView, default_user: Option<Seq<char>>) -> OpeningView {
    let authorization = authorization_of(request.authorization);
    if !request.is_ssh3_connect() {
        OpeningView::Refuse(STATUS_NOT_FOUND)
    } else {
        match session_user_name(request, authorization, default_user) {
            Some(username) => OpeningView::LookUp { username, authorization },
            None => OpeningView::Refuse(STATUS_UNAUTHORIZED),
        }
    }
}

pub fn open_conversation(request: &Request, config: &ServerConfig) -> (opening: Opening)
    ensures
        opening@ == opening_of(request@, config@.default_user),
{
    if !is_ssh3_connect(request) {
        return Opening::Refuse(STATUS_NOT_FOUND);
    }
    let authorization: RequestAuthorization = parse_request_authorization(request);
    match session_username(request, &authorization, config) {
        Some(username) => Opening::LookUp { username, authorization },
        None => Opening::Refuse(STATUS_UNAUTHORIZED),
    }
}

/// How a user is to be checked.
#[derive(Clone, Debug, PartialEq, Eq)]
pub enum AuthorizationStep {
    Accept,
    Reject,
    /// Check the password of the user.
    CheckPassword { username: String, password: String },
    /// Read who may log in from these files, and check the token against them.
    CheckToken { token: String, paths: Vec<Vec<u8>> },
}

/// The mathematical counterpart of [`AuthorizationStep`].
pub enum AuthorizationStepView {
    Accept,
    Reject,
    CheckPassword { username: Seq<char>, password: Seq<char> },
    CheckToken { token: Seq<char>, paths: Seq<Seq<u8>> },
}

impl View for AuthorizationStep {
    type V = AuthorizationStepView;

    open spec fn view(&self) -> AuthorizationStepView {
        match *self {
            AuthorizationStep::Accept => AuthorizationStepView::Accept,
            AuthorizationStep::Reject => AuthorizationStepView::Reject,
            AuthorizationStep::CheckPassword { username, password } =>
                AuthorizationStepView::CheckPassword { username: username@, password: password@ },
            AuthorizationStep::CheckToken { token, paths } => AuthorizationStepView::CheckToken {
                token: token@,
                paths: byte_strings_view(paths@),
            },
        }
    }
}

/// How a user is to be checked. Everybody is accepted where the configuration asks for nothing;
/// otherwise who says nothing is rejected, and so is a password where passwords are not in use, or
/// for somebody else.
pub open spec fn authorization_step(
    authorization: RequestAuthorizationView,
    user: SessionUserView,
    config: ServerConfigView,
) -> AuthorizationStepView {
    if !config.authenticates() {
        AuthorizationStepView::Accept
    } else {
        match authorization {
            RequestAuthorizationView::Basic { username, password } =>
                if config.enable_password_login && username == user.username {
                    AuthorizationStepView::CheckPassword { username, password }
                } else {
                    AuthorizationStepView::Reject
                },
            RequestAuthorizationView::Bearer(token) => AuthorizationStepView::CheckToken {
                token,
                paths: config.identity_paths_for(user),
            },
            RequestAuthorizationView::Absent => AuthorizationStepView::Reject,
        }
    }
}

pub fn authorize_request(
    authorization: &RequestAuthorization,
    user: &SessionUser,
    config: &ServerConfig,
) -> (step: AuthorizationStep)
    ensures
        step@ == authorization_step(authorization@, user@, config@),
{
    if !should_authenticate(config) {
        return AuthorizationStep::Accept;
    }
    match authorization {
        RequestAuthorization::Basic { username, password } => {
            if !config.enable_password_login || !same_text(
                username.as_str(),
                user.username.as_str(),
            ) {
                return AuthorizationStep::Reject;
            }
            AuthorizationStep::CheckPassword {
                username: username.as_str().to_owned(),
                password: password.as_str().to_owned(),
            }
        },
        RequestAuthorization::Bearer(token) => AuthorizationStep::CheckToken {
            token: token.as_str().to_owned(),
            paths: configured_authorized_identity_paths(config, user),
        },
        RequestAuthorization::Absent => AuthorizationStep::Reject,
    }
}

/// The status that answers a user who was checked.
pub fn conversation_status(accepted: bool) -> (status: u16)
    ensures
        status == (if accepted {
            200u16
        } else {
            401u16
        }),
{
    if accepted {
        STATUS_OK
    } else {
        STATUS_UNAUTHORIZED
    }
}

/// A token, what its JSON holds, and what it is to be good for.
pub struct Credential {
    pub token: String,
    pub header: Result<JwtHeader, String>,
    pub claims: Result<JwtClaims, String>,
    pub username: String,
    pub conversation_id: [u8; 32],
    pub now: u64,
}

/// The mathematical counterpart of [`Credential`].
pub struct CredentialView {
    pub token: Seq<char>,
    pub header: Result<JwtHeaderView, Seq<char>>,
    pub claims: Result<JwtClaimsView, Seq<char>>,
    pub username: Seq<char>,
    pub conversation_id: Seq<u8>,
    pub now: u64,
}

impl View for Credential {
    type V = CredentialView;

    open spec fn view(&self) -> CredentialView {
        CredentialView {
            token: self.token@,
            header: header_view(self.header),
            claims: claims_view(self.claims),
            username: self.username@,
            conversation_id: self.conversation_id@,
            now: self.now,
        }
    }
}

impl CredentialView {
    /// Whether an identity accepts the token; `provider` tells what the provider of a user of an
    /// identity provider makes of it.
    pub open spec fn accepted_by(self, identity: AuthorizedIdentityView, provider: bool) -> bool {
        match identity {
            AuthorizedIdentityView::PublicKey(key) => bearer_check(
                key,
                self.token,
                self.header,
                self.claims,
                self.username,
                self.conversation_id,
                self.now,
            ) is Ok,
            AuthorizedIdentityView::Oidc(_) => provider,
        }
    }

    /// What is found from the identity at `from` on: a key that accepts the token, a user of an
    /// identity provider that is to be asked, or neither.
    pub open spec fn found(self, identities: Seq<AuthorizedIdentityView>, from: int) -> TokenStep
        decreases identities.len() - from,
    {
        if from < 0 || from >= identities.len() {
            TokenStep::Reject
        } else {
            match identities[from] {
                AuthorizedIdentityView::PublicKey(_) => if self.accepted_by(
                    identities[from],
                    false,
                ) {
                    TokenStep::Accept
                } else {
                    self.found(identities, from + 1)
                },
                AuthorizedIdentityView::Oidc(_) => TokenStep::AskProvider(from as usize),
            }
        }
    }

    /// Whether the token is accepted from the identity at `from` on, where `provider` tells what
    /// the provider of the user at a place makes of it.
    pub open spec fn accepted_from(
        self,
        identities: Seq<AuthorizedIdentityView>,
        from: int,
        provider: spec_fn(int) -> bool,
    ) -> bool
        decreases identities.len() - from,
    {
        match self.found(identities, from) {
            TokenStep::Accept => true,
            TokenStep::Reject => false,
            TokenStep::AskProvider(place) => if from <= place < identities.len() {
                provider(place as int) || self.accepted_from(identities, place + 1, provider)
            } else {
                false
            },
        }
    }

    /// Checking a list of identities stops at the first that settles the matter: a key that accepts
    /// the token, or a user of an identity provider, who is to be asked; it rejects the token only
    /// where nobody in the list is left.
    pub proof fn lemma_found(self, identities: Seq<AuthorizedIdentityView>, from: int)
        requires
            0 <= from,
            identities.len() <= usize::MAX,
        ensures
            match self.found(identities, from) {
                TokenStep::Accept => exists|i: int| from <= i < identities.len() && (
                #[trigger] identities[i] is PublicKey) && self.accepted_by(identities[i], false),
                TokenStep::Reject => forall|i: int| from <= i < identities.len() ==> (
                #[trigger] identities[i] is PublicKey) && !self.accepted_by(identities[i], false),
                TokenStep::AskProvider(place) => {
                    &&& from <= place < identities.len()
                    &&& identities[place as int] is Oidc
                    &&& forall|i: int| from <= i < place ==> (#[trigger] identities[i] is PublicKey)
                        && !self.accepted_by(identities[i], false)
                },
            },
        decreases identities.len() - from,
    {
        if from < identities.len() && identities[from] is PublicKey && !self.accepted_by(
            identities[from],
            false,
        ) {
            self.lemma_found(identities, from + 1);
        }
    }

    /// A token is accepted exactly where one of the identities accepts it.
    pub proof fn accepted_iff_an_identity_accepts(
        self,
        identities: Seq<AuthorizedIdentityView>,
        from: int,
        provider: spec_fn(int) -> bool,
    )
        requires
            0 <= from,
            identities.len() <= usize::MAX,
        ensures
            self.accepted_from(identities, from, provider) <==> exists|i: int|
                from <= i < identities.len() && self.accepted_by(
                    #[trigger] identities[i],
                    provider(i),
                ),
        decreases identities.len() - from,
    {
        self.lemma_found(identities, from);
        match self.found(identities, from) {
            TokenStep::Accept => {
                let i = choose|i: int|
                    from <= i < identities.len() && (#[trigger] identities[i] is PublicKey)
                        && self.accepted_by(identities[i], false);
                assert(self.accepted_by(identities[i], provider(i)));
            },
            TokenStep::Reject => {},
            TokenStep::AskProvider(place) => {
                self.accepted_iff_an_identity_accepts(identities, place + 1, provider);
                if provider(place as int) {
                    assert(self.accepted_by(identities[place as int], provider(place as int)));
                }
            },
        }
    }
}

/// What checking a token against a list of identities asks for next.
#[derive(Clone, Copy, Debug, PartialEq, Eq, Structural)]
pub enum TokenStep {
    Accept,
    Reject,
    /// Ask the provider of the identity at this place; go on after it where it refuses.
    AskProvider(usize),
}

/// Checks a token against the identities from `from` on.
pub fn check_token(
    identities: &[AuthorizedIdentity],
    credential: &Credential,
    from: usize,
) -> (step: TokenStep)
    ensures
        step == credential@.found(identities_view(identities@), from as int),
{
    let ghost all = identities_view(identities@);
    let mut i: usize = from;
    while i < identities.len()
        invariant
            from <= i,
            all == identities_view(identities@),
            credential@.found(all, i as int) == credential@.found(all, from as int),
        decreases identities@.len() - i,
    {
        proof {
            assert(all[i as int] == identities@[i as int]@);
        }
        match &identities[i] {
            AuthorizedIdentity::PublicKey(key) => {
                let checked = verify_bearer_token(
                    key,
                    credential.token.as_str(),
                    &credential.header,
                    &credential.claims,
                    credential.username.as_str(),
                    &credential.conversation_id,
                    credential.now,
                );
                if checked.is_ok() {
                    return TokenStep::Accept;
                }
            },
            AuthorizedIdentity::Oidc(_) => {
                return TokenStep::AskProvider(i);
            },
        }
        i = i + 1;
    }
    TokenStep::Reject
}

/// Who says nothing about themselves is refused by a server that asks for it, and only requests
/// for conversations get any further.
pub proof fn refusals(
    request: RequestView,
    user: SessionUserView,
    config: ServerConfigView,
)
    ensures
        !request.is_ssh3_connect() ==> opening_of(request, config.default_user)
            == OpeningView::Refuse(STATUS_NOT_FOUND),
        config.authenticates() ==> authorization_step(
            RequestAuthorizationView::Absent,
            user,
            config,
        ) == AuthorizationStepView::Reject,
        config.authenticates() && !config.enable_password_login ==> forall|
            username: Seq<char>,
            password: Seq<char>,
        | #[trigger]
            authorization_step(
                RequestAuthorizationView::Basic { username, password },
                user,
                config,
            ) == AuthorizationStepView::Reject,
{
}

/// Where a server asks who a request is from, every token is checked, for every user, against the
/// files that list who may log in as the user, whether or not passwords are in use.
pub proof fn every_token_is_checked(
    token: Seq<char>,
    user: SessionUserView,
    config: ServerConfigView,
)
    requires
        config.require_authentication || config.enable_password_login
            || config.authorized_identity_paths.len() > 0,
    ensures
        authorization_step(RequestAuthorizationView::Bearer(token), user, config) == (
        AuthorizationStepView::CheckToken {
            token,
            paths: if config.authorized_identity_paths.len() > 0 {
                config.authorized_identity_paths
            } else {
                user.default_identity_paths()
            },
        }),
{
}

/// Where passwords are in use, the password that is given for the user is checked, as it is given;
/// one that is given for anybody else is not, and neither is any where passwords are not in use.
pub proof fn password_of_the_user_is_checked(
    username: Seq<char>,
    password: Seq<char>,
    user: SessionUserView,
    config: ServerConfigView,
)
    ensures
        config.enable_password_login ==> authorization_step(
            RequestAuthorizationView::Basic { username: user.username, password },
            user,
            config,
        ) == (AuthorizationStepView::CheckPassword { username: user.username, password }),
        config.enable_password_login && username != user.username ==> authorization_step(
            RequestAuthorizationView::Basic { username, password },
            user,
            config,
        ) is Reject,
        !config.enable_password_login && (config.require_authentication
            || config.authorized_identity_paths.len() > 0) ==> authorization_step(
            RequestAuthorizationView::Basic { username, password },
            user,
            config,
        ) is Reject,
{
}

/// Everybody is accepted unchecked exactly where the server asks for nothing.
pub proof fn unchecked_only_where_nothing_is_asked(
    authorization: RequestAuthorizationView,
    user: SessionUserView,
    config: ServerConfigView,
)
    ensures
        authorization_step(authorization, user, config) is Accept <==> (
        !config.require_authentication && !config.enable_password_login
            && config.authorized_identity_paths.len() == 0),
        authorization is Absent && (config.require_authentication || config.enable_password_login
            || config.authorized_identity_paths.len() > 0) ==> authorization_step(
            authorization,
            user,
            config,
        ) is Reject,
{
}

/// A request for a conversation gets as far as its user is looked up wherever it names one or one
/// is configured, with what its header says of who it is from; any other is refused, as what it is.
pub proof fn request_is_opened_for_its_user(request: RequestView, default_user: Option<Seq<char>>)
    ensures
        ({
            let authorization = authorization_of(request.authorization);
            let user = session_user_name(request, authorization, default_user);
            let connects = request.method == "CONNECT"@ && request.protocol == Some("ssh3"@);
            &&& connects && user is Some ==> opening_of(request, default_user) == (
            OpeningView::LookUp { username: user->0, authorization })
            &&& connects && user is None ==> opening_of(request, default_user)
                == OpeningView::Refuse(401)
            &&& !connects ==> opening_of(request, default_user) == OpeningView::Refuse(404)
        }),
{
}

/// Who gives a name with a password is that user, whatever else the request says.
pub proof fn password_names_the_user(
    request: RequestView,
    username: Seq<char>,
    password: Seq<char>,
    default_user: Option<Seq<char>>,
)
    requires
        username.len() > 0,
    ensures
        session_user_name(
            request,
            RequestAuthorizationView::Basic { username, password },
            default_user,
        ) == Some(username),
{
}

/// Otherwise the user is the one that the header names, without the white space around it, then the
/// one that the query names, and the configured one where neither does.
pub proof fn header_names_the_user_before_the_query(
    request: RequestView,
    authorization: RequestAuthorizationView,
    name: Seq<char>,
    default_user: Option<Seq<char>>,
)
    requires
        !(authorization is Basic) || authorization->username.len() == 0,
    ensures
        header_text_of(request.user) matches Some(text) ==> trimmed(text) == name && name.len() > 0
            ==> session_user_name(request, authorization, default_user) == Some(name),
        (header_text_of(request.user) is None || trimmed(header_text_of(request.user)->0).len()
            == 0) && request.query is Some && query_value(request.query->0, "user"@) == Some(name)
            ==> session_user_name(request, authorization, default_user) == Some(name),
        (header_text_of(request.user) is None || trimmed(header_text_of(request.user)->0).len()
            == 0) && (request.query is None || query_value(request.query->0, "user"@) is None)
            ==> session_user_name(request, authorization, default_user) == default_user,
{
}

/// An entry of a query gives its value to its key, and to no other; one without a value gives
/// none.
pub proof fn entry_gives_its_value(key: Seq<char>, value: Seq<char>, name: Seq<char>)
    requires
        !key.contains('='),
        !key.contains('&'),
        !value.contains('&'),
    ensures
        query_value(key + "="@ + value, name) == (if key == name && value.len() > 0 {
            Some(value)
        } else {
            None
        }),
{
    lemma_entry(key, value);
    let entry = key + "="@ + value;
    first_at_is(entry, '&', entry.len() as int);
}

/// The first entry of a query that gives a value to a key is the one that counts, wherever it
/// stands.
pub proof fn first_entry_counts(
    key: Seq<char>,
    value: Seq<char>,
    rest: Seq<char>,
    name: Seq<char>,
)
    requires
        !key.contains('='),
        !key.contains('&'),
        !value.contains('&'),
    ensures
        query_value(key + "="@ + value + "&"@ + rest, name) == (if key == name && value.len() > 0 {
            Some(value)
        } else {
            query_value(rest, name)
        }),
{
    lemma_entry(key, value);
    reveal_strlit("&");
    let entry = key + "="@ + value;
    let query = entry + "&"@ + rest;
    assert forall|j: int| 0 <= j < entry.len() implies query[j] != '&' by {
        assert(query[j] == entry[j]);
    }
    assert(query[entry.len() as int] == '&');
    first_at_is(query, '&', entry.len() as int);
    assert(query.take(entry.len() as int) =~= entry);
    assert(query.skip(entry.len() as int + 1) =~= rest);
}

proof fn lemma_entry(key: Seq<char>, value: Seq<char>)
    requires
        !key.contains('='),
        !key.contains('&'),
        !value.contains('&'),
    ensures
        query_entry(key + "="@ + value) == (key, value),
        forall|j: int| 0 <= j < (key + "="@ + value).len() ==> #[trigger] (key + "="@ + value)[j]
            != '&',
{
    reveal_strlit("=");
    let entry = key + "="@ + value;
    assert forall|j: int| 0 <= j < key.len() implies entry[j] != '=' by {
        assert(entry[j] == key[j]);
        assert(key.contains(key[j]));
    }
    assert(entry[key.len() as int] == '=');
    first_at_is(entry, '=', key.len() as int);
    assert(entry.take(key.len() as int) =~= key);
    assert(entry.skip(key.len() as int + 1) =~= value);
    assert forall|j: int| 0 <= j < entry.len() implies #[trigger] entry[j] != '&' by {
        if j < key.len() {
            assert(entry[j] == key[j]);
            assert(key.contains(key[j]));
        } else if j > key.len() {
            assert(entry[j] == value[j - key.len() - 1]);
            assert(value.contains(value[j - key.len() - 1]));
        }
    }
}

/// What follows a scheme counts in whatever case the scheme is written, without the white space
/// around it; without a blank behind the scheme nothing does.
pub proof fn scheme_is_read_in_any_case(scheme: Seq<char>, written: Seq<char>, rest: Seq<char>)
    requires
        written.len() == scheme.len(),
        lowered(written) == lowered(scheme),
    ensures
        after_scheme(written + " "@ + rest, scheme) == Some(trimmed(rest)),
        after_scheme(written, scheme) is None,
{
    reveal_strlit(" ");
    let value = written + " "@ + rest;
    assert(value.take(scheme.len() as int) =~= written);
    assert(value[scheme.len() as int] == ' ');
    assert(value.skip(scheme.len() as int + 1) =~= rest);
}

/// A password may hold anything, colons too: the name ends at the first.
pub proof fn name_ends_at_the_first_colon(username: Seq<char>, password: Seq<char>)
    requires
        !username.contains(':'),
    ensures
        basic_credentials(encode_utf8(username + ":"@ + password)) == (
        RequestAuthorizationView::Basic { username, password }),
{
    reveal_strlit(":");
    let text = username + ":"@ + password;
    encode_utf8_valid_utf8(text);
    encode_utf8_decode_utf8(text);
    assert forall|j: int| 0 <= j < username.len() implies text[j] != ':' by {
        assert(text[j] == username[j]);
        assert(username.contains(username[j]));
    }
    assert(text[username.len() as int] == ':');
    first_at_is(text, ':', username.len() as int);
    assert(text.take(username.len() as int) =~= username);
    assert(text.skip(username.len() as int + 1) =~= password);
}

/// What follows the name of a scheme is read as what the scheme says it is: a token as it is, and
/// credentials as what they decode to.
pub proof fn credentials_are_read_by_their_scheme(rest: Seq<char>, bytes: Seq<u8>)
    ensures
        trimmed(rest).len() > 0 ==> authorization_of_text("Bearer"@ + " "@ + rest)
            == RequestAuthorizationView::Bearer(trimmed(rest)),
        standard_bytes(trimmed(rest)) == Some(bytes) ==> authorization_of_text(
            "Basic"@ + " "@ + rest,
        ) == basic_credentials(bytes),
        authorization_of(None) is Absent,
        forall|value: Seq<u8>|
            visible_header(value) ==> #[trigger] authorization_of(Some(value))
                == authorization_of_text(decode_utf8(value)),
{
    reveal_strlit("Bearer");
    reveal_strlit("Basic");
    scheme_is_read_in_any_case("Bearer"@, "Bearer"@, rest);
    scheme_is_read_in_any_case("Basic"@, "Basic"@, rest);
    let value = "Bearer"@ + " "@ + rest;
    assert(lowered(value.take(5))[1] == 'e');
    assert(lowered("Basic"@)[1] == 'a');
}

/// A key of the list accepts a token exactly where the token is the key's, for the user and the
/// conversation of the request, at the time of the request; the user of a provider does exactly
/// where the provider does.
pub proof fn identities_accept_their_own(
    credential: CredentialView,
    identity: AuthorizedIdentityView,
    provider: bool,
)
    ensures
        identity matches AuthorizedIdentityView::PublicKey(key) ==> (credential.accepted_by(
            identity,
            provider,
        ) <==> bearer_check(
            key,
            credential.token,
            credential.header,
            credential.claims,
            credential.username,
            credential.conversation_id,
            credential.now,
        ) is Ok),
        identity is Oidc ==> credential.accepted_by(identity, provider) == provider,
{
}

} // verus!
