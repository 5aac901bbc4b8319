//! Logging in at an identity provider through a browser.

use crate::auth::encoding::{url_safe_encode, url_safe_text};
use crate::client::config::{OidcConfig, OidcConfigView};
use crate::client::error::{OidcError, OidcErrorView};
use crate::text::{
    decimal, decimal_digits, first_line_ends_at_its_end, first_word_ends_at_white_space,
    is_white_space, joined, lines, lines_of, same_text, split_whitespace, text_view, texts_view,
    words,
};
use vstd::prelude::*;
use vstd::string::*;
use vstd::utf8::encode_utf8;

verus! {

/// What a client asks an identity provider to tell about its user.
pub const DEFAULT_OIDC_SCOPE: &'static str = "openid email";

/// Where the browser comes back to.
pub const OIDC_CALLBACK_PATH: &'static str = "/ssh";

/// How many random bytes tell the log in of one browser from that of another.
pub const OIDC_STATE_BYTES: usize = 24;

/// How many random bytes are behind the secret that proves that a code was asked for.
pub const OIDC_VERIFIER_BYTES: usize = 48;

/// How many random bytes a log in takes.
#[derive(Clone, Copy, Debug, PartialEq, Eq)]
pub struct SecretSizes {
    pub state: usize,
    /// Nothing where codes are exchanged without such a secret.
    pub verifier: Option<usize>,
}

/// How many random bytes the log in with a configuration takes.
pub fn secret_sizes(oidc: &OidcConfig) -> (sizes: SecretSizes)
    ensures
        sizes.state == OIDC_STATE_BYTES,
        sizes.verifier == (if oidc@.use_pkce {
            Some(OIDC_VERIFIER_BYTES)
        } else {
            None
        }),
{
    SecretSizes {
        state: OIDC_STATE_BYTES,
        verifier: if oidc.use_pkce {
            Some(OIDC_VERIFIER_BYTES)
        } else {
            None
        },
    }
}

/// A key and a value.
pub type Pair = (String, String);

pub open spec fn pairs_view(pairs: Seq<(String, String)>) -> Seq<(Seq<char>, Seq<char>)> {
    pairs.map_values(|pair: (String, String)| (pair.0@, pair.1@))
}

/// What SHA-256 makes of some bytes.
pub uninterp spec fn sha256_of(bytes: Seq<u8>) -> Seq<u8>;

/// An address with pairs behind its query, or why the address is none.
pub uninterp spec fn url_with_pairs(
    url: Seq<char>,
    pairs: Seq<(Seq<char>, Seq<char>)>,
) -> Result<Seq<char>, Seq<char>>;

/// The pairs in the query of an address, or why the address is none.
pub uninterp spec fn url_pairs(url: Seq<char>) -> Result<Seq<(Seq<char>, Seq<char>)>, Seq<char>>;

/// `sha2::Sha256::digest`: its result is named, and has 32 bytes.
#[verifier::external_body]
fn sha256(bytes: &[u8]) -> (digest: Vec<u8>)
    ensures
        digest@ == sha256_of(bytes@),
        digest@.len() == 32,
{
    <sha2::Sha256 as sha2::Digest>::digest(bytes).to_vec()
}

/// `try_fill_bytes` of `rand::rngs::OsRng`: as many random bytes as are asked for, or none where
/// the system has none to give. To fill nothing always succeeds: the system is not asked. Nothing
/// is said of what the bytes are, nor of when the system has some to give.
#[verifier::external_body]
fn random_bytes(count: usize) -> (bytes: Option<Vec<u8>>)
    ensures
        bytes matches Some(bytes) ==> bytes@.len() == count,
        count == 0 ==> bytes is Some,
{
    let mut bytes = vec![0u8; count];
    rand::RngCore::try_fill_bytes(&mut rand::rngs::OsRng, &mut bytes).ok().map(|()| bytes)
}

/// `url::Url::parse`, and `query_pairs_mut` of its result with every pair appended: the result is
/// named, an error by its message.
#[verifier::external_body]
fn append_pairs(url: &str, pairs: &[Pair]) -> (result: Result<String, String>)
    ensures
        (match result {
            Ok(url) => Ok(url@),
            Err(text) => Err(text@),
        }) == url_with_pairs(url@, pairs_view(pairs@)),
{
    let mut url = url::Url::parse(url).map_err(|error| error.to_string())?;
    url.query_pairs_mut().extend_pairs(pairs);
    Ok(url.to_string())
}

/// `url::Url::parse`, and `query_pairs` of its result: the result is named, an error by its
/// message.
#[verifier::external_body]
fn query_pairs(url: &str) -> (result: Result<Vec<Pair>, String>)
    ensures
        (match result {
            Ok(pairs) => Ok(pairs_view(pairs@)),
            Err(text) => Err(text@),
        }) == url_pairs(url@),
{
    let url = url::Url::parse(url).map_err(|error| error.to_string())?;
    Ok(url.query_pairs().map(|(key, value)| (key.into_owned(), value.into_owned())).collect())
}

/// The bytes that the system gave, as text; nothing where it gave none.
pub fn given_bytes_text(bytes: Option<Vec<u8>>) -> (text: Option<String>)
    ensures
        text_view(text) == match bytes {
            Some(bytes) => Some(url_safe_text(bytes@)),
            None => None,
        },
{
    match bytes {
        Some(bytes) => Some(url_safe_encode(bytes.as_slice())),
        None => None,
    }
}

/// Random bytes as text, or nothing where the system has none to give. The text of no bytes needs
/// none.
pub fn random_urlsafe(bytes_len: usize) -> (text: Option<String>)
    ensures
        text matches Some(text) ==> exists|bytes: Seq<u8>|
            bytes.len() == bytes_len && text@ == #[trigger] url_safe_text(bytes),
        bytes_len == 0 ==> text_view(text) == Some(url_safe_text(Seq::empty())),
{
    let bytes: Option<Vec<u8>> = random_bytes(bytes_len);
    proof {
        if bytes_len == 0 {
            assert(bytes->0@ =~= Seq::<u8>::empty());
        }
    }
    given_bytes_text(bytes)
}

/// What a client tells the provider of the secret that it tells later.
pub open spec fn code_challenge_of(verifier: Seq<char>) -> Seq<char> {
    url_safe_text(sha256_of(encode_utf8(verifier)))
}

pub fn oidc_code_challenge(verifier: &str) -> (challenge: String)
    ensures
        challenge@ == code_challenge_of(verifier@),
{
    let digest: Vec<u8> = sha256(verifier.as_bytes());
    url_safe_encode(digest.as_slice())
}

/// Where the browser comes back to, where the client listens on this port.
pub fn redirect_uri(port: u16) -> (uri: String)
    ensures
        uri@ == "http://127.0.0.1:"@ + decimal_digits(port as nat) + OIDC_CALLBACK_PATH@,
{
    let host: String = joined("http://127.0.0.1:", decimal(port as u64).as_str());
    joined(host.as_str(), OIDC_CALLBACK_PATH)
}

/// What a client asks a provider for in the browser.
pub open spec fn authorization_pairs_of(
    oidc: OidcConfigView,
    redirect: Seq<char>,
    state: Seq<char>,
    verifier: Option<Seq<char>>,
) -> Seq<(Seq<char>, Seq<char>)> {
    let pairs = seq![
        ("response_type"@, "code"@),
        ("client_id"@, oidc.client_id),
        ("redirect_uri"@, redirect),
        ("scope"@, DEFAULT_OIDC_SCOPE@),
        ("state"@, state),
    ];
    match verifier {
        Some(verifier) => pairs + seq![
            ("code_challenge"@, code_challenge_of(verifier)),
            ("code_challenge_method"@, "S256"@),
        ],
        None => pairs,
    }
}

pub open spec fn optional_text(text: Option<&str>) -> Option<Seq<char>> {
    match text {
        Some(text) => Some(text@),
        None => None,
    }
}

fn push_pair(pairs: &mut Vec<Pair>, key: &str, value: &str)
    ensures
        pairs_view(final(pairs)@) == pairs_view(old(pairs)@).push((key@, value@)),
{
    pairs.push((key.to_owned(), value.to_owned()));
    proof {
        assert(pairs_view(pairs@) =~= pairs_view(old(pairs)@).push((key@, value@)));
    }
}

/// What a client asks a provider for in the browser.
pub fn authorization_pairs(
    oidc: &OidcConfig,
    redirect: &str,
    state: &str,
    verifier: Option<&str>,
) -> (pairs: Vec<Pair>)
    ensures
        pairs_view(pairs@) == authorization_pairs_of(
            oidc@,
            redirect@,
            state@,
            optional_text(verifier),
        ),
{
    let mut pairs: Vec<Pair> = Vec::new();
    push_pair(&mut pairs, "response_type", "code");
    push_pair(&mut pairs, "client_id", oidc.client_id.as_str());
    push_pair(&mut pairs, "redirect_uri", redirect);
    push_pair(&mut pairs, "scope", DEFAULT_OIDC_SCOPE);
    push_pair(&mut pairs, "state", state);
    if let Some(verifier) = verifier {
        push_pair(&mut pairs, "code_challenge", oidc_code_challenge(verifier).as_str());
        push_pair(&mut pairs, "code_challenge_method", "S256");
    }
    proof {
        assert(pairs_view(pairs@) =~= authorization_pairs_of(
            oidc@,
            redirect@,
            state@,
            optional_text(verifier),
        ));
    }
    pairs
}

/// The address that a client opens in the browser.
pub fn authorization_url(
    endpoint: &str,
    oidc: &OidcConfig,
    redirect: &str,
    state: &str,
    verifier: Option<&str>,
) -> (result: Result<String, OidcError>)
    ensures
        (match result {
            Ok(url) => Ok(url@),
            Err(error) => Err(error@),
        }) == match url_with_pairs(
            endpoint@,
            authorization_pairs_of(oidc@, redirect@, state@, optional_text(verifier)),
        ) {
            Ok(url) => Ok(url),
            Err(text) => Err(OidcErrorView::Url(text)),
        },
{
    let pairs: Vec<Pair> = authorization_pairs(oidc, redirect, state, verifier);
    match append_pairs(endpoint, pairs.as_slice()) {
        Ok(url) => Ok(url),
        Err(text) => Err(OidcError::Url(text)),
    }
}

/// Whether the end of the headers of a request has come.
pub open spec fn headers_end(buffer: Seq<u8>) -> bool {
    exists|i: int|
        0 <= i <= buffer.len() - 4 && #[trigger] buffer[i] == 13 && buffer[i + 1] == 10
            && buffer[i + 2] == 13 && buffer[i + 3] == 10
}

/// Whether a request is read far enough.
pub fn request_is_complete(buffer: &[u8]) -> (complete: bool)
    ensures
        complete == headers_end(buffer@),
{
    if buffer.len() < 4 {
        return false;
    }
    let mut i: usize = 0;
    while i <= buffer.len() - 4
        invariant
            buffer@.len() >= 4,
            i <= buffer@.len() - 3,
            forall|j: int|
                0 <= j < i ==> !(#[trigger] buffer@[j] == 13 && buffer@[j + 1] == 10
                    && buffer@[j + 2] == 13 && buffer@[j + 3] == 10),
        decreases buffer@.len() - i,
    {
        if buffer[i] == 13 && buffer[i + 1] == 10 && buffer[i + 2] == 13 && buffer[i + 3] == 10 {
            return true;
        }
        i = i + 1;
    }
    false
}

/// What a request is for: the second word of its first line.
pub open spec fn request_target(request: Seq<char>) -> Option<Seq<char>> {
    let all = lines_of(request);
    if all.len() == 0 || words(all[0]).len() < 2 {
        None
    } else {
        Some(words(all[0])[1])
    }
}

fn target_of(request: &str) -> (target: Option<String>)
    ensures
        text_view(target) == request_target(request@),
{
    let all: Vec<String> = lines(request);
    proof {
        assert(texts_view(all@).len() == all@.len());
    }
    if all.len() == 0 {
        return None;
    }
    let parts: Vec<String> = split_whitespace(all[0].as_str());
    proof {
        assert(texts_view(all@)[0] == all@[0]@);
        assert(texts_view(parts@).len() == parts@.len());
    }
    if parts.len() < 2 {
        return None;
    }
    proof {
        assert(texts_view(parts@)[1] == parts@[1]@);
    }
    Some(parts[1].as_str().to_owned())
}

/// The last value of a key among pairs.
pub open spec fn last_value(pairs: Seq<(Seq<char>, Seq<char>)>, key: Seq<char>) -> Option<Seq<char>>
    decreases pairs.len(),
{
    if pairs.len() == 0 {
        None
    } else if pairs.last().0 == key {
        Some(pairs.last().1)
    } else {
        last_value(pairs.drop_last(), key)
    }
}

fn find_last(pairs: &[Pair], key: &str) -> (value: Option<String>)
    ensures
        text_view(value) == last_value(pairs_view(pairs@), key@),
{
    let ghost all = pairs_view(pairs@);
    let mut i: usize = pairs.len();
    proof {
        assert(all.take(i as int) =~= all);
    }
    while i > 0
        invariant
            i <= pairs@.len(),
            all == pairs_view(pairs@),
            last_value(all.take(i as int), key@) == last_value(all, key@),
        decreases i,
    {
        proof {
            assert(all.take(i as int).last() == (pairs@[i - 1].0@, pairs@[i - 1].1@));
            assert(all.take(i as int).drop_last() =~= all.take(i - 1));
        }
        if same_text(pairs[i - 1].0.as_str(), key) {
            return Some(pairs[i - 1].1.as_str().to_owned());
        }
        i = i - 1;
    }
    proof {
        assert(all.take(0) =~= Seq::<(Seq<char>, Seq<char>)>::empty());
    }
    None
}

/// A response with a text in it.
pub open spec fn response_text(status_line: Seq<char>, body: Seq<char>) -> Seq<char> {
    status_line + "\r\ncontent-type: text/plain; charset=utf-8\r\ncontent-length: "@
        + decimal_digits(encode_utf8(body).len()) + "\r\nconnection: close\r\n\r\n"@ + body
}

fn callback_response(status_line: &str, body: &str) -> (response: String)
    requires
        body.spec_bytes().len() <= u64::MAX,
    ensures
        response@ == response_text(status_line@, body@),
{
    let length: usize = body.as_bytes().len();
    let start: String = joined(
        status_line,
        "\r\ncontent-type: text/plain; charset=utf-8\r\ncontent-length: ",
    );
    let start: String = joined(start.as_str(), decimal(length as u64).as_str());
    let start: String = joined(start.as_str(), "\r\nconnection: close\r\n\r\n");
    joined(start.as_str(), body)
}

/// What the browser is answered, and what came of the log in.
#[derive(Debug, PartialEq, Eq)]
pub struct Callback {
    pub response: String,
    pub outcome: Result<String, OidcError>,
}

/// The mathematical counterpart of [`Callback`].
pub struct CallbackView {
    pub response: Seq<char>,
    pub outcome: Result<Seq<char>, OidcErrorView>,
}

impl View for Callback {
    type V = CallbackView;

    open spec fn view(&self) -> CallbackView {
        CallbackView {
            response: self.response@,
            outcome: match self.outcome {
                Ok(code) => Ok(code@),
                Err(error) => Err(error@),
            },
        }
    }
}

/// What the browser is answered where it comes back with these pairs. An error of the provider
/// counts first, then whether the browser comes from the log in that was started.
pub open spec fn callback_of(
    pairs: Seq<(Seq<char>, Seq<char>)>,
    expected_state: Seq<char>,
) -> CallbackView {
    let bad = "HTTP/1.1 400 Bad Request"@;
    match (last_value(pairs, "error"@), last_value(pairs, "code"@)) {
        (Some(text), _) => CallbackView {
            response: response_text(bad, "OIDC authentication failed.\n"@),
            outcome: Err(OidcErrorView::ProviderError(text)),
        },
        (None, code) => if last_value(pairs, "state"@) != Some(expected_state) {
            CallbackView {
                response: response_text(bad, "OIDC state mismatch.\n"@),
                outcome: Err(OidcErrorView::InvalidResponse("OIDC state mismatch"@)),
            }
        } else {
            match code {
                None => CallbackView {
                    response: response_text(bad, "OIDC callback missing code.\n"@),
                    outcome: Err(OidcErrorView::InvalidResponse("OIDC callback missing code"@)),
                },
                Some(code) => CallbackView {
                    response: response_text("HTTP/1.1 200 OK"@, "you can now close this tab"@),
                    outcome: Ok(code),
                },
            }
        },
    }
}

/// What the browser is answered where it comes back with these pairs.
pub fn answer_callback(pairs: &[Pair], expected_state: &str) -> (callback: Callback)
    ensures
        callback@ == callback_of(pairs_view(pairs@), expected_state@),
{
    proof {
        reveal_strlit("OIDC authentication failed.\n");
        reveal_strlit("OIDC state mismatch.\n");
        reveal_strlit("OIDC callback missing code.\n");
        reveal_strlit("you can now close this tab");
        assert("OIDC authentication failed.\n".is_ascii());
        assert("OIDC state mismatch.\n".is_ascii());
        assert("OIDC callback missing code.\n".is_ascii());
        assert("you can now close this tab".is_ascii());
    }
    let bad: &str = "HTTP/1.1 400 Bad Request";
    if let Some(text) = find_last(pairs, "error") {
        return Callback {
            response: callback_response(bad, "OIDC authentication failed.\n"),
            outcome: Err(OidcError::ProviderError(text)),
        };
    }
    let matching: bool = match find_last(pairs, "state") {
        Some(state) => same_text(state.as_str(), expected_state),
        None => false,
    };
    if !matching {
        return Callback {
            response: callback_response(bad, "OIDC state mismatch.\n"),
            outcome: Err(OidcError::InvalidResponse("OIDC state mismatch")),
        };
    }
    match find_last(pairs, "code") {
        None => Callback {
            response: callback_response(bad, "OIDC callback missing code.\n"),
            outcome: Err(OidcError::InvalidResponse("OIDC callback missing code")),
        },
        Some(code) => Callback {
            response: callback_response("HTTP/1.1 200 OK", "you can now close this tab"),
            outcome: Ok(code),
        },
    }
}

/// A code is taken only from the browser that comes from the log in that was started, and only
/// where the provider reports no error.
pub proof fn code_needs_the_state(pairs: Seq<(Seq<char>, Seq<char>)>, expected_state: Seq<char>)
    ensures
        callback_of(pairs, expected_state).outcome matches Ok(code) ==> last_value(pairs, "state"@)
            == Some(expected_state) && last_value(pairs, "error"@) is None && last_value(
            pairs,
            "code"@,
        ) == Some(code),
{
}

/// What is made of the request that the browser comes back with: an answer, or an error where it
/// cannot be read.
pub open spec fn callback_request(request: Seq<char>, expected_state: Seq<char>) -> Result<
    CallbackView,
    OidcErrorView,
> {
    match request_target(request) {
        None => Err(OidcErrorView::InvalidResponse("malformed OIDC callback request"@)),
        Some(target) => match url_pairs("http://localhost"@ + target) {
            Err(text) => Err(OidcErrorView::Url(text)),
            Ok(pairs) => Ok(callback_of(pairs, expected_state)),
        },
    }
}

pub fn handle_callback(request: &str, expected_state: &str) -> (result: Result<Callback, OidcError>)
    ensures
        (match result {
            Ok(callback) => Ok(callback@),
            Err(error) => Err(error@),
        }) == callback_request(request@, expected_state@),
{
    let target: String = match target_of(request) {
        Some(target) => target,
        None => {
            return Err(OidcError::InvalidResponse("malformed OIDC callback request"));
        },
    };
    let url: String = joined("http://localhost", target.as_str());
    match query_pairs(url.as_str()) {
        Ok(pairs) => Ok(answer_callback(pairs.as_slice(), expected_state)),
        Err(text) => Err(OidcError::Url(text)),
    }
}

/// What a client sends a provider for a token.
pub open spec fn token_form_of(
    oidc: OidcConfigView,
    redirect: Seq<char>,
    code: Seq<char>,
    verifier: Option<Seq<char>>,
) -> Seq<(Seq<char>, Seq<char>)> {
    let form = seq![
        ("grant_type"@, "authorization_code"@),
        ("code"@, code),
        ("client_id"@, oidc.client_id),
        ("redirect_uri"@, redirect),
    ];
    let secret = match oidc.client_secret {
        Some(secret) => seq![("client_secret"@, secret)],
        None => Seq::empty(),
    };
    let proof_of_start = match verifier {
        Some(verifier) => seq![("code_verifier"@, verifier)],
        None => Seq::empty(),
    };
    form + secret + proof_of_start
}

pub fn token_form(oidc: &OidcConfig, redirect: &str, code: &str, verifier: Option<&str>) -> (form:
    Vec<Pair>)
    ensures
        pairs_view(form@) == token_form_of(oidc@, redirect@, code@, optional_text(verifier)),
{
    let mut form: Vec<Pair> = Vec::new();
    push_pair(&mut form, "grant_type", "authorization_code");
    push_pair(&mut form, "code", code);
    push_pair(&mut form, "client_id", oidc.client_id.as_str());
    push_pair(&mut form, "redirect_uri", redirect);
    if let Some(secret) = &oidc.client_secret {
        push_pair(&mut form, "client_secret", secret.as_str());
    }
    if let Some(verifier) = verifier {
        push_pair(&mut form, "code_verifier", verifier);
    }
    proof {
        assert(pairs_view(form@) =~= token_form_of(
            oidc@,
            redirect@,
            code@,
            optional_text(verifier),
        ));
    }
    form
}

/// Refuses any status of the token endpoint but the one for success; `form` is the status as text.
pub fn check_token_status(status: u16, form: &str) -> (result: Result<(), OidcError>)
    ensures
        match result {
            Ok(()) => status == 200,
            Err(error) => status != 200 && error@ == OidcErrorView::ProviderError(
                "OIDC token endpoint returned "@ + form@,
            ),
        },
{
    if status != 200 {
        return Err(OidcError::ProviderError(joined("OIDC token endpoint returned ", form)));
    }
    Ok(())
}

/// The token in what the token endpoint answers.
pub fn received_token(id_token: Option<String>) -> (result: Result<String, OidcError>)
    ensures
        match result {
            Ok(token) => text_view(id_token) == Some(token@) && token@.len() > 0,
            Err(error) => {
                &&& id_token matches Some(token) ==> token@.len() == 0
                &&& error@ == OidcErrorView::InvalidResponse(
                    "OIDC token response did not include an id_token"@,
                )
            },
        },
{
    match id_token {
        Some(token) => if token.as_str().unicode_len() > 0 {
            Ok(token)
        } else {
            Err(OidcError::InvalidResponse("OIDC token response did not include an id_token"))
        },
        None => Err(OidcError::InvalidResponse("OIDC token response did not include an id_token")),
    }
}

/// The last pair with a key is the one that counts.
pub proof fn last_pair_counts(
    pairs: Seq<(Seq<char>, Seq<char>)>,
    key: Seq<char>,
    value: Seq<char>,
    wanted: Seq<char>,
)
    ensures
        last_value(pairs.push((key, value)), wanted) == (if key == wanted {
            Some(value)
        } else {
            last_value(pairs, wanted)
        }),
        last_value(Seq::empty(), wanted) is None,
{
    assert(pairs.push((key, value)).drop_last() =~= pairs);
}

/// The browser that comes back from the log in that was started, with a code and without an error,
/// gives the code, and is told that it is done; an error of the provider is told first, then another
/// state, then that there is no code, each with an answer that says that it went wrong.
pub proof fn code_is_taken_from_the_right_browser(
    pairs: Seq<(Seq<char>, Seq<char>)>,
    expected_state: Seq<char>,
    code: Seq<char>,
)
    ensures
        ({
            let callback = callback_of(pairs, expected_state);
            let error = last_value(pairs, "error"@);
            let right = last_value(pairs, "state"@) == Some(expected_state);
            let given = last_value(pairs, "code"@);
            &&& error is None && right && given == Some(code) ==> callback.outcome == Ok::<
                Seq<char>,
                OidcErrorView,
            >(code) && callback.response == response_text(
                "HTTP/1.1 200 OK"@,
                "you can now close this tab"@,
            )
            &&& error matches Some(text) ==> callback.outcome == Err::<Seq<char>, OidcErrorView>(
                OidcErrorView::ProviderError(text),
            ) && callback.response == response_text(
                "HTTP/1.1 400 Bad Request"@,
                "OIDC authentication failed.\n"@,
            )
            &&& error is None && !right ==> callback.outcome == Err::<Seq<char>, OidcErrorView>(
                OidcErrorView::InvalidResponse("OIDC state mismatch"@),
            ) && callback.response == response_text(
                "HTTP/1.1 400 Bad Request"@,
                "OIDC state mismatch.\n"@,
            )
            &&& error is None && right && given is None ==> callback.outcome == Err::<
                Seq<char>,
                OidcErrorView,
            >(OidcErrorView::InvalidResponse("OIDC callback missing code"@))
                && callback.response == response_text(
                "HTTP/1.1 400 Bad Request"@,
                "OIDC callback missing code.\n"@,
            )
        }),
{
}

/// An answer tells how many bytes its text has, and ends with the text.
pub proof fn answers_tell_their_length(status_line: Seq<char>, body: Seq<char>)
    ensures
        response_text(status_line, body) == status_line
            + "\r\ncontent-type: text/plain; charset=utf-8\r\ncontent-length: "@ + decimal_digits(
            encode_utf8(body).len(),
        ) + "\r\nconnection: close\r\n\r\n"@ + body,
{
}

/// A request is for the second word of its first line, whatever follows.
pub proof fn request_is_for_its_second_word(
    method: Seq<char>,
    target: Seq<char>,
    version: Seq<char>,
    rest: Seq<char>,
    pairs: Seq<(Seq<char>, Seq<char>)>,
    state: Seq<char>,
)
    requires
        method.len() > 0,
        target.len() > 0,
        forall|i: int| 0 <= i < method.len() ==> !is_white_space(#[trigger] method[i]),
        forall|i: int| 0 <= i < target.len() ==> !is_white_space(#[trigger] target[i]),
        version.len() > 0,
        !version.contains('\n'),
        version.last() != '\r',
        url_pairs("http://localhost"@ + target) == Ok::<Seq<(Seq<char>, Seq<char>)>, Seq<char>>(
            pairs,
        ),
    ensures
        ({
            let line = method + seq![' '] + target + seq![' '] + version;
            let request = line + seq!['\r', '\n'] + rest;
            &&& request_target(request) == Some(target)
            &&& callback_request(request, state) == Ok::<CallbackView, OidcErrorView>(
                callback_of(pairs, state),
            )
        }),
{
    let nothing = Seq::<char>::empty();
    let line = method + seq![' '] + target + seq![' '] + version;
    let request = line + seq!['\r', '\n'] + rest;
    assert(!line.contains('\n')) by {
        assert forall|i: int| 0 <= i < line.len() implies line[i] != '\n' by {
            if i < method.len() {
                assert(line[i] == method[i]);
                assert(!is_white_space(method[i]));
            } else if method.len() < i < method.len() + 1 + target.len() {
                assert(line[i] == target[i - method.len() - 1]);
                assert(!is_white_space(target[i - method.len() - 1]));
            } else if i > method.len() + 1 + target.len() {
                let j = i - method.len() - target.len() - 2;
                assert(line[i] == version[j]);
                assert(version.contains(version[j]));
            }
        }
    }
    assert(line.last() == version.last());
    first_line_ends_at_its_end(line, rest);
    assert(lines_of(request)[0] == line);
    let behind = target + seq![' '] + version;
    first_word_ends_at_white_space(nothing, target, ' ', version);
    assert(nothing + target + seq![' '] + version =~= behind);
    first_word_ends_at_white_space(nothing, method, ' ', behind);
    assert(nothing + method + seq![' '] + behind =~= line);
    assert(words(line) =~= seq![method, target] + words(version));
}

/// A request without a second word in its first line is no answer of a browser.
pub proof fn request_without_a_target_is_refused(request: Seq<char>, state: Seq<char>)
    requires
        lines_of(request).len() == 0 || words(lines_of(request)[0]).len() < 2,
    ensures
        callback_request(request, state) == Err::<CallbackView, OidcErrorView>(
            OidcErrorView::InvalidResponse("malformed OIDC callback request"@),
        ),
{
}

/// The headers of a request end with an empty line, wherever it comes.
pub proof fn headers_end_with_an_empty_line(before: Seq<u8>, after: Seq<u8>)
    ensures
        headers_end(before + seq![13u8, 10, 13, 10] + after),
        !before.contains(13) ==> !headers_end(before),
{
    let buffer = before + seq![13u8, 10, 13, 10] + after;
    let i = before.len() as int;
    assert(buffer[i] == 13 && buffer[i + 1] == 10 && buffer[i + 2] == 13 && buffer[i + 3] == 10);
    if headers_end(before) {
        let i = choose|i: int|
            0 <= i <= before.len() - 4 && #[trigger] before[i] == 13 && before[i + 1] == 10
                && before[i + 2] == 13 && before[i + 3] == 10;
        assert(before.contains(before[i]));
    }
}

/// A browser is sent to the provider with what the provider needs: the kind of answer, the client,
/// where to come back to, what to tell, and the state; and, where the log in has a secret, what the
/// secret digests to, and how. Behind the state and the secret nothing else is told.
pub proof fn provider_is_told_what_it_needs(
    oidc: OidcConfigView,
    redirect: Seq<char>,
    state: Seq<char>,
    verifier: Seq<char>,
)
    ensures
        authorization_pairs_of(oidc, redirect, state, None) == seq![
            ("response_type"@, "code"@),
            ("client_id"@, oidc.client_id),
            ("redirect_uri"@, redirect),
            ("scope"@, "openid email"@),
            ("state"@, state),
        ],
        authorization_pairs_of(oidc, redirect, state, Some(verifier)) == seq![
            ("response_type"@, "code"@),
            ("client_id"@, oidc.client_id),
            ("redirect_uri"@, redirect),
            ("scope"@, "openid email"@),
            ("state"@, state),
            ("code_challenge"@, url_safe_text(sha256_of(encode_utf8(verifier)))),
            ("code_challenge_method"@, "S256"@),
        ],
{
    assert(authorization_pairs_of(oidc, redirect, state, Some(verifier)) =~= seq![
        ("response_type"@, "code"@),
        ("client_id"@, oidc.client_id),
        ("redirect_uri"@, redirect),
        ("scope"@, "openid email"@),
        ("state"@, state),
        ("code_challenge"@, url_safe_text(sha256_of(encode_utf8(verifier)))),
        ("code_challenge_method"@, "S256"@),
    ]);
}

/// A code is exchanged by the client that it was given to, for the place that it was sent to, with
/// the secret of the client exactly where it has one, and with the secret whose digest the provider
/// was told exactly where it was told one.
pub proof fn code_is_exchanged_by_who_asked_for_it(
    oidc: OidcConfigView,
    redirect: Seq<char>,
    state: Seq<char>,
    code: Seq<char>,
    verifier: Option<Seq<char>>,
)
    ensures
        ({
            let form = token_form_of(oidc, redirect, code, verifier);
            let asked = authorization_pairs_of(oidc, redirect, state, verifier);
            &&& form[0] == ("grant_type"@, "authorization_code"@)
            &&& form[1] == ("code"@, code)
            &&& form[2] == asked[1]
            &&& form[2] == ("client_id"@, oidc.client_id)
            &&& form[3] == asked[2]
            &&& form[3] == ("redirect_uri"@, redirect)
            &&& form.len() == 4 + (if oidc.client_secret is Some {
                1int
            } else {
                0
            }) + (if verifier is Some {
                1int
            } else {
                0
            })
            &&& oidc.client_secret matches Some(secret) ==> form[4] == ("client_secret"@, secret)
            &&& verifier matches Some(verifier) ==> form.last() == ("code_verifier"@, verifier)
                && asked[5] == (
                "code_challenge"@,
                url_safe_text(sha256_of(encode_utf8(verifier))),
            )
            &&& verifier is None ==> asked.len() == 5
        }),
        OIDC_CALLBACK_PATH@ == "/ssh"@,
        OIDC_STATE_BYTES == 24,
        OIDC_VERIFIER_BYTES == 48,
{
}

} // verus!
