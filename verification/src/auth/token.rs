//! Tokens: what a client signs to open a conversation, and what a server checks of it.

use crate::auth::encoding::{
    decoded, in_url_safe_alphabet, standard_encode, standard_text, url_safe_bytes, url_safe_char,
    url_safe_decode, url_safe_encode, url_safe_text,
};
use crate::auth::error::{check_view, AuthError, AuthErrorView};
use crate::auth::key::{
    KeyData, KeyDataView, PrivateKey, PrivateKeyView, PublicKey, PublicKeyView, SecretKey,
    SecretKeyView,
};
use crate::auth::signature::{
    algorithm_of, is_p256_secret, is_rsa_public, jwt_algorithm_for_public_key, p256_point_of,
    p256_public, p256_secret, rsa_public, sign_jwt_signature, signature_check, signature_of,
    verify_jwt_signature, JwtAlgorithm,
};
use crate::text::{
    first_at_found, first_at_is, joined, last_at_found, last_at_is, rsplit_once, rsplit_once_at, same_bytes, same_text,
    split_once, split_once_at,
};
use vstd::prelude::*;
use vstd::string::*;
use vstd::utf8::encode_utf8;

verus! {

/// The subject of the tokens that clients sign.
pub const TOKEN_SUBJECT: &'static str = "ssh3";

/// The audience of the tokens that clients sign.
pub const TOKEN_AUDIENCE: &'static str = "unused";

/// For how many seconds a token is good.
pub const TOKEN_LIFETIME_SECS: u64 = 60;

/// The header of a token.
#[derive(Clone, Debug, PartialEq, Eq)]
pub struct JwtHeader {
    pub alg: String,
    pub typ: String,
}

/// The mathematical counterpart of [`JwtHeader`].
pub struct JwtHeaderView {
    pub alg: Seq<char>,
    pub typ: Seq<char>,
}

impl View for JwtHeader {
    type V = JwtHeaderView;

    open spec fn view(&self) -> JwtHeaderView {
        JwtHeaderView { alg: self.alg@, typ: self.typ@ }
    }
}

/// What a token says.
#[derive(Clone, Debug, PartialEq, Eq)]
pub struct JwtClaims {
    pub iss: String,
    pub sub: String,
    pub aud: String,
    pub iat: u64,
    pub exp: u64,
    pub client_id: String,
    pub jti: String,
}

/// The mathematical counterpart of [`JwtClaims`].
pub struct JwtClaimsView {
    pub iss: Seq<char>,
    pub sub: Seq<char>,
    pub aud: Seq<char>,
    pub iat: u64,
    pub exp: u64,
    pub client_id: Seq<char>,
    pub jti: Seq<char>,
}

impl View for JwtClaims {
    type V = JwtClaimsView;

    open spec fn view(&self) -> JwtClaimsView {
        JwtClaimsView {
            iss: self.iss@,
            sub: self.sub@,
            aud: self.aud@,
            iat: self.iat,
            exp: self.exp,
            client_id: self.client_id@,
            jti: self.jti@,
        }
    }
}

/// The header of the tokens that are signed with an algorithm.
pub open spec fn header_for(algorithm: JwtAlgorithm) -> JwtHeaderView {
    JwtHeaderView { alg: algorithm.name(), typ: "JWT"@ }
}

/// What the token of a user for a conversation says, where it is issued at `now`.
pub open spec fn claims_for(user: Seq<char>, conversation_id: Seq<u8>, now: int) -> JwtClaimsView {
    JwtClaimsView {
        iss: user,
        sub: TOKEN_SUBJECT@,
        aud: TOKEN_AUDIENCE@,
        iat: now as u64,
        exp: (now + TOKEN_LIFETIME_SECS) as u64,
        client_id: "ssh3-"@ + user,
        jti: standard_text(conversation_id),
    }
}

/// The value of the header that carries a token.
pub fn bearer_authorization_value(token: &str) -> (value: String)
    ensures
        value@ == "Bearer "@ + token@,
{
    joined("Bearer ", token)
}

/// The identifier of a conversation as text.
pub fn conversation_id_base64(conversation_id: &[u8; 32]) -> (text: String)
    ensures
        text@ == standard_text(conversation_id@),
{
    standard_encode(conversation_id.as_slice())
}

/// The header of the tokens that a key signs.
pub fn bearer_header(key: &PublicKey) -> (result: Result<JwtHeader, AuthError>)
    ensures
        (match result {
            Ok(header) => Ok(header@),
            Err(error) => Err(error@),
        }) == match algorithm_of(key@) {
            Ok(algorithm) => Ok(header_for(algorithm)),
            Err(error) => Err(error),
        },
{
    match jwt_algorithm_for_public_key(key) {
        Ok(algorithm) => Ok(
            JwtHeader { alg: algorithm.as_str().to_owned(), typ: "JWT".to_owned() },
        ),
        Err(error) => Err(error),
    }
}

/// What the token of a user for a conversation says, where it is issued at `now`.
pub fn bearer_claims(username: &str, conversation_id: &[u8; 32], now: u64) -> (claims: JwtClaims)
    requires
        now + TOKEN_LIFETIME_SECS <= u64::MAX,
    ensures
        claims@ == claims_for(username@, conversation_id@, now as int),
{
    JwtClaims {
        iss: username.to_owned(),
        sub: TOKEN_SUBJECT.to_owned(),
        aud: TOKEN_AUDIENCE.to_owned(),
        iat: now,
        exp: now + TOKEN_LIFETIME_SECS,
        client_id: joined("ssh3-", username),
        jti: conversation_id_base64(conversation_id),
    }
}

/// What is signed of a token with this header and these claims.
pub open spec fn signing_input_of(header_json: Seq<u8>, claims_json: Seq<u8>) -> Seq<char> {
    url_safe_text(header_json) + "."@ + url_safe_text(claims_json)
}

/// The token with this signature.
pub open spec fn token_of(signing_input: Seq<char>, signature: Seq<u8>) -> Seq<char> {
    signing_input + "."@ + url_safe_text(signature)
}

/// The parts of a token: the last is its signature, the first its header, and its claims are in
/// between.
#[derive(Clone, Debug, PartialEq, Eq)]
pub struct TokenParts {
    pub signing_input: String,
    pub header: String,
    pub claims: String,
    pub signature: String,
}

/// The mathematical counterpart of [`TokenParts`].
pub struct TokenPartsView {
    pub signing_input: Seq<char>,
    pub header: Seq<char>,
    pub claims: Seq<char>,
    pub signature: Seq<char>,
}

impl View for TokenParts {
    type V = TokenPartsView;

    open spec fn view(&self) -> TokenPartsView {
        TokenPartsView {
            signing_input: self.signing_input@,
            header: self.header@,
            claims: self.claims@,
            signature: self.signature@,
        }
    }
}

/// The parts of a token, which its first and its last dot set apart.
pub open spec fn parts_of(token: Seq<char>) -> Option<TokenPartsView> {
    match rsplit_once_at(token, '.') {
        Some((signing_input, signature)) => match split_once_at(signing_input, '.') {
            Some((header, claims)) => Some(
                TokenPartsView { signing_input, header, claims, signature },
            ),
            None => None,
        },
        None => None,
    }
}

pub fn token_parts(token: &str) -> (result: Result<TokenParts, AuthError>)
    ensures
        match result {
            Ok(parts) => parts_of(token@) == Some(parts@),
            Err(error) => parts_of(token@) is None && error@ == AuthErrorView::InvalidToken(
                "malformed bearer token"@,
            ),
        },
{
    match rsplit_once(token, '.') {
        Some((signing_input, signature)) => match split_once(signing_input.as_str(), '.') {
            Some((header, claims)) => Ok(
                TokenParts { signing_input, header, claims, signature },
            ),
            None => Err(AuthError::InvalidToken("malformed bearer token")),
        },
        None => Err(AuthError::InvalidToken("malformed bearer token")),
    }
}

/// The bytes that a part of a token stands for.
pub open spec fn part_bytes(part: Seq<char>) -> Result<Seq<u8>, AuthErrorView> {
    match url_safe_bytes(part) {
        Ok(bytes) => Ok(bytes),
        Err(text) => Err(AuthErrorView::Base64(text)),
    }
}

pub(crate) fn decode_part(part: &str) -> (result: Result<Vec<u8>, AuthError>)
    ensures
        (match result {
            Ok(bytes) => Ok(bytes@),
            Err(error) => Err(error@),
        }) == part_bytes(part@),
{
    match url_safe_decode(part) {
        Ok(bytes) => Ok(bytes),
        Err(text) => Err(AuthError::Base64(text)),
    }
}

/// The JSON of a token's header.
pub fn token_header_json(token: &str) -> (json: Option<Vec<u8>>)
    ensures
        match parts_of(token@) {
            Some(parts) => match url_safe_bytes(parts.header) {
                Ok(bytes) => json matches Some(json) && json@ == bytes,
                Err(_) => json is None,
            },
            None => json is None,
        },
{
    match token_parts(token) {
        Ok(parts) => match decode_part(parts.header.as_str()) {
            Ok(json) => Some(json),
            Err(_) => None,
        },
        Err(_) => None,
    }
}

/// The JSON of a token's claims.
pub fn token_claims_json(token: &str) -> (json: Option<Vec<u8>>)
    ensures
        match parts_of(token@) {
            Some(parts) => match url_safe_bytes(parts.claims) {
                Ok(bytes) => json matches Some(json) && json@ == bytes,
                Err(_) => json is None,
            },
            None => json is None,
        },
{
    match token_parts(token) {
        Ok(parts) => match decode_part(parts.claims.as_str()) {
            Ok(json) => Some(json),
            Err(_) => None,
        },
        Err(_) => None,
    }
}

pub open spec fn header_view(header: Result<JwtHeader, String>) -> Result<
    JwtHeaderView,
    Seq<char>,
> {
    match header {
        Ok(header) => Ok(header@),
        Err(text) => Err(text@),
    }
}

pub open spec fn claims_view(claims: Result<JwtClaims, String>) -> Result<
    JwtClaimsView,
    Seq<char>,
> {
    match claims {
        Ok(claims) => Ok(claims@),
        Err(text) => Err(text@),
    }
}

/// What checking the claims of a token comes to: they name the user, the conversation and this
/// protocol, and `now` is in their time.
pub open spec fn claims_check(
    claims: JwtClaimsView,
    user: Seq<char>,
    conversation_id: Seq<u8>,
    now: u64,
) -> Result<(), AuthErrorView> {
    if claims.iss != user {
        Err(AuthErrorView::InvalidToken("unexpected JWT issuer"@))
    } else if claims.sub != TOKEN_SUBJECT@ {
        Err(AuthErrorView::InvalidToken("unexpected JWT subject"@))
    } else if claims.aud != TOKEN_AUDIENCE@ {
        Err(AuthErrorView::InvalidToken("unexpected JWT audience"@))
    } else if claims.client_id != "ssh3-"@ + user {
        Err(AuthErrorView::InvalidToken("unexpected JWT client_id"@))
    } else if claims.jti != standard_text(conversation_id) {
        Err(AuthErrorView::InvalidToken("unexpected JWT jti"@))
    } else if claims.iat > now {
        Err(AuthErrorView::InvalidToken("JWT issued-at is in the future"@))
    } else if claims.exp < now {
        Err(AuthErrorView::InvalidToken("JWT is expired"@))
    } else {
        Ok(())
    }
}

/// What checking a token comes to, where its header and its claims are read as `header` and
/// `claims`.
pub open spec fn bearer_check(
    key: PublicKeyView,
    token: Seq<char>,
    header: Result<JwtHeaderView, Seq<char>>,
    claims: Result<JwtClaimsView, Seq<char>>,
    user: Seq<char>,
    conversation_id: Seq<u8>,
    now: u64,
) -> Result<(), AuthErrorView> {
    match (algorithm_of(key), parts_of(token)) {
        (Err(error), _) => Err(error),
        (_, None) => Err(AuthErrorView::InvalidToken("malformed bearer token"@)),
        (Ok(algorithm), Some(parts)) => match (part_bytes(parts.header), header) {
            (Err(error), _) => Err(error),
            (_, Err(text)) => Err(AuthErrorView::Json(text)),
            (_, Ok(header)) => if header.alg != algorithm.name() {
                Err(AuthErrorView::InvalidToken("unexpected JWT alg"@))
            } else {
                match (part_bytes(parts.claims), claims) {
                    (Err(error), _) => Err(error),
                    (_, Err(text)) => Err(AuthErrorView::Json(text)),
                    (_, Ok(claims)) => match (
                        claims_check(claims, user, conversation_id, now),
                        part_bytes(parts.signature),
                    ) {
                        (Err(error), _) => Err(error),
                        (_, Err(error)) => Err(error),
                        (Ok(()), Ok(signature)) => signature_check(
                            key,
                            algorithm,
                            encode_utf8(parts.signing_input),
                            signature,
                        ),
                    },
                }
            },
        },
    }
}

/// An accepted token names the user, the conversation and this protocol, it is neither too new nor
/// expired, and the key accepts the signature of everything before it.
pub proof fn accepted_token_names_the_conversation(
    key: PublicKeyView,
    token: Seq<char>,
    header: Result<JwtHeaderView, Seq<char>>,
    claims: Result<JwtClaimsView, Seq<char>>,
    user: Seq<char>,
    conversation_id: Seq<u8>,
    now: u64,
)
    requires
        bearer_check(key, token, header, claims, user, conversation_id, now) is Ok,
    ensures
        claims matches Ok(claims) && claims.iss == user && claims.jti == standard_text(
            conversation_id,
        ) && claims.iat <= now <= claims.exp && claims.sub == "ssh3"@ && claims.aud == "unused"@
            && claims.client_id == "ssh3-"@ + user,
        header matches Ok(header) && algorithm_of(key) matches Ok(algorithm) && header.alg
            == algorithm.name(),
        exists|input: Seq<char>, last: Seq<char>, signature: Seq<u8>|
            token == #[trigger] (input + "."@ + last) && !last.contains('.')
                && url_safe_bytes(last) == #[trigger] decoded(signature) && signature_check(
                key,
                algorithm_of(key)->Ok_0,
                encode_utf8(input),
                signature,
            ) is Ok,
{
    let parts = parts_of(token)->0;
    let signature = part_bytes(parts.signature)->Ok_0;
    lemma_cut(token);
    assert(token == parts.signing_input + "."@ + parts.signature);
    assert(url_safe_bytes(parts.signature) == decoded(signature));
}

/// Where a token can be cut, it is its parts, with dots in between.
proof fn lemma_cut(token: Seq<char>)
    ensures
        parts_of(token) matches Some(parts) ==> {
            &&& token == parts.signing_input + "."@ + parts.signature
            &&& parts.signing_input == parts.header + "."@ + parts.claims
            &&& !parts.header.contains('.')
            &&& !parts.signature.contains('.')
        },
{
    reveal_strlit(".");
    last_at_found(token, '.');
    if let Some(parts) = parts_of(token) {
        first_at_found(parts.signing_input, '.');
        assert(token =~= parts.signing_input + "."@ + parts.signature);
        assert(parts.signing_input =~= parts.header + "."@ + parts.claims);
    }
}

/// A token is cut where it was put together: its header is what comes before the first dot, and
/// its signature what comes behind the last.
pub proof fn token_is_cut_where_it_was_put_together(
    header: Seq<char>,
    claims: Seq<char>,
    signature: Seq<char>,
)
    requires
        !header.contains('.'),
        !signature.contains('.'),
    ensures
        parts_of(header + "."@ + claims + "."@ + signature) == Some(
            TokenPartsView {
                signing_input: header + "."@ + claims,
                header,
                claims,
                signature,
            },
        ),
{
    reveal_strlit(".");
    let input = header + "."@ + claims;
    let token = input + "."@ + signature;
    assert forall|j: int| input.len() < j < token.len() implies token[j] != '.' by {
        assert(token[j] == signature[j - input.len() - 1]);
    }
    assert(token[input.len() as int] == '.');
    last_at_is(token, '.', input.len() as int);
    assert(token.take(input.len() as int) =~= input);
    assert(token.skip(input.len() as int + 1) =~= signature);
    assert forall|j: int| 0 <= j < header.len() implies input[j] != '.' by {
        assert(input[j] == header[j]);
    }
    assert(input[header.len() as int] == '.');
    first_at_is(input, '.', header.len() as int);
    assert(input.take(header.len() as int) =~= header);
    assert(input.skip(header.len() as int + 1) =~= claims);
}

/// A token that names the user, the conversation and this protocol and that the key accepts is
/// accepted at every time from its issue to its end, however long that is.
pub proof fn signed_token_is_accepted(
    key: PublicKeyView,
    parts: TokenPartsView,
    header: JwtHeaderView,
    claims: JwtClaimsView,
    signature: Seq<u8>,
    user: Seq<char>,
    conversation_id: Seq<u8>,
    now: u64,
)
    requires
        !parts.header.contains('.'),
        !parts.signature.contains('.'),
        url_safe_bytes(parts.header) is Ok,
        url_safe_bytes(parts.claims) is Ok,
        url_safe_bytes(parts.signature) == decoded(signature),
        key.data is Ed25519 && header.alg == "EdDSA"@ || key.data is NistP256 && header.alg
            == "ES256"@ || key.data is Rsa && header.alg == "RS256"@,
        claims.iss == user,
        claims.sub == "ssh3"@,
        claims.aud == "unused"@,
        claims.client_id == "ssh3-"@ + user,
        claims.jti == standard_text(conversation_id),
        claims.iat <= now <= claims.exp,
        signature_check(
            key,
            algorithm_of(key)->Ok_0,
            encode_utf8(parts.header + "."@ + parts.claims),
            signature,
        ) is Ok,
    ensures
        bearer_check(
            key,
            parts.header + "."@ + parts.claims + "."@ + parts.signature,
            Ok(header),
            Ok(claims),
            user,
            conversation_id,
            now,
        ) == Ok::<(), AuthErrorView>(()),
{
    token_is_cut_where_it_was_put_together(parts.header, parts.claims, parts.signature);
}

/// What a client claims is accepted from the second in which it does to a minute later, and at no
/// other time; and only for the user and the conversation that it claims it for.
pub proof fn claims_are_good_for_a_minute(
    user: Seq<char>,
    conversation_id: Seq<u8>,
    issued: u64,
    now: u64,
)
    requires
        issued + 60 <= u64::MAX,
    ensures
        claims_check(claims_for(user, conversation_id, issued as int), user, conversation_id, now)
            is Ok <==> issued <= now <= issued + 60,
        forall|other: Seq<char>, id: Seq<u8>| #[trigger]
            claims_check(claims_for(user, conversation_id, issued as int), other, id, now) is Ok
                ==> other == user && standard_text(id) == standard_text(conversation_id),
{
}

/// Claims of another user, for another protocol or another conversation, or out of their time, are
/// refused, and the first of these that is wrong is told.
pub proof fn wrong_claims_are_told(
    claims: JwtClaimsView,
    user: Seq<char>,
    conversation_id: Seq<u8>,
    now: u64,
)
    ensures
        ({
            let check = claims_check(claims, user, conversation_id, now);
            let by_user = claims.iss == user;
            let for_ssh3 = by_user && claims.sub == "ssh3"@;
            let for_anyone = for_ssh3 && claims.aud == "unused"@;
            let by_client = for_anyone && claims.client_id == "ssh3-"@ + user;
            let here = by_client && claims.jti == standard_text(conversation_id);
            &&& !by_user ==> check == refused("unexpected JWT issuer"@)
            &&& by_user && !for_ssh3 ==> check == refused("unexpected JWT subject"@)
            &&& for_ssh3 && !for_anyone ==> check == refused("unexpected JWT audience"@)
            &&& for_anyone && !by_client ==> check == refused("unexpected JWT client_id"@)
            &&& by_client && !here ==> check == refused("unexpected JWT jti"@)
            &&& here && now < claims.iat ==> check == refused("JWT issued-at is in the future"@)
            &&& here && claims.iat <= now && claims.exp < now ==> check == refused(
                "JWT is expired"@,
            )
            &&& here && claims.iat <= now <= claims.exp ==> check == Ok::<(), AuthErrorView>(())
        }),
{
}

/// The refusal of a token for a reason.
pub open spec fn refused(reason: Seq<char>) -> Result<(), AuthErrorView> {
    Err(AuthErrorView::InvalidToken(reason))
}

/// What a token was made of is found in it again.
pub proof fn made_token_holds_what_it_was_made_of(
    header_json: Seq<u8>,
    claims_json: Seq<u8>,
    signature: Seq<u8>,
)
    requires
        in_url_safe_alphabet(url_safe_text(header_json)),
        in_url_safe_alphabet(url_safe_text(signature)),
    ensures
        parts_of(token_of(signing_input_of(header_json, claims_json), signature)) == Some(
            TokenPartsView {
                signing_input: signing_input_of(header_json, claims_json),
                header: url_safe_text(header_json),
                claims: url_safe_text(claims_json),
                signature: url_safe_text(signature),
            },
        ),
{
    let (header, last) = (url_safe_text(header_json), url_safe_text(signature));
    lemma_parts(header, url_safe_text(claims_json), last);
}

/// A text whose parts have no dot but in the middle is cut where it was put together.
proof fn lemma_parts(header: Seq<char>, claims: Seq<char>, signature: Seq<char>)
    requires
        in_url_safe_alphabet(header),
        in_url_safe_alphabet(signature),
    ensures
        parts_of(header + "."@ + claims + "."@ + signature) == Some(
            TokenPartsView {
                signing_input: header + "."@ + claims,
                header,
                claims,
                signature,
            },
        ),
{
    assert(!header.contains('.')) by {
        assert(forall|i: int| 0 <= i < header.len() ==> url_safe_char(#[trigger] header[i]));
    }
    assert(!signature.contains('.')) by {
        assert(forall|i: int|
            0 <= i < signature.len() ==> url_safe_char(#[trigger] signature[i]));
    }
    token_is_cut_where_it_was_put_together(header, claims, signature);
}

/// A key signs the token of its kind's algorithm: the token is the encoded header and claims with
/// a dot in between and, behind another dot, the encoded signature of all that.
pub proof fn key_signs_what_the_token_holds(
    key: PrivateKeyView,
    header_json: Seq<u8>,
    claims_json: Seq<u8>,
    algorithm: JwtAlgorithm,
    signature: Seq<u8>,
)
    requires
        algorithm_of(key.public_key) == Ok::<JwtAlgorithm, AuthErrorView>(algorithm),
        signature_of(
            key,
            algorithm,
            encode_utf8(url_safe_text(header_json) + "."@ + url_safe_text(claims_json)),
        ) == Ok::<Seq<u8>, AuthErrorView>(signature),
    ensures
        bearer_token_of(key, header_json, claims_json) == Ok::<Seq<char>, AuthErrorView>(
            url_safe_text(header_json) + "."@ + url_safe_text(claims_json) + "."@ + url_safe_text(
                signature,
            ),
        ),
{
}

fn check_claims(
    claims: &JwtClaims,
    username: &str,
    conversation_id: &[u8; 32],
    now: u64,
) -> (result: Result<(), AuthError>)
    ensures
        check_view(result) == claims_check(claims@, username@, conversation_id@, now),
{
    if !same_text(claims.iss.as_str(), username) {
        return Err(AuthError::InvalidToken("unexpected JWT issuer"));
    }
    if !same_text(claims.sub.as_str(), TOKEN_SUBJECT) {
        return Err(AuthError::InvalidToken("unexpected JWT subject"));
    }
    if !same_text(claims.aud.as_str(), TOKEN_AUDIENCE) {
        return Err(AuthError::InvalidToken("unexpected JWT audience"));
    }
    if !same_text(claims.client_id.as_str(), joined("ssh3-", username).as_str()) {
        return Err(AuthError::InvalidToken("unexpected JWT client_id"));
    }
    if !same_text(claims.jti.as_str(), conversation_id_base64(conversation_id).as_str()) {
        return Err(AuthError::InvalidToken("unexpected JWT jti"));
    }
    if claims.iat > now {
        return Err(AuthError::InvalidToken("JWT issued-at is in the future"));
    }
    if claims.exp < now {
        return Err(AuthError::InvalidToken("JWT is expired"));
    }
    Ok(())
}

/// Checks that a token is signed by a key, for a user and a conversation. `header` and `claims`
/// are what the JSON of the token holds, each with the reason where it holds none.
pub fn verify_bearer_token(
    public_key: &PublicKey,
    token: &str,
    header: &Result<JwtHeader, String>,
    claims: &Result<JwtClaims, String>,
    expected_username: &str,
    conversation_id: &[u8; 32],
    now: u64,
) -> (result: Result<(), AuthError>)
    ensures
        check_view(result) == bearer_check(
            public_key@,
            token@,
            header_view(*header),
            claims_view(*claims),
            expected_username@,
            conversation_id@,
            now,
        ),
{
    let algorithm: JwtAlgorithm = jwt_algorithm_for_public_key(public_key)?;
    let parts: TokenParts = token_parts(token)?;
    let _: Vec<u8> = decode_part(parts.header.as_str())?;
    match header {
        Ok(header) => if !same_text(header.alg.as_str(), algorithm.as_str()) {
            return Err(AuthError::InvalidToken("unexpected JWT alg"));
        },
        Err(text) => {
            return Err(AuthError::Json(text.as_str().to_owned()));
        },
    }
    let _: Vec<u8> = decode_part(parts.claims.as_str())?;
    match claims {
        Ok(claims) => check_claims(claims, expected_username, conversation_id, now)?,
        Err(text) => {
            return Err(AuthError::Json(text.as_str().to_owned()));
        },
    }
    let signature: Vec<u8> = decode_part(parts.signature.as_str())?;
    verify_jwt_signature(
        public_key,
        algorithm,
        parts.signing_input.as_str().as_bytes(),
        signature.as_slice(),
    )
}

/// What is signed of a token with this header and these claims.
pub fn signing_input(header_json: &[u8], claims_json: &[u8]) -> (input: String)
    ensures
        input@ == signing_input_of(header_json@, claims_json@),
{
    let header: String = url_safe_encode(header_json);
    let claims: String = url_safe_encode(claims_json);
    joined(joined(header.as_str(), ".").as_str(), claims.as_str())
}

/// The token with this signature.
pub fn signed_token(signing_input: &str, signature: &[u8]) -> (token: String)
    ensures
        token@ == token_of(signing_input@, signature@),
{
    let encoded: String = url_safe_encode(signature);
    joined(joined(signing_input, ".").as_str(), encoded.as_str())
}

/// Whether the public half of a key accepts what the key signs: the half belongs to the secret,
/// and for RSA it is of a size that is in use.
pub open spec fn accepts_own_signatures(key: PrivateKeyView) -> bool {
    match (key.public_key.data, key.secret) {
        (KeyDataView::Ed25519(_), SecretKeyView::Ed25519(_)) => true,
        (KeyDataView::NistP256(point), SecretKeyView::NistP256(secret)) => p256_secret(secret)
            && point == p256_public(secret),
        (KeyDataView::Rsa { e: Some(e), n: Some(n) }, _) => rsa_public(n, e),
        _ => false,
    }
}

/// Whether the public half of a key accepts what the key signs, so that a server that knows it
/// accepts its tokens.
pub fn signs_for_itself(key: &PrivateKey) -> (accepts: bool)
    ensures
        accepts == accepts_own_signatures(key@),
{
    match (&key.public_key.data, &key.secret) {
        (KeyData::Ed25519(_), SecretKey::Ed25519(_)) => true,
        (KeyData::NistP256(point), SecretKey::NistP256(secret)) => is_p256_secret(
            secret.as_slice(),
        ) && same_bytes(point.as_slice(), p256_point_of(secret.as_slice()).as_slice()),
        (KeyData::Rsa { e: Some(e), n: Some(n) }, _) => is_rsa_public(n.as_slice(), e.as_slice()),
        _ => false,
    }
}

/// Whether a token is accepted, for every user and every conversation, by a server that knows the
/// key and reads back what the token was made of, within the lifetime of the token.
pub open spec fn accepted_in_time(key: PublicKeyView, token: Seq<char>) -> bool {
    forall|user: Seq<char>, conversation_id: Seq<u8>, issued: u64, now: u64|
        issued <= now <= issued + TOKEN_LIFETIME_SECS <= u64::MAX && algorithm_of(key) is Ok
            ==> #[trigger] bearer_check(
            key,
            token,
            Ok(header_for(algorithm_of(key)->Ok_0)),
            Ok(claims_for(user, conversation_id, issued as int)),
            user,
            conversation_id,
            now,
        ) == Ok::<(), AuthErrorView>(())
}

/// The token that a key signs for this header and these claims.
pub open spec fn bearer_token_of(
    key: PrivateKeyView,
    header_json: Seq<u8>,
    claims_json: Seq<u8>,
) -> Result<Seq<char>, AuthErrorView> {
    let input = signing_input_of(header_json, claims_json);
    match algorithm_of(key.public_key) {
        Err(error) => Err(error),
        Ok(algorithm) => match signature_of(key, algorithm, encode_utf8(input)) {
            Err(error) => Err(error),
            Ok(signature) => Ok(token_of(input, signature)),
        },
    }
}

/// Why a token was not signed by a signer of the caller's.
#[derive(Clone, Debug, PartialEq, Eq)]
pub enum SignerError<E> {
    Auth(AuthError),
    Signer(E),
}

/// Lets a signer of the caller's sign a token with this header and these claims.
pub fn build_bearer_token_with_signer<E, F: FnOnce(JwtAlgorithm, &[u8]) -> Result<Vec<u8>, E>>(
    public_key: &PublicKey,
    header_json: &[u8],
    claims_json: &[u8],
    signer: F,
) -> (result: Result<String, SignerError<E>>)
    requires
        forall|algorithm: JwtAlgorithm, input: &[u8]| signer.requires((algorithm, input)),
    ensures
        match algorithm_of(public_key@) {
            Err(refusal) => result matches Err(SignerError::Auth(error)) && error@ == refusal,
            Ok(algorithm) => exists|input: &[u8], outcome: Result<Vec<u8>, E>| #[trigger]
                signer.ensures((algorithm, input), outcome) && input@ == encode_utf8(
                    signing_input_of(header_json@, claims_json@),
                ) && match outcome {
                    Ok(signature) => result matches Ok(token) && token@ == token_of(
                        signing_input_of(header_json@, claims_json@),
                        signature@,
                    ),
                    Err(error) => result == Err::<String, SignerError<E>>(
                        SignerError::Signer(error),
                    ),
                },
        },
{
    let algorithm: JwtAlgorithm = match jwt_algorithm_for_public_key(public_key) {
        Ok(algorithm) => algorithm,
        Err(error) => {
            return Err(SignerError::Auth(error));
        },
    };
    let input: String = signing_input(header_json, claims_json);
    match signer(algorithm, input.as_str().as_bytes()) {
        Ok(signature) => Ok(signed_token(input.as_str(), signature.as_slice())),
        Err(error) => Err(SignerError::Signer(error)),
    }
}

/// Signs a token with this header and these claims. A server that knows the key accepts it for as
/// long as it is good.
pub fn build_bearer_token(
    private_key: &PrivateKey,
    header_json: &[u8],
    claims_json: &[u8],
) -> (result: Result<String, AuthError>)
    ensures
        (match result {
            Ok(token) => Ok(token@),
            Err(error) => Err(error@),
        }) == bearer_token_of(private_key@, header_json@, claims_json@),
        result matches Ok(token) ==> accepts_own_signatures(private_key@) ==> accepted_in_time(
            private_key@.public_key,
            token@,
        ),
{
    let algorithm: JwtAlgorithm = jwt_algorithm_for_public_key(&private_key.public_key)?;
    let header: String = url_safe_encode(header_json);
    let claims: String = url_safe_encode(claims_json);
    let input: String = joined(joined(header.as_str(), ".").as_str(), claims.as_str());
    let signature: Vec<u8> = sign_jwt_signature(private_key, algorithm, input.as_str().as_bytes())?;
    let encoded: String = url_safe_encode(signature.as_slice());
    let token: String = joined(joined(input.as_str(), ".").as_str(), encoded.as_str());
    proof {
        made_token_holds_what_it_was_made_of(header_json@, claims_json@, signature@);
        if accepts_own_signatures(private_key@) {
            let key = private_key@.public_key;
            assert(signature_check(key, algorithm, encode_utf8(input@), signature@) is Ok);
            assert forall|user: Seq<char>, conversation_id: Seq<u8>, issued: u64, now: u64|
                issued <= now <= issued + TOKEN_LIFETIME_SECS <= u64::MAX && algorithm_of(
                    key,
                ) is Ok implies #[trigger] bearer_check(
                key,
                token@,
                Ok(header_for(algorithm_of(key)->Ok_0)),
                Ok(claims_for(user, conversation_id, issued as int)),
                user,
                conversation_id,
                now,
            ) == Ok::<(), AuthErrorView>(()) by {
                let claims = claims_for(user, conversation_id, issued as int);
                assert(claims_check(claims, user, conversation_id, now) is Ok);
            }
        }
    }
    Ok(token)
}

/// A key accepts its own signatures where its halves belong together: always where they are of the
/// kind Ed25519, where the public point is that of the secret for the curve P-256, and where the
/// public part can be used for RSA; keys of other kinds sign nothing.
pub proof fn keys_whose_halves_fit_accept_their_own(key: PrivateKeyView)
    ensures
        key.public_key.data is Ed25519 && key.secret is Ed25519 ==> accepts_own_signatures(key),
        key.public_key.data matches KeyDataView::NistP256(point) ==> {
            &&& key.secret matches SecretKeyView::NistP256(secret) ==> (accepts_own_signatures(key)
                <==> p256_secret(secret) && point == p256_public(secret))
            &&& !(key.secret is NistP256) ==> !accepts_own_signatures(key)
        },
        key.public_key.data matches KeyDataView::Rsa { e, n } ==> (accepts_own_signatures(key)
            <==> e is Some && n is Some && rsa_public(n->0, e->0)),
        !(key.public_key.data is Ed25519) && !(key.public_key.data is NistP256)
            && !(key.public_key.data is Rsa) ==> !accepts_own_signatures(key),
{
}

} // verus!
