//! Tokens of identity providers.

use crate::auth::encoding::{decoded, url_safe_bytes};
use crate::auth::error::{check_view, AuthError, AuthErrorView};
use crate::auth::identity::{OidcIdentity, OidcIdentityView};
use crate::auth::signature::{
    check_p256_signature, check_rsa_signature, p256_check, p256_checked, p256_point,
    p256_signature, rsa_check, rsa_checked, rsa_public,
};
use crate::auth::token::{
    decode_part, part_bytes, parts_of, token_is_cut_where_it_was_put_together, token_parts,
    TokenParts, TokenPartsView,
};
use crate::text::{
    joined, lemma_without_trailing, same_text, text_view, texts_view, trim_end_matches,
    without_trailing,
};
use vstd::prelude::*;
use vstd::string::*;
use vstd::utf8::encode_utf8;

verus! {

/// The header of a token of an identity provider.
#[derive(Clone, Debug, PartialEq, Eq)]
pub struct OidcJwtHeader {
    pub alg: String,
    pub kid: Option<String>,
}

/// The mathematical counterpart of [`OidcJwtHeader`].
pub struct OidcJwtHeaderView {
    pub alg: Seq<char>,
    pub kid: Option<Seq<char>>,
}

impl View for OidcJwtHeader {
    type V = OidcJwtHeaderView;

    open spec fn view(&self) -> OidcJwtHeaderView {
        OidcJwtHeaderView { alg: self.alg@, kid: text_view(self.kid) }
    }
}

/// Whom a token is for.
#[derive(Clone, Debug, PartialEq, Eq)]
pub enum OidcAudience {
    One(String),
    Many(Vec<String>),
}

/// The mathematical counterpart of [`OidcAudience`].
pub enum OidcAudienceView {
    One(Seq<char>),
    Many(Seq<Seq<char>>),
}

impl View for OidcAudience {
    type V = OidcAudienceView;

    open spec fn view(&self) -> OidcAudienceView {
        match *self {
            OidcAudience::One(value) => OidcAudienceView::One(value@),
            OidcAudience::Many(values) => OidcAudienceView::Many(texts_view(values@)),
        }
    }
}

impl OidcAudienceView {
    /// Whether the token is for `expected`.
    pub open spec fn contains(self, expected: Seq<char>) -> bool {
        match self {
            OidcAudienceView::One(value) => value == expected,
            OidcAudienceView::Many(values) => values.contains(expected),
        }
    }
}

impl OidcAudience {
    pub fn contains(&self, expected: &str) -> (found: bool)
        ensures
            found == self@.contains(expected@),
    {
        match self {
            OidcAudience::One(value) => same_text(value.as_str(), expected),
            OidcAudience::Many(values) => {
                let mut i: usize = 0;
                while i < values.len()
                    invariant
                        i <= values@.len(),
                        self@ == OidcAudienceView::Many(texts_view(values@)),
                        forall|j: int|
                            0 <= j < i ==> #[trigger] texts_view(values@)[j] != expected@,
                    decreases values@.len() - i,
                {
                    if same_text(values[i].as_str(), expected) {
                        proof {
                            assert(texts_view(values@)[i as int] == expected@);
                        }
                        return true;
                    }
                    i = i + 1;
                }
                false
            },
        }
    }
}

/// What a token of an identity provider says.
#[derive(Clone, Debug, PartialEq, Eq)]
pub struct OidcClaims {
    pub iss: String,
    pub aud: OidcAudience,
    pub exp: u64,
    pub email: Option<String>,
    pub email_verified: bool,
    pub nonce: Option<String>,
}

/// The mathematical counterpart of [`OidcClaims`].
pub struct OidcClaimsView {
    pub iss: Seq<char>,
    pub aud: OidcAudienceView,
    pub exp: u64,
    pub email: Option<Seq<char>>,
    pub email_verified: bool,
    pub nonce: Option<Seq<char>>,
}

impl View for OidcClaims {
    type V = OidcClaimsView;

    open spec fn view(&self) -> OidcClaimsView {
        OidcClaimsView {
            iss: self.iss@,
            aud: self.aud@,
            exp: self.exp,
            email: text_view(self.email),
            email_verified: self.email_verified,
            nonce: text_view(self.nonce),
        }
    }
}

/// Where an identity provider keeps its keys.
#[derive(Clone, Debug, PartialEq, Eq)]
pub struct OidcDiscoveryDocument {
    pub issuer: String,
    pub jwks_uri: String,
}

/// A key of an identity provider.
#[derive(Clone, Debug, PartialEq, Eq)]
pub struct OidcJwk {
    pub kty: String,
    pub kid: Option<String>,
    pub alg: Option<String>,
    pub n: Option<String>,
    pub e: Option<String>,
    pub crv: Option<String>,
    pub x: Option<String>,
    pub y: Option<String>,
}

/// The mathematical counterpart of [`OidcJwk`].
pub struct OidcJwkView {
    pub kty: Seq<char>,
    pub kid: Option<Seq<char>>,
    pub alg: Option<Seq<char>>,
    pub n: Option<Seq<char>>,
    pub e: Option<Seq<char>>,
    pub crv: Option<Seq<char>>,
    pub x: Option<Seq<char>>,
    pub y: Option<Seq<char>>,
}

impl View for OidcJwk {
    type V = OidcJwkView;

    open spec fn view(&self) -> OidcJwkView {
        OidcJwkView {
            kty: self.kty@,
            kid: text_view(self.kid),
            alg: text_view(self.alg),
            n: text_view(self.n),
            e: text_view(self.e),
            crv: text_view(self.crv),
            x: text_view(self.x),
            y: text_view(self.y),
        }
    }
}

pub open spec fn jwks_view(keys: Seq<OidcJwk>) -> Seq<OidcJwkView> {
    keys.map_values(|key: OidcJwk| key@)
}

impl OidcJwkView {
    /// Whether the key is of the kind that an algorithm needs.
    pub open spec fn supports(self, alg: Seq<char>) -> bool {
        if alg == "RS256"@ {
            self.kty == "RSA"@ && self.n is Some && self.e is Some
        } else if alg == "ES256"@ {
            self.kty == "EC"@ && self.crv == Some("P-256"@) && self.x is Some && self.y is Some
        } else {
            false
        }
    }

    /// Whether the key can have signed a token with this header.
    pub open spec fn matches(self, header: OidcJwtHeaderView) -> bool {
        &&& header.kid is Some ==> self.kid == header.kid
        &&& self.alg is Some ==> self.alg == Some(header.alg)
        &&& self.supports(header.alg)
    }

    /// What checking a signature by the key comes to.
    pub open spec fn check(self, alg: Seq<char>, message: Seq<u8>, signature: Seq<u8>) -> Result<
        (),
        AuthErrorView,
    > {
        if alg == "RS256"@ {
            match self.n {
                None => Err(AuthErrorView::InvalidKeyMaterial("missing RSA modulus"@)),
                Some(n) => match (part_bytes(n), self.e) {
                    (Err(error), _) => Err(error),
                    (_, None) => Err(AuthErrorView::InvalidKeyMaterial("missing RSA exponent"@)),
                    (Ok(n), Some(e)) => match part_bytes(e) {
                        Err(error) => Err(error),
                        Ok(e) => rsa_check(Some(n), Some(e), message, signature),
                    },
                },
            }
        } else if alg == "ES256"@ {
            match self.x {
                None => Err(AuthErrorView::InvalidKeyMaterial("missing EC x coordinate"@)),
                Some(x) => match (part_bytes(x), self.y) {
                    (Err(error), _) => Err(error),
                    (_, None) => Err(AuthErrorView::InvalidKeyMaterial("missing EC y coordinate"@)),
                    (Ok(x), Some(y)) => match part_bytes(y) {
                        Err(error) => Err(error),
                        Ok(y) => if x.len() != 32 || y.len() != 32 {
                            Err(
                                AuthErrorView::InvalidKeyMaterial(
                                    "invalid P-256 public key coordinates"@,
                                ),
                            )
                        } else {
                            p256_check(seq![4u8] + x + y, message, signature)
                        },
                    },
                },
            }
        } else {
            Err(AuthErrorView::UnsupportedAlgorithm(alg))
        }
    }
}

/// The first key that can have signed a token with this header.
pub open spec fn selected(keys: Seq<OidcJwkView>, header: OidcJwtHeaderView) -> Option<OidcJwkView>
    decreases keys.len(),
{
    if keys.len() == 0 {
        None
    } else if keys[0].matches(header) {
        Some(keys[0])
    } else {
        selected(keys.skip(1), header)
    }
}

fn same_optional_text(text: &Option<String>, expected: &str) -> (same: bool)
    ensures
        same == (text_view(*text) == Some(expected@)),
{
    match text {
        Some(text) => same_text(text.as_str(), expected),
        None => false,
    }
}

pub fn oidc_jwk_supports_algorithm(key: &OidcJwk, alg: &str) -> (supports: bool)
    ensures
        supports == key@.supports(alg@),
{
    if same_text(alg, "RS256") {
        same_text(key.kty.as_str(), "RSA") && key.n.is_some() && key.e.is_some()
    } else if same_text(alg, "ES256") {
        same_text(key.kty.as_str(), "EC") && same_optional_text(&key.crv, "P-256")
            && key.x.is_some() && key.y.is_some()
    } else {
        false
    }
}

fn jwk_matches(key: &OidcJwk, header: &OidcJwtHeader) -> (matching: bool)
    ensures
        matching == key@.matches(header@),
{
    let kid_matches: bool = match &header.kid {
        Some(expected) => same_optional_text(&key.kid, expected.as_str()),
        None => true,
    };
    let alg_matches: bool = match &key.alg {
        Some(alg) => same_text(alg.as_str(), header.alg.as_str()),
        None => true,
    };
    kid_matches && alg_matches && oidc_jwk_supports_algorithm(key, header.alg.as_str())
}

/// The first key that can have signed a token with this header.
pub fn select_oidc_jwk<'a>(keys: &'a [OidcJwk], header: &OidcJwtHeader) -> (result: Result<
    &'a OidcJwk,
    AuthError,
>)
    ensures
        match result {
            Ok(key) => selected(jwks_view(keys@), header@) == Some(key@),
            Err(error) => selected(jwks_view(keys@), header@) is None && error@
                == AuthErrorView::InvalidToken("no matching OIDC JWK found"@),
        },
{
    let ghost all = jwks_view(keys@);
    let mut i: usize = 0;
    proof {
        assert(all.skip(0) =~= all);
    }
    while i < keys.len()
        invariant
            i <= keys@.len(),
            all == jwks_view(keys@),
            selected(all.skip(i as int), header@) == selected(all, header@),
        decreases keys@.len() - i,
    {
        proof {
            assert(all.skip(i as int)[0] == keys@[i as int]@);
            assert(all.skip(i as int).skip(1) =~= all.skip(i + 1));
        }
        if jwk_matches(&keys[i], header) {
            return Ok(&keys[i]);
        }
        i = i + 1;
    }
    proof {
        assert(all.skip(i as int) =~= Seq::<OidcJwkView>::empty());
    }
    Err(AuthError::InvalidToken("no matching OIDC JWK found"))
}

/// Checks a signature by a key of an identity provider.
pub fn verify_oidc_jwk_signature(
    key: &OidcJwk,
    alg: &str,
    message: &[u8],
    signature: &[u8],
) -> (result: Result<(), AuthError>)
    ensures
        check_view(result) == key@.check(alg@, message@, signature@),
{
    if same_text(alg, "RS256") {
        let n: Vec<u8> = match &key.n {
            Some(n) => decode_part(n.as_str())?,
            None => {
                return Err(AuthError::InvalidKeyMaterial("missing RSA modulus"));
            },
        };
        let e: Vec<u8> = match &key.e {
            Some(e) => decode_part(e.as_str())?,
            None => {
                return Err(AuthError::InvalidKeyMaterial("missing RSA exponent"));
            },
        };
        check_rsa_signature(Some(n.as_slice()), Some(e.as_slice()), message, signature)
    } else if same_text(alg, "ES256") {
        let x: Vec<u8> = match &key.x {
            Some(x) => decode_part(x.as_str())?,
            None => {
                return Err(AuthError::InvalidKeyMaterial("missing EC x coordinate"));
            },
        };
        let y: Vec<u8> = match &key.y {
            Some(y) => decode_part(y.as_str())?,
            None => {
                return Err(AuthError::InvalidKeyMaterial("missing EC y coordinate"));
            },
        };
        if x.len() != 32 || y.len() != 32 {
            return Err(AuthError::InvalidKeyMaterial("invalid P-256 public key coordinates"));
        }
        let mut point: Vec<u8> = Vec::new();
        point.push(4);
        point.extend_from_slice(x.as_slice());
        point.extend_from_slice(y.as_slice());
        proof {
            assert(point@ =~= seq![4u8] + x@ + y@);
        }
        check_p256_signature(point.as_slice(), message, signature)
    } else {
        Err(AuthError::UnsupportedAlgorithm(alg.to_owned()))
    }
}

pub open spec fn oidc_header_view(header: Result<OidcJwtHeader, String>) -> Result<
    OidcJwtHeaderView,
    Seq<char>,
> {
    match header {
        Ok(header) => Ok(header@),
        Err(text) => Err(text@),
    }
}

pub open spec fn oidc_claims_view(claims: Result<OidcClaims, String>) -> Result<
    OidcClaimsView,
    Seq<char>,
> {
    match claims {
        Ok(claims) => Ok(claims@),
        Err(text) => Err(text@),
    }
}

pub open spec fn nonce_view(nonce: Option<&str>) -> Option<Seq<char>> {
    match nonce {
        Some(nonce) => Some(nonce@),
        None => None,
    }
}

/// What checking the claims of a token comes to: they are of the identity's provider, for its
/// client and about its verified address, `now` is in their time, and a nonce that they carry is
/// the one that is expected.
pub open spec fn oidc_claims_check(
    identity: OidcIdentityView,
    claims: OidcClaimsView,
    expected_nonce: Option<Seq<char>>,
    now: u64,
) -> Result<(), AuthErrorView> {
    if claims.iss != identity.issuer_url {
        Err(AuthErrorView::InvalidToken("unexpected OIDC issuer"@))
    } else if !claims.aud.contains(identity.client_id) {
        Err(AuthErrorView::InvalidToken("unexpected OIDC audience"@))
    } else if claims.exp < now {
        Err(AuthErrorView::InvalidToken("OIDC token is expired"@))
    } else if claims.email != Some(identity.email) {
        Err(AuthErrorView::InvalidToken("unexpected OIDC email"@))
    } else if !claims.email_verified {
        Err(AuthErrorView::InvalidToken("OIDC email is not verified"@))
    } else if expected_nonce is Some && claims.nonce is Some && claims.nonce != expected_nonce {
        Err(AuthErrorView::InvalidToken("unexpected OIDC nonce"@))
    } else {
        Ok(())
    }
}

/// What checking a token comes to before its provider is asked anything.
pub open spec fn oidc_token_check(
    identity: OidcIdentityView,
    token: Seq<char>,
    header: Result<OidcJwtHeaderView, Seq<char>>,
    claims: Result<OidcClaimsView, Seq<char>>,
    expected_nonce: Option<Seq<char>>,
    now: u64,
) -> Result<(), AuthErrorView> {
    match parts_of(token) {
        None => Err(AuthErrorView::InvalidToken("malformed bearer token"@)),
        Some(parts) => match (part_bytes(parts.header), header) {
            (Err(error), _) => Err(error),
            (_, Err(text)) => Err(AuthErrorView::Json(text)),
            (_, Ok(_)) => match (part_bytes(parts.claims), claims) {
                (Err(error), _) => Err(error),
                (_, Err(text)) => Err(AuthErrorView::Json(text)),
                (_, Ok(claims)) => oidc_claims_check(identity, claims, expected_nonce, now),
            },
        },
    }
}

/// Where a provider tells about itself: where its keys are, and where to log in.
pub open spec fn discovery_url_of(issuer_url: Seq<char>) -> Seq<char> {
    without_trailing(issuer_url, '/') + "/.well-known/openid-configuration"@
}

pub fn discovery_url(issuer_url: &str) -> (url: String)
    ensures
        url@ == discovery_url_of(issuer_url@),
{
    let issuer: String = trim_end_matches(issuer_url, '/');
    joined(issuer.as_str(), "/.well-known/openid-configuration")
}

/// What checking a token comes to, where its header and its claims are read as `header` and
/// `claims` and its provider tells that it is `issuer` and has these keys.
pub open spec fn oidc_check(
    identity: OidcIdentityView,
    token: Seq<char>,
    header: Result<OidcJwtHeaderView, Seq<char>>,
    claims: Result<OidcClaimsView, Seq<char>>,
    expected_nonce: Option<Seq<char>>,
    now: u64,
    issuer: Seq<char>,
    keys: Seq<OidcJwkView>,
) -> Result<(), AuthErrorView> {
    match oidc_token_check(identity, token, header, claims, expected_nonce, now) {
        Err(error) => Err(error),
        Ok(()) => if issuer != identity.issuer_url {
            Err(AuthErrorView::InvalidToken("unexpected OIDC discovery issuer"@))
        } else {
            match (parts_of(token), header) {
                (Some(parts), Ok(header)) => match (
                    selected(keys, header),
                    part_bytes(parts.signature),
                ) {
                    (None, _) => Err(AuthErrorView::InvalidToken("no matching OIDC JWK found"@)),
                    (_, Err(error)) => Err(error),
                    (Some(key), Ok(signature)) => key.check(
                        header.alg,
                        encode_utf8(parts.signing_input),
                        signature,
                    ),
                },
                _ => Err(AuthErrorView::InvalidToken("malformed bearer token"@)),
            }
        },
    }
}

/// An accepted token is of the identity's provider, for its client and about its verified address;
/// it has not expired, it carries no other nonce than the expected one, and what comes before its
/// signature is signed by the first of the provider's keys that fits its header.
pub proof fn accepted_token_is_the_identity_s(
    identity: OidcIdentityView,
    token: Seq<char>,
    header: Result<OidcJwtHeaderView, Seq<char>>,
    claims: Result<OidcClaimsView, Seq<char>>,
    expected_nonce: Option<Seq<char>>,
    now: u64,
    issuer: Seq<char>,
    keys: Seq<OidcJwkView>,
)
    requires
        oidc_check(identity, token, header, claims, expected_nonce, now, issuer, keys) is Ok,
    ensures
        claims matches Ok(claims) && claims.iss == identity.issuer_url && claims.aud.contains(
            identity.client_id,
        ) && claims.email == Some(identity.email) && claims.email_verified && now <= claims.exp,
        claims matches Ok(claims) && match claims.aud {
            OidcAudienceView::One(client) => client == identity.client_id,
            OidcAudienceView::Many(clients) => clients.contains(identity.client_id),
        },
        claims matches Ok(claims) && (claims.nonce is None || expected_nonce is None || claims.nonce
            == expected_nonce),
        issuer == identity.issuer_url,
        ({
            &&& header matches Ok(header)
            &&& selected(keys, header) matches Some(key)
            &&& parts_of(token) matches Some(parts)
            &&& url_safe_bytes(parts.signature) matches Ok(signature)
            &&& keys.contains(key)
            &&& url_safe_bytes(parts.header) is Ok
            &&& url_safe_bytes(parts.claims) is Ok
            &&& key.matches(header)
            &&& key.check(header.alg, encode_utf8(parts.signing_input), signature) is Ok
        }),
{
    lemma_selected_is_listed(keys, header->Ok_0);
}

/// A token that can be cut and decoded, that is of the identity's provider, for its client and
/// about its verified address, that carries no other nonce than the expected one and that the
/// first fitting key of the provider signed is accepted up to the very second in which it ends,
/// however far ahead that is.
pub proof fn token_of_the_identity_is_accepted(
    identity: OidcIdentityView,
    parts: TokenPartsView,
    header: OidcJwtHeaderView,
    claims: OidcClaimsView,
    expected_nonce: Option<Seq<char>>,
    now: u64,
    keys: Seq<OidcJwkView>,
    place: int,
    signature: Seq<u8>,
)
    requires
        !parts.header.contains('.'),
        !parts.signature.contains('.'),
        url_safe_bytes(parts.header) is Ok,
        url_safe_bytes(parts.claims) is Ok,
        url_safe_bytes(parts.signature) == decoded(signature),
        claims.iss == identity.issuer_url,
        claims.aud == OidcAudienceView::One(identity.client_id) || (claims.aud
            matches OidcAudienceView::Many(clients) && clients.contains(identity.client_id)),
        claims.email == Some(identity.email),
        claims.email_verified,
        claims.nonce is None || expected_nonce is None || claims.nonce == expected_nonce,
        now <= claims.exp,
        0 <= place < keys.len(),
        keys[place].matches(header),
        forall|i: int| 0 <= i < place ==> !(#[trigger] keys[i]).matches(header),
        keys[place].check(
            header.alg,
            encode_utf8(parts.header + "."@ + parts.claims),
            signature,
        ) is Ok,
    ensures
        oidc_check(
            identity,
            parts.header + "."@ + parts.claims + "."@ + parts.signature,
            Ok(header),
            Ok(claims),
            expected_nonce,
            now,
            identity.issuer_url,
            keys,
        ) == Ok::<(), AuthErrorView>(()),
{
    token_is_cut_where_it_was_put_together(parts.header, parts.claims, parts.signature);
    first_fitting_key_is_selected(keys, header, place);
}

/// The address at which a provider is asked is its own, whatever slashes end it, with the place at
/// which providers tell about themselves.
pub proof fn provider_is_asked_at_its_own_address(issuer_url: Seq<char>, slashes: Seq<char>)
    requires
        issuer_url.len() > 0 ==> issuer_url.last() != '/',
        forall|i: int| 0 <= i < slashes.len() ==> slashes[i] == '/',
    ensures
        discovery_url_of(issuer_url + slashes) == issuer_url
            + "/.well-known/openid-configuration"@,
{
    let url = issuer_url + slashes;
    assert forall|j: int| issuer_url.len() <= j < url.len() implies url[j] == '/' by {
        assert(url[j] == slashes[j - issuer_url.len()]);
    }
    if issuer_url.len() > 0 {
        assert(url[issuer_url.len() - 1] == issuer_url.last());
    }
    lemma_without_trailing(url, '/', issuer_url.len() as int);
    assert(url.take(issuer_url.len() as int) =~= issuer_url);
}

/// Claims of another issuer, for another client or about another address, or whose time is over,
/// are refused.
pub proof fn wrong_claims_are_refused(
    identity: OidcIdentityView,
    claims: OidcClaimsView,
    expected_nonce: Option<Seq<char>>,
    now: u64,
)
    ensures
        claims.iss != identity.issuer_url ==> oidc_claims_check(
            identity,
            claims,
            expected_nonce,
            now,
        ) == Err::<(), AuthErrorView>(
            AuthErrorView::InvalidToken("unexpected OIDC issuer"@),
        ),
        claims.iss == identity.issuer_url && !claims.aud.contains(identity.client_id)
            ==> oidc_claims_check(identity, claims, expected_nonce, now) == Err::<(), AuthErrorView>(
            AuthErrorView::InvalidToken("unexpected OIDC audience"@),
        ),
        claims.iss == identity.issuer_url && claims.aud.contains(identity.client_id) && claims.exp
            < now ==> oidc_claims_check(identity, claims, expected_nonce, now) == Err::<(), AuthErrorView>(
            AuthErrorView::InvalidToken("OIDC token is expired"@),
        ),
        claims.iss == identity.issuer_url && claims.aud.contains(identity.client_id) && claims.exp
            >= now && claims.email != Some(identity.email) ==> oidc_claims_check(
            identity,
            claims,
            expected_nonce,
            now,
        ) == Err::<(), AuthErrorView>(AuthErrorView::InvalidToken("unexpected OIDC email"@)),
        claims.iss == identity.issuer_url && claims.aud.contains(identity.client_id) && claims.exp
            >= now && claims.email == Some(identity.email) && !claims.email_verified
            ==> oidc_claims_check(identity, claims, expected_nonce, now) == Err::<
            (),
            AuthErrorView,
        >(AuthErrorView::InvalidToken("OIDC email is not verified"@)),
        claims.exp < now || claims.email != Some(identity.email) || !claims.email_verified
            ==> oidc_claims_check(identity, claims, expected_nonce, now) is Err,
        expected_nonce is Some && claims.nonce is Some && claims.nonce != expected_nonce
            ==> oidc_claims_check(identity, claims, expected_nonce, now) is Err,
{
}

/// A token is for each of the clients that it names, in whatever place it names them, and for no
/// other.
pub proof fn token_is_for_each_that_it_names(
    client: Seq<char>,
    before: Seq<Seq<char>>,
    after: Seq<Seq<char>>,
    other: Seq<char>,
)
    ensures
        (OidcAudienceView::One(client)).contains(client),
        (OidcAudienceView::One(client)).contains(other) ==> other == client,
        (OidcAudienceView::Many(before + seq![client] + after)).contains(client),
        (OidcAudienceView::Many(before + seq![client] + after)).contains(other) ==> other == client
            || before.contains(other) || after.contains(other),
        !(OidcAudienceView::Many(Seq::empty())).contains(client),
{
    let all = before + seq![client] + after;
    assert(all[before.len() as int] == client);
    if all.contains(other) {
        let i = choose|i: int| 0 <= i < all.len() && all[i] == other;
        if i < before.len() {
            assert(before[i] == other);
        } else if i > before.len() {
            assert(after[i - before.len() - 1] == other);
        }
    }
}

/// The key that is selected is the first that fits, and none is where none does.
pub proof fn first_fitting_key_is_selected(
    keys: Seq<OidcJwkView>,
    header: OidcJwtHeaderView,
    place: int,
)
    requires
        0 <= place <= keys.len(),
        place < keys.len() ==> keys[place].matches(header),
        forall|i: int| 0 <= i < place ==> !(#[trigger] keys[i]).matches(header),
    ensures
        selected(keys, header) == (if place < keys.len() {
            Some(keys[place])
        } else {
            None
        }),
    decreases keys.len(),
{
    if place > 0 {
        let rest = keys.skip(1);
        assert forall|i: int| 0 <= i < place - 1 implies !(#[trigger] rest[i]).matches(
            header,
        ) by {
            assert(rest[i] == keys[i + 1]);
        }
        first_fitting_key_is_selected(rest, header, place - 1);
    }
}

/// A key fits a header exactly where it is for the header's algorithm, with what that algorithm
/// needs, and under the identifier that the header names, where it names one.
pub proof fn key_fits_by_its_algorithm_and_identifier(key: OidcJwkView, header: OidcJwtHeaderView)
    ensures
        key.matches(header) <==> {
            &&& header.kid is None || key.kid == header.kid
            &&& key.alg is None || key.alg == Some(header.alg)
            &&& {
                ||| header.alg == "RS256"@ && key.kty == "RSA"@ && key.n is Some && key.e is Some
                ||| header.alg == "ES256"@ && key.kty == "EC"@ && key.crv == Some("P-256"@)
                    && key.x is Some && key.y is Some
            }
        },
{
    reveal_strlit("RS256");
    reveal_strlit("ES256");
    assert("RS256"@[0] != "ES256"@[0]);
}

/// An RSA key accepts exactly what the modulus and the exponent that it decodes to accept, and a
/// key of the curve P-256 exactly what the point of the coordinates does that it decodes to.
pub proof fn key_accepts_what_its_parts_accept(
    key: OidcJwkView,
    message: Seq<u8>,
    signature: Seq<u8>,
)
    ensures
        key.check("RS256"@, message, signature) is Ok <==> {
            &&& key.n matches Some(n)
            &&& key.e matches Some(e)
            &&& url_safe_bytes(n) matches Ok(n)
            &&& url_safe_bytes(e) matches Ok(e)
            &&& rsa_public(n, e)
            &&& rsa_checked(n, e, message, signature)
        },
        key.check("ES256"@, message, signature) is Ok <==> {
            &&& key.x matches Some(x)
            &&& key.y matches Some(y)
            &&& url_safe_bytes(x) matches Ok(x)
            &&& url_safe_bytes(y) matches Ok(y)
            &&& x.len() == 32
            &&& y.len() == 32
            &&& p256_point(seq![4u8] + x + y)
            &&& p256_signature(signature)
            &&& p256_checked(seq![4u8] + x + y, message, signature)
        },
        key.n is None ==> key.check("RS256"@, message, signature) == Err::<(), AuthErrorView>(
            AuthErrorView::InvalidKeyMaterial("missing RSA modulus"@),
        ),
        key.x is None ==> key.check("ES256"@, message, signature) == Err::<(), AuthErrorView>(
            AuthErrorView::InvalidKeyMaterial("missing EC x coordinate"@),
        ),
        forall|alg: Seq<char>|
            alg != "RS256"@ && alg != "ES256"@ ==> #[trigger] key.check(alg, message, signature)
                == Err::<(), AuthErrorView>(AuthErrorView::UnsupportedAlgorithm(alg)),
{
    reveal_strlit("RS256");
    reveal_strlit("ES256");
    assert("RS256"@[0] != "ES256"@[0]);
}

proof fn lemma_selected_is_listed(keys: Seq<OidcJwkView>, header: OidcJwtHeaderView)
    ensures
        selected(keys, header) matches Some(key) ==> keys.contains(key) && key.matches(header),
    decreases keys.len(),
{
    if keys.len() > 0 && !keys[0].matches(header) {
        lemma_selected_is_listed(keys.skip(1), header);
        if let Some(key) = selected(keys.skip(1), header) {
            let i = choose|i: int| 0 <= i < keys.skip(1).len() && keys.skip(1)[i] == key;
            assert(keys[i + 1] == key);
        }
    }
}

fn check_oidc_claims(
    identity: &OidcIdentity,
    claims: &OidcClaims,
    expected_nonce: Option<&str>,
    now: u64,
) -> (result: Result<(), AuthError>)
    ensures
        check_view(result) == oidc_claims_check(
            identity@,
            claims@,
            nonce_view(expected_nonce),
            now,
        ),
{
    if !same_text(claims.iss.as_str(), identity.issuer_url.as_str()) {
        return Err(AuthError::InvalidToken("unexpected OIDC issuer"));
    }
    if !claims.aud.contains(identity.client_id.as_str()) {
        return Err(AuthError::InvalidToken("unexpected OIDC audience"));
    }
    if claims.exp < now {
        return Err(AuthError::InvalidToken("OIDC token is expired"));
    }
    if !same_optional_text(&claims.email, identity.email.as_str()) {
        return Err(AuthError::InvalidToken("unexpected OIDC email"));
    }
    if !claims.email_verified {
        return Err(AuthError::InvalidToken("OIDC email is not verified"));
    }
    match expected_nonce {
        Some(nonce) => if claims.nonce.is_some() && !same_optional_text(&claims.nonce, nonce) {
            return Err(AuthError::InvalidToken("unexpected OIDC nonce"));
        },
        None => {},
    }
    Ok(())
}

fn check_oidc_token(
    identity: &OidcIdentity,
    token: &str,
    header: &Result<OidcJwtHeader, String>,
    claims: &Result<OidcClaims, String>,
    expected_nonce: Option<&str>,
    now: u64,
) -> (result: Result<(), AuthError>)
    ensures
        check_view(result) == oidc_token_check(
            identity@,
            token@,
            oidc_header_view(*header),
            oidc_claims_view(*claims),
            nonce_view(expected_nonce),
            now,
        ),
{
    let parts: TokenParts = token_parts(token)?;
    let _: Vec<u8> = decode_part(parts.header.as_str())?;
    if let Err(text) = header {
        return Err(AuthError::Json(text.as_str().to_owned()));
    }
    let _: Vec<u8> = decode_part(parts.claims.as_str())?;
    match claims {
        Ok(claims) => check_oidc_claims(identity, claims, expected_nonce, now),
        Err(text) => Err(AuthError::Json(text.as_str().to_owned())),
    }
}

/// Checks what can be checked of a token before its provider is asked, and tells where to ask it
/// for its keys.
pub fn oidc_discovery_url(
    identity: &OidcIdentity,
    token: &str,
    header: &Result<OidcJwtHeader, String>,
    claims: &Result<OidcClaims, String>,
    expected_nonce: Option<&str>,
    now: u64,
) -> (result: Result<String, AuthError>)
    ensures
        (match result {
            Ok(url) => Ok(url@),
            Err(error) => Err(error@),
        }) == match oidc_token_check(
            identity@,
            token@,
            oidc_header_view(*header),
            oidc_claims_view(*claims),
            nonce_view(expected_nonce),
            now,
        ) {
            Ok(()) => Ok(discovery_url_of(identity@.issuer_url)),
            Err(error) => Err(error),
        },
{
    check_oidc_token(identity, token, header, claims, expected_nonce, now)?;
    Ok(discovery_url(identity.issuer_url.as_str()))
}

/// Where the keys of a provider are, where it is the provider that was asked.
pub fn oidc_keys_url(identity: &OidcIdentity, discovery: &OidcDiscoveryDocument) -> (result: Result<
    String,
    AuthError,
>)
    ensures
        (match result {
            Ok(url) => Ok(url@),
            Err(error) => Err(error@),
        }) == (if discovery.issuer@ == identity@.issuer_url {
            Ok(discovery.jwks_uri@)
        } else {
            Err(AuthErrorView::InvalidToken("unexpected OIDC discovery issuer"@))
        }),
{
    if !same_text(discovery.issuer.as_str(), identity.issuer_url.as_str()) {
        return Err(AuthError::InvalidToken("unexpected OIDC discovery issuer"));
    }
    Ok(discovery.jwks_uri.as_str().to_owned())
}

/// Checks that a token is an identity's, as its provider signs it. `header` and `claims` are what
/// the JSON of the token holds, each with the reason where it holds none; `discovery` and `keys`
/// are what the provider tells.
pub fn verify_oidc_identity_token(
    identity: &OidcIdentity,
    token: &str,
    header: &Result<OidcJwtHeader, String>,
    claims: &Result<OidcClaims, String>,
    expected_nonce: Option<&str>,
    now: u64,
    discovery: &OidcDiscoveryDocument,
    keys: &[OidcJwk],
) -> (result: Result<(), AuthError>)
    ensures
        check_view(result) == oidc_check(
            identity@,
            token@,
            oidc_header_view(*header),
            oidc_claims_view(*claims),
            nonce_view(expected_nonce),
            now,
            discovery.issuer@,
            jwks_view(keys@),
        ),
{
    check_oidc_token(identity, token, header, claims, expected_nonce, now)?;
    let _: String = oidc_keys_url(identity, discovery)?;
    let parts: TokenParts = token_parts(token)?;
    match header {
        Ok(header) => {
            let key: &OidcJwk = select_oidc_jwk(keys, header)?;
            let signature: Vec<u8> = decode_part(parts.signature.as_str())?;
            verify_oidc_jwk_signature(
                key,
                header.alg.as_str(),
                parts.signing_input.as_str().as_bytes(),
                signature.as_slice(),
            )
        },
        Err(text) => Err(AuthError::Json(text.as_str().to_owned())),
    }
}

} // verus!
