//! Signing and checking with the algorithms that tokens are signed with.

use crate::auth::error::{check_view, AuthError, AuthErrorView};
use crate::auth::key::{
    KeyData, KeyDataView, PrivateKey, PrivateKeyView, PublicKey, PublicKeyView, SecretKey,
    SecretKeyView,
};
use crate::text::bytes_view;
use vstd::prelude::*;
use vstd::string::*;

verus! {

/// The algorithms that tokens are signed with.
#[derive(Clone, Copy, Debug, PartialEq, Eq, Structural)]
pub enum JwtAlgorithm {
    EdDsa,
    Es256,
    Rs256,
}

impl JwtAlgorithm {
    /// The name of the algorithm in a token.
    pub open spec fn name(self) -> Seq<char> {
        match self {
            JwtAlgorithm::EdDsa => "EdDSA"@,
            JwtAlgorithm::Es256 => "ES256"@,
            JwtAlgorithm::Rs256 => "RS256"@,
        }
    }

    pub fn as_str(self) -> (name: &'static str)
        ensures
            name@ == self.name(),
    {
        match self {
            JwtAlgorithm::EdDsa => "EdDSA",
            JwtAlgorithm::Es256 => "ES256",
            JwtAlgorithm::Rs256 => "RS256",
        }
    }
}

/// Whether bytes are a signature with Ed25519; where they are none, why.
pub uninterp spec fn ed25519_signature(signature: Seq<u8>) -> Result<(), Seq<char>>;

/// Whether an Ed25519 key accepts a signature of a message.
pub uninterp spec fn ed25519_checked(
    public: Seq<u8>,
    message: Seq<u8>,
    signature: Seq<u8>,
) -> bool;

/// The signature of a message by an Ed25519 key with this public half and this seed.
pub uninterp spec fn ed25519_signed(
    public: Seq<u8>,
    seed: Seq<u8>,
    message: Seq<u8>,
) -> Option<Seq<u8>>;

/// Whether bytes are a point on the curve P-256.
pub uninterp spec fn p256_point(point: Seq<u8>) -> bool;

/// Whether bytes are a signature with the curve P-256.
pub uninterp spec fn p256_signature(signature: Seq<u8>) -> bool;

/// Whether a point on the curve P-256 accepts a signature of a message.
pub uninterp spec fn p256_checked(point: Seq<u8>, message: Seq<u8>, signature: Seq<u8>) -> bool;

/// Whether bytes are a secret number of the curve P-256.
pub uninterp spec fn p256_secret(secret: Seq<u8>) -> bool;

/// The point, not compressed, that belongs to a secret number of the curve P-256.
pub uninterp spec fn p256_public(secret: Seq<u8>) -> Seq<u8>;

/// The signature of a message by a secret number of the curve P-256.
pub uninterp spec fn p256_signed(secret: Seq<u8>, message: Seq<u8>) -> Option<Seq<u8>>;

/// The signature of a message by a secret number of the curve P-256, as SSH writes it.
pub uninterp spec fn p256_ssh_signed(secret: Seq<u8>, message: Seq<u8>) -> Option<Seq<u8>>;

/// Whether a modulus and an exponent are an RSA public key of a size that is in use.
pub uninterp spec fn rsa_public(n: Seq<u8>, e: Seq<u8>) -> bool;

/// Whether an RSA public key accepts a signature of a message.
pub uninterp spec fn rsa_checked(
    n: Seq<u8>,
    e: Seq<u8>,
    message: Seq<u8>,
    signature: Seq<u8>,
) -> bool;

/// Whether numbers are an RSA private key.
pub uninterp spec fn rsa_private(
    n: Seq<u8>,
    e: Seq<u8>,
    d: Seq<u8>,
    p: Seq<u8>,
    q: Seq<u8>,
) -> bool;

/// The signature of a message by an RSA private key.
pub uninterp spec fn rsa_signed(
    n: Seq<u8>,
    e: Seq<u8>,
    d: Seq<u8>,
    p: Seq<u8>,
    q: Seq<u8>,
    message: Seq<u8>,
) -> Option<Seq<u8>>;

/// The signature of a message by an RSA private key, as SSH makes it.
pub uninterp spec fn rsa_ssh_signed(
    n: Seq<u8>,
    e: Seq<u8>,
    d: Seq<u8>,
    p: Seq<u8>,
    q: Seq<u8>,
    message: Seq<u8>,
) -> Option<Seq<u8>>;

/// An Ed25519 key accepts a signature.
pub open spec fn ed25519_accepts(public: Seq<u8>, message: Seq<u8>, signature: Seq<u8>) -> bool {
    ed25519_signature(signature) is Ok && ed25519_checked(public, message, signature)
}

/// `ssh_key::Signature::new` for Ed25519: the result is named, an error by its message. Exactly 64
/// bytes are a signature.
#[verifier::external_body]
fn check_ed25519_signature(signature: &[u8]) -> (result: Result<(), String>)
    ensures
        (match result {
            Ok(()) => Ok(()),
            Err(text) => Err(text@),
        }) == ed25519_signature(signature@),
        result is Ok <==> signature@.len() == 64,
{
    let signature = ssh_key::Signature::new(ssh_key::Algorithm::Ed25519, signature);
    signature.map(|_| ()).map_err(|error| error.to_string())
}

/// `verify` of `ssh_key::PublicKey` for Ed25519: whether it succeeds is named.
#[verifier::external_body]
fn ed25519_verify(public: &[u8; 32], message: &[u8], signature: &[u8]) -> (accepted: bool)
    requires
        signature@.len() == 64,
    ensures
        accepted == ed25519_checked(public@, message@, signature@),
{
    let key = ssh_key::PublicKey::from(ssh_key::public::Ed25519PublicKey(*public));
    match ssh_key::Signature::new(ssh_key::Algorithm::Ed25519, signature) {
        Ok(signature) => signature::Verifier::verify(&key, message, &signature).is_ok(),
        Err(_) => false,
    }
}

/// `try_sign` of `ssh_key::PrivateKey` for Ed25519: the result is named. There is a signature only
/// where the public half belongs to the seed; it is well formed, and the public half accepts it.
#[verifier::external_body]
fn ed25519_sign(public: &[u8; 32], seed: &[u8; 32], message: &[u8]) -> (signature: Option<Vec<u8>>)
    ensures
        bytes_view(signature) == ed25519_signed(public@, seed@, message@),
        signature matches Some(bytes) ==> ed25519_accepts(public@, message@, bytes@),
{
    let pair = ssh_key::private::Ed25519Keypair {
        public: ssh_key::public::Ed25519PublicKey(*public),
        private: ssh_key::private::Ed25519PrivateKey::from_bytes(seed),
    };
    let key = ssh_key::PrivateKey::from(pair);
    let signature: ssh_key::Signature = signature::Signer::try_sign(&key, message).ok()?;
    Some(signature.as_bytes().to_vec())
}

/// `p256::ecdsa::VerifyingKey::from_sec1_bytes`: whether it succeeds is named.
#[verifier::external_body]
fn is_p256_point(point: &[u8]) -> (valid: bool)
    ensures
        valid == p256_point(point@),
{
    p256::ecdsa::VerifyingKey::from_sec1_bytes(point).is_ok()
}

/// `p256::ecdsa::Signature::from_slice`: whether it succeeds is named.
#[verifier::external_body]
fn is_p256_signature(signature: &[u8]) -> (valid: bool)
    ensures
        valid == p256_signature(signature@),
{
    p256::ecdsa::Signature::from_slice(signature).is_ok()
}

/// `verify` of `p256::ecdsa::VerifyingKey`: whether it succeeds is named.
#[verifier::external_body]
fn p256_verify(point: &[u8], message: &[u8], signature: &[u8]) -> (accepted: bool)
    requires
        p256_point(point@),
        p256_signature(signature@),
    ensures
        accepted == p256_checked(point@, message@, signature@),
{
    let key = p256::ecdsa::VerifyingKey::from_sec1_bytes(point);
    let signature = p256::ecdsa::Signature::from_slice(signature);
    match (key, signature) {
        (Ok(key), Ok(signature)) =>
            signature::Verifier::verify(&key, message, &signature).is_ok(),
        _ => false,
    }
}

/// `p256::ecdsa::SigningKey::from_slice`: whether it succeeds is named.
#[verifier::external_body]
pub(crate) fn is_p256_secret(secret: &[u8]) -> (valid: bool)
    ensures
        valid == p256_secret(secret@),
{
    p256::ecdsa::SigningKey::from_slice(secret).is_ok()
}

/// `try_sign` of `p256::ecdsa::SigningKey`, which needs no random numbers: the result is named.
/// A signature is well formed, and the point that belongs to the secret, which is on the curve,
/// accepts it.
#[verifier::external_body]
fn p256_sign(secret: &[u8], message: &[u8]) -> (signature: Option<Vec<u8>>)
    requires
        p256_secret(secret@),
    ensures
        bytes_view(signature) == p256_signed(secret@, message@),
        signature matches Some(bytes) ==> p256_accepts(p256_public(secret@), message@, bytes@),
{
    let key = p256::ecdsa::SigningKey::from_slice(secret).ok()?;
    let signature: p256::ecdsa::Signature = signature::Signer::try_sign(&key, message).ok()?;
    Some(signature.to_bytes().to_vec())
}

/// A point on the curve P-256 accepts a signature.
pub open spec fn p256_accepts(point: Seq<u8>, message: Seq<u8>, signature: Seq<u8>) -> bool {
    p256_point(point) && p256_signature(signature) && p256_checked(point, message, signature)
}

/// `verifying_key` of `p256::ecdsa::SigningKey`, and `to_encoded_point` of its result without
/// compression: the result is named, by its bytes.
#[verifier::external_body]
pub(crate) fn p256_point_of(secret: &[u8]) -> (point: Vec<u8>)
    requires
        p256_secret(secret@),
    ensures
        point@ == p256_public(secret@),
{
    p256::ecdsa::SigningKey::from_slice(secret)
        .map(|key| key.verifying_key().to_encoded_point(false).as_bytes().to_vec())
        .unwrap_or_default()
}

/// `try_sign` of `ssh_key::private::EcdsaPrivateKey` for P-256, which needs no random numbers: the
/// result is named. There is no signature of what is no secret number of the curve.
#[verifier::external_body]
fn p256_ssh_sign(secret: &[u8], message: &[u8]) -> (signature: Option<Vec<u8>>)
    ensures
        bytes_view(signature) == p256_ssh_signed(secret@, message@),
{
    let secret = p256::SecretKey::from_slice(secret).ok()?;
    let key = ssh_key::private::EcdsaPrivateKey::<32>::from(secret);
    let signature: ssh_key::Signature = signature::Signer::try_sign(&key, message).ok()?;
    Some(signature.as_bytes().to_vec())
}

/// `rsa::RsaPublicKey::new`: whether it succeeds is named.
#[verifier::external_body]
pub(crate) fn is_rsa_public(n: &[u8], e: &[u8]) -> (valid: bool)
    ensures
        valid == rsa_public(n@, e@),
{
    rsa::RsaPublicKey::new(rsa::BigUint::from_bytes_be(n), rsa::BigUint::from_bytes_be(e)).is_ok()
}

/// `verify` of `rsa::pkcs1v15::VerifyingKey` over SHA-256: whether it succeeds is named. Any bytes
/// can be tried as a signature.
#[verifier::external_body]
fn rsa_verify(n: &[u8], e: &[u8], message: &[u8], signature: &[u8]) -> (accepted: bool)
    requires
        rsa_public(n@, e@),
    ensures
        accepted == rsa_checked(n@, e@, message@, signature@),
{
    let n = rsa::BigUint::from_bytes_be(n);
    let key = rsa::RsaPublicKey::new(n, rsa::BigUint::from_bytes_be(e));
    let signature = rsa::pkcs1v15::Signature::try_from(signature);
    match (key, signature) {
        (Ok(key), Ok(signature)) => signature::Verifier::verify(
            &rsa::pkcs1v15::VerifyingKey::<sha2::Sha256>::new(key), message, &signature).is_ok(),
        _ => false,
    }
}

/// `rsa::RsaPrivateKey::from_components` and `validate` of its result: whether both succeed is
/// named.
#[verifier::external_body]
fn is_rsa_private(n: &[u8], e: &[u8], d: &[u8], p: &[u8], q: &[u8]) -> (valid: bool)
    ensures
        valid == rsa_private(n@, e@, d@, p@, q@),
{
    let number = rsa::BigUint::from_bytes_be;
    let primes = vec![number(p), number(q)];
    rsa::RsaPrivateKey::from_components(number(n), number(e), number(d), primes)
        .and_then(|key| key.validate()).is_ok()
}

/// `try_sign` of `rsa::pkcs1v15::SigningKey` over SHA-256, which needs no random numbers: the
/// result is named. The public key accepts a signature, where it is of a size that is in use.
#[verifier::external_body]
fn rsa_sign(n: &[u8], e: &[u8], d: &[u8], p: &[u8], q: &[u8], message: &[u8]) -> (signature: Option<
    Vec<u8>,
>)
    requires
        rsa_private(n@, e@, d@, p@, q@),
    ensures
        bytes_view(signature) == rsa_signed(n@, e@, d@, p@, q@, message@),
        signature matches Some(bytes) ==> rsa_accepts_if_public(n@, e@, message@, bytes@),
{
    let number = rsa::BigUint::from_bytes_be;
    let primes = vec![number(p), number(q)];
    let key = rsa::RsaPrivateKey::from_components(number(n), number(e), number(d), primes).ok()?;
    let key = rsa::pkcs1v15::SigningKey::<sha2::Sha256>::new(key);
    let signature: rsa::pkcs1v15::Signature = signature::Signer::try_sign(&key, message).ok()?;
    Some(signature::SignatureEncoding::to_vec(&signature))
}

/// `try_sign` of `ssh_key::private::RsaKeypair`, which needs no random numbers: the result is
/// named. It does not read the coefficient of the key, for which `d` stands here.
#[verifier::external_body]
fn rsa_ssh_sign(n: &[u8], e: &[u8], d: &[u8], p: &[u8], q: &[u8], message: &[u8]) -> (signature:
    Option<Vec<u8>>)
    ensures
        bytes_view(signature) == rsa_ssh_signed(n@, e@, d@, p@, q@, message@),
{
    let number = |bytes: &[u8]| ssh_key::Mpint::from_positive_bytes(bytes).ok();
    let public = ssh_key::public::RsaPublicKey { e: number(e)?, n: number(n)? };
    let private = ssh_key::private::RsaPrivateKey {
        d: number(d)?, iqmp: number(d)?, p: number(p)?, q: number(q)? };
    let key = ssh_key::private::RsaKeypair { public, private };
    let signature: ssh_key::Signature = signature::Signer::try_sign(&key, message).ok()?;
    Some(signature.as_bytes().to_vec())
}

/// Where a modulus and an exponent are a public key of a size that is in use, it accepts the
/// signature.
pub open spec fn rsa_accepts_if_public(
    n: Seq<u8>,
    e: Seq<u8>,
    message: Seq<u8>,
    signature: Seq<u8>,
) -> bool {
    rsa_public(n, e) ==> rsa_checked(n, e, message, signature)
}

/// The algorithm that tokens are signed with by a key.
pub open spec fn algorithm_of(key: PublicKeyView) -> Result<JwtAlgorithm, AuthErrorView> {
    match key.data {
        KeyDataView::Ed25519(_) => Ok(JwtAlgorithm::EdDsa),
        KeyDataView::NistP256(_) => Ok(JwtAlgorithm::Es256),
        KeyDataView::Rsa { .. } => Ok(JwtAlgorithm::Rs256),
        KeyDataView::Other => Err(AuthErrorView::UnsupportedAlgorithm(key.algorithm)),
    }
}

pub open spec fn algorithm_view(result: Result<JwtAlgorithm, AuthError>) -> Result<
    JwtAlgorithm,
    AuthErrorView,
> {
    match result {
        Ok(algorithm) => Ok(algorithm),
        Err(error) => Err(error@),
    }
}

pub fn jwt_algorithm_for_public_key(key: &PublicKey) -> (result: Result<JwtAlgorithm, AuthError>)
    ensures
        algorithm_view(result) == algorithm_of(key@),
{
    match &key.data {
        KeyData::Ed25519(_) => Ok(JwtAlgorithm::EdDsa),
        KeyData::NistP256(_) => Ok(JwtAlgorithm::Es256),
        KeyData::Rsa { .. } => Ok(JwtAlgorithm::Rs256),
        KeyData::Other => Err(AuthError::UnsupportedAlgorithm(key.algorithm.as_str().to_owned())),
    }
}

/// What checking a signature by an RSA public key comes to.
pub open spec fn rsa_check(
    n: Option<Seq<u8>>,
    e: Option<Seq<u8>>,
    message: Seq<u8>,
    signature: Seq<u8>,
) -> Result<(), AuthErrorView> {
    match (n, e) {
        (Some(n), Some(e)) => if !rsa_public(n, e) {
            Err(AuthErrorView::InvalidKeyMaterial("invalid RSA public key"@))
        } else if rsa_checked(n, e, message, signature) {
            Ok(())
        } else {
            Err(AuthErrorView::InvalidToken("JWT signature verification failed"@))
        },
        _ => Err(AuthErrorView::InvalidKeyMaterial("invalid RSA key component"@)),
    }
}

/// What checking a signature by a point on the curve P-256 comes to.
pub open spec fn p256_check(point: Seq<u8>, message: Seq<u8>, signature: Seq<u8>) -> Result<
    (),
    AuthErrorView,
> {
    if !p256_point(point) {
        Err(AuthErrorView::InvalidKeyMaterial("invalid P-256 public key"@))
    } else if !p256_signature(signature) {
        Err(AuthErrorView::InvalidToken("malformed ES256 signature"@))
    } else if p256_checked(point, message, signature) {
        Ok(())
    } else {
        Err(AuthErrorView::InvalidToken("JWT signature verification failed"@))
    }
}

/// What checking a signature by a public key with an algorithm comes to.
pub open spec fn signature_check(
    key: PublicKeyView,
    algorithm: JwtAlgorithm,
    message: Seq<u8>,
    signature: Seq<u8>,
) -> Result<(), AuthErrorView> {
    match (algorithm, key.data) {
        (JwtAlgorithm::EdDsa, data) => match ed25519_signature(signature) {
            Err(text) => Err(AuthErrorView::SshKey(text)),
            Ok(()) => if data matches KeyDataView::Ed25519(public) && ed25519_checked(
                public,
                message,
                signature,
            ) {
                Ok(())
            } else {
                Err(AuthErrorView::InvalidToken("JWT signature verification failed"@))
            },
        },
        (JwtAlgorithm::Es256, KeyDataView::NistP256(point)) => p256_check(
            point,
            message,
            signature,
        ),
        (JwtAlgorithm::Rs256, KeyDataView::Rsa { e, n }) => rsa_check(n, e, message, signature),
        _ => Err(AuthErrorView::UnsupportedAlgorithm(key.algorithm)),
    }
}

/// Each kind of key signs tokens with the algorithm of its kind, and a key of another kind with
/// none.
pub proof fn algorithm_is_that_of_the_kind(key: PublicKeyView)
    ensures
        key.data is Ed25519 ==> (algorithm_of(key) matches Ok(algorithm) && algorithm.name()
            == "EdDSA"@),
        key.data is NistP256 ==> (algorithm_of(key) matches Ok(algorithm) && algorithm.name()
            == "ES256"@),
        key.data is Rsa ==> (algorithm_of(key) matches Ok(algorithm) && algorithm.name()
            == "RS256"@),
        key.data is Other ==> algorithm_of(key) == Err::<JwtAlgorithm, AuthErrorView>(
            AuthErrorView::UnsupportedAlgorithm(key.algorithm),
        ),
{
}

/// A key accepts exactly the signatures that are its own, with the algorithm of its kind; with any
/// other algorithm it accepts none.
pub proof fn key_accepts_its_own_signatures_only(
    key: PublicKeyView,
    message: Seq<u8>,
    signature: Seq<u8>,
)
    ensures
        key.data matches KeyDataView::Ed25519(public) ==> (signature_check(
            key,
            JwtAlgorithm::EdDsa,
            message,
            signature,
        ) is Ok <==> (ed25519_signature(signature) is Ok && ed25519_checked(
            public,
            message,
            signature,
        ))),
        key.data matches KeyDataView::NistP256(point) ==> (signature_check(
            key,
            JwtAlgorithm::Es256,
            message,
            signature,
        ) is Ok <==> (p256_point(point) && p256_signature(signature) && p256_checked(
            point,
            message,
            signature,
        ))),
        key.data matches KeyDataView::Rsa { e: Some(e), n: Some(n) } ==> (signature_check(
            key,
            JwtAlgorithm::Rs256,
            message,
            signature,
        ) is Ok <==> (rsa_public(n, e) && rsa_checked(n, e, message, signature))),
        forall|algorithm: JwtAlgorithm| #[trigger]
            signature_check(key, algorithm, message, signature) is Ok ==> algorithm_of(key) == Ok::<
                JwtAlgorithm,
                AuthErrorView,
            >(algorithm) && (key.data matches KeyDataView::Rsa { e, n } ==> e is Some && n is Some),
{
}

/// Every key that holds what its kind needs signs whatever its signer signs, and gives out the
/// signer's signature.
pub proof fn usable_key_signs(key: PrivateKeyView, message: Seq<u8>, signature: Seq<u8>)
    ensures
        key.public_key.data matches KeyDataView::Ed25519(public) ==> key.secret
            matches SecretKeyView::Ed25519(seed) ==> ed25519_signed(public, seed, message) == Some(
            signature,
        ) ==> signature_of(key, JwtAlgorithm::EdDsa, message) == signed_as(signature),
        key.secret matches SecretKeyView::NistP256(secret) ==> p256_secret(secret) && p256_signed(
            secret,
            message,
        ) == Some(signature) ==> signature_of(key, JwtAlgorithm::Es256, message) == signed_as(
            signature,
        ),
        key.public_key.data matches KeyDataView::Rsa { e: Some(e), n: Some(n) } ==> key.secret
            matches SecretKeyView::Rsa { d: Some(d), p: Some(p), q: Some(q) } ==> rsa_private(
            n,
            e,
            d,
            p,
            q,
        ) && rsa_signed(n, e, d, p, q, message) == Some(signature) ==> signature_of(
            key,
            JwtAlgorithm::Rs256,
            message,
        ) == signed_as(signature),
{
}

/// Signing that comes to a signature.
pub open spec fn signed_as(signature: Seq<u8>) -> Result<Seq<u8>, AuthErrorView> {
    Ok(signature)
}

pub(crate) fn check_rsa_signature(
    n: Option<&[u8]>,
    e: Option<&[u8]>,
    message: &[u8],
    signature: &[u8],
) -> (result: Result<(), AuthError>)
    ensures
        check_view(result) == rsa_check(
            match n {
                Some(n) => Some(n@),
                None => None,
            },
            match e {
                Some(e) => Some(e@),
                None => None,
            },
            message@,
            signature@,
        ),
{
    let n: &[u8] = match n {
        Some(n) => n,
        None => {
            return Err(AuthError::InvalidKeyMaterial("invalid RSA key component"));
        },
    };
    let e: &[u8] = match e {
        Some(e) => e,
        None => {
            return Err(AuthError::InvalidKeyMaterial("invalid RSA key component"));
        },
    };
    if !is_rsa_public(n, e) {
        return Err(AuthError::InvalidKeyMaterial("invalid RSA public key"));
    }
    if rsa_verify(n, e, message, signature) {
        Ok(())
    } else {
        Err(AuthError::InvalidToken("JWT signature verification failed"))
    }
}

pub(crate) fn check_p256_signature(point: &[u8], message: &[u8], signature: &[u8]) -> (result:
    Result<(), AuthError>)
    ensures
        check_view(result) == p256_check(point@, message@, signature@),
{
    if !is_p256_point(point) {
        return Err(AuthError::InvalidKeyMaterial("invalid P-256 public key"));
    }
    if !is_p256_signature(signature) {
        return Err(AuthError::InvalidToken("malformed ES256 signature"));
    }
    if p256_verify(point, message, signature) {
        Ok(())
    } else {
        Err(AuthError::InvalidToken("JWT signature verification failed"))
    }
}

fn as_bytes(bytes: &Option<Vec<u8>>) -> (slice: Option<&[u8]>)
    ensures
        (match slice {
            Some(slice) => Some(slice@),
            None => None,
        }) == bytes_view(*bytes),
{
    match bytes {
        Some(bytes) => Some(bytes.as_slice()),
        None => None,
    }
}

/// Checks a signature by a public key with an algorithm.
pub fn verify_jwt_signature(
    key: &PublicKey,
    algorithm: JwtAlgorithm,
    message: &[u8],
    signature: &[u8],
) -> (result: Result<(), AuthError>)
    ensures
        check_view(result) == signature_check(key@, algorithm, message@, signature@),
{
    match (algorithm, &key.data) {
        (JwtAlgorithm::EdDsa, data) => match check_ed25519_signature(signature) {
            Err(text) => Err(AuthError::SshKey(text)),
            Ok(()) => {
                let accepted: bool = match data {
                    KeyData::Ed25519(public) => ed25519_verify(public, message, signature),
                    _ => false,
                };
                if accepted {
                    Ok(())
                } else {
                    Err(AuthError::InvalidToken("JWT signature verification failed"))
                }
            },
        },
        (JwtAlgorithm::Es256, KeyData::NistP256(point)) => check_p256_signature(
            point.as_slice(),
            message,
            signature,
        ),
        (JwtAlgorithm::Rs256, KeyData::Rsa { e, n }) => check_rsa_signature(
            as_bytes(n),
            as_bytes(e),
            message,
            signature,
        ),
        _ => Err(AuthError::UnsupportedAlgorithm(key.algorithm.as_str().to_owned())),
    }
}

/// What signing comes to where the outcome of the signer is known.
pub open spec fn signed_or_refused(signature: Option<Seq<u8>>) -> Result<Seq<u8>, AuthErrorView> {
    match signature {
        Some(bytes) => Ok(bytes),
        None => Err(AuthErrorView::InvalidToken("could not sign bearer token"@)),
    }
}

/// The signature of a message by a private key with an algorithm. With EdDSA every key signs in the
/// way of SSH that is its own.
pub open spec fn signature_of(
    key: PrivateKeyView,
    algorithm: JwtAlgorithm,
    message: Seq<u8>,
) -> Result<Seq<u8>, AuthErrorView> {
    match algorithm {
        JwtAlgorithm::EdDsa => match (key.public_key.data, key.secret) {
            (KeyDataView::Ed25519(public), SecretKeyView::Ed25519(seed)) => signed_or_refused(
                ed25519_signed(public, seed, message),
            ),
            (_, SecretKeyView::NistP256(secret)) => signed_or_refused(
                p256_ssh_signed(secret, message),
            ),
            (
                KeyDataView::Rsa { e: Some(e), n: Some(n) },
                SecretKeyView::Rsa { d: Some(d), p: Some(p), q: Some(q) },
            ) => signed_or_refused(rsa_ssh_signed(n, e, d, p, q, message)),
            _ => Err(AuthErrorView::InvalidToken("could not sign bearer token"@)),
        },
        JwtAlgorithm::Es256 => match key.secret {
            SecretKeyView::NistP256(secret) => if p256_secret(secret) {
                signed_or_refused(p256_signed(secret, message))
            } else {
                Err(AuthErrorView::InvalidKeyMaterial("invalid P-256 private key"@))
            },
            _ => Err(AuthErrorView::UnsupportedAlgorithm(key.public_key.algorithm)),
        },
        JwtAlgorithm::Rs256 => match (key.public_key.data, key.secret) {
            (
                KeyDataView::Rsa { e: Some(e), n: Some(n) },
                SecretKeyView::Rsa { d: Some(d), p: Some(p), q: Some(q) },
            ) => if rsa_private(n, e, d, p, q) {
                signed_or_refused(rsa_signed(n, e, d, p, q, message))
            } else {
                Err(AuthErrorView::InvalidKeyMaterial("invalid RSA private key"@))
            },
            (KeyDataView::Rsa { .. }, SecretKeyView::Rsa { .. }) => Err(
                AuthErrorView::InvalidKeyMaterial("invalid RSA key component"@),
            ),
            _ => Err(AuthErrorView::UnsupportedAlgorithm(key.public_key.algorithm)),
        },
    }
}

pub open spec fn signature_view(result: Result<Vec<u8>, AuthError>) -> Result<
    Seq<u8>,
    AuthErrorView,
> {
    match result {
        Ok(bytes) => Ok(bytes@),
        Err(error) => Err(error@),
    }
}

/// What a signature of a private key is worth: the key's own public half accepts it, where that
/// half belongs to the secret, and for RSA is of a size that is in use.
pub open spec fn accepted_by_own_key(
    key: PrivateKeyView,
    algorithm: JwtAlgorithm,
    message: Seq<u8>,
    signature: Seq<u8>,
) -> bool {
    match (algorithm, key.public_key.data, key.secret) {
        (JwtAlgorithm::EdDsa, KeyDataView::Ed25519(public), SecretKeyView::Ed25519(_)) =>
            ed25519_accepts(public, message, signature),
        (JwtAlgorithm::Es256, KeyDataView::NistP256(point), SecretKeyView::NistP256(secret)) =>
            point == p256_public(secret) ==> p256_accepts(point, message, signature),
        (JwtAlgorithm::Rs256, KeyDataView::Rsa { e: Some(e), n: Some(n) }, _) =>
            rsa_accepts_if_public(n, e, message, signature),
        _ => true,
    }
}

fn signed(signature: Option<Vec<u8>>) -> (result: Result<Vec<u8>, AuthError>)
    ensures
        signature_view(result) == signed_or_refused(bytes_view(signature)),
{
    match signature {
        Some(bytes) => Ok(bytes),
        None => Err(AuthError::InvalidToken("could not sign bearer token")),
    }
}

/// Signs a message by a private key with an algorithm.
pub fn sign_jwt_signature(key: &PrivateKey, algorithm: JwtAlgorithm, message: &[u8]) -> (result:
    Result<Vec<u8>, AuthError>)
    ensures
        signature_view(result) == signature_of(key@, algorithm, message@),
        result matches Ok(bytes) ==> accepted_by_own_key(key@, algorithm, message@, bytes@),
{
    match algorithm {
        JwtAlgorithm::EdDsa => match (&key.public_key.data, &key.secret) {
            (KeyData::Ed25519(public), SecretKey::Ed25519(seed)) => signed(
                ed25519_sign(public, seed, message),
            ),
            (_, SecretKey::NistP256(secret)) => signed(p256_ssh_sign(secret.as_slice(), message)),
            (KeyData::Rsa { e: Some(e), n: Some(n) }, SecretKey::Rsa(
                Some(d),
                Some(p),
                Some(q),
            )) => signed(
                rsa_ssh_sign(
                    n.as_slice(),
                    e.as_slice(),
                    d.as_slice(),
                    p.as_slice(),
                    q.as_slice(),
                    message,
                ),
            ),
            _ => Err(AuthError::InvalidToken("could not sign bearer token")),
        },
        JwtAlgorithm::Es256 => match &key.secret {
            SecretKey::NistP256(secret) => if is_p256_secret(secret.as_slice()) {
                signed(p256_sign(secret.as_slice(), message))
            } else {
                Err(AuthError::InvalidKeyMaterial("invalid P-256 private key"))
            },
            _ => Err(AuthError::UnsupportedAlgorithm(key.public_key.algorithm.as_str().to_owned())),
        },
        JwtAlgorithm::Rs256 => match (&key.public_key.data, &key.secret) {
            (KeyData::Rsa { e: Some(e), n: Some(n) }, SecretKey::Rsa(
                Some(d),
                Some(p),
                Some(q),
            )) => {
                let (n, e): (&[u8], &[u8]) = (n.as_slice(), e.as_slice());
                let (d, p, q): (&[u8], &[u8], &[u8]) = (d.as_slice(), p.as_slice(), q.as_slice());
                if is_rsa_private(n, e, d, p, q) {
                    signed(rsa_sign(n, e, d, p, q, message))
                } else {
                    Err(AuthError::InvalidKeyMaterial("invalid RSA private key"))
                }
            },
            (KeyData::Rsa { .. }, SecretKey::Rsa(..)) => Err(
                AuthError::InvalidKeyMaterial("invalid RSA key component"),
            ),
            _ => Err(AuthError::UnsupportedAlgorithm(key.public_key.algorithm.as_str().to_owned())),
        },
    }
}

} // verus!
