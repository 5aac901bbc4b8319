//! Keys of SSH, as the values that signing and checking need.

use crate::auth::error::{AuthError, AuthErrorView};
use crate::text::bytes_view;
use ssh_key::private::{EcdsaKeypair, KeypairData};
use ssh_key::Mpint;
use vstd::prelude::*;
use vstd::string::*;

verus! {

/// What a public key is made of, for the algorithms that tokens are signed with.
#[derive(Clone, Debug, PartialEq, Eq)]
pub enum KeyData {
    Ed25519([u8; 32]),
    /// The point of the key on the curve P-256, in the format of SEC 1.
    NistP256(Vec<u8>),
    /// The exponent and the modulus, each missing where it is negative.
    Rsa { e: Option<Vec<u8>>, n: Option<Vec<u8>> },
    Other,
}

/// The mathematical counterpart of [`KeyData`].
pub enum KeyDataView {
    Ed25519(Seq<u8>),
    NistP256(Seq<u8>),
    Rsa { e: Option<Seq<u8>>, n: Option<Seq<u8>> },
    Other,
}

impl View for KeyData {
    type V = KeyDataView;

    open spec fn view(&self) -> KeyDataView {
        match *self {
            KeyData::Ed25519(bytes) => KeyDataView::Ed25519(bytes@),
            KeyData::NistP256(point) => KeyDataView::NistP256(point@),
            KeyData::Rsa { e, n } => KeyDataView::Rsa { e: bytes_view(e), n: bytes_view(n) },
            KeyData::Other => KeyDataView::Other,
        }
    }
}

/// A public key: its encoding, the comment beside it, the name of its algorithm, and what it is
/// made of.
#[derive(Clone, Debug, PartialEq, Eq)]
pub struct PublicKey {
    pub blob: Vec<u8>,
    pub comment: String,
    pub algorithm: String,
    pub data: KeyData,
}

/// The mathematical counterpart of [`PublicKey`].
pub struct PublicKeyView {
    pub blob: Seq<u8>,
    pub comment: Seq<char>,
    pub algorithm: Seq<char>,
    pub data: KeyDataView,
}

impl View for PublicKey {
    type V = PublicKeyView;

    open spec fn view(&self) -> PublicKeyView {
        PublicKeyView {
            blob: self.blob@,
            comment: self.comment@,
            algorithm: self.algorithm@,
            data: self.data@,
        }
    }
}

/// What a private key adds to its public key.
#[derive(Clone, Debug, PartialEq, Eq)]
pub enum SecretKey {
    Ed25519([u8; 32]),
    NistP256(Vec<u8>),
    /// The private exponent and the two prime factors, each missing where it is negative.
    Rsa(Option<Vec<u8>>, Option<Vec<u8>>, Option<Vec<u8>>),
    /// A key that a passphrase hides.
    Encrypted,
    Other,
}

/// The mathematical counterpart of [`SecretKey`].
pub enum SecretKeyView {
    Ed25519(Seq<u8>),
    NistP256(Seq<u8>),
    Rsa { d: Option<Seq<u8>>, p: Option<Seq<u8>>, q: Option<Seq<u8>> },
    Encrypted,
    Other,
}

impl View for SecretKey {
    type V = SecretKeyView;

    open spec fn view(&self) -> SecretKeyView {
        match *self {
            SecretKey::Ed25519(seed) => SecretKeyView::Ed25519(seed@),
            SecretKey::NistP256(scalar) => SecretKeyView::NistP256(scalar@),
            SecretKey::Rsa(d, p, q) => SecretKeyView::Rsa {
                d: bytes_view(d),
                p: bytes_view(p),
                q: bytes_view(q),
            },
            SecretKey::Encrypted => SecretKeyView::Encrypted,
            SecretKey::Other => SecretKeyView::Other,
        }
    }
}

/// A private key with its public key.
#[derive(Clone, Debug, PartialEq, Eq)]
pub struct PrivateKey {
    pub public_key: PublicKey,
    pub secret: SecretKey,
}

/// The mathematical counterpart of [`PrivateKey`].
pub struct PrivateKeyView {
    pub public_key: PublicKeyView,
    pub secret: SecretKeyView,
}

impl View for PrivateKey {
    type V = PrivateKeyView;

    open spec fn view(&self) -> PrivateKeyView {
        PrivateKeyView { public_key: self.public_key@, secret: self.secret@ }
    }
}

/// What an encoded public key holds: the name of its algorithm and what it is made of, or why it
/// holds no key.
pub uninterp spec fn public_key_parts(blob: Seq<u8>) -> Result<
    (Seq<char>, KeyDataView),
    Seq<char>,
>;

/// What the text of a private key holds: the encoding of its public key, its comment and its
/// secret, or why it holds no key.
pub uninterp spec fn private_key_parts(text: Seq<char>) -> Result<
    (Seq<u8>, Seq<char>, SecretKeyView),
    Seq<char>,
>;

/// What the text of a public key holds: its encoding and its comment, or why it holds no key.
pub uninterp spec fn public_key_text_parts(text: Seq<char>) -> Result<
    (Seq<u8>, Seq<char>),
    Seq<char>,
>;

/// What a line of a list of authorized keys holds: the encoding of the key and its comment.
pub uninterp spec fn authorized_key_parts(line: Seq<char>) -> Option<(Seq<u8>, Seq<char>)>;

/// `ssh_key::PublicKey::from_bytes`: its result is named, an error by its message.
#[verifier::external_body]
fn decode_key_data(blob: &[u8]) -> (result: Result<(String, KeyData), String>)
    ensures
        (match result {
            Ok((algorithm, data)) => Ok((algorithm@, data@)),
            Err(text) => Err(text@),
        }) == public_key_parts(blob@),
{
    let key = ssh_key::PublicKey::from_bytes(blob).map_err(|error| error.to_string())?;
    let data = match key.key_data() {
        ssh_key::public::KeyData::Ed25519(key) => KeyData::Ed25519(key.0),
        ssh_key::public::KeyData::Ecdsa(ssh_key::public::EcdsaPublicKey::NistP256(point)) =>
            KeyData::NistP256(point.as_bytes().to_vec()),
        ssh_key::public::KeyData::Rsa(key) => KeyData::Rsa {
            e: key.e.as_positive_bytes().map(|bytes| bytes.to_vec()),
            n: key.n.as_positive_bytes().map(|bytes| bytes.to_vec()),
        },
        _ => KeyData::Other,
    };
    Ok((key.algorithm().as_str().to_owned(), data))
}

pub open spec fn secret_view(result: Result<(Vec<u8>, String, SecretKey), String>) -> Result<
    (Seq<u8>, Seq<char>, SecretKeyView),
    Seq<char>,
> {
    match result {
        Ok((blob, comment, secret)) => Ok((blob@, comment@, secret@)),
        Err(text) => Err(text@),
    }
}

/// `ssh_key::PrivateKey::from_openssh`: its result is named, the public half by its encoding, an
/// error by its message.
#[verifier::external_body]
fn decode_secret(text: &str) -> (result: Result<(Vec<u8>, String, SecretKey), String>)
    ensures
        secret_view(result) == private_key_parts(text@),
{
    let key = ssh_key::PrivateKey::from_openssh(text).map_err(|error| error.to_string())?;
    let bytes = |number| Mpint::as_positive_bytes(number).map(Vec::from);
    Ok((
        key.public_key().to_bytes().map_err(|error| error.to_string())?,
        key.comment().to_owned(),
        match key.key_data() {
            KeypairData::Ed25519(pair) => SecretKey::Ed25519(pair.private.to_bytes()),
            KeypairData::Ecdsa(EcdsaKeypair::NistP256 { private, .. }) =>
                SecretKey::NistP256(private.as_slice().to_vec()),
            KeypairData::Rsa(pair) => SecretKey::Rsa(
                bytes(&pair.private.d), bytes(&pair.private.p), bytes(&pair.private.q)),
            KeypairData::Encrypted(_) => SecretKey::Encrypted,
            _ => SecretKey::Other,
        }
    ))
}

/// `ssh_key::PublicKey::from_openssh`: its result is named, the key by its encoding, an error by
/// its message.
#[verifier::external_body]
fn decode_public_key_text(text: &str) -> (result: Result<(Vec<u8>, String), String>)
    ensures
        (match result {
            Ok((blob, comment)) => Ok((blob@, comment@)),
            Err(text) => Err(text@),
        }) == public_key_text_parts(text@),
{
    let key = ssh_key::PublicKey::from_openssh(text).map_err(|error| error.to_string())?;
    let blob = key.to_bytes().map_err(|error| error.to_string())?;
    Ok((blob, key.comment().to_owned()))
}

/// `ssh_key::authorized_keys::Entry::from_str`: its result is named, the key by its encoding.
#[verifier::external_body]
pub(crate) fn decode_authorized_key(line: &str) -> (entry: Option<(Vec<u8>, String)>)
    ensures
        (match entry {
            Some((blob, comment)) => Some((blob@, comment@)),
            None => None,
        }) == authorized_key_parts(line@),
{
    let entry = line.parse::<ssh_key::authorized_keys::Entry>().ok()?;
    let blob = entry.public_key().to_bytes().ok()?;
    Some((blob, entry.public_key().comment().to_owned()))
}

/// The public key that an encoding holds, with a comment, or why it holds none.
pub open spec fn public_key_of(blob: Seq<u8>, comment: Seq<char>) -> Result<
    PublicKeyView,
    Seq<char>,
> {
    match public_key_parts(blob) {
        Ok((algorithm, data)) => Ok(PublicKeyView { blob, comment, algorithm, data }),
        Err(text) => Err(text),
    }
}

pub open spec fn key_view(result: Result<PublicKey, AuthError>) -> Result<
    PublicKeyView,
    AuthErrorView,
> {
    match result {
        Ok(key) => Ok(key@),
        Err(error) => Err(error@),
    }
}

/// An error of the format of keys as an error of authentication.
pub open spec fn ssh_key_result<T>(result: Result<T, Seq<char>>) -> Result<T, AuthErrorView> {
    match result {
        Ok(value) => Ok(value),
        Err(text) => Err(AuthErrorView::SshKey(text)),
    }
}

impl PublicKey {
    /// The key that an encoding holds, with a comment.
    pub fn from_bytes(blob: Vec<u8>, comment: String) -> (result: Result<PublicKey, AuthError>)
        ensures
            key_view(result) == ssh_key_result(public_key_of(blob@, comment@)),
    {
        match decode_key_data(blob.as_slice()) {
            Ok((algorithm, data)) => Ok(PublicKey { blob, comment, algorithm, data }),
            Err(text) => Err(AuthError::SshKey(text)),
        }
    }

    /// The key that a text in the format of OpenSSH holds.
    pub fn from_openssh(text: &str) -> (result: Result<PublicKey, AuthError>)
        ensures
            key_view(result) == match public_key_text_parts(text@) {
                Ok((blob, comment)) => ssh_key_result(public_key_of(blob, comment)),
                Err(text) => Err(AuthErrorView::SshKey(text)),
            },
    {
        match decode_public_key_text(text) {
            Ok((blob, comment)) => PublicKey::from_bytes(blob, comment),
            Err(text) => Err(AuthError::SshKey(text)),
        }
    }
}

/// The public half of the private key that a text holds, which no passphrase hides.
pub open spec fn public_half_of(text: Seq<char>) -> Result<PublicKeyView, AuthErrorView> {
    match private_key_parts(text) {
        Ok((blob, comment, _)) => ssh_key_result(public_key_of(blob, comment)),
        Err(text) => Err(AuthErrorView::SshKey(text)),
    }
}

/// The public half of the private key that the text of a key file holds.
pub fn load_public_half(text: &str) -> (result: Result<PublicKey, AuthError>)
    ensures
        key_view(result) == public_half_of(text@),
{
    match decode_secret(text) {
        Ok((blob, comment, _)) => PublicKey::from_bytes(blob, comment),
        Err(text) => Err(AuthError::SshKey(text)),
    }
}

/// The private key that a text holds. One that a passphrase hides is refused.
pub open spec fn private_key_of(text: Seq<char>) -> Result<PrivateKeyView, AuthErrorView> {
    match private_key_parts(text) {
        Ok((blob, comment, secret)) => loaded_key(blob, comment, secret),
        Err(text) => Err(AuthErrorView::SshKey(text)),
    }
}

/// The private key with these parts.
pub open spec fn loaded_key(blob: Seq<u8>, comment: Seq<char>, secret: SecretKeyView) -> Result<
    PrivateKeyView,
    AuthErrorView,
> {
    if secret is Encrypted {
        Err(AuthErrorView::InvalidToken("encrypted private keys are not supported yet"@))
    } else {
        match public_key_of(blob, comment) {
            Ok(public_key) => Ok(PrivateKeyView { public_key, secret }),
            Err(text) => Err(AuthErrorView::SshKey(text)),
        }
    }
}

pub open spec fn private_key_view(result: Result<PrivateKey, AuthError>) -> Result<
    PrivateKeyView,
    AuthErrorView,
> {
    match result {
        Ok(key) => Ok(key@),
        Err(error) => Err(error@),
    }
}

impl PrivateKey {
    /// The private key with these parts.
    pub fn from_parts(blob: Vec<u8>, comment: String, secret: SecretKey) -> (result: Result<
        PrivateKey,
        AuthError,
    >)
        ensures
            private_key_view(result) == loaded_key(blob@, comment@, secret@),
    {
        if let SecretKey::Encrypted = secret {
            return Err(AuthError::InvalidToken("encrypted private keys are not supported yet"));
        }
        match PublicKey::from_bytes(blob, comment) {
            Ok(public_key) => Ok(PrivateKey { public_key, secret }),
            Err(error) => Err(error),
        }
    }
}

/// The private key that the text of a key file holds.
pub fn load_private_key(text: &str) -> (result: Result<PrivateKey, AuthError>)
    ensures
        private_key_view(result) == private_key_of(text@),
{
    match decode_secret(text) {
        Ok((blob, comment, secret)) => PrivateKey::from_parts(blob, comment, secret),
        Err(text) => Err(AuthError::SshKey(text)),
    }
}

/// A private key that no passphrase hides is loaded as it is, whatever its kind, with its comment;
/// one that a passphrase hides is not, and its public half is all the same.
pub proof fn key_is_loaded_as_it_is(
    text: Seq<char>,
    blob: Seq<u8>,
    comment: Seq<char>,
    secret: SecretKeyView,
    algorithm: Seq<char>,
    data: KeyDataView,
)
    requires
        private_key_parts(text) == Ok::<(Seq<u8>, Seq<char>, SecretKeyView), Seq<char>>(
            (blob, comment, secret),
        ),
        public_key_parts(blob) == Ok::<(Seq<char>, KeyDataView), Seq<char>>((algorithm, data)),
    ensures
        !(secret is Encrypted) ==> private_key_of(text) == Ok::<PrivateKeyView, AuthErrorView>(
            PrivateKeyView {
                public_key: PublicKeyView { blob, comment, algorithm, data },
                secret,
            },
        ),
        secret is Encrypted ==> private_key_of(text) == Err::<PrivateKeyView, AuthErrorView>(
            AuthErrorView::InvalidToken("encrypted private keys are not supported yet"@),
        ),
        public_half_of(text) == Ok::<PublicKeyView, AuthErrorView>(
            PublicKeyView { blob, comment, algorithm, data },
        ),
{
}

/// A text that holds no key is refused with the reason, for a private key and for its public half.
pub proof fn text_without_a_key_is_refused(text: Seq<char>, reason: Seq<char>)
    requires
        private_key_parts(text) == Err::<(Seq<u8>, Seq<char>, SecretKeyView), Seq<char>>(reason),
    ensures
        private_key_of(text) == Err::<PrivateKeyView, AuthErrorView>(AuthErrorView::SshKey(reason)),
        public_half_of(text) == Err::<PublicKeyView, AuthErrorView>(AuthErrorView::SshKey(reason)),
{
}

/// A public key is what its encoding holds, with the comment that it is given.
pub proof fn public_key_is_what_its_encoding_holds(blob: Seq<u8>, comment: Seq<char>)
    ensures
        public_key_parts(blob) matches Ok((algorithm, data)) ==> public_key_of(blob, comment)
            == Ok::<PublicKeyView, Seq<char>>(PublicKeyView { blob, comment, algorithm, data }),
        public_key_parts(blob) matches Err(reason) ==> public_key_of(blob, comment) == Err::<
            PublicKeyView,
            Seq<char>,
        >(reason),
{
}

} // verus!
