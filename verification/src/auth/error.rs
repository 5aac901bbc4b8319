//! Why a token, a key or an identity is refused.

use crate::failure::IoErrorKind;
use crate::text::joined;
use vstd::prelude::*;
use vstd::string::*;

verus! {

/// Why a token, a key or an identity is refused.
#[derive(Clone, Debug, PartialEq, Eq)]
pub enum AuthError {
    /// A list of identities cannot be read: the kind of the failure, and in words.
    Io(IoErrorKind, String),
    /// A part of a token is no JSON of its kind.
    Json(String),
    /// A part of a token is not in base64.
    Base64(String),
    /// A key or a signature is not in the format of SSH.
    SshKey(String),
    InvalidKeyMaterial(&'static str),
    InvalidToken(&'static str),
    UnsupportedAlgorithm(String),
}

/// The mathematical counterpart of [`AuthError`].
pub enum AuthErrorView {
    Io(IoErrorKind, Seq<char>),
    Json(Seq<char>),
    Base64(Seq<char>),
    SshKey(Seq<char>),
    InvalidKeyMaterial(Seq<char>),
    InvalidToken(Seq<char>),
    UnsupportedAlgorithm(Seq<char>),
}

impl View for AuthError {
    type V = AuthErrorView;

    open spec fn view(&self) -> AuthErrorView {
        match *self {
            AuthError::Io(kind, text) => AuthErrorView::Io(kind, text@),
            AuthError::Json(text) => AuthErrorView::Json(text@),
            AuthError::Base64(text) => AuthErrorView::Base64(text@),
            AuthError::SshKey(text) => AuthErrorView::SshKey(text@),
            AuthError::InvalidKeyMaterial(text) => AuthErrorView::InvalidKeyMaterial(text@),
            AuthError::InvalidToken(text) => AuthErrorView::InvalidToken(text@),
            AuthError::UnsupportedAlgorithm(text) => AuthErrorView::UnsupportedAlgorithm(text@),
        }
    }
}

impl AuthErrorView {
    /// The error in words.
    pub open spec fn message(self) -> Seq<char> {
        match self {
            AuthErrorView::Io(_, text) => text,
            AuthErrorView::Json(text) => text,
            AuthErrorView::Base64(text) => text,
            AuthErrorView::SshKey(text) => text,
            AuthErrorView::InvalidKeyMaterial(text) => text,
            AuthErrorView::InvalidToken(text) => text,
            AuthErrorView::UnsupportedAlgorithm(text) => "unsupported SSH key algorithm: "@ + text,
        }
    }
}

impl AuthError {
    /// The error in words.
    pub fn message(&self) -> (text: String)
        ensures
            text@ == self@.message(),
    {
        match self {
            AuthError::Io(_, text) => text.as_str().to_owned(),
            AuthError::Json(text) => text.as_str().to_owned(),
            AuthError::Base64(text) => text.as_str().to_owned(),
            AuthError::SshKey(text) => text.as_str().to_owned(),
            AuthError::InvalidKeyMaterial(text) => (*text).to_owned(),
            AuthError::InvalidToken(text) => (*text).to_owned(),
            AuthError::UnsupportedAlgorithm(text) => joined(
                "unsupported SSH key algorithm: ",
                text.as_str(),
            ),
        }
    }
}

/// The view of a check that says nothing where it succeeds.
pub open spec fn check_view(result: Result<(), AuthError>) -> Result<(), AuthErrorView> {
    match result {
        Ok(()) => Ok(()),
        Err(error) => Err(error@),
    }
}

/// An error is told in the words that it came with.
pub proof fn errors_are_told_in_their_words(kind: IoErrorKind, text: Seq<char>)
    ensures
        (AuthErrorView::Io(kind, text)).message() == text,
        (AuthErrorView::Json(text)).message() == text,
        (AuthErrorView::Base64(text)).message() == text,
        (AuthErrorView::SshKey(text)).message() == text,
        (AuthErrorView::InvalidKeyMaterial(text)).message() == text,
        (AuthErrorView::InvalidToken(text)).message() == text,
        (AuthErrorView::UnsupportedAlgorithm(text)).message() == "unsupported SSH key algorithm: "@
            + text,
{
}

} // verus!
