//! Talking to an agent that keeps keys.

use crate::auth::error::{AuthError, AuthErrorView};
use crate::auth::key::{
    load_public_half, public_half_of, public_key_of, public_key_text_parts, KeyData, PublicKey,
    PublicKeyView,
};
use crate::auth::signature::JwtAlgorithm;
use crate::client::config::ClientConfig;
use crate::client::error::{ClientError, ClientErrorView};
use crate::failure::IoErrorKind;
use crate::proto::wire::Reader;
use crate::text::{bytes_view, decimal, decimal_digits, joined, same_bytes, same_text};
use vstd::prelude::*;
use vstd::slice::slice_to_vec;
use vstd::string::*;

verus! {

/// The agent refuses.
pub const SSH_AGENT_FAILURE: u8 = 5;

/// Asks for the keys of the agent.
pub const SSH_AGENTC_REQUEST_IDENTITIES: u8 = 11;

/// Lists the keys of the agent.
pub const SSH_AGENT_IDENTITIES_ANSWER: u8 = 12;

/// Asks for a signature.
pub const SSH_AGENTC_SIGN_REQUEST: u8 = 13;

/// Carries a signature.
pub const SSH_AGENT_SIGN_RESPONSE: u8 = 14;

/// Asks for a signature over SHA-256.
pub const SSH_AGENT_RSA_SHA2_256: u32 = 2;

/// The four bytes of a number, the most significant first.
#[verifier::opaque]
pub open spec fn u32_bytes(value: u32) -> Seq<u8> {
    seq![
        (value / 0x100_0000) as u8,
        (value / 0x1_0000 % 0x100) as u8,
        (value / 0x100 % 0x100) as u8,
        (value % 0x100) as u8,
    ]
}

/// The number that four bytes stand for.
#[verifier::opaque]
pub open spec fn u32_value(bytes: Seq<u8>) -> u32 {
    (bytes[0] * 0x100_0000 + bytes[1] * 0x1_0000 + bytes[2] * 0x100 + bytes[3]) as u32
}

/// A number is read back from its bytes.
pub proof fn u32_round_trip(value: u32)
    ensures
        u32_bytes(value).len() == 4,
        u32_value(u32_bytes(value)) == value,
{
    reveal(u32_bytes);
    reveal(u32_value);
}

/// What is wrong with some bytes, and what is left of them behind what was read by then.
pub type AgentStopped = (ClientErrorView, Seq<u8>);

/// What is read from the front of some bytes and what is left of them, or what is wrong with them.
pub type AgentParsed<T> = Result<(T, Seq<u8>), AgentStopped>;

/// Bytes that end too early.
pub open spec fn truncated(text: Seq<char>) -> ClientErrorView {
    ClientErrorView::Io(IoErrorKind::UnexpectedEof, text)
}

/// Bytes that say what they should not.
pub open spec fn invalid_data(text: Seq<char>) -> ClientErrorView {
    ClientErrorView::Io(IoErrorKind::InvalidData, text)
}

/// Relates what an executable reader returned, and what it left unread, to an [`AgentParsed`]
/// value.
pub open spec fn agent_reads<T, U>(
    result: Result<T, ClientError>,
    view: spec_fn(T) -> U,
    after: Seq<u8>,
    parsed: AgentParsed<U>,
) -> bool {
    match (result, parsed) {
        (Ok(value), Ok((expected, rest))) => view(value) == expected && after == rest,
        (Err(error), Err((expected, rest))) => error@ == expected && after == rest,
        _ => false,
    }
}

/// A byte. Where there is none, nothing is read.
pub open spec fn byte_parsed(bytes: Seq<u8>) -> AgentParsed<u8> {
    if bytes.len() < 1 {
        Err((truncated("truncated SSH agent message"@), bytes))
    } else {
        Ok((bytes[0], bytes.skip(1)))
    }
}

/// A number. Where its bytes are not all there, nothing is read.
pub open spec fn u32_parsed(bytes: Seq<u8>) -> AgentParsed<u32> {
    if bytes.len() < 4 {
        Err((truncated("truncated SSH agent u32"@), bytes))
    } else {
        Ok((u32_value(bytes.take(4)), bytes.skip(4)))
    }
}

/// A string behind its length. Where it is cut short, its length is read and no more.
pub open spec fn string_parsed(bytes: Seq<u8>) -> AgentParsed<Seq<u8>> {
    match u32_parsed(bytes) {
        Err(error) => Err(error),
        Ok((length, rest)) => if rest.len() < length {
            Err((truncated("truncated SSH agent string"@), rest))
        } else {
            Ok((rest.take(length as int), rest.skip(length as int)))
        },
    }
}

/// A string behind its length, of which 32 bits are written.
pub open spec fn string_encoding(bytes: Seq<u8>) -> Seq<u8> {
    u32_bytes(bytes.len() as u32) + bytes
}

/// What is written as a string is read back, and nothing behind it is touched.
pub proof fn string_round_trip(bytes: Seq<u8>, rest: Seq<u8>)
    requires
        bytes.len() <= u32::MAX,
    ensures
        string_parsed(string_encoding(bytes) + rest) == Ok::<(Seq<u8>, Seq<u8>), AgentStopped>(
            (bytes, rest),
        ),
{
    let all = string_encoding(bytes) + rest;
    let value = bytes.len() as u32;
    u32_round_trip(value);
    assert(all.take(4) =~= u32_bytes(value));
    assert(all.skip(4).take(bytes.len() as int) =~= bytes);
    assert(all.skip(4).skip(bytes.len() as int) =~= rest);
}

fn agent_error(kind: IoErrorKind, text: &str) -> (error: ClientError)
    ensures
        error@ == ClientErrorView::Io(kind, text@),
{
    ClientError::Io(kind, text.to_owned())
}

fn read_byte(reader: &mut Reader) -> (result: Result<u8, ClientError>)
    ensures
        agent_reads(result, |byte: u8| byte, final(reader)@, byte_parsed(old(reader)@)),
{
    match reader.take(1) {
        Ok(bytes) => Ok(bytes[0]),
        Err(_) => Err(agent_error(IoErrorKind::UnexpectedEof, "truncated SSH agent message")),
    }
}

fn u32_of(bytes: &[u8]) -> (value: u32)
    requires
        bytes@.len() == 4,
    ensures
        value == u32_value(bytes@),
{
    proof {
        reveal(u32_value);
    }
    bytes[0] as u32 * 0x100_0000 + bytes[1] as u32 * 0x1_0000 + bytes[2] as u32 * 0x100
        + bytes[3] as u32
}

fn read_u32(reader: &mut Reader) -> (result: Result<u32, ClientError>)
    ensures
        agent_reads(result, |value: u32| value, final(reader)@, u32_parsed(old(reader)@)),
{
    match reader.take(4) {
        Ok(bytes) => Ok(u32_of(bytes)),
        Err(_) => Err(agent_error(IoErrorKind::UnexpectedEof, "truncated SSH agent u32")),
    }
}

fn read_ssh_string(reader: &mut Reader) -> (result: Result<Vec<u8>, ClientError>)
    ensures
        agent_reads(
            result,
            |bytes: Vec<u8>| bytes@,
            final(reader)@,
            string_parsed(old(reader)@),
        ),
{
    let length: u32 = read_u32(reader)?;
    match reader.take(length as usize) {
        Ok(bytes) => Ok(slice_to_vec(bytes)),
        Err(_) => Err(agent_error(IoErrorKind::UnexpectedEof, "truncated SSH agent string")),
    }
}

fn append_u32(out: &mut Vec<u8>, value: u32)
    ensures
        final(out)@ == old(out)@ + u32_bytes(value),
{
    proof {
        reveal(u32_bytes);
    }
    out.push((value / 0x100_0000) as u8);
    out.push((value / 0x1_0000 % 0x100) as u8);
    out.push((value / 0x100 % 0x100) as u8);
    out.push((value % 0x100) as u8);
    proof {
        assert(out@ =~= old(out)@ + u32_bytes(value));
    }
}

fn append_ssh_string(out: &mut Vec<u8>, bytes: &[u8])
    ensures
        final(out)@ == old(out)@ + string_encoding(bytes@),
{
    append_u32(out, bytes.len() as u32);
    out.extend_from_slice(bytes);
    proof {
        assert(out@ =~= old(out)@ + string_encoding(bytes@));
    }
}

/// Where the agent listens: the socket that the configuration names, or the one that the
/// environment does.
pub fn resolve_agent_socket_path(config: &ClientConfig, environment: Option<Vec<u8>>) -> (result:
    Result<Vec<u8>, ClientError>)
    ensures
        (match result {
            Ok(path) => Ok(path@),
            Err(error) => Err(error@),
        }) == match (config@.agent_socket, bytes_view(environment)) {
            (Some(path), _) => Ok(path),
            (None, Some(path)) => Ok(path),
            (None, None) => Err(ClientErrorView::AgentUnavailable),
        },
{
    match &config.agent_socket {
        Some(path) => Ok(slice_to_vec(path.as_slice())),
        None => match environment {
            Some(path) => Ok(path),
            None => Err(ClientError::AgentUnavailable),
        },
    }
}

/// The message with this payload: its length, and the payload.
pub fn agent_message(payload: &[u8]) -> (result: Result<Vec<u8>, ClientError>)
    ensures
        match result {
            Ok(message) => payload@.len() <= u32::MAX && message@ == string_encoding(payload@),
            Err(error) => payload@.len() > u32::MAX && error@ == ClientErrorView::Io(
                IoErrorKind::InvalidInput,
                "SSH agent payload exceeds u32 length"@,
            ),
        },
{
    if payload.len() as u64 > u32::MAX as u64 {
        return Err(
            agent_error(IoErrorKind::InvalidInput, "SSH agent payload exceeds u32 length"),
        );
    }
    let mut message: Vec<u8> = Vec::new();
    append_ssh_string(&mut message, payload);
    proof {
        assert(message@ =~= string_encoding(payload@));
    }
    Ok(message)
}

/// How many bytes the payload has that follows these.
pub fn agent_payload_len(length: &[u8; 4]) -> (count: u32)
    ensures
        count == u32_value(length@),
{
    u32_of(length.as_slice())
}

/// Asks for the keys of the agent.
pub fn identities_request() -> (payload: Vec<u8>)
    ensures
        payload@ == seq![SSH_AGENTC_REQUEST_IDENTITIES],
{
    let mut payload: Vec<u8> = Vec::new();
    payload.push(SSH_AGENTC_REQUEST_IDENTITIES);
    payload
}

/// The keys of an agent, from the front of some bytes.
pub open spec fn keys_parsed(count: nat, bytes: Seq<u8>) -> AgentParsed<Seq<PublicKeyView>>
    decreases count,
{
    if count == 0 {
        Ok((Seq::empty(), bytes))
    } else {
        match string_parsed(bytes) {
            Err(error) => Err(error),
            Ok((blob, rest)) => match string_parsed(rest) {
                Err(error) => Err(error),
                Ok((_, rest)) => match public_key_of(blob, Seq::empty()) {
                    Err(text) => Err((ClientErrorView::SshKey(text), rest)),
                    Ok(key) => before(seq![key], keys_parsed((count - 1) as nat, rest)),
                },
            },
        }
    }
}

/// Keys with more behind them.
pub open spec fn before(
    keys: Seq<PublicKeyView>,
    more: AgentParsed<Seq<PublicKeyView>>,
) -> AgentParsed<Seq<PublicKeyView>> {
    match more {
        Err(error) => Err(error),
        Ok((more, rest)) => Ok((keys + more, rest)),
    }
}

/// What an agent answers where it is asked for its keys.
pub open spec fn identities_parsed(reply: Seq<u8>) -> Result<Seq<PublicKeyView>, ClientErrorView> {
    match byte_parsed(reply) {
        Err((error, _)) => Err(error),
        Ok((kind, rest)) => if kind == SSH_AGENT_IDENTITIES_ANSWER {
            match u32_parsed(rest) {
                Err((error, _)) => Err(error),
                Ok((count, rest)) => match keys_parsed(count as nat, rest) {
                    Err((error, _)) => Err(error),
                    Ok((keys, rest)) => if rest.len() > 0 {
                        Err(invalid_data("trailing bytes in SSH agent identities reply"@))
                    } else {
                        Ok(keys)
                    },
                },
            }
        } else if kind == SSH_AGENT_FAILURE {
            Err(ClientErrorView::AgentKeyNotFound)
        } else {
            Err(invalid_data("unexpected SSH agent reply type "@ + decimal_digits(kind as nat)))
        },
    }
}

pub open spec fn key_list_view(keys: Seq<PublicKey>) -> Seq<PublicKeyView> {
    keys.map_values(|key: PublicKey| key@)
}

/// Why a key or a signature of an agent is refused.
fn format_error(error: AuthError) -> (refusal: ClientError)
    ensures
        refusal@ == match error@ {
            AuthErrorView::SshKey(text) => ClientErrorView::SshKey(text),
            error => ClientErrorView::Auth(error),
        },
{
    match error {
        AuthError::SshKey(text) => ClientError::SshKey(text),
        error => ClientError::Auth(error),
    }
}

fn read_keys(count: u32, reader: &mut Reader) -> (result: Result<Vec<PublicKey>, ClientError>)
    ensures
        agent_reads(
            result,
            |keys: Vec<PublicKey>| key_list_view(keys@),
            final(reader)@,
            keys_parsed(count as nat, old(reader)@),
        ),
{
    let mut keys: Vec<PublicKey> = Vec::new();
    let mut left: u32 = count;
    let ghost start = reader@;
    proof {
        reveal_strlit("");
        assert(""@ =~= Seq::<char>::empty());
        assert(key_list_view(keys@) =~= Seq::<PublicKeyView>::empty());
        if let Ok((more, rest)) = keys_parsed(count as nat, start) {
            assert(key_list_view(keys@) + more =~= more);
        }
    }
    while left > 0
        invariant
            ""@ == Seq::<char>::empty(),
            start == old(reader)@,
            keys_parsed(count as nat, start) == before(
                key_list_view(keys@),
                keys_parsed(left as nat, reader@),
            ),
        decreases left,
    {
        let blob: Vec<u8> = read_ssh_string(reader)?;
        let _: Vec<u8> = read_ssh_string(reader)?;
        match PublicKey::from_bytes(blob, "".to_owned()) {
            Ok(key) => {
                let ghost found = key_list_view(keys@);
                keys.push(key);
                left = left - 1;
                proof {
                    assert(key_list_view(keys@) =~= found.push(key@));
                    if let Ok((more, rest)) = keys_parsed(left as nat, reader@) {
                        assert(found + (seq![key@] + more) =~= key_list_view(keys@) + more);
                    }
                }
            },
            Err(error) => {
                return Err(format_error(error));
            },
        }
    }
    proof {
        assert(key_list_view(keys@) + Seq::<PublicKeyView>::empty() =~= key_list_view(keys@));
    }
    Ok(keys)
}

fn unexpected_reply(text: &str, kind: u8) -> (error: ClientError)
    ensures
        error@ == invalid_data(text@ + decimal_digits(kind as nat)),
{
    ClientError::Io(IoErrorKind::InvalidData, joined(text, decimal(kind as u64).as_str()))
}

/// The keys of an agent, from its answer.
pub fn list_identities(reply: &[u8]) -> (result: Result<Vec<PublicKey>, ClientError>)
    ensures
        (match result {
            Ok(keys) => Ok(key_list_view(keys@)),
            Err(error) => Err(error@),
        }) == identities_parsed(reply@),
{
    let mut reader: Reader = Reader::new(reply);
    let kind: u8 = read_byte(&mut reader)?;
    if kind == SSH_AGENT_IDENTITIES_ANSWER {
        let count: u32 = read_u32(&mut reader)?;
        let keys: Vec<PublicKey> = read_keys(count, &mut reader)?;
        if reader.remaining().len() > 0 {
            return Err(
                agent_error(
                    IoErrorKind::InvalidData,
                    "trailing bytes in SSH agent identities reply",
                ),
            );
        }
        Ok(keys)
    } else if kind == SSH_AGENT_FAILURE {
        Err(ClientError::AgentKeyNotFound)
    } else {
        Err(unexpected_reply("unexpected SSH agent reply type ", kind))
    }
}

/// Whether an agent can sign tokens with a key.
pub open spec fn supported(key: PublicKeyView) -> bool {
    key.data is Ed25519 || key.data is Rsa
}

/// The first key that an agent can sign tokens with.
pub open spec fn first_supported(keys: Seq<PublicKeyView>) -> Option<PublicKeyView>
    decreases keys.len(),
{
    if keys.len() == 0 {
        None
    } else if supported(keys[0]) {
        Some(keys[0])
    } else {
        first_supported(keys.skip(1))
    }
}

/// The first key with this encoding.
pub open spec fn first_with_blob(keys: Seq<PublicKeyView>, blob: Seq<u8>) -> Option<PublicKeyView>
    decreases keys.len(),
{
    if keys.len() == 0 {
        None
    } else if keys[0].blob == blob {
        Some(keys[0])
    } else {
        first_with_blob(keys.skip(1), blob)
    }
}

/// The key that signs: the one with the expected encoding, which has to be supported, or the first
/// that is.
pub open spec fn selected_key(keys: Seq<PublicKeyView>, expected: Option<Seq<u8>>) -> Result<
    PublicKeyView,
    ClientErrorView,
> {
    let found = match expected {
        None => first_supported(keys),
        Some(blob) => first_with_blob(keys, blob),
    };
    match found {
        None => Err(ClientErrorView::AgentKeyNotFound),
        Some(key) => if supported(key) {
            Ok(key)
        } else {
            Err(ClientErrorView::UnsupportedAgentKey(key.algorithm))
        },
    }
}

pub fn is_supported_agent_key(key: &PublicKey) -> (result: bool)
    ensures
        result == supported(key@),
{
    match &key.data {
        KeyData::Ed25519(_) => true,
        KeyData::Rsa { .. } => true,
        _ => false,
    }
}

/// The key that signs: the one that is expected, or the first that can.
pub fn select_identity<'a>(keys: &'a [PublicKey], expected: Option<&PublicKey>) -> (result: Result<
    &'a PublicKey,
    ClientError,
>)
    ensures
        (match result {
            Ok(key) => Ok(key@),
            Err(error) => Err(error@),
        }) == selected_key(
            key_list_view(keys@),
            match expected {
                Some(key) => Some(key@.blob),
                None => None,
            },
        ),
{
    let ghost all = key_list_view(keys@);
    let mut i: usize = 0;
    proof {
        assert(all.skip(0) =~= all);
    }
    while i < keys.len()
        invariant
            i <= keys@.len(),
            all == key_list_view(keys@),
            expected is None ==> first_supported(all.skip(i as int)) == first_supported(all),
            expected matches Some(key) ==> first_with_blob(all.skip(i as int), key@.blob)
                == first_with_blob(all, key@.blob),
        decreases keys@.len() - i,
    {
        proof {
            assert(all.skip(i as int)[0] == keys@[i as int]@);
            assert(all.skip(i as int).skip(1) =~= all.skip(i + 1));
        }
        match expected {
            None => if is_supported_agent_key(&keys[i]) {
                return Ok(&keys[i]);
            },
            Some(key) => if same_bytes(keys[i].blob.as_slice(), key.blob.as_slice()) {
                return if is_supported_agent_key(&keys[i]) {
                    Ok(&keys[i])
                } else {
                    Err(ClientError::UnsupportedAgentKey(keys[i].algorithm.as_str().to_owned()))
                };
            },
        }
        i = i + 1;
    }
    proof {
        assert(all.skip(i as int) =~= Seq::<PublicKeyView>::empty());
    }
    Err(ClientError::AgentKeyNotFound)
}

/// Asks for a signature.
pub open spec fn sign_request_of(blob: Seq<u8>, data: Seq<u8>, flags: u32) -> Seq<u8> {
    seq![SSH_AGENTC_SIGN_REQUEST] + string_encoding(blob) + string_encoding(data) + u32_bytes(flags)
}

pub fn sign_request(blob: &[u8], data: &[u8], flags: u32) -> (payload: Vec<u8>)
    ensures
        payload@ == sign_request_of(blob@, data@, flags),
{
    let mut payload: Vec<u8> = Vec::new();
    payload.push(SSH_AGENTC_SIGN_REQUEST);
    append_ssh_string(&mut payload, blob);
    append_ssh_string(&mut payload, data);
    append_u32(&mut payload, flags);
    proof {
        assert(payload@ =~= sign_request_of(blob@, data@, flags));
    }
    payload
}

/// An agent reads back from a request which key is to sign what, and how.
pub proof fn sign_request_is_read_back(blob: Seq<u8>, data: Seq<u8>, flags: u32)
    requires
        blob.len() <= u32::MAX,
        data.len() <= u32::MAX,
    ensures
        ({
            let request = sign_request_of(blob, data, flags);
            let rest = string_encoding(data) + u32_bytes(flags);
            &&& byte_parsed(request) == Ok::<(u8, Seq<u8>), AgentStopped>(
                (SSH_AGENTC_SIGN_REQUEST, string_encoding(blob) + rest),
            )
            &&& string_parsed(string_encoding(blob) + rest) == Ok::<
                (Seq<u8>, Seq<u8>),
                AgentStopped,
            >((blob, rest))
            &&& string_parsed(rest) == Ok::<(Seq<u8>, Seq<u8>), AgentStopped>(
                (data, u32_bytes(flags)),
            )
            &&& u32_parsed(u32_bytes(flags)) == Ok::<(u32, Seq<u8>), AgentStopped>(
                (flags, Seq::empty()),
            )
        }),
{
    let request = sign_request_of(blob, data, flags);
    let rest = string_encoding(data) + u32_bytes(flags);
    assert(request.skip(1) =~= string_encoding(blob) + rest);
    string_round_trip(blob, rest);
    string_round_trip(data, u32_bytes(flags));
    u32_round_trip(flags);
    assert(u32_bytes(flags).take(4) =~= u32_bytes(flags));
    assert(u32_bytes(flags).skip(4) =~= Seq::<u8>::empty());
}

/// A signature: the name of its algorithm, and its bytes.
#[derive(Clone, Debug, PartialEq, Eq)]
pub struct AgentSignature {
    pub algorithm: String,
    pub bytes: Vec<u8>,
}

/// The mathematical counterpart of [`AgentSignature`].
pub struct AgentSignatureView {
    pub algorithm: Seq<char>,
    pub bytes: Seq<u8>,
}

impl View for AgentSignature {
    type V = AgentSignatureView;

    open spec fn view(&self) -> AgentSignatureView {
        AgentSignatureView { algorithm: self.algorithm@, bytes: self.bytes@ }
    }
}

/// What an encoded signature holds: the name of its algorithm and its bytes, or why it holds none.
pub uninterp spec fn signature_parts(blob: Seq<u8>) -> Result<(Seq<char>, Seq<u8>), Seq<char>>;

/// `ssh_key::Signature::try_from` on bytes: its result is named, an error by its message.
#[verifier::external_body]
fn decode_signature(blob: &[u8]) -> (result: Result<(String, Vec<u8>), String>)
    ensures
        (match result {
            Ok((algorithm, bytes)) => Ok((algorithm@, bytes@)),
            Err(text) => Err(text@),
        }) == signature_parts(blob@),
{
    let signature = ssh_key::Signature::try_from(blob).map_err(|error| error.to_string())?;
    Ok((signature.algorithm().as_str().to_owned(), signature.as_bytes().to_vec()))
}

/// The encoded signature in what an agent answers where it is asked for one.
pub open spec fn signature_blob(reply: Seq<u8>) -> Result<Seq<u8>, ClientErrorView> {
    match byte_parsed(reply) {
        Err((error, _)) => Err(error),
        Ok((kind, rest)) => if kind == SSH_AGENT_SIGN_RESPONSE {
            match string_parsed(rest) {
                Err((error, _)) => Err(error),
                Ok((blob, rest)) => if rest.len() > 0 {
                    Err(invalid_data("trailing bytes in SSH agent sign reply"@))
                } else {
                    Ok(blob)
                },
            }
        } else if kind == SSH_AGENT_FAILURE {
            Err(ClientErrorView::AgentKeyNotFound)
        } else {
            Err(invalid_data("unexpected SSH agent sign reply type "@ + decimal_digits(kind as nat)))
        },
    }
}

/// The encoded signature in what an agent answers where it is asked for one.
pub fn read_signature_blob(reply: &[u8]) -> (result: Result<Vec<u8>, ClientError>)
    ensures
        (match result {
            Ok(blob) => Ok(blob@),
            Err(error) => Err(error@),
        }) == signature_blob(reply@),
{
    let mut reader: Reader = Reader::new(reply);
    let kind: u8 = read_byte(&mut reader)?;
    if kind == SSH_AGENT_SIGN_RESPONSE {
        let blob: Vec<u8> = read_ssh_string(&mut reader)?;
        if reader.remaining().len() > 0 {
            return Err(
                agent_error(IoErrorKind::InvalidData, "trailing bytes in SSH agent sign reply"),
            );
        }
        Ok(blob)
    } else if kind == SSH_AGENT_FAILURE {
        Err(ClientError::AgentKeyNotFound)
    } else {
        Err(unexpected_reply("unexpected SSH agent sign reply type ", kind))
    }
}

/// The signature in what an agent answers where it is asked for one.
pub fn read_signature(reply: &[u8]) -> (result: Result<AgentSignature, ClientError>)
    ensures
        (match result {
            Ok(signature) => Ok(signature@),
            Err(error) => Err(error@),
        }) == match signature_blob(reply@) {
            Err(error) => Err(error),
            Ok(blob) => match signature_parts(blob) {
                Ok((algorithm, bytes)) => Ok(AgentSignatureView { algorithm, bytes }),
                Err(text) => Err(ClientErrorView::SshKey(text)),
            },
        },
{
    let blob: Vec<u8> = read_signature_blob(reply)?;
    match decode_signature(blob.as_slice()) {
        Ok((algorithm, bytes)) => Ok(AgentSignature { algorithm, bytes }),
        Err(text) => Err(ClientError::SshKey(text)),
    }
}

/// How an agent is asked to sign for an algorithm.
pub open spec fn flags_for(algorithm: JwtAlgorithm) -> Result<u32, ClientErrorView> {
    match algorithm {
        JwtAlgorithm::EdDsa => Ok(0),
        JwtAlgorithm::Rs256 => Ok(SSH_AGENT_RSA_SHA2_256),
        JwtAlgorithm::Es256 => Err(ClientErrorView::UnsupportedAgentKey("ecdsa-sha2-nistp256"@)),
    }
}

pub fn agent_sign_flags(algorithm: JwtAlgorithm) -> (result: Result<u32, ClientError>)
    ensures
        (match result {
            Ok(flags) => Ok(flags),
            Err(error) => Err(error@),
        }) == flags_for(algorithm),
{
    match algorithm {
        JwtAlgorithm::EdDsa => Ok(0),
        JwtAlgorithm::Rs256 => Ok(SSH_AGENT_RSA_SHA2_256),
        JwtAlgorithm::Es256 => Err(
            ClientError::UnsupportedAgentKey("ecdsa-sha2-nistp256".to_owned()),
        ),
    }
}

/// The bytes that a token carries of an agent's signature, which has to be of the right algorithm.
pub open spec fn token_signature(
    algorithm: JwtAlgorithm,
    signature: AgentSignatureView,
) -> Result<Seq<u8>, ClientErrorView> {
    match algorithm {
        JwtAlgorithm::EdDsa => if signature.algorithm == "ssh-ed25519"@ {
            Ok(signature.bytes)
        } else {
            Err(invalid_data("SSH agent returned the wrong Ed25519 signature algorithm"@))
        },
        JwtAlgorithm::Rs256 => if signature.algorithm == "rsa-sha2-256"@ {
            Ok(signature.bytes)
        } else {
            Err(invalid_data("SSH agent returned the wrong RSA signature algorithm"@))
        },
        JwtAlgorithm::Es256 => Err(ClientErrorView::UnsupportedAgentKey("ecdsa-sha2-nistp256"@)),
    }
}

pub fn jwt_signature_from_agent_signature(
    algorithm: JwtAlgorithm,
    signature: &AgentSignature,
) -> (result: Result<Vec<u8>, ClientError>)
    ensures
        (match result {
            Ok(bytes) => Ok(bytes@),
            Err(error) => Err(error@),
        }) == token_signature(algorithm, signature@),
{
    match algorithm {
        JwtAlgorithm::EdDsa => {
            if !same_text(signature.algorithm.as_str(), "ssh-ed25519") {
                return Err(
                    agent_error(
                        IoErrorKind::InvalidData,
                        "SSH agent returned the wrong Ed25519 signature algorithm",
                    ),
                );
            }
            Ok(slice_to_vec(signature.bytes.as_slice()))
        },
        JwtAlgorithm::Rs256 => {
            if !same_text(signature.algorithm.as_str(), "rsa-sha2-256") {
                return Err(
                    agent_error(
                        IoErrorKind::InvalidData,
                        "SSH agent returned the wrong RSA signature algorithm",
                    ),
                );
            }
            Ok(slice_to_vec(signature.bytes.as_slice()))
        },
        JwtAlgorithm::Es256 => Err(
            ClientError::UnsupportedAgentKey("ecdsa-sha2-nistp256".to_owned()),
        ),
    }
}

/// The public key that a text in the format of OpenSSH holds, or why it holds none.
pub open spec fn text_key(text: Seq<char>) -> Result<PublicKeyView, Seq<char>> {
    match public_key_text_parts(text) {
        Ok((blob, comment)) => public_key_of(blob, comment),
        Err(text) => Err(text),
    }
}

/// The public key that a file names: the file holds it, or its private key, or the file beside it
/// with `.pub` behind its name holds it.
pub open spec fn named_key(
    file: Result<Seq<char>, Seq<char>>,
    beside: Result<Seq<char>, Seq<char>>,
) -> Result<PublicKeyView, ClientErrorView> {
    let last = match beside {
        Ok(text) => match text_key(text) {
            Ok(key) => Ok(key),
            Err(text) => Err(ClientErrorView::SshKey(text)),
        },
        Err(reason) => Err(ClientErrorView::SshKey(reason)),
    };
    match file {
        Ok(text) => match (text_key(text), public_half_of(text)) {
            (Ok(key), _) => Ok(key),
            (_, Ok(key)) => Ok(key),
            _ => last,
        },
        Err(_) => last,
    }
}

/// The public key that a file names, from what the file and the one beside it hold.
pub fn load_agent_public_key(
    file: &Result<String, String>,
    beside: &Result<String, String>,
) -> (result: Result<PublicKey, ClientError>)
    ensures
        (match result {
            Ok(key) => Ok(key@),
            Err(error) => Err(error@),
        }) == named_key(
            crate::client::options::file_view(*file),
            crate::client::options::file_view(*beside),
        ),
{
    if let Ok(text) = file {
        if let Ok(key) = PublicKey::from_openssh(text.as_str()) {
            return Ok(key);
        }
        if let Ok(key) = load_public_half(text.as_str()) {
            return Ok(key);
        }
    }
    match beside {
        Ok(text) => match PublicKey::from_openssh(text.as_str()) {
            Ok(key) => Ok(key),
            Err(error) => Err(format_error(error)),
        },
        Err(reason) => Err(ClientError::SshKey(reason.as_str().to_owned())),
    }
}

/// A number is written in four bytes, the most significant first, and a string behind its length.
pub proof fn agent_messages_are_laid_out(
    value: u32,
    bytes: Seq<u8>,
    blob: Seq<u8>,
    data: Seq<u8>,
    flags: u32,
)
    requires
        bytes.len() <= u32::MAX,
    ensures
        u32_bytes(value) == seq![
            (value / 16_777_216) as u8,
            (value / 65_536 % 256) as u8,
            (value / 256 % 256) as u8,
            (value % 256) as u8,
        ],
        string_encoding(bytes) == u32_bytes(bytes.len() as u32) + bytes,
        sign_request_of(blob, data, flags) == seq![13u8] + string_encoding(blob) + string_encoding(
            data,
        ) + u32_bytes(flags),
        SSH_AGENTC_REQUEST_IDENTITIES == 11,
{
    reveal(u32_bytes);
}

/// The keys of an agent are read one behind the other, each behind its comment, which does not
/// count; a key that is none ends this with its reason.
pub proof fn keys_are_read_in_their_order(
    count: nat,
    blob: Seq<u8>,
    comment: Seq<u8>,
    rest: Seq<u8>,
)
    requires
        blob.len() <= u32::MAX,
        comment.len() <= u32::MAX,
    ensures
        ({
            let bytes = string_encoding(blob) + string_encoding(comment) + rest;
            &&& public_key_of(blob, Seq::empty()) matches Ok(key) ==> (keys_parsed(count, rest)
                matches Ok((keys, left)) ==> keys_parsed(count + 1, bytes) == Ok::<
                (Seq<PublicKeyView>, Seq<u8>),
                AgentStopped,
            >((seq![key] + keys, left)))
            &&& public_key_of(blob, Seq::empty()) is Ok ==> (keys_parsed(count, rest) matches Err(
                error,
            ) ==> keys_parsed(count + 1, bytes) == Err::<
                (Seq<PublicKeyView>, Seq<u8>),
                AgentStopped,
            >(error))
            &&& public_key_of(blob, Seq::empty()) matches Err(reason) ==> keys_parsed(
                count + 1,
                bytes,
            ) == Err::<(Seq<PublicKeyView>, Seq<u8>), AgentStopped>(
                (ClientErrorView::SshKey(reason), rest),
            )
            &&& keys_parsed(0, rest) == Ok::<(Seq<PublicKeyView>, Seq<u8>), AgentStopped>(
                (Seq::empty(), rest),
            )
        }),
{
    string_round_trip(blob, string_encoding(comment) + rest);
    string_round_trip(comment, rest);
    assert(string_encoding(blob) + string_encoding(comment) + rest =~= string_encoding(blob) + (
    string_encoding(comment) + rest));
}

/// The answer of an agent is the keys that it holds, of which nothing may be left over; an agent
/// that refuses has none, and any other answer is none.
pub proof fn answer_is_the_keys_that_it_holds(
    count: u32,
    entries: Seq<u8>,
    kind: u8,
    rest: Seq<u8>,
)
    ensures
        ({
            let reply = seq![12u8] + u32_bytes(count) + entries;
            &&& keys_parsed(count as nat, entries) matches Ok((keys, left)) ==> (left.len() == 0
                ==> identities_parsed(reply) == Ok::<Seq<PublicKeyView>, ClientErrorView>(keys))
            &&& keys_parsed(count as nat, entries) matches Ok((_, left)) ==> (left.len() > 0
                ==> identities_parsed(reply) is Err)
            &&& keys_parsed(count as nat, entries) matches Err((error, _)) ==> identities_parsed(
                reply,
            ) == Err::<Seq<PublicKeyView>, ClientErrorView>(error)
        }),
        identities_parsed(seq![5u8] + rest) == Err::<Seq<PublicKeyView>, ClientErrorView>(
            ClientErrorView::AgentKeyNotFound,
        ),
        kind != 12 && kind != 5 ==> identities_parsed(seq![kind] + rest) == Err::<
            Seq<PublicKeyView>,
            ClientErrorView,
        >(
            ClientErrorView::Io(
                IoErrorKind::InvalidData,
                "unexpected SSH agent reply type "@ + decimal_digits(kind as nat),
            ),
        ),
{
    let reply = seq![12u8] + u32_bytes(count) + entries;
    u32_round_trip(count);
    assert(reply.skip(1) =~= u32_bytes(count) + entries);
    assert((u32_bytes(count) + entries).take(4) =~= u32_bytes(count));
    assert((u32_bytes(count) + entries).skip(4) =~= entries);
}

/// The signature in the answer of an agent is read back, whatever it holds; an agent that refuses
/// gives none, and any other answer is none.
pub proof fn answer_is_the_signature_that_it_holds(
    blob: Seq<u8>,
    more: Seq<u8>,
    kind: u8,
    rest: Seq<u8>,
)
    requires
        blob.len() <= u32::MAX,
    ensures
        signature_blob(seq![14u8] + string_encoding(blob)) == Ok::<Seq<u8>, ClientErrorView>(blob),
        more.len() > 0 ==> signature_blob(seq![14u8] + string_encoding(blob) + more) is Err,
        signature_blob(seq![5u8] + rest) == Err::<Seq<u8>, ClientErrorView>(
            ClientErrorView::AgentKeyNotFound,
        ),
        kind != 14 && kind != 5 ==> signature_blob(seq![kind] + rest) == Err::<
            Seq<u8>,
            ClientErrorView,
        >(
            ClientErrorView::Io(
                IoErrorKind::InvalidData,
                "unexpected SSH agent sign reply type "@ + decimal_digits(kind as nat),
            ),
        ),
{
    let reply = seq![14u8] + string_encoding(blob);
    assert(reply.skip(1) =~= string_encoding(blob) + Seq::<u8>::empty());
    string_round_trip(blob, Seq::empty());
    let longer = reply + more;
    assert(longer.skip(1) =~= string_encoding(blob) + more);
    string_round_trip(blob, more);
}

/// The key that signs is the first that can where none is asked for, and the first of the encoding
/// that is asked for otherwise, which has to be able to; keys of Ed25519 and of RSA can.
pub proof fn first_key_that_can_signs(
    keys: Seq<PublicKeyView>,
    expected: Option<Seq<u8>>,
    place: int,
)
    requires
        0 <= place <= keys.len(),
        place < keys.len() ==> match expected {
            None => keys[place].data is Ed25519 || keys[place].data is Rsa,
            Some(blob) => keys[place].blob == blob,
        },
        forall|i: int|
            0 <= i < place ==> match expected {
                None => !((#[trigger] keys[i]).data is Ed25519) && !(keys[i].data is Rsa),
                Some(blob) => keys[i].blob != blob,
            },
    ensures
        place == keys.len() ==> selected_key(keys, expected) == Err::<
            PublicKeyView,
            ClientErrorView,
        >(ClientErrorView::AgentKeyNotFound),
        place < keys.len() && (keys[place].data is Ed25519 || keys[place].data is Rsa)
            ==> selected_key(keys, expected) == Ok::<PublicKeyView, ClientErrorView>(keys[place]),
        place < keys.len() && !(keys[place].data is Ed25519) && !(keys[place].data is Rsa)
            ==> selected_key(keys, expected) == Err::<PublicKeyView, ClientErrorView>(
            ClientErrorView::UnsupportedAgentKey(keys[place].algorithm),
        ),
    decreases keys.len(),
{
    if place > 0 {
        let rest = keys.skip(1);
        assert(expected is None ==> !(keys[0].data is Ed25519) && !(keys[0].data is Rsa));
        assert forall|i: int| 0 <= i < place - 1 implies match expected {
            None => !((#[trigger] rest[i]).data is Ed25519) && !(rest[i].data is Rsa),
            Some(blob) => rest[i].blob != blob,
        } by {
            assert(rest[i] == keys[i + 1]);
        }
        first_key_that_can_signs(rest, expected, place - 1);
    }
}

/// An agent is told how to sign for each algorithm that it can sign with, and its signature goes
/// into the token as it is where it is of that algorithm, and not otherwise.
pub proof fn agent_signs_with_the_algorithm_of_the_token(signature: AgentSignatureView)
    ensures
        flags_for(JwtAlgorithm::EdDsa) == Ok::<u32, ClientErrorView>(0),
        flags_for(JwtAlgorithm::Rs256) == Ok::<u32, ClientErrorView>(2),
        flags_for(JwtAlgorithm::Es256) == Err::<u32, ClientErrorView>(
            ClientErrorView::UnsupportedAgentKey("ecdsa-sha2-nistp256"@),
        ),
        signature.algorithm == "ssh-ed25519"@ ==> token_signature(JwtAlgorithm::EdDsa, signature)
            == Ok::<Seq<u8>, ClientErrorView>(signature.bytes),
        signature.algorithm != "ssh-ed25519"@ ==> token_signature(JwtAlgorithm::EdDsa, signature)
            == Err::<Seq<u8>, ClientErrorView>(
            ClientErrorView::Io(
                IoErrorKind::InvalidData,
                "SSH agent returned the wrong Ed25519 signature algorithm"@,
            ),
        ),
        signature.algorithm == "rsa-sha2-256"@ ==> token_signature(JwtAlgorithm::Rs256, signature)
            == Ok::<Seq<u8>, ClientErrorView>(signature.bytes),
        signature.algorithm != "rsa-sha2-256"@ ==> token_signature(JwtAlgorithm::Rs256, signature)
            == Err::<Seq<u8>, ClientErrorView>(
            ClientErrorView::Io(
                IoErrorKind::InvalidData,
                "SSH agent returned the wrong RSA signature algorithm"@,
            ),
        ),
        token_signature(JwtAlgorithm::Es256, signature) == Err::<Seq<u8>, ClientErrorView>(
            ClientErrorView::UnsupportedAgentKey("ecdsa-sha2-nistp256"@),
        ),
{
}

/// A file names the public key that it holds, else that of the private key that it holds, and else
/// the one that the file beside it holds.
pub proof fn file_names_its_key(
    text: Seq<char>,
    beside: Result<Seq<char>, Seq<char>>,
    blob: Seq<u8>,
    comment: Seq<char>,
    key: PublicKeyView,
)
    ensures
        public_key_text_parts(text) == Ok::<(Seq<u8>, Seq<char>), Seq<char>>((blob, comment))
            && public_key_of(blob, comment) == Ok::<PublicKeyView, Seq<char>>(key) ==> named_key(
            Ok(text),
            beside,
        ) == Ok::<PublicKeyView, ClientErrorView>(key),
        public_key_text_parts(text) is Err && public_half_of(text) == Ok::<
            PublicKeyView,
            AuthErrorView,
        >(key) ==> named_key(Ok(text), beside) == Ok::<PublicKeyView, ClientErrorView>(key),
        forall|reason: Seq<char>|
            public_key_text_parts(text) == Ok::<(Seq<u8>, Seq<char>), Seq<char>>((blob, comment))
                && public_key_of(blob, comment) == Ok::<PublicKeyView, Seq<char>>(key)
                ==> #[trigger] named_key(Err(reason), Ok(text)) == Ok::<
                PublicKeyView,
                ClientErrorView,
            >(key),
        forall|first: Seq<char>, second: Seq<char>| #[trigger]
            named_key(Err(first), Err(second)) == Err::<PublicKeyView, ClientErrorView>(
                ClientErrorView::SshKey(second),
            ),
{
}

} // verus!
