//! The errors of the protocol and of conversations in words.

use crate::conversation::channel::{
    ChannelError, ChannelErrorView, ChannelOpenFailure, MessageOnNonConfirmedChannel,
    SentDatagramOnNonDatagramChannel,
};
use crate::conversation::router::{
    ChannelSetupError, ChannelSetupErrorView, DatagramDispatchError, DatagramDispatchErrorView,
    RouteIncomingChannelError,
};
use crate::conversation::state::{ConversationError, ConversationErrorView};
use crate::http::UnexpectedStatus;
use crate::proto::wire::{Error, ErrorView};
use crate::text::{
    decimal, decimal_digits, join_texts, joined, joined_with, lossy, lossy_text, texts_view,
};
use vstd::prelude::*;
use vstd::string::*;

verus! {

/// The numbers of some bytes, each in decimal digits.
pub open spec fn byte_numbers(bytes: Seq<u8>) -> Seq<Seq<char>> {
    bytes.map_values(|byte: u8| decimal_digits(byte as nat))
}

/// A list of bytes in brackets.
pub open spec fn byte_list(bytes: Seq<u8>) -> Seq<char> {
    "["@ + joined_with(byte_numbers(bytes), ", "@) + "]"@
}

fn list_bytes(bytes: &[u8]) -> (text: String)
    ensures
        text@ == byte_list(bytes@),
{
    let mut numbers: Vec<String> = Vec::new();
    let mut i: usize = 0;
    while i < bytes.len()
        invariant
            i <= bytes@.len(),
            texts_view(numbers@) == byte_numbers(bytes@).take(i as int),
        decreases bytes@.len() - i,
    {
        let ghost before = texts_view(numbers@);
        let number: String = decimal(bytes[i] as u64);
        numbers.push(number);
        proof {
            assert(texts_view(numbers@) =~= before.push(number@));
            assert(byte_numbers(bytes@).take(i + 1) =~= byte_numbers(bytes@).take(i as int).push(
                decimal_digits(bytes@[i as int] as nat),
            ));
        }
        i = i + 1;
    }
    proof {
        assert(byte_numbers(bytes@).take(i as int) =~= byte_numbers(bytes@));
    }
    let list: String = join_texts(numbers.as_slice(), ", ");
    joined(joined("[", list.as_str()).as_str(), "]")
}

impl ErrorView {
    /// The error in words.
    pub open spec fn message(self) -> Seq<char> {
        match self {
            ErrorView::UnexpectedEof => "failed to fill whole buffer"@,
            ErrorView::InvalidBool(value) => "invalid SSH boolean byte: "@ + decimal_digits(
                value as nat,
            ),
            ErrorView::InvalidLength(length) => "SSH string length does not fit in memory: "@
                + decimal_digits(length as nat),
            ErrorView::UnknownMessageType(kind) => "unknown SSH message type: "@ + decimal_digits(
                kind as nat,
            ),
            ErrorView::UnknownRequestType(kind) => "unknown channel request type: "@ + byte_list(
                kind,
            ),
            ErrorView::InvalidForwardingProtocol(protocol) => "invalid forwarding protocol: "@
                + decimal_digits(protocol as nat),
            ErrorView::InvalidAddressFamily(family) => "invalid address family: "@
                + decimal_digits(family as nat),
        }
    }
}

impl Error {
    /// The error in words.
    pub fn message(&self) -> (text: String)
        ensures
            text@ == self@.message(),
    {
        match self {
            Error::UnexpectedEof => "failed to fill whole buffer".to_owned(),
            Error::InvalidBool(value) => joined(
                "invalid SSH boolean byte: ",
                decimal(*value as u64).as_str(),
            ),
            Error::InvalidLength(length) => joined(
                "SSH string length does not fit in memory: ",
                decimal(*length).as_str(),
            ),
            Error::UnknownMessageType(kind) => joined(
                "unknown SSH message type: ",
                decimal(*kind).as_str(),
            ),
            Error::UnknownRequestType(kind) => joined(
                "unknown channel request type: ",
                list_bytes(kind.as_slice()).as_str(),
            ),
            Error::InvalidForwardingProtocol(protocol) => joined(
                "invalid forwarding protocol: ",
                decimal(*protocol).as_str(),
            ),
            Error::InvalidAddressFamily(family) => joined(
                "invalid address family: ",
                decimal(*family).as_str(),
            ),
        }
    }
}

/// That the peer refused a channel, in words.
pub open spec fn open_failure_words(reason_code: u64, message: Seq<u8>) -> Seq<char> {
    "channel open failure: reason "@ + decimal_digits(reason_code as nat) + ": "@ + lossy(message)
}

impl ChannelOpenFailure {
    /// The error in words.
    pub fn message(&self) -> (text: String)
        ensures
            text@ == open_failure_words(self.reason_code, self.error_message_utf8@),
    {
        let text: String = joined(
            "channel open failure: reason ",
            decimal(self.reason_code).as_str(),
        );
        let text: String = joined(text.as_str(), ": ");
        joined(text.as_str(), lossy_text(self.error_message_utf8.as_slice()).as_str())
    }
}

impl MessageOnNonConfirmedChannel {
    /// The error in words, where `form` describes the message.
    pub fn message(&self, form: &str) -> (text: String)
        ensures
            text@ == "message "@ + form@ + " received on a non-confirmed channel"@,
    {
        joined(joined("message ", form).as_str(), " received on a non-confirmed channel")
    }
}

impl SentDatagramOnNonDatagramChannel {
    /// The error in words.
    pub fn message(&self) -> (text: String)
        ensures
            text@ == "datagram sent on non-datagram channel "@ + decimal_digits(
                self.channel_id as nat,
            ),
    {
        joined("datagram sent on non-datagram channel ", decimal(self.channel_id).as_str())
    }
}

impl ChannelErrorView {
    /// The error in words, where `form` describes the message that came too early.
    pub open spec fn message(self, form: Seq<char>) -> Seq<char> {
        match self {
            ChannelErrorView::Proto(error) => error.message(),
            ChannelErrorView::OpenFailure { reason_code, error_message_utf8 } => open_failure_words(
                reason_code,
                error_message_utf8,
            ),
            ChannelErrorView::NonConfirmed(_) => "message "@ + form
                + " received on a non-confirmed channel"@,
            ChannelErrorView::DatagramSenderMissing { channel_id } =>
                "datagram sent on non-datagram channel "@ + decimal_digits(channel_id as nat),
            ChannelErrorView::MaxPacketSizeTooSmall { max_packet_size, message_overhead } =>
                "max packet size "@ + decimal_digits(max_packet_size as nat)
                    + " is too small for message overhead "@ + decimal_digits(message_overhead),
        }
    }
}

impl ChannelError {
    /// The error in words, where `form` describes the message that came too early.
    pub fn message(&self, form: &str) -> (text: String)
        ensures
            text@ == self@.message(form@),
    {
        match self {
            ChannelError::Proto(error) => error.message(),
            ChannelError::OpenFailure(failure) => failure.message(),
            ChannelError::NonConfirmed(error) => error.message(form),
            ChannelError::DatagramSenderMissing(error) => error.message(),
            ChannelError::MaxPacketSizeTooSmall { max_packet_size, message_overhead } => {
                let text: String = joined("max packet size ", decimal(*max_packet_size).as_str());
                let text: String = joined(text.as_str(), " is too small for message overhead ");
                joined(text.as_str(), decimal(*message_overhead as u64).as_str())
            },
        }
    }
}

impl ConversationErrorView {
    /// The error in words, where `form` describes the message that came too early.
    pub open spec fn message(self, form: Seq<char>) -> Seq<char> {
        match self {
            ConversationErrorView::Channel(error) => error.message(form),
            ConversationErrorView::Proto(error) => error.message(),
            ConversationErrorView::ChannelNotFound { channel_id } => "channel not found: "@
                + decimal_digits(channel_id as nat),
        }
    }
}

impl ConversationError {
    /// The error in words, where `form` describes the message that came too early.
    pub fn message(&self, form: &str) -> (text: String)
        ensures
            text@ == self@.message(form@),
    {
        match self {
            ConversationError::Channel(error) => error.message(form),
            ConversationError::Proto(error) => error.message(),
            ConversationError::ChannelNotFound { channel_id } => joined(
                "channel not found: ",
                decimal(*channel_id).as_str(),
            ),
        }
    }
}

impl ChannelSetupErrorView {
    /// The error in words.
    pub open spec fn message(self) -> Seq<char> {
        match self {
            ChannelSetupErrorView::Proto(error) => error.message(),
            ChannelSetupErrorView::UnexpectedFrameType { frame_type } =>
                "unexpected SSH3 frame type: "@ + decimal_digits(frame_type as nat),
        }
    }
}

impl ChannelSetupError {
    /// The error in words.
    pub fn message(&self) -> (text: String)
        ensures
            text@ == self@.message(),
    {
        match self {
            ChannelSetupError::Proto(error) => error.message(),
            ChannelSetupError::UnexpectedFrameType { frame_type } => joined(
                "unexpected SSH3 frame type: ",
                decimal(*frame_type).as_str(),
            ),
        }
    }
}

impl RouteIncomingChannelError {
    /// The error in words.
    pub open spec fn words(self) -> Seq<char> {
        match self {
            RouteIncomingChannelError::UnknownConversation { control_stream_id, channel_id } =>
                "no registered conversation for control stream "@ + decimal_digits(
                    control_stream_id as nat,
                ) + " while routing channel "@ + decimal_digits(channel_id as nat),
        }
    }

    /// The error in words.
    pub fn message(&self) -> (text: String)
        ensures
            text@ == self.words(),
    {
        match self {
            RouteIncomingChannelError::UnknownConversation { control_stream_id, channel_id } => {
                let text: String = joined(
                    "no registered conversation for control stream ",
                    decimal(*control_stream_id).as_str(),
                );
                let text: String = joined(text.as_str(), " while routing channel ");
                joined(text.as_str(), decimal(*channel_id).as_str())
            },
        }
    }
}

impl DatagramDispatchErrorView {
    /// The error in words, where `form` describes the message that came too early.
    pub open spec fn message(self, form: Seq<char>) -> Seq<char> {
        match self {
            DatagramDispatchErrorView::Proto(error) => error.message(),
            DatagramDispatchErrorView::Conversation(error) => error.message(form),
        }
    }
}

impl DatagramDispatchError {
    /// The error in words, where `form` describes the message that came too early.
    pub fn message(&self, form: &str) -> (text: String)
        ensures
            text@ == self@.message(form@),
    {
        match self {
            DatagramDispatchError::Proto(error) => error.message(),
            DatagramDispatchError::Conversation(error) => error.message(form),
        }
    }
}

impl UnexpectedStatus {
    /// The error in words, where `form` is the status as text.
    pub fn message(&self, form: &str) -> (text: String)
        ensures
            text@ == "unexpected HTTP status: "@ + form@,
    {
        joined("unexpected HTTP status: ", form)
    }
}

/// An error of the protocol tells the number or the name that was wrong.
pub proof fn errors_tell_what_was_wrong(value: u8, number: u64, name: Seq<u8>)
    ensures
        (ErrorView::UnexpectedEof).message() == "failed to fill whole buffer"@,
        (ErrorView::InvalidBool(value)).message() == "invalid SSH boolean byte: "@ + decimal_digits(
            value as nat,
        ),
        (ErrorView::InvalidLength(number)).message()
            == "SSH string length does not fit in memory: "@ + decimal_digits(number as nat),
        (ErrorView::UnknownMessageType(number)).message() == "unknown SSH message type: "@
            + decimal_digits(number as nat),
        (ErrorView::UnknownRequestType(name)).message() == "unknown channel request type: "@
            + byte_list(name),
        (ErrorView::InvalidForwardingProtocol(number)).message() == "invalid forwarding protocol: "@
            + decimal_digits(number as nat),
        (ErrorView::InvalidAddressFamily(number)).message() == "invalid address family: "@
            + decimal_digits(number as nat),
{
}

/// A list of bytes has each of them in its place, with commas in between.
pub proof fn lists_have_each_byte_in_its_place(bytes: Seq<u8>)
    ensures
        byte_list(bytes) == "["@ + joined_with(byte_numbers(bytes), ", "@) + "]"@,
        byte_numbers(bytes).len() == bytes.len(),
        forall|i: int|
            0 <= i < bytes.len() ==> #[trigger] byte_numbers(bytes)[i] == decimal_digits(
                bytes[i] as nat,
            ),
{
}

/// An error of a conversation tells which channel or stream it is about, and an error that another
/// was the reason of is told as that is.
pub proof fn errors_tell_where_it_was(
    error: ErrorView,
    channel_error: ChannelErrorView,
    conversation_error: ConversationErrorView,
    code: u64,
    text: Seq<u8>,
    channel_id: u64,
    stream_id: u64,
    size: u64,
    overhead: nat,
    form: Seq<char>,
)
    ensures
        (ChannelErrorView::Proto(error)).message(form) == error.message(),
        (ChannelErrorView::OpenFailure { reason_code: code, error_message_utf8: text }).message(
            form,
        ) == "channel open failure: reason "@ + decimal_digits(code as nat) + ": "@ + lossy(text),
        (ChannelErrorView::DatagramSenderMissing { channel_id }).message(form)
            == "datagram sent on non-datagram channel "@ + decimal_digits(channel_id as nat),
        (ChannelErrorView::MaxPacketSizeTooSmall {
            max_packet_size: size,
            message_overhead: overhead,
        }).message(form) == "max packet size "@ + decimal_digits(size as nat)
            + " is too small for message overhead "@ + decimal_digits(overhead),
        channel_error is NonConfirmed ==> channel_error.message(form) == "message "@ + form
            + " received on a non-confirmed channel"@,
        (ConversationErrorView::Channel(channel_error)).message(form) == channel_error.message(
            form,
        ),
        (ConversationErrorView::Proto(error)).message(form) == error.message(),
        (ConversationErrorView::ChannelNotFound { channel_id }).message(form)
            == "channel not found: "@ + decimal_digits(channel_id as nat),
        (ChannelSetupErrorView::Proto(error)).message() == error.message(),
        (ChannelSetupErrorView::UnexpectedFrameType { frame_type: code }).message()
            == "unexpected SSH3 frame type: "@ + decimal_digits(code as nat),
        (RouteIncomingChannelError::UnknownConversation {
            control_stream_id: stream_id,
            channel_id,
        }).words() == "no registered conversation for control stream "@ + decimal_digits(
            stream_id as nat,
        ) + " while routing channel "@ + decimal_digits(channel_id as nat),
        (DatagramDispatchErrorView::Proto(error)).message(form) == error.message(),
        (DatagramDispatchErrorView::Conversation(conversation_error)).message(form)
            == conversation_error.message(form),
{
}

} // verus!
