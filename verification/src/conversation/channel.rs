//! One channel: what it tells its peer first, what it accepts, and how it cuts data into packets.

use crate::conversation::queue::{DatagramQueue, DatagramQueueView};
use crate::proto::address::{SocketAddr, SocketAddrView};
use crate::proto::header::{ChannelHeader, ChannelHeaderView};
use crate::proto::message::{
    ChannelOpenConfirmationMessage, ChannelOpenFailureMessageView, ChannelRequestMessage,
    DataOrExtendedDataMessage, DataOrExtendedDataMessageView, Message, MessageView, SshDataType,
    SSH_MSG_CHANNEL_DATA, SSH_MSG_CHANNEL_EXTENDED_DATA,
};
use crate::proto::request::bytes_encodable;
use crate::proto::wire::{
    append_var_int, integers_are_laid_out, ssh_bytes_encoding, ssh_bytes_round_trip,
    var_int_bytes, var_int_bytes_round_trip, var_int_parsed,
    Error, ErrorView, Reader, Stopped, MAX_VARINT,
};
use vstd::prelude::*;
use vstd::slice::{slice_subrange, slice_to_vec};

verus! {

/// The identifier that both ends of a conversation derive for it.
pub type ConversationId = [u8; 32];

/// What identifies a channel.
#[derive(Clone, Debug, PartialEq, Eq)]
pub struct ChannelInfo {
    pub max_packet_size: u64,
    pub conversation_stream_id: u64,
    pub conversation_id: ConversationId,
    pub channel_id: u64,
    pub channel_type: Vec<u8>,
}

/// The mathematical counterpart of [`ChannelInfo`].
pub struct ChannelInfoView {
    pub max_packet_size: u64,
    pub conversation_stream_id: u64,
    pub conversation_id: Seq<u8>,
    pub channel_id: u64,
    pub channel_type: Seq<u8>,
}

impl View for ChannelInfo {
    type V = ChannelInfoView;

    open spec fn view(&self) -> ChannelInfoView {
        ChannelInfoView {
            max_packet_size: self.max_packet_size,
            conversation_stream_id: self.conversation_stream_id,
            conversation_id: self.conversation_id@,
            channel_id: self.channel_id,
            channel_type: self.channel_type@,
        }
    }
}

impl ChannelInfoView {
    /// The header that announces the channel.
    pub open spec fn header(self) -> ChannelHeaderView {
        ChannelHeaderView {
            conversation_stream_id: self.conversation_stream_id,
            channel_type: self.channel_type,
            max_packet_size: self.max_packet_size,
        }
    }
}

/// Prefixes datagrams with the conversation and the channel that they belong to.
#[derive(Clone, Copy, Debug, PartialEq, Eq, Structural)]
pub struct ConversationDatagramSender {
    pub control_stream_id: u64,
    pub channel_id: u64,
}

impl ConversationDatagramSender {
    pub open spec fn encodable(self) -> bool {
        self.control_stream_id <= MAX_VARINT && self.channel_id <= MAX_VARINT
    }

    /// A datagram as it travels.
    pub open spec fn framed(self, datagram: Seq<u8>) -> Seq<u8> {
        var_int_bytes(self.control_stream_id) + var_int_bytes(self.channel_id) + datagram
    }

    pub fn new(control_stream_id: u64, channel_id: u64) -> (sender: Self)
        ensures
            sender == (ConversationDatagramSender { control_stream_id, channel_id }),
    {
        ConversationDatagramSender { control_stream_id, channel_id }
    }

    /// What is handed to the transport for `datagram`.
    pub fn send(&self, datagram: &[u8]) -> (framed: Vec<u8>)
        requires
            self.encodable(),
        ensures
            framed@ == self.framed(datagram@),
    {
        let mut framed: Vec<u8> = Vec::new();
        append_var_int(&mut framed, self.control_stream_id);
        append_var_int(&mut framed, self.channel_id);
        framed.extend_from_slice(datagram);
        proof {
            assert(framed@ =~= self.framed(datagram@));
        }
        framed
    }

    /// The peer reads back which conversation and which channel a datagram is for, and the
    /// datagram.
    pub proof fn framed_round_trip(self, datagram: Seq<u8>)
        requires
            self.encodable(),
        ensures
            var_int_parsed(self.framed(datagram)) == Ok::<(u64, Seq<u8>), Stopped>(
                (self.control_stream_id, var_int_bytes(self.channel_id) + datagram),
            ),
            var_int_parsed(var_int_bytes(self.channel_id) + datagram) == Ok::<
                (u64, Seq<u8>),
                Stopped,
            >((self.channel_id, datagram)),
    {
        var_int_bytes_round_trip(self.channel_id, datagram);
        var_int_bytes_round_trip(self.control_stream_id, var_int_bytes(self.channel_id) + datagram);
        assert(self.framed(datagram) =~= var_int_bytes(self.control_stream_id) + (var_int_bytes(
            self.channel_id,
        ) + datagram));
    }
}

/// The peer refused the channel.
#[derive(Clone, Debug, PartialEq, Eq)]
pub struct ChannelOpenFailure {
    pub reason_code: u64,
    pub error_message_utf8: Vec<u8>,
}

/// A message came on a channel that this side has not confirmed.
#[derive(Clone, Debug, PartialEq, Eq)]
pub struct MessageOnNonConfirmedChannel {
    pub message: Message,
}

/// A datagram was sent on a channel that carries none.
#[derive(Clone, Copy, Debug, PartialEq, Eq, Structural)]
pub struct SentDatagramOnNonDatagramChannel {
    pub channel_id: u64,
}

/// Why an operation on a channel failed.
#[derive(Clone, Debug, PartialEq, Eq)]
pub enum ChannelError {
    Proto(Error),
    OpenFailure(ChannelOpenFailure),
    NonConfirmed(MessageOnNonConfirmedChannel),
    DatagramSenderMissing(SentDatagramOnNonDatagramChannel),
    MaxPacketSizeTooSmall { max_packet_size: u64, message_overhead: usize },
}

/// The mathematical counterpart of [`ChannelError`].
pub enum ChannelErrorView {
    Proto(ErrorView),
    OpenFailure { reason_code: u64, error_message_utf8: Seq<u8> },
    NonConfirmed(MessageView),
    DatagramSenderMissing { channel_id: u64 },
    MaxPacketSizeTooSmall { max_packet_size: u64, message_overhead: nat },
}

impl View for ChannelError {
    type V = ChannelErrorView;

    open spec fn view(&self) -> ChannelErrorView {
        match *self {
            ChannelError::Proto(error) => ChannelErrorView::Proto(error@),
            ChannelError::OpenFailure(failure) => ChannelErrorView::OpenFailure {
                reason_code: failure.reason_code,
                error_message_utf8: failure.error_message_utf8@,
            },
            ChannelError::NonConfirmed(error) => ChannelErrorView::NonConfirmed(error.message@),
            ChannelError::DatagramSenderMissing(error) => ChannelErrorView::DatagramSenderMissing {
                channel_id: error.channel_id,
            },
            ChannelError::MaxPacketSizeTooSmall { max_packet_size, message_overhead } =>
                ChannelErrorView::MaxPacketSizeTooSmall {
                max_packet_size,
                message_overhead: message_overhead as nat,
            },
        }
    }
}

/// `data` cut into pieces of `size` bytes; the last may be shorter.
pub open spec fn chunks(data: Seq<u8>, size: nat) -> Seq<Seq<u8>>
    decreases data.len(),
    when size > 0
{
    if data.len() == 0 {
        Seq::empty()
    } else if data.len() <= size {
        seq![data]
    } else {
        seq![data.take(size as int)] + chunks(data.skip(size as int), size)
    }
}

/// What a data message takes besides the data, where there is none.
pub open spec fn data_overhead(data_type: SshDataType) -> nat {
    (DataOrExtendedDataMessageView { data_type, data: Seq::empty() }).encoding().len()
}

/// How much data goes in one message.
pub open spec fn chunk_size(max_packet_size: u64, data_type: SshDataType) -> nat {
    if max_packet_size <= data_overhead(data_type) {
        1
    } else {
        (max_packet_size - data_overhead(data_type)) as nat
    }
}

/// The messages that carry the pieces, one each.
pub open spec fn data_packets(pieces: Seq<Seq<u8>>, data_type: SshDataType) -> Seq<Seq<u8>> {
    pieces.map_values(
        |data: Seq<u8>| (DataOrExtendedDataMessageView { data_type, data }).encoding(),
    )
}

pub open spec fn total_len(parts: Seq<Seq<u8>>) -> nat
    decreases parts.len(),
{
    if parts.len() == 0 {
        0
    } else {
        total_len(parts.drop_last()) + parts.last().len()
    }
}

/// The mathematical counterpart of [`Channel`].
pub struct ChannelView {
    pub info: ChannelInfoView,
    pub confirm_sent: bool,
    pub confirm_received: bool,
    /// The header, until it is sent.
    pub header: Option<Seq<u8>>,
    pub datagram_sender: Option<ConversationDatagramSender>,
    pub datagrams: DatagramQueueView,
    /// The bytes that came and are not part of a message taken yet.
    pub received: Seq<u8>,
}

/// What a channel does with the messages that have come: the next one to deliver, nothing yet, or
/// an error.
pub type Delivery = Result<Option<MessageView>, ChannelErrorView>;

impl ChannelView {
    /// What goes out before anything else does: the header, the first time.
    pub open spec fn header_parts(self) -> Seq<Seq<u8>> {
        match self.header {
            Some(header) => seq![header],
            None => Seq::empty(),
        }
    }

    pub open spec fn header_sent(self) -> ChannelView {
        ChannelView { header: None, ..self }
    }

    /// The channel once its first message is off the received bytes.
    pub open spec fn consumed(self, rest: Seq<u8>) -> ChannelView {
        ChannelView { received: rest, ..self }
    }

    /// The next message for the user of the channel. Confirmations are noted and passed over.
    pub open spec fn next_message(self) -> (Delivery, ChannelView)
        decreases self.received.len(),
    {
        proof {
            MessageView::parsed_encodable(self.received);
        }
        match MessageView::parsed(self.received) {
            Err((ErrorView::UnexpectedEof, _)) => (Ok(None), self),
            Err((error, rest)) => (Err(ChannelErrorView::Proto(error)), self.consumed(rest)),
            Ok((MessageView::ChannelOpenConfirmation(_), rest)) => (ChannelView {
                confirm_received: true,
                ..self.consumed(rest)
            }).next_message(),
            Ok((MessageView::ChannelOpenFailure(message), rest)) => (
                Err(
                    ChannelErrorView::OpenFailure {
                        reason_code: message.reason_code,
                        error_message_utf8: message.error_message_utf8,
                    },
                ),
                self.consumed(rest),
            ),
            Ok((message, rest)) => if self.confirm_sent {
                (Ok(Some(message)), self.consumed(rest))
            } else {
                (Err(ChannelErrorView::NonConfirmed(message)), self.consumed(rest))
            },
        }
    }

    /// Whether the peer has confirmed the channel, after the first message that has come.
    pub open spec fn wait_for_confirmation(self) -> (Result<bool, ChannelErrorView>, ChannelView) {
        if self.confirm_received {
            (Ok(true), self)
        } else {
            match MessageView::parsed(self.received) {
                Err((ErrorView::UnexpectedEof, _)) => (Ok(false), self),
                Err((error, rest)) => (Err(ChannelErrorView::Proto(error)), self.consumed(rest)),
                Ok((MessageView::ChannelOpenConfirmation(_), rest)) => (
                    Ok(true),
                    ChannelView { confirm_received: true, ..self.consumed(rest) },
                ),
                Ok((MessageView::ChannelOpenFailure(message), rest)) => (
                    Err(
                        ChannelErrorView::OpenFailure {
                            reason_code: message.reason_code,
                            error_message_utf8: message.error_message_utf8,
                        },
                    ),
                    self.consumed(rest),
                ),
                Ok((message, rest)) => (
                    Err(ChannelErrorView::NonConfirmed(message)),
                    self.consumed(rest),
                ),
            }
        }
    }

    /// The channel with more bytes come.
    pub open spec fn fed(self, more: Seq<u8>) -> ChannelView {
        ChannelView { received: self.received + more, ..self }
    }

    /// The packets that carry `data`.
    pub open spec fn data_parts(self, data: Seq<u8>, data_type: SshDataType) -> Seq<Seq<u8>> {
        data_packets(chunks(data, chunk_size(self.info.max_packet_size, data_type)), data_type)
    }

    /// What a channel delivers does not depend on how the bytes were cut on their way: a message
    /// or an error found in the bytes that came first stands when more come, and where nothing
    /// could be delivered yet, the bytes passed over and the bytes to come read as if they had
    /// come together.
    pub proof fn delivery_ignores_cuts(self, more: Seq<u8>)
        ensures
            self.next_message().0 != Ok::<Option<MessageView>, ChannelErrorView>(None)
                ==> self.fed(more).next_message() == (
                self.next_message().0,
                self.next_message().1.fed(more),
            ),
            self.next_message().0 == Ok::<Option<MessageView>, ChannelErrorView>(None)
                ==> self.fed(more).next_message() == self.next_message().1.fed(
                more,
            ).next_message(),
        decreases self.received.len(),
    {
        MessageView::parsed_encodable(self.received);
        MessageView::extends(self.received, more);
        match MessageView::parsed(self.received) {
            Ok((MessageView::ChannelOpenConfirmation(_), rest)) => {
                let next = ChannelView { confirm_received: true, ..self.consumed(rest) };
                next.delivery_ignores_cuts(more);
                MessageView::parsed_encodable(self.received + more);
                assert(self.fed(more).next_message() == next.fed(more).next_message());
            },
            _ => {},
        }
    }

    /// A channel that this side has not confirmed delivers nothing to its user.
    pub proof fn unconfirmed_delivers_nothing(self)
        requires
            !self.confirm_sent,
        ensures
            !(self.next_message().0 matches Ok(Some(_))),
        decreases self.received.len(),
    {
        MessageView::parsed_encodable(self.received);
        match MessageView::parsed(self.received) {
            Ok((MessageView::ChannelOpenConfirmation(_), rest)) => {
                (ChannelView { confirm_received: true, ..self.consumed(
                    rest,
                ) }).unconfirmed_delivers_nothing();
            },
            _ => {},
        }
    }
}

/// A channel of a conversation.
pub struct Channel {
    info: ChannelInfo,
    confirm_sent: bool,
    confirm_received: bool,
    header: Option<Vec<u8>>,
    datagram_sender: Option<ConversationDatagramSender>,
    datagrams: DatagramQueue,
    received: Vec<u8>,
}

impl View for Channel {
    type V = ChannelView;

    closed spec fn view(&self) -> ChannelView {
        ChannelView {
            info: self.info@,
            confirm_sent: self.confirm_sent,
            confirm_received: self.confirm_received,
            header: match self.header {
                Some(header) => Some(header@),
                None => None,
            },
            datagram_sender: self.datagram_sender,
            datagrams: self.datagrams@,
            received: self.received@,
        }
    }
}

pub open spec fn parts_view(parts: Seq<Vec<u8>>) -> Seq<Seq<u8>> {
    parts.map_values(|part: Vec<u8>| part@)
}

pub open spec fn result_view<T>(result: Result<T, ChannelError>) -> Result<T, ChannelErrorView> {
    match result {
        Ok(value) => Ok(value),
        Err(error) => Err(error@),
    }
}

pub open spec fn delivery_view(result: Result<Option<Message>, ChannelError>) -> Delivery {
    match result {
        Ok(Some(message)) => Ok(Some(message@)),
        Ok(None) => Ok(None),
        Err(error) => Err(error@),
    }
}

impl Channel {
    /// A channel on the stream `channel_id`. The side that opens the channel sends its header
    /// first, with whatever the channel type adds to it.
    pub fn new(
        conversation_stream_id: u64,
        conversation_id: ConversationId,
        channel_id: u64,
        channel_type: Vec<u8>,
        max_packet_size: u64,
        datagram_sender: Option<ConversationDatagramSender>,
        send_header: bool,
        confirm_sent: bool,
        confirm_received: bool,
        datagrams_queue_size: usize,
        additional_header_bytes: Option<&[u8]>,
    ) -> (channel: Self)
        requires
            send_header ==> (ChannelHeaderView {
                conversation_stream_id,
                channel_type: channel_type@,
                max_packet_size,
            }).encodable(),
        ensures
            channel@ == (ChannelView {
                info: ChannelInfoView {
                    max_packet_size,
                    conversation_stream_id,
                    conversation_id: conversation_id@,
                    channel_id,
                    channel_type: channel_type@,
                },
                confirm_sent,
                confirm_received,
                header: if send_header {
                    Some(
                        (ChannelHeaderView {
                            conversation_stream_id,
                            channel_type: channel_type@,
                            max_packet_size,
                        }).encoding(
                            match additional_header_bytes {
                                Some(bytes) => Some(bytes@),
                                None => None,
                            },
                        ),
                    )
                } else {
                    None
                },
                datagram_sender,
                datagrams: DatagramQueueView::empty(datagrams_queue_size as nat),
                received: Seq::empty(),
            }),
    {
        let header: Option<Vec<u8>> = if send_header {
            let announced = ChannelHeader {
                conversation_stream_id,
                channel_type: slice_to_vec(&channel_type),
                max_packet_size,
            };
            Some(announced.encode(additional_header_bytes))
        } else {
            None
        };
        Channel {
            info: ChannelInfo {
                max_packet_size,
                conversation_stream_id,
                conversation_id,
                channel_id,
                channel_type,
            },
            confirm_sent,
            confirm_received,
            header,
            datagram_sender,
            datagrams: DatagramQueue::new(datagrams_queue_size),
            received: Vec::new(),
        }
    }

    pub fn info(&self) -> (info: &ChannelInfo)
        ensures
            info@ == self@.info,
    {
        &self.info
    }

    pub fn channel_id(&self) -> (id: u64)
        ensures
            id == self@.info.channel_id,
    {
        self.info.channel_id
    }

    pub fn conversation_id(&self) -> (id: ConversationId)
        ensures
            id@ == self@.info.conversation_id,
    {
        self.info.conversation_id
    }

    pub fn conversation_stream_id(&self) -> (id: u64)
        ensures
            id == self@.info.conversation_stream_id,
    {
        self.info.conversation_stream_id
    }

    pub fn max_packet_size(&self) -> (size: u64)
        ensures
            size == self@.info.max_packet_size,
    {
        self.info.max_packet_size
    }

    pub fn channel_type(&self) -> (name: &[u8])
        ensures
            name@ == self@.info.channel_type,
    {
        self.info.channel_type.as_slice()
    }

    pub fn confirm_received(&self) -> (received: bool)
        ensures
            received == self@.confirm_received,
    {
        self.confirm_received
    }

    /// Takes in bytes that came from the peer.
    pub fn receive(&mut self, bytes: &[u8])
        ensures
            final(self)@ == old(self)@.fed(bytes@),
    {
        self.received.extend_from_slice(bytes);
        proof {
            assert(self@.received =~= old(self)@.received + bytes@);
        }
    }

    /// Reads one message off the received bytes.
    fn take_message(&mut self) -> (result: Result<Option<Message>, ChannelError>)
        ensures
            match MessageView::parsed(old(self)@.received) {
                Err((ErrorView::UnexpectedEof, _)) => result matches Ok(None) && final(self)@
                    == old(self)@,
                Err((error, rest)) => {
                    &&& result_view(result) == Err::<Option<Message>, ChannelErrorView>(
                        ChannelErrorView::Proto(error),
                    )
                    &&& final(self)@ == old(self)@.consumed(rest)
                },
                Ok((message, rest)) => {
                    &&& result matches Ok(Some(taken)) && taken@ == message
                    &&& final(self)@ == old(self)@.consumed(rest)
                },
            },
    {
        let mut reader: Reader = Reader::new(self.received.as_slice());
        match Message::parse(&mut reader) {
            Ok(message) => {
                let rest: Vec<u8> = slice_to_vec(reader.remaining());
                self.received = rest;
                Ok(Some(message))
            },
            Err(Error::UnexpectedEof) => Ok(None),
            Err(error) => {
                let rest: Vec<u8> = slice_to_vec(reader.remaining());
                self.received = rest;
                Err(ChannelError::Proto(error))
            },
        }
    }

    /// Whether the peer has confirmed the channel. `Ok(false)` asks for more bytes.
    pub fn wait_for_confirmation(&mut self) -> (result: Result<bool, ChannelError>)
        ensures
            result_view(result) == old(self)@.wait_for_confirmation().0,
            final(self)@ == old(self)@.wait_for_confirmation().1,
    {
        if self.confirm_received {
            return Ok(true);
        }
        match self.take_message() {
            Err(error) => Err(error),
            Ok(None) => Ok(false),
            Ok(Some(Message::ChannelOpenConfirmation(_))) => {
                self.confirm_received = true;
                Ok(true)
            },
            Ok(Some(Message::ChannelOpenFailure(message))) => Err(
                ChannelError::OpenFailure(
                    ChannelOpenFailure {
                        reason_code: message.reason_code,
                        error_message_utf8: message.error_message_utf8,
                    },
                ),
            ),
            Ok(Some(message)) => Err(
                ChannelError::NonConfirmed(MessageOnNonConfirmedChannel { message }),
            ),
        }
    }

    /// The next message for the user of the channel. `Ok(None)` asks for more bytes.
    pub fn next_message(&mut self) -> (result: Result<Option<Message>, ChannelError>)
        ensures
            delivery_view(result) == old(self)@.next_message().0,
            final(self)@ == old(self)@.next_message().1,
    {
        loop
            invariant
                self@.next_message() == old(self)@.next_message(),
            decreases self@.received.len(),
        {
            proof {
                MessageView::parsed_encodable(self@.received);
            }
            match self.take_message() {
                Err(error) => {
                    return Err(error);
                },
                Ok(None) => {
                    return Ok(None);
                },
                Ok(Some(Message::ChannelOpenConfirmation(_))) => {
                    self.confirm_received = true;
                },
                Ok(Some(Message::ChannelOpenFailure(message))) => {
                    return Err(
                        ChannelError::OpenFailure(
                            ChannelOpenFailure {
                                reason_code: message.reason_code,
                                error_message_utf8: message.error_message_utf8,
                            },
                        ),
                    );
                },
                Ok(Some(message)) => {
                    if !self.confirm_sent {
                        return Err(
                            ChannelError::NonConfirmed(MessageOnNonConfirmedChannel { message }),
                        );
                    }
                    return Ok(Some(message));
                },
            }
        }
    }

    /// What must be written before anything else: the header, the first time.
    pub fn maybe_send_header(&mut self) -> (header: Option<Vec<u8>>)
        ensures
            match header {
                Some(bytes) => old(self)@.header == Some(bytes@),
                None => old(self)@.header is None,
            },
            final(self)@ == old(self)@.header_sent(),
    {
        self.header.take()
    }

    /// The header in front of what is written next.
    fn header_parts(&mut self) -> (parts: Vec<Vec<u8>>)
        ensures
            parts_view(parts@) == old(self)@.header_parts(),
            final(self)@ == old(self)@.header_sent(),
    {
        let mut parts: Vec<Vec<u8>> = Vec::new();
        if let Some(header) = self.maybe_send_header() {
            parts.push(header);
        }
        proof {
            assert(parts_view(parts@) =~= old(self)@.header_parts());
        }
        parts
    }
}

proof fn lemma_total_len_push(parts: Seq<Seq<u8>>, part: Seq<u8>)
    ensures
        total_len(parts.push(part)) == total_len(parts) + part.len(),
{
    assert(parts.push(part).drop_last() =~= parts);
}

proof fn lemma_total_len_prefix(parts: Seq<Seq<u8>>, count: nat)
    requires
        count <= parts.len(),
    ensures
        total_len(parts.take(count as int)) <= total_len(parts),
    decreases parts.len() - count,
{
    if count == parts.len() {
        assert(parts.take(count as int) =~= parts);
    } else {
        assert(parts.take(count as int + 1) =~= parts.take(count as int).push(parts[count as int]));
        lemma_total_len_push(parts.take(count as int), parts[count as int]);
        lemma_total_len_prefix(parts, count + 1);
    }
}

/// The pieces put together again.
pub open spec fn concatenated(parts: Seq<Seq<u8>>) -> Seq<u8>
    decreases parts.len(),
{
    if parts.len() == 0 {
        Seq::empty()
    } else {
        parts[0] + concatenated(parts.skip(1))
    }
}

/// Data that is cut into pieces is whole again when the pieces are put together, no piece is empty
/// and none is longer than asked for.
pub proof fn chunks_are_the_data(data: Seq<u8>, size: nat)
    requires
        size > 0,
    ensures
        concatenated(chunks(data, size)) == data,
        chunks(data, size).len() <= data.len(),
        forall|i: int|
            0 <= i < chunks(data, size).len() ==> 0 < (#[trigger] chunks(data, size)[i]).len()
                <= size,
    decreases data.len(),
{
    reveal_with_fuel(concatenated, 2);
    if data.len() == 0 {
    } else if data.len() <= size {
        assert(seq![data].skip(1) =~= Seq::<Seq<u8>>::empty());
        assert(concatenated(chunks(data, size)) =~= data);
    } else {
        let rest = data.skip(size as int);
        chunks_are_the_data(rest, size);
        assert(chunks(data, size).skip(1) =~= chunks(rest, size));
        assert(concatenated(chunks(data, size)) =~= data);
        assert forall|i: int| 0 <= i < chunks(data, size).len() implies 0 < (#[trigger] chunks(
            data,
            size,
        )[i]).len() <= size by {
            if i > 0 {
                assert(chunks(data, size)[i] == chunks(rest, size)[i - 1]);
            }
        }
    }
}

/// Where a channel's packets have room for more than the framing of an empty message, each
/// piece of data fits beside that framing.
pub proof fn pieces_fit_the_packet(max_packet_size: u64, data_type: SshDataType, data: Seq<u8>)
    requires
        max_packet_size > data_overhead(data_type),
    ensures
        forall|i: int|
            0 <= i < chunks(data, chunk_size(max_packet_size, data_type)).len() ==> (#[trigger]
            chunks(data, chunk_size(max_packet_size, data_type))[i]).len() + data_overhead(
                data_type,
            ) <= max_packet_size,
{
    chunks_are_the_data(data, chunk_size(max_packet_size, data_type));
}

/// Framing adds at most eighteen bytes to a piece of data.
proof fn lemma_packet_len(data_type: SshDataType, data: Seq<u8>)
    requires
        data_type <= MAX_VARINT,
        data.len() <= MAX_VARINT,
        data.len() <= usize::MAX,
    ensures
        (DataOrExtendedDataMessageView { data_type, data }).encoding().len() <= data.len() + 18,
{
    ssh_bytes_round_trip(data, Seq::empty());
    var_int_bytes_round_trip(data_type, Seq::empty());
    var_int_bytes_round_trip(SSH_MSG_CHANNEL_DATA, Seq::empty());
    var_int_bytes_round_trip(SSH_MSG_CHANNEL_EXTENDED_DATA, Seq::empty());
}

proof fn lemma_packets_len(pieces: Seq<Seq<u8>>, data_type: SshDataType)
    requires
        data_type <= MAX_VARINT,
        forall|i: int|
            0 <= i < pieces.len() ==> (#[trigger] pieces[i]).len() <= MAX_VARINT && pieces[i].len()
                <= usize::MAX && pieces[i].len() > 0,
    ensures
        total_len(data_packets(pieces, data_type)) <= total_len(pieces) * 19,
    decreases pieces.len(),
{
    if pieces.len() > 0 {
        let before = pieces.drop_last();
        lemma_packets_len(before, data_type);
        lemma_packet_len(data_type, pieces.last());
        assert(data_packets(pieces, data_type).drop_last() =~= data_packets(before, data_type));
        assert(pieces.last() == pieces[pieces.len() - 1]);
    }
}

proof fn lemma_total_len_concatenated(parts: Seq<Seq<u8>>)
    ensures
        total_len(parts) == concatenated(parts).len(),
    decreases parts.len(),
{
    if parts.len() > 0 {
        lemma_total_len_concatenated(parts.skip(1));
        lemma_total_len_first(parts);
    }
}

proof fn lemma_total_len_first(parts: Seq<Seq<u8>>)
    requires
        parts.len() > 0,
    ensures
        total_len(parts) == parts[0].len() + total_len(parts.skip(1)),
    decreases parts.len(),
{
    if parts.len() > 1 {
        lemma_total_len_first(parts.drop_last());
        assert(parts.drop_last().skip(1) =~= parts.skip(1).drop_last());
    } else {
        assert(parts.drop_last() =~= Seq::<Seq<u8>>::empty());
        assert(parts.skip(1) =~= Seq::<Seq<u8>>::empty());
    }
}

/// The packets for some data are together at most nineteen times as long as the data.
pub proof fn packets_are_bounded(data: Seq<u8>, size: nat, data_type: SshDataType)
    requires
        size > 0,
        data_type <= MAX_VARINT,
        data.len() <= MAX_VARINT,
        data.len() <= usize::MAX,
    ensures
        total_len(data_packets(chunks(data, size), data_type)) <= data.len() * 19,
{
    let pieces = chunks(data, size);
    chunks_are_the_data(data, size);
    lemma_total_len_concatenated(pieces);
    assert forall|i: int| 0 <= i < pieces.len() implies (#[trigger] pieces[i]).len()
        <= data.len() by {
        lemma_total_len_member(pieces, i);
    }
    lemma_packets_len(pieces, data_type);
}

proof fn lemma_total_len_member(parts: Seq<Seq<u8>>, i: int)
    requires
        0 <= i < parts.len(),
    ensures
        parts[i].len() <= total_len(parts),
    decreases parts.len(),
{
    if i < parts.len() - 1 {
        lemma_total_len_member(parts.drop_last(), i);
    }
}

/// The messages that carry the pieces, one each.
pub open spec fn data_messages(pieces: Seq<Seq<u8>>, data_type: SshDataType) -> Seq<MessageView> {
    pieces.map_values(
        |data: Seq<u8>| MessageView::Data(DataOrExtendedDataMessageView { data_type, data }),
    )
}

impl ChannelView {
    /// A message that is delivered, or that is reported as wrong, is gone: it takes at least one
    /// byte of what has come.
    pub proof fn delivery_takes_bytes(self)
        ensures
            self.next_message().0 != Ok::<Option<MessageView>, ChannelErrorView>(None)
                ==> self.next_message().1.received.len() < self.received.len(),
        decreases self.received.len(),
    {
        MessageView::parsed_encodable(self.received);
        match MessageView::parsed(self.received) {
            Ok((MessageView::ChannelOpenConfirmation(_), rest)) => {
                (ChannelView { confirm_received: true, ..self.consumed(
                    rest,
                ) }).delivery_takes_bytes();
            },
            _ => {},
        }
    }

    /// The messages that a channel delivers of what has come, one after the other.
    pub open spec fn deliveries(self) -> Seq<MessageView>
        decreases self.received.len(),
    {
        proof {
            self.delivery_takes_bytes();
        }
        match self.next_message() {
            (Ok(Some(message)), next) => seq![message] + next.deliveries(),
            _ => Seq::empty(),
        }
    }

    proof fn lemma_packets_arrive(self, pieces: Seq<Seq<u8>>, data_type: SshDataType)
        requires
            self.confirm_sent,
            self.received.len() == 0,
            data_type <= MAX_VARINT,
            forall|i: int| 0 <= i < pieces.len() ==> bytes_encodable(#[trigger] pieces[i]),
        ensures
            self.fed(concatenated(data_packets(pieces, data_type))).deliveries() == data_messages(
                pieces,
                data_type,
            ),
        decreases pieces.len(),
    {
        let packets = data_packets(pieces, data_type);
        let fed = self.fed(concatenated(packets));
        assert(fed.received =~= concatenated(packets));
        if pieces.len() == 0 {
            reveal(var_int_parsed);
            assert(fed.deliveries() =~= data_messages(pieces, data_type));
        } else {
            let rest = pieces.skip(1);
            let after = concatenated(data_packets(rest, data_type));
            let message = MessageView::Data(
                DataOrExtendedDataMessageView { data_type, data: pieces[0] },
            );
            message.round_trip(after);
            assert(packets.skip(1) =~= data_packets(rest, data_type));
            assert(concatenated(packets) == message.encoding() + after);
            assert(fed.next_message() == (
                Ok::<Option<MessageView>, ChannelErrorView>(Some(message)),
                fed.consumed(after),
            ));
            self.lemma_packets_arrive(rest, data_type);
            assert(Seq::<u8>::empty() + after =~= after);
            assert(self.received =~= Seq::<u8>::empty());
            assert(fed.consumed(after) == self.fed(after));
            assert(fed.deliveries() =~= data_messages(pieces, data_type));
        }
    }

    /// A channel delivers what its peer writes to it, in the same order and cut in the same places,
    /// and nothing else; put together again, it is the data that was written.
    pub proof fn written_data_arrives(
        self,
        peer: ChannelView,
        data: Seq<u8>,
        data_type: SshDataType,
    )
        requires
            self.confirm_sent,
            self.received.len() == 0,
            data_type <= MAX_VARINT,
            data.len() <= MAX_VARINT,
            data.len() <= usize::MAX,
        ensures
            ({
                let pieces = chunks(data, chunk_size(peer.info.max_packet_size, data_type));
                &&& self.fed(concatenated(peer.data_parts(data, data_type))).deliveries()
                    == data_messages(pieces, data_type)
                &&& concatenated(pieces) == data
            }),
    {
        let size = chunk_size(peer.info.max_packet_size, data_type);
        let pieces = chunks(data, size);
        chunks_are_the_data(data, size);
        lemma_total_len_concatenated(pieces);
        assert forall|i: int| 0 <= i < pieces.len() implies bytes_encodable(
            #[trigger] pieces[i],
        ) by {
            lemma_total_len_member(pieces, i);
        }
        self.lemma_packets_arrive(pieces, data_type);
    }

    /// A channel delivers the message that its peer sends, and is left with nothing more to read.
    pub proof fn sent_message_arrives(self, message: MessageView)
        requires
            self.confirm_sent,
            self.received.len() == 0,
            message.encodable(),
            !(message is ChannelOpenConfirmation),
            !(message is ChannelOpenFailure),
        ensures
            self.fed(message.encoding()).next_message() == (
                Ok::<Option<MessageView>, ChannelErrorView>(Some(message)),
                self,
            ),
    {
        message.round_trip(Seq::empty());
        assert(message.encoding() + Seq::<u8>::empty() =~= message.encoding());
        assert(self.fed(message.encoding()).received =~= message.encoding());
        assert(self.received =~= Seq::<u8>::empty());
    }
}

impl Channel {
    /// Cuts `data_buf` into data messages. Returns what is to be written, in order, and what the
    /// call amounts to once it is: how many bytes the messages take, or why there are none. The
    /// header goes out either way.
    pub fn write_data(&mut self, data_buf: &[u8], data_type: SshDataType) -> (result: (
        Vec<Vec<u8>>,
        Result<usize, ChannelError>,
    ))
        requires
            data_type <= MAX_VARINT,
            data_buf@.len() <= MAX_VARINT,
            total_len(old(self)@.data_parts(data_buf@, data_type)) <= usize::MAX,
        ensures
            final(self)@ == old(self)@.header_sent(),
            ({
                let overhead = data_overhead(data_type);
                let packets = old(self)@.data_parts(data_buf@, data_type);
                if old(self)@.info.max_packet_size < overhead {
                    &&& parts_view(result.0@) == old(self)@.header_parts()
                    &&& result_view(result.1) == Err::<usize, ChannelErrorView>(
                        ChannelErrorView::MaxPacketSizeTooSmall {
                            max_packet_size: old(self)@.info.max_packet_size,
                            message_overhead: overhead,
                        },
                    )
                } else {
                    &&& parts_view(result.0@) == old(self)@.header_parts() + packets
                    &&& result.1 matches Ok(written) && written == total_len(packets)
                }
            }),
    {
        let mut parts: Vec<Vec<u8>> = self.header_parts();
        let max_packet_size: u64 = self.info.max_packet_size;
        let empty = DataOrExtendedDataMessage { data_type, data: Vec::new() };
        proof {
            assert(empty@.data =~= Seq::<u8>::empty());
            lemma_packet_len(data_type, Seq::empty());
        }
        let overhead: usize = empty.encoded_len();
        if max_packet_size < overhead as u64 {
            return (
                parts,
                Err(
                    ChannelError::MaxPacketSizeTooSmall {
                        max_packet_size,
                        message_overhead: overhead,
                    },
                ),
            );
        }
        let room: u64 = max_packet_size - overhead as u64;
        let size: u64 = if room == 0 {
            1
        } else {
            room
        };
        let ghost pieces = chunks(data_buf@, size as nat);
        let ghost packets = data_packets(pieces, data_type);
        let ghost head = parts_view(parts@);
        proof {
            assert(packets == old(self)@.data_parts(data_buf@, data_type));
            assert(parts_view(parts@) =~= head + packets.take(0));
            assert(data_buf@.skip(0) =~= data_buf@);
            assert(pieces.skip(0) =~= pieces);
        }
        let mut written: usize = 0;
        let mut offset: usize = 0;
        let ghost mut count: int = 0;
        while offset < data_buf.len()
            invariant
                size > 0,
                data_type <= MAX_VARINT,
                data_buf@.len() <= MAX_VARINT,
                pieces == chunks(data_buf@, size as nat),
                packets == data_packets(pieces, data_type),
                total_len(packets) <= usize::MAX,
                0 <= count <= pieces.len(),
                offset <= data_buf@.len(),
                pieces.skip(count) == chunks(data_buf@.skip(offset as int), size as nat),
                parts_view(parts@) == head + packets.take(count),
                written == total_len(packets.take(count)),
            decreases data_buf@.len() - offset,
        {
            let left: usize = data_buf.len() - offset;
            let length: usize = if left as u64 <= size {
                left
            } else {
                size as usize
            };
            let end: usize = offset + length;
            let piece: Vec<u8> = slice_to_vec(slice_subrange(data_buf, offset, end));
            proof {
                let rest = data_buf@.skip(offset as int);
                assert(piece@ =~= rest.take(length as int));
                assert(chunks(rest, size as nat).len() > 0);
                assert(pieces[count] == pieces.skip(count)[0]);
                assert(rest.take(rest.len() as int) =~= rest);
                assert(chunks(rest, size as nat)[0] == piece@);
                assert(rest.skip(length as int) =~= data_buf@.skip(end as int));
                assert(pieces.skip(count + 1) =~= pieces.skip(count).skip(1));
                assert(chunks(rest, size as nat).skip(1) =~= chunks(
                    data_buf@.skip(end as int),
                    size as nat,
                ));
                assert(packets.take(count + 1) =~= packets.take(count).push(packets[count]));
                lemma_total_len_push(packets.take(count), packets[count]);
                lemma_total_len_prefix(packets, (count + 1) as nat);
            }
            let message = Message::Data(DataOrExtendedDataMessage { data_type, data: piece });
            let encoded: Vec<u8> = message.to_vec();
            written = written + encoded.len();
            let ghost before = parts@;
            parts.push(encoded);
            proof {
                assert(parts_view(parts@) =~= parts_view(before).push(encoded@));
                count = count + 1;
                assert(parts_view(parts@) =~= head + packets.take(count));
            }
            offset = end;
        }
        proof {
            assert(chunks(data_buf@.skip(offset as int), size as nat).len() == 0);
            assert(count == pieces.len());
            assert(packets.take(count) =~= packets);
        }
        (parts, Ok(written))
    }

    /// What is to be written for a message: the header, the first time, and the message.
    pub fn send_message(&mut self, message: &Message) -> (parts: Vec<Vec<u8>>)
        requires
            message@.encodable(),
        ensures
            parts_view(parts@) == old(self)@.header_parts().push(message@.encoding()),
            final(self)@ == old(self)@.header_sent(),
    {
        let mut parts: Vec<Vec<u8>> = self.header_parts();
        let ghost before = parts@;
        let encoded: Vec<u8> = message.to_vec();
        parts.push(encoded);
        proof {
            assert(parts_view(parts@) =~= parts_view(before).push(encoded@));
        }
        parts
    }

    /// What is to be written for a request.
    pub fn send_request(&mut self, request: ChannelRequestMessage) -> (parts: Vec<Vec<u8>>)
        requires
            request@.encodable(),
        ensures
            parts_view(parts@) == old(self)@.header_parts().push(request@.encoding()),
            final(self)@ == old(self)@.header_sent(),
    {
        self.send_message(&Message::ChannelRequest(request))
    }

    /// What is to be written to tell that a request was granted.
    pub fn send_request_success(&mut self) -> (parts: Vec<Vec<u8>>)
        ensures
            parts_view(parts@) == old(self)@.header_parts().push(
                MessageView::ChannelSuccess.encoding(),
            ),
            final(self)@ == old(self)@.header_sent(),
    {
        self.send_message(&Message::ChannelSuccess)
    }

    /// What is to be written to tell that a request was refused.
    pub fn send_request_failure(&mut self) -> (parts: Vec<Vec<u8>>)
        ensures
            parts_view(parts@) == old(self)@.header_parts().push(
                MessageView::ChannelFailure.encoding(),
            ),
            final(self)@ == old(self)@.header_sent(),
    {
        self.send_message(&Message::ChannelFailure)
    }

    /// What is to be written to confirm the channel. [`Self::confirmed`] follows once it is.
    pub fn confirm_channel(&mut self, max_packet_size: u64) -> (parts: Vec<Vec<u8>>)
        requires
            max_packet_size <= MAX_VARINT,
        ensures
            parts_view(parts@) == old(self)@.header_parts().push(
                (ChannelOpenConfirmationMessage { max_packet_size }).encoding(),
            ),
            final(self)@ == old(self)@.header_sent(),
    {
        self.send_message(
            &Message::ChannelOpenConfirmation(ChannelOpenConfirmationMessage { max_packet_size }),
        )
    }

    /// Notes that the confirmation is written.
    pub fn confirmed(&mut self)
        ensures
            final(self)@ == (ChannelView { confirm_sent: true, ..old(self)@ }),
    {
        self.confirm_sent = true;
    }

    /// Whether a datagram can be added now.
    pub fn has_room_for_datagram(&self) -> (room: bool)
        ensures
            room == self@.datagrams.has_room(),
    {
        self.datagrams.has_room()
    }

    /// Adds a datagram to those that wait, or drops it where there is no room.
    pub fn add_datagram(&mut self, datagram: Vec<u8>) -> (added: bool)
        ensures
            added == old(self)@.datagrams.has_room(),
            final(self)@ == (ChannelView {
                datagrams: old(self)@.datagrams.added(datagram@),
                ..old(self)@
            }),
    {
        self.datagrams.add(datagram)
    }

    /// Takes the datagram that has waited longest.
    pub fn receive_datagram(&mut self) -> (datagram: Option<Vec<u8>>)
        ensures
            match datagram {
                Some(first) => {
                    &&& old(self)@.datagrams.datagrams.len() > 0
                    &&& first@ == old(self)@.datagrams.datagrams[0]
                    &&& final(self)@ == (ChannelView {
                        datagrams: old(self)@.datagrams.advanced(),
                        ..old(self)@
                    })
                },
                None => old(self)@.datagrams.datagrams.len() == 0 && final(self)@ == old(self)@,
            },
    {
        self.datagrams.next()
    }

    /// What is to be written on the stream for a datagram, and the datagram as it travels, or why
    /// it cannot be sent.
    pub fn send_datagram(&mut self, datagram: &[u8]) -> (result: (
        Option<Vec<u8>>,
        Result<Vec<u8>, ChannelError>,
    ))
        requires
            old(self)@.datagram_sender matches Some(sender) ==> sender.encodable(),
        ensures
            match result.0 {
                Some(bytes) => old(self)@.header == Some(bytes@),
                None => old(self)@.header is None,
            },
            final(self)@ == old(self)@.header_sent(),
            match old(self)@.datagram_sender {
                Some(sender) => result.1 matches Ok(framed) && framed@ == sender.framed(datagram@),
                None => result_view(result.1) == Err::<Vec<u8>, ChannelErrorView>(
                    ChannelErrorView::DatagramSenderMissing {
                        channel_id: old(self)@.info.channel_id,
                    },
                ),
            },
    {
        let header: Option<Vec<u8>> = self.maybe_send_header();
        match self.datagram_sender {
            Some(sender) => (header, Ok(sender.send(datagram))),
            None => (
                header,
                Err(
                    ChannelError::DatagramSenderMissing(
                        SentDatagramOnNonDatagramChannel { channel_id: self.info.channel_id },
                    ),
                ),
            ),
        }
    }

    pub fn set_datagram_sender(&mut self, datagram_sender: ConversationDatagramSender)
        ensures
            final(self)@ == (ChannelView {
                datagram_sender: Some(datagram_sender),
                ..old(self)@
            }),
    {
        self.datagram_sender = Some(datagram_sender);
    }

    pub fn set_datagram_queue(&mut self, queue: DatagramQueue)
        ensures
            final(self)@ == (ChannelView { datagrams: queue@, ..old(self)@ }),
    {
        self.datagrams = queue;
    }
}

impl ChannelView {
    /// A confirmation is noted and passed over: what follows it is what comes next.
    pub proof fn confirmation_is_passed_over(
        self,
        message: ChannelOpenConfirmationMessage,
        rest: Seq<u8>,
    )
        requires
            message.encodable(),
            self.received == message.encoding() + rest,
        ensures
            self.next_message() == (ChannelView {
                confirm_received: true,
                received: rest,
                ..self
            }).next_message(),
            !self.confirm_received ==> self.wait_for_confirmation() == (
                Ok::<bool, ChannelErrorView>(true),
                ChannelView { confirm_received: true, received: rest, ..self },
            ),
    {
        (MessageView::ChannelOpenConfirmation(message)).round_trip(rest);
    }

    /// A refusal is told with its reason, to who waits for the confirmation as to who waits for a
    /// message, and is gone.
    pub proof fn refusal_is_told(self, message: ChannelOpenFailureMessageView, rest: Seq<u8>)
        requires
            message.encodable(),
            self.received == message.encoding() + rest,
        ensures
            ({
                let refusal = ChannelErrorView::OpenFailure {
                    reason_code: message.reason_code,
                    error_message_utf8: message.error_message_utf8,
                };
                let after = ChannelView { received: rest, ..self };
                &&& self.next_message() == (
                    Err::<Option<MessageView>, ChannelErrorView>(refusal),
                    after,
                )
                &&& !self.confirm_received ==> self.wait_for_confirmation() == (
                    Err::<bool, ChannelErrorView>(refusal),
                    after,
                )
            }),
    {
        (MessageView::ChannelOpenFailure(message)).round_trip(rest);
    }

    /// Any other message is delivered on a channel that this side confirmed, whatever follows it
    /// and whether or not the peer confirmed it, and refused on one that it did not; who waits for
    /// the confirmation is told that it is none. Either way it is gone.
    pub proof fn message_is_delivered_or_refused(self, message: MessageView, rest: Seq<u8>)
        requires
            message.encodable(),
            !(message is ChannelOpenConfirmation),
            !(message is ChannelOpenFailure),
            self.received == message.encoding() + rest,
        ensures
            ({
                let after = ChannelView { received: rest, ..self };
                &&& self.confirm_sent ==> self.next_message() == (
                    Ok::<Option<MessageView>, ChannelErrorView>(Some(message)),
                    after,
                )
                &&& !self.confirm_sent ==> self.next_message() == (
                    Err::<Option<MessageView>, ChannelErrorView>(
                        ChannelErrorView::NonConfirmed(message),
                    ),
                    after,
                )
                &&& !self.confirm_received ==> self.wait_for_confirmation() == (
                    Err::<bool, ChannelErrorView>(ChannelErrorView::NonConfirmed(message)),
                    after,
                )
            }),
    {
        message.round_trip(rest);
    }

    /// Where nothing has come, nothing is delivered and nothing changes; a channel that is confirmed
    /// stays so, whatever has come.
    pub proof fn nothing_comes_of_nothing(self)
        ensures
            self.received.len() == 0 ==> self.next_message() == (
                Ok::<Option<MessageView>, ChannelErrorView>(None),
                self,
            ),
            self.received.len() == 0 && !self.confirm_received ==> self.wait_for_confirmation() == (
                Ok::<bool, ChannelErrorView>(false),
                self,
            ),
            self.confirm_received ==> self.wait_for_confirmation() == (
                Ok::<bool, ChannelErrorView>(true),
                self,
            ),
    {
        reveal(var_int_parsed);
    }

    /// The header goes out before anything else, once.
    pub proof fn header_goes_out_once(self)
        ensures
            self.header matches Some(header) ==> self.header_parts() == seq![header],
            self.header is None ==> self.header_parts() == Seq::<Seq<u8>>::empty(),
            self.header_sent().header_parts() == Seq::<Seq<u8>>::empty(),
            self.header_sent().header is None,
            self.header_sent().info == self.info,
            self.header_sent().received == self.received,
            self.header_sent().confirm_sent == self.confirm_sent,
            self.header_sent().confirm_received == self.confirm_received,
            self.header_sent().datagrams == self.datagrams,
            self.header_sent().datagram_sender == self.datagram_sender,
    {
    }

    /// What comes is put behind what has come, and changes nothing else.
    pub proof fn bytes_are_taken_in_as_they_come(self, first: Seq<u8>, second: Seq<u8>)
        ensures
            self.fed(first).fed(second) == self.fed(first + second),
            self.fed(first).received == self.received + first,
            self.fed(first).info == self.info,
            self.fed(first).confirm_sent == self.confirm_sent,
            self.fed(first).confirm_received == self.confirm_received,
            self.fed(first).header == self.header,
            self.fed(first).datagrams == self.datagrams,
            self.fed(first).datagram_sender == self.datagram_sender,
    {
        assert(self.received + first + second =~= self.received + (first + second));
    }
}

/// Packets are as large as the channel lets them be: but for the last, each message carries exactly
/// what is left beside the framing of an empty one.
pub proof fn packets_are_full(max_packet_size: u64, data_type: SshDataType, data: Seq<u8>, i: int)
    requires
        max_packet_size > data_overhead(data_type),
        0 <= i < chunks(data, chunk_size(max_packet_size, data_type)).len() - 1,
    ensures
        chunks(data, chunk_size(max_packet_size, data_type))[i].len() == max_packet_size
            - data_overhead(data_type),
    decreases data.len(),
{
    let size = chunk_size(max_packet_size, data_type);
    let rest = data.skip(size as int);
    if i > 0 {
        packets_are_full(max_packet_size, data_type, rest, i - 1);
        assert(chunks(data, size)[i] == chunks(rest, size)[i - 1]);
    }
}

/// An empty message of ordinary data takes three bytes, and one of extended data two and what its
/// type takes more.
pub proof fn framing_takes_a_few_bytes(data_type: SshDataType)
    requires
        data_type <= MAX_VARINT,
    ensures
        data_overhead(0) == 3,
        data_type != 0 ==> data_overhead(data_type) == 3 + var_int_bytes(data_type).len(),
        data_overhead(1) == 4,
{
    reveal(ssh_bytes_encoding);
    integers_are_laid_out(0);
    integers_are_laid_out(1);
    integers_are_laid_out(94);
    integers_are_laid_out(95);
}

/// An accepted channel is the channel that was opened, with the address that it forwards, where it
/// forwards one.
pub proof fn accepted_channel_keeps_its_parts(channel: ChannelView, remote_addr: SocketAddrView)
    ensures
        (AcceptedChannelView::Channel(channel)).channel() == channel,
        (AcceptedChannelView::Channel(channel)).remote_addr() is None,
        (AcceptedChannelView::UdpForwarding { channel, remote_addr }).channel() == channel,
        (AcceptedChannelView::UdpForwarding { channel, remote_addr }).remote_addr() == Some(
            remote_addr,
        ),
        (AcceptedChannelView::TcpForwarding { channel, remote_addr }).channel() == channel,
        (AcceptedChannelView::TcpForwarding { channel, remote_addr }).remote_addr() == Some(
            remote_addr,
        ),
{
}

/// A datagram travels behind the number of its conversation and of its channel.
pub proof fn datagrams_are_laid_out(sender: ConversationDatagramSender, datagram: Seq<u8>)
    ensures
        sender.framed(datagram) == var_int_bytes(sender.control_stream_id) + var_int_bytes(
            sender.channel_id,
        ) + datagram,
{
}

/// A channel that the peer opened, with the address that it wants forwarded, where it is a
/// forwarding channel.
pub enum AcceptedChannel {
    Channel(Channel),
    UdpForwarding { channel: Channel, remote_addr: SocketAddr },
    TcpForwarding { channel: Channel, remote_addr: SocketAddr },
}

/// The mathematical counterpart of [`AcceptedChannel`].
pub enum AcceptedChannelView {
    Channel(ChannelView),
    UdpForwarding { channel: ChannelView, remote_addr: SocketAddrView },
    TcpForwarding { channel: ChannelView, remote_addr: SocketAddrView },
}

impl View for AcceptedChannel {
    type V = AcceptedChannelView;

    open spec fn view(&self) -> AcceptedChannelView {
        match *self {
            AcceptedChannel::Channel(channel) => AcceptedChannelView::Channel(channel@),
            AcceptedChannel::UdpForwarding { channel, remote_addr } =>
                AcceptedChannelView::UdpForwarding { channel: channel@, remote_addr: remote_addr@ },
            AcceptedChannel::TcpForwarding { channel, remote_addr } =>
                AcceptedChannelView::TcpForwarding { channel: channel@, remote_addr: remote_addr@ },
        }
    }
}

impl AcceptedChannelView {
    pub open spec fn channel(self) -> ChannelView {
        match self {
            AcceptedChannelView::Channel(channel) => channel,
            AcceptedChannelView::UdpForwarding { channel, .. } => channel,
            AcceptedChannelView::TcpForwarding { channel, .. } => channel,
        }
    }

    pub open spec fn remote_addr(self) -> Option<SocketAddrView> {
        match self {
            AcceptedChannelView::Channel(_) => None,
            AcceptedChannelView::UdpForwarding { remote_addr, .. } => Some(remote_addr),
            AcceptedChannelView::TcpForwarding { remote_addr, .. } => Some(remote_addr),
        }
    }
}

impl AcceptedChannel {
    pub fn channel(&self) -> (channel: &Channel)
        ensures
            channel@ == self@.channel(),
    {
        match self {
            AcceptedChannel::Channel(channel) => channel,
            AcceptedChannel::UdpForwarding { channel, .. } => channel,
            AcceptedChannel::TcpForwarding { channel, .. } => channel,
        }
    }

    pub fn into_channel(self) -> (channel: Channel)
        ensures
            channel@ == self@.channel(),
    {
        match self {
            AcceptedChannel::Channel(channel) => channel,
            AcceptedChannel::UdpForwarding { channel, .. } => channel,
            AcceptedChannel::TcpForwarding { channel, .. } => channel,
        }
    }

    pub fn remote_addr(&self) -> (addr: Option<SocketAddr>)
        ensures
            match addr {
                Some(addr) => self@.remote_addr() == Some(addr@),
                None => self@.remote_addr() is None,
            },
    {
        match self {
            AcceptedChannel::Channel(_) => None,
            AcceptedChannel::UdpForwarding { remote_addr, .. } => Some(*remote_addr),
            AcceptedChannel::TcpForwarding { remote_addr, .. } => Some(*remote_addr),
        }
    }
}

} // verus!
