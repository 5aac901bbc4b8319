//! Channels that the peer opens, and how channels and datagrams find their conversation.

use crate::conversation::channel::{
    AcceptedChannel, AcceptedChannelView, Channel, ChannelInfoView, ChannelView,
    ConversationDatagramSender, ConversationId,
};
use crate::conversation::queue::DatagramQueueView;
use crate::conversation::state::{
    opened_channel, Conversation, ConversationError, ConversationErrorView, ConversationView,
};
use crate::proto::address::{SocketAddr, SocketAddrView};
use crate::proto::header::{
    parse_forwarding_payload, ChannelHeader, ChannelHeaderView, SSH_FRAME_TYPE,
};
use crate::proto::wire::{
    read_var_int, var_int_bytes, var_int_bytes_round_trip, var_int_parsed, Error, ErrorView,
    Reader, MAX_VARINT,
};
use crate::text::same_bytes;
use std::collections::hash_map::Entry;
use std::collections::HashMap;
use vstd::prelude::*;
use vstd::string::*;

verus! {

broadcast use vstd::std_specs::hash::group_hash_axioms;

/// A channel that the peer opened on a stream, as its header describes it.
#[derive(Clone, Debug, PartialEq, Eq)]
pub struct IncomingChannel {
    pub stream_id: u64,
    pub header: ChannelHeader,
    pub forwarding_target: Option<SocketAddr>,
}

/// The mathematical counterpart of [`IncomingChannel`].
pub struct IncomingChannelView {
    pub stream_id: u64,
    pub header: ChannelHeaderView,
    pub forwarding_target: Option<SocketAddrView>,
}

impl View for IncomingChannel {
    type V = IncomingChannelView;

    open spec fn view(&self) -> IncomingChannelView {
        IncomingChannelView {
            stream_id: self.stream_id,
            header: self.header@,
            forwarding_target: match self.forwarding_target {
                Some(target) => Some(target@),
                None => None,
            },
        }
    }
}

/// Why a stream is no channel.
#[derive(Clone, Debug, PartialEq, Eq)]
pub enum ChannelSetupError {
    Proto(Error),
    UnexpectedFrameType { frame_type: u64 },
}

/// The mathematical counterpart of [`ChannelSetupError`].
pub enum ChannelSetupErrorView {
    Proto(ErrorView),
    UnexpectedFrameType { frame_type: u64 },
}

impl View for ChannelSetupError {
    type V = ChannelSetupErrorView;

    open spec fn view(&self) -> ChannelSetupErrorView {
        match *self {
            ChannelSetupError::Proto(error) => ChannelSetupErrorView::Proto(error@),
            ChannelSetupError::UnexpectedFrameType { frame_type } =>
                ChannelSetupErrorView::UnexpectedFrameType { frame_type },
        }
    }
}

/// Whether channels of this type add a forwarding target to their header.
pub open spec fn is_forwarding_type(channel_type: Seq<u8>) -> bool {
    channel_type == "direct-udp".spec_bytes() || channel_type == "direct-tcp".spec_bytes()
}

/// What the first bytes of a stream say about the channel on it, or why they say nothing, and the
/// bytes behind what was read.
pub open spec fn incoming_parsed(stream_id: u64, bytes: Seq<u8>) -> Result<
    (IncomingChannelView, Seq<u8>),
    (ChannelSetupErrorView, Seq<u8>),
> {
    match var_int_parsed(bytes) {
        Err((error, rest)) => Err((ChannelSetupErrorView::Proto(error), rest)),
        Ok((frame_type, rest)) => if frame_type != SSH_FRAME_TYPE {
            Err((ChannelSetupErrorView::UnexpectedFrameType { frame_type }, rest))
        } else {
            match ChannelHeaderView::parsed(rest) {
                Err((error, rest)) => Err((ChannelSetupErrorView::Proto(error), rest)),
                Ok((header, rest)) => if is_forwarding_type(header.channel_type) {
                    match SocketAddrView::parsed(rest) {
                        Err((error, rest)) => Err((ChannelSetupErrorView::Proto(error), rest)),
                        Ok((target, rest)) => Ok(
                            (
                                IncomingChannelView {
                                    stream_id,
                                    header,
                                    forwarding_target: Some(target),
                                },
                                rest,
                            ),
                        ),
                    }
                } else {
                    Ok(
                        (
                            IncomingChannelView { stream_id, header, forwarding_target: None },
                            rest,
                        ),
                    )
                },
            }
        },
    }
}

/// Whether an error means that the input ended too early.
pub open spec fn is_cut_short(error: ChannelSetupErrorView) -> bool {
    error == ChannelSetupErrorView::Proto(ErrorView::UnexpectedEof)
}

/// Reads the header of a channel that the peer opened on the stream `stream_id`. Where the input
/// ends before the header does, the error tells so, nothing is consumed, and the caller tries again
/// with more bytes.
pub fn read_incoming_channel(stream_id: u64, reader: &mut Reader) -> (result: Result<
    IncomingChannel,
    ChannelSetupError,
>)
    ensures
        match (result, incoming_parsed(stream_id, old(reader)@)) {
            (Ok(incoming), Ok((expected, rest))) => incoming@ == expected && final(reader)@
                == rest,
            (Err(error), Err((expected, rest))) => {
                &&& error@ == expected
                &&& final(reader)@ == if is_cut_short(expected) {
                    old(reader)@
                } else {
                    rest
                }
            },
            _ => false,
        },
{
    let start: &[u8] = reader.remaining();
    let result: Result<IncomingChannel, ChannelSetupError> = read_announcement(stream_id, reader);
    if matches!(result, Err(ChannelSetupError::Proto(Error::UnexpectedEof))) {
        reader.rewind(start);
    }
    result
}

fn read_announcement(stream_id: u64, reader: &mut Reader) -> (result: Result<
    IncomingChannel,
    ChannelSetupError,
>)
    ensures
        match (result, incoming_parsed(stream_id, old(reader)@)) {
            (Ok(incoming), Ok((expected, rest))) => incoming@ == expected && final(reader)@
                == rest,
            (Err(error), Err((expected, rest))) => {
                &&& error@ == expected
                &&& is_cut_short(expected) || final(reader)@ == rest
            },
            _ => false,
        },
{
    let frame_type: u64 = match read_var_int(reader) {
        Ok(frame_type) => frame_type,
        Err(error) => {
            return Err(ChannelSetupError::Proto(error));
        },
    };
    if frame_type != SSH_FRAME_TYPE {
        return Err(ChannelSetupError::UnexpectedFrameType { frame_type });
    }
    let header: ChannelHeader = match ChannelHeader::parse_payload(reader) {
        Ok(header) => header,
        Err(error) => {
            return Err(ChannelSetupError::Proto(error));
        },
    };
    let forwarding_target: Option<SocketAddr> = if same_bytes(
        &header.channel_type,
        "direct-udp".as_bytes(),
    ) || same_bytes(&header.channel_type, "direct-tcp".as_bytes()) {
        match parse_forwarding_payload(reader) {
            Ok(target) => Some(target),
            Err(error) => {
                return Err(ChannelSetupError::Proto(error));
            },
        }
    } else {
        None
    };
    Ok(IncomingChannel { stream_id, header, forwarding_target })
}

/// A channel that one side opens is read by the other side as the same channel: the same type and
/// packet size, in the same conversation, with the forwarding target where the type has one.
pub proof fn opened_channel_is_read_back(
    conversation: ConversationView,
    stream_id: u64,
    channel_type: Seq<u8>,
    max_packet_size: u64,
    sender: Option<ConversationDatagramSender>,
    queue_size: nat,
    target: Option<SocketAddrView>,
    rest: Seq<u8>,
)
    requires
        (ChannelHeaderView {
            conversation_stream_id: conversation.control_stream_id,
            channel_type,
            max_packet_size,
        }).encodable(),
        is_forwarding_type(channel_type) == (target is Some),
        target matches Some(target) ==> target.valid(),
    ensures
        ({
            let additional = match target {
                Some(target) => Some(target.encoding()),
                None => None,
            };
            let channel = opened_channel(
                conversation,
                stream_id,
                channel_type,
                max_packet_size,
                sender,
                queue_size,
                additional,
            );
            &&& channel.header matches Some(sent)
            &&& incoming_parsed(stream_id, sent + rest) == Ok::<
                (IncomingChannelView, Seq<u8>),
                (ChannelSetupErrorView, Seq<u8>),
            >(
                (
                    IncomingChannelView {
                        stream_id,
                        header: channel.info.header(),
                        forwarding_target: target,
                    },
                    rest,
                ),
            )
        }),
{
    let header = ChannelHeaderView {
        conversation_stream_id: conversation.control_stream_id,
        channel_type,
        max_packet_size,
    };
    match target {
        Some(target) => {
            header.round_trip(Some(target.encoding()), rest);
            target.round_trip(rest);
        },
        None => {
            header.round_trip(None, rest);
            assert(Seq::<u8>::empty() + rest =~= rest);
        },
    }
}

impl IncomingChannelView {
    /// The channel on this side. It has not been confirmed to the peer, and needs no
    /// confirmation from it. Only UDP forwarding sends datagrams.
    pub open spec fn channel(
        self,
        conversation_id: Seq<u8>,
        datagram_sender: Option<ConversationDatagramSender>,
        datagrams_queue_size: nat,
    ) -> ChannelView {
        ChannelView {
            info: ChannelInfoView {
                max_packet_size: self.header.max_packet_size,
                conversation_stream_id: self.header.conversation_stream_id,
                conversation_id,
                channel_id: self.stream_id,
                channel_type: self.header.channel_type,
            },
            confirm_sent: false,
            confirm_received: true,
            header: None,
            datagram_sender: if self.header.channel_type == "direct-udp".spec_bytes() {
                datagram_sender
            } else {
                None
            },
            datagrams: DatagramQueueView::empty(datagrams_queue_size),
            received: Seq::empty(),
        }
    }

    /// The channel, with the forwarding target where there is one to forward to.
    pub open spec fn accepted(
        self,
        conversation_id: Seq<u8>,
        datagram_sender: Option<ConversationDatagramSender>,
        datagrams_queue_size: nat,
    ) -> AcceptedChannelView {
        let channel = self.channel(conversation_id, datagram_sender, datagrams_queue_size);
        match self.forwarding_target {
            None => AcceptedChannelView::Channel(channel),
            Some(remote_addr) => if self.header.channel_type == "direct-udp".spec_bytes() {
                AcceptedChannelView::UdpForwarding { channel, remote_addr }
            } else if self.header.channel_type == "direct-tcp".spec_bytes() {
                AcceptedChannelView::TcpForwarding { channel, remote_addr }
            } else {
                AcceptedChannelView::Channel(channel)
            },
        }
    }

    /// The channel as a channel of `conversation`.
    pub open spec fn accepted_for(self, conversation: ConversationView) -> AcceptedChannelView {
        self.accepted(
            conversation.conversation_id,
            Some(
                ConversationDatagramSender {
                    control_stream_id: conversation.control_stream_id,
                    channel_id: self.stream_id,
                },
            ),
            conversation.default_datagrams_queue_size,
        )
    }
}

impl IncomingChannel {
    pub fn into_accepted_channel(
        self,
        conversation_id: ConversationId,
        datagram_sender: Option<ConversationDatagramSender>,
        datagrams_queue_size: usize,
    ) -> (accepted: AcceptedChannel)
        ensures
            accepted@ == self@.accepted(
                conversation_id@,
                datagram_sender,
                datagrams_queue_size as nat,
            ),
    {
        let udp: bool = same_bytes(&self.header.channel_type, "direct-udp".as_bytes());
        let tcp: bool = same_bytes(&self.header.channel_type, "direct-tcp".as_bytes());
        let channel: Channel = Channel::new(
            self.header.conversation_stream_id,
            conversation_id,
            self.stream_id,
            self.header.channel_type,
            self.header.max_packet_size,
            if udp {
                datagram_sender
            } else {
                None
            },
            false,
            false,
            true,
            datagrams_queue_size,
            None,
        );
        match self.forwarding_target {
            None => AcceptedChannel::Channel(channel),
            Some(remote_addr) => if udp {
                AcceptedChannel::UdpForwarding { channel, remote_addr }
            } else if tcp {
                AcceptedChannel::TcpForwarding { channel, remote_addr }
            } else {
                AcceptedChannel::Channel(channel)
            },
        }
    }

    pub fn into_accepted_channel_for_conversation(self, conversation: &Conversation) -> (accepted:
        AcceptedChannel)
        ensures
            accepted@ == self@.accepted_for(conversation@),
    {
        let sender: ConversationDatagramSender = conversation.datagram_sender_for_channel(
            self.stream_id,
        );
        self.into_accepted_channel(
            conversation.conversation_id(),
            Some(sender),
            conversation.default_datagrams_queue_size(),
        )
    }

    pub fn into_channel(
        self,
        conversation_id: ConversationId,
        datagram_sender: Option<ConversationDatagramSender>,
        datagrams_queue_size: usize,
    ) -> (channel: Channel)
        ensures
            channel@ == self@.channel(
                conversation_id@,
                datagram_sender,
                datagrams_queue_size as nat,
            ),
    {
        self.into_accepted_channel(
            conversation_id,
            datagram_sender,
            datagrams_queue_size,
        ).into_channel()
    }
}

/// A channel was opened in a conversation that is not registered.
#[derive(Clone, Copy, Debug, PartialEq, Eq, Structural)]
pub enum RouteIncomingChannelError {
    UnknownConversation { control_stream_id: u64, channel_id: u64 },
}

/// The conversations of a connection, by the stream that controls each.
pub struct IncomingChannelRouter {
    conversations: HashMap<u64, Conversation>,
}

impl View for IncomingChannelRouter {
    type V = Map<u64, ConversationView>;

    closed spec fn view(&self) -> Map<u64, ConversationView> {
        self.conversations@.map_values(|conversation: Conversation| conversation@)
    }
}

/// Why a datagram was not taken in.
#[derive(Clone, Debug, PartialEq, Eq)]
pub enum DatagramDispatchError {
    Proto(Error),
    Conversation(ConversationError),
}

/// The mathematical counterpart of [`DatagramDispatchError`].
pub enum DatagramDispatchErrorView {
    Proto(ErrorView),
    Conversation(ConversationErrorView),
}

impl View for DatagramDispatchError {
    type V = DatagramDispatchErrorView;

    open spec fn view(&self) -> DatagramDispatchErrorView {
        match *self {
            DatagramDispatchError::Proto(error) => DatagramDispatchErrorView::Proto(error@),
            DatagramDispatchError::Conversation(error) => DatagramDispatchErrorView::Conversation(
                error@,
            ),
        }
    }
}

/// What became of a datagram.
#[derive(Clone, Copy, Debug, PartialEq, Eq, Structural)]
pub enum Dispatch {
    /// It belongs to no conversation here, and is dropped.
    Ignored,
    /// It waits on its channel, or is kept until its channel is in use.
    Delivered,
    /// Its channel has no room: it is to be dispatched again once a datagram was taken.
    Full,
}

/// What a conversation makes of a datagram behind its own number. That the channel is not in use
/// yet is no failure.
pub open spec fn delivered(conversation: ConversationView, rest: Seq<u8>) -> (
    Result<Dispatch, DatagramDispatchErrorView>,
    ConversationView,
) {
    let (result, after) = conversation.add_datagram(rest);
    (
        match result {
            Ok(true) => Ok(Dispatch::Delivered),
            Ok(false) => Ok(Dispatch::Full),
            Err(ConversationErrorView::ChannelNotFound { .. }) => Ok(Dispatch::Delivered),
            Err(error) => Err(DatagramDispatchErrorView::Conversation(error)),
        },
        after,
    )
}

/// What a datagram does to a conversation.
pub open spec fn dispatched(conversation: ConversationView, datagram: Seq<u8>) -> (
    Result<Dispatch, DatagramDispatchErrorView>,
    ConversationView,
) {
    match var_int_parsed(datagram) {
        Err((error, _)) => (Err(DatagramDispatchErrorView::Proto(error)), conversation),
        Ok((control_stream_id, rest)) => if control_stream_id != conversation.control_stream_id {
            (Ok(Dispatch::Ignored), conversation)
        } else {
            delivered(conversation, rest)
        },
    }
}

pub open spec fn dispatch_view(result: Result<Dispatch, DatagramDispatchError>) -> Result<
    Dispatch,
    DatagramDispatchErrorView,
> {
    match result {
        Ok(dispatch) => Ok(dispatch),
        Err(error) => Err(error@),
    }
}

fn deliver(conversation: &mut Conversation, rest: &[u8]) -> (result: Result<
    Dispatch,
    DatagramDispatchError,
>)
    ensures
        dispatch_view(result) == delivered(old(conversation)@, rest@).0,
        final(conversation)@ == delivered(old(conversation)@, rest@).1,
{
    match conversation.add_datagram(rest) {
        Ok(true) => Ok(Dispatch::Delivered),
        Ok(false) => Ok(Dispatch::Full),
        Err(ConversationError::ChannelNotFound { .. }) => Ok(Dispatch::Delivered),
        Err(error) => Err(DatagramDispatchError::Conversation(error)),
    }
}

/// Hands a datagram to a conversation, if it is for that one.
pub fn dispatch_datagram(conversation: &mut Conversation, datagram: &[u8]) -> (result: Result<
    Dispatch,
    DatagramDispatchError,
>)
    ensures
        dispatch_view(result) == dispatched(old(conversation)@, datagram@).0,
        final(conversation)@ == dispatched(old(conversation)@, datagram@).1,
{
    let mut reader: Reader = Reader::new(datagram);
    match read_var_int(&mut reader) {
        Err(error) => Err(DatagramDispatchError::Proto(error)),
        Ok(control_stream_id) => if control_stream_id != conversation.control_stream_id() {
            Ok(Dispatch::Ignored)
        } else {
            deliver(conversation, reader.remaining())
        },
    }
}

/// A datagram that finds no room changes nothing, so that it can be dispatched again.
pub proof fn full_dispatch_changes_nothing(conversation: ConversationView, datagram: Seq<u8>)
    requires
        dispatched(conversation, datagram).0 == Ok::<Dispatch, DatagramDispatchErrorView>(
            Dispatch::Full,
        ),
    ensures
        dispatched(conversation, datagram).1 == conversation,
{
    let rest = var_int_parsed(datagram)->Ok_0.1;
    assert(conversation.add_datagram(rest).1.channels =~= conversation.channels);
}

impl IncomingChannelRouter {
    pub fn new() -> (router: Self)
        ensures
            router@ == Map::<u64, ConversationView>::empty(),
    {
        let router = IncomingChannelRouter { conversations: HashMap::new() };
        proof {
            assert(router@ =~= Map::<u64, ConversationView>::empty());
        }
        router
    }

    pub fn register_conversation(&mut self, conversation: Conversation)
        ensures
            final(self)@ == old(self)@.insert(conversation@.control_stream_id, conversation@),
    {
        let id: u64 = conversation.control_stream_id();
        self.conversations.insert(id, conversation);
        proof {
            assert(self@ =~= old(self)@.insert(id, conversation@));
        }
    }

    pub fn unregister_conversation(&mut self, control_stream_id: u64) -> (conversation: Option<
        Conversation,
    >)
        ensures
            final(self)@ == old(self)@.remove(control_stream_id),
            match conversation {
                Some(conversation) => old(self)@.contains_key(control_stream_id) && conversation@
                    == old(self)@[control_stream_id],
                None => !old(self)@.contains_key(control_stream_id),
            },
    {
        let conversation: Option<Conversation> = self.conversations.remove(&control_stream_id);
        proof {
            assert(self@ =~= old(self)@.remove(control_stream_id));
        }
        conversation
    }

    pub fn conversation(&self, control_stream_id: u64) -> (conversation: Option<&Conversation>)
        ensures
            match conversation {
                Some(conversation) => self@.contains_key(control_stream_id) && conversation@
                    == self@[control_stream_id],
                None => !self@.contains_key(control_stream_id),
            },
    {
        self.conversations.get(&control_stream_id)
    }

    /// A registered conversation, to work on. It has to keep its number.
    pub fn conversation_mut(&mut self, control_stream_id: u64) -> (conversation: Option<
        &mut Conversation,
    >)
        ensures
            match conversation {
                Some(conversation) => {
                    &&& old(self)@.contains_key(control_stream_id)
                    &&& conversation@ == old(self)@[control_stream_id]
                    &&& final(self)@ == old(self)@.insert(control_stream_id, final(conversation)@)
                },
                None => !old(self)@.contains_key(control_stream_id) && final(self)@ == old(self)@,
            },
    {
        proof {
            let before = self.conversations@;
            let view = |conversation: Conversation| conversation@;
            assert forall|after: Conversation| #[trigger]
                before.insert(control_stream_id, after).map_values(view) == before.map_values(
                    view,
                ).insert(control_stream_id, after@) by {
                assert(before.insert(control_stream_id, after).map_values(view)
                    =~= before.map_values(view).insert(control_stream_id, after@));
            }
            assert(!before.contains_key(control_stream_id) ==> before.remove(control_stream_id)
                =~= before);
        }
        match self.conversations.entry(control_stream_id) {
            Entry::Occupied(entry) => Some(entry.into_mut()),
            Entry::Vacant(_) => None,
        }
    }

    /// Queues a channel in the conversation that its header names, whose number is returned.
    pub fn route_incoming_channel(&mut self, incoming: IncomingChannel) -> (result: Result<
        u64,
        RouteIncomingChannelError,
    >)
        ensures
            ({
                let id = incoming@.header.conversation_stream_id;
                if old(self)@.contains_key(id) {
                    let conversation = old(self)@[id];
                    &&& result == Ok::<u64, RouteIncomingChannelError>(id)
                    &&& final(self)@ == old(self)@.insert(
                        id,
                        ConversationView {
                            incoming: conversation.incoming.push(
                                incoming@.accepted_for(conversation),
                            ),
                            ..conversation
                        },
                    )
                } else {
                    &&& result == Err::<u64, RouteIncomingChannelError>(
                        RouteIncomingChannelError::UnknownConversation {
                            control_stream_id: id,
                            channel_id: incoming.stream_id,
                        },
                    )
                    &&& final(self)@ == old(self)@
                }
            }),
    {
        let control_stream_id: u64 = incoming.header.conversation_stream_id;
        let channel_id: u64 = incoming.stream_id;
        match self.conversations.remove(&control_stream_id) {
            None => {
                proof {
                    assert(self@ =~= old(self)@);
                }
                Err(
                    RouteIncomingChannelError::UnknownConversation {
                        control_stream_id,
                        channel_id,
                    },
                )
            },
            Some(conversation) => {
                let mut conversation: Conversation = conversation;
                let accepted: AcceptedChannel = incoming.into_accepted_channel_for_conversation(
                    &conversation,
                );
                conversation.queue_incoming_accepted_channel(accepted);
                self.conversations.insert(control_stream_id, conversation);
                proof {
                    assert(self@ =~= old(self)@.insert(control_stream_id, conversation@));
                }
                Ok(control_stream_id)
            },
        }
    }

    /// Hands a datagram to the registered conversation that it is for.
    pub fn route_registered_datagram(&mut self, datagram: &[u8]) -> (result: Result<
        Dispatch,
        DatagramDispatchError,
    >)
        ensures
            match var_int_parsed(datagram@) {
                Err((error, _)) => {
                    &&& dispatch_view(result) == Err::<Dispatch, DatagramDispatchErrorView>(
                        DatagramDispatchErrorView::Proto(error),
                    )
                    &&& final(self)@ == old(self)@
                },
                Ok((id, rest)) => if old(self)@.contains_key(id) {
                    &&& dispatch_view(result) == delivered(old(self)@[id], rest).0
                    &&& final(self)@ == old(self)@.insert(id, delivered(old(self)@[id], rest).1)
                } else {
                    result == Ok::<Dispatch, DatagramDispatchError>(Dispatch::Ignored)
                        && final(self)@ == old(self)@
                },
            },
    {
        let mut reader: Reader = Reader::new(datagram);
        let control_stream_id: u64 = match read_var_int(&mut reader) {
            Ok(control_stream_id) => control_stream_id,
            Err(error) => {
                return Err(DatagramDispatchError::Proto(error));
            },
        };
        match self.conversations.remove(&control_stream_id) {
            None => {
                proof {
                    assert(self@ =~= old(self)@);
                }
                Ok(Dispatch::Ignored)
            },
            Some(conversation) => {
                let mut conversation: Conversation = conversation;
                let result: Result<Dispatch, DatagramDispatchError> = deliver(
                    &mut conversation,
                    reader.remaining(),
                );
                self.conversations.insert(control_stream_id, conversation);
                proof {
                    assert(self@ =~= old(self)@.insert(control_stream_id, conversation@));
                }
                result
            },
        }
    }
}

/// A stream that starts with another frame type is no channel, and what is behind the frame type is
/// left.
pub proof fn other_frames_are_no_channels(stream_id: u64, frame_type: u64, rest: Seq<u8>)
    requires
        frame_type <= MAX_VARINT,
        frame_type != 0xaf36_27e6,
    ensures
        incoming_parsed(stream_id, var_int_bytes(frame_type) + rest) == Err::<
            (IncomingChannelView, Seq<u8>),
            (ChannelSetupErrorView, Seq<u8>),
        >((ChannelSetupErrorView::UnexpectedFrameType { frame_type }, rest)),
{
    var_int_bytes_round_trip(frame_type, rest);
}

/// Channels of the two forwarding types forward to the address that came with them, and only those
/// that forward UDP send datagrams; every other is an ordinary channel.
pub proof fn channels_forward_by_their_type(
    incoming: IncomingChannelView,
    conversation: ConversationView,
)
    ensures
        ({
            let kind = incoming.header.channel_type;
            let accepted = incoming.accepted_for(conversation);
            let udp = kind == "direct-udp".spec_bytes();
            let tcp = kind == "direct-tcp".spec_bytes();
            &&& is_forwarding_type(kind) <==> udp || tcp
            &&& udp && incoming.forwarding_target is Some ==> accepted is UdpForwarding
                && accepted.remote_addr() == incoming.forwarding_target
            &&& tcp && incoming.forwarding_target is Some ==> accepted is TcpForwarding
                && accepted.remote_addr() == incoming.forwarding_target
            &&& incoming.forwarding_target is None || !udp && !tcp ==> accepted is Channel
            &&& udp ==> accepted.channel().datagram_sender == Some(
                ConversationDatagramSender {
                    control_stream_id: conversation.control_stream_id,
                    channel_id: incoming.stream_id,
                },
            )
            &&& !udp ==> accepted.channel().datagram_sender is None
        }),
{
    reveal_strlit("direct-udp");
    reveal_strlit("direct-tcp");
    assert("direct-udp".is_ascii());
    assert("direct-tcp".is_ascii());
    assert("direct-udp".spec_bytes()[7] == 117);
    assert("direct-tcp".spec_bytes()[7] == 116);
}

/// A channel that the peer opens has the number of its stream and what its header says, needs no
/// confirmation, and is not confirmed yet.
pub proof fn incoming_channel_is_what_its_header_says(
    incoming: IncomingChannelView,
    conversation: ConversationView,
)
    ensures
        ({
            let channel = incoming.accepted_for(conversation).channel();
            &&& channel.info.channel_id == incoming.stream_id
            &&& channel.info.channel_type == incoming.header.channel_type
            &&& channel.info.max_packet_size == incoming.header.max_packet_size
            &&& channel.info.conversation_stream_id == incoming.header.conversation_stream_id
            &&& channel.info.conversation_id == conversation.conversation_id
            &&& !channel.confirm_sent
            &&& channel.confirm_received
            &&& channel.header is None
            &&& channel.datagrams.datagrams.len() == 0
            &&& channel.datagrams.capacity == conversation.default_datagrams_queue_size
            &&& channel.received.len() == 0
        }),
{
}

/// A datagram for another conversation is passed over, and one for this conversation is handed on:
/// what was taken in or is kept for later is delivered, and what finds no room is told so.
pub proof fn datagrams_go_to_their_conversation(
    conversation: ConversationView,
    stream: u64,
    rest: Seq<u8>,
)
    requires
        stream <= MAX_VARINT,
    ensures
        ({
            let datagram = var_int_bytes(stream) + rest;
            let (result, after) = dispatched(conversation, datagram);
            let (added, kept) = conversation.add_datagram(rest);
            &&& stream != conversation.control_stream_id ==> result == Ok::<
                Dispatch,
                DatagramDispatchErrorView,
            >(Dispatch::Ignored) && after == conversation
            &&& stream == conversation.control_stream_id ==> after == kept && match added {
                Ok(true) => result == Ok::<Dispatch, DatagramDispatchErrorView>(
                    Dispatch::Delivered,
                ),
                Ok(false) => result == Ok::<Dispatch, DatagramDispatchErrorView>(Dispatch::Full),
                Err(ConversationErrorView::ChannelNotFound { .. }) => result == Ok::<
                    Dispatch,
                    DatagramDispatchErrorView,
                >(Dispatch::Delivered),
                Err(error) => result == Err::<Dispatch, DatagramDispatchErrorView>(
                    DatagramDispatchErrorView::Conversation(error),
                ),
            }
        }),
{
    var_int_bytes_round_trip(stream, rest);
}

} // verus!
