//! A conversation: the channels it carries, those that wait to be accepted, and where its
//! datagrams go.

use crate::conversation::channel::{
    parts_view, AcceptedChannel, AcceptedChannelView, Channel, ChannelError, ChannelErrorView,
    ChannelInfoView, ChannelView, ConversationDatagramSender, ConversationId,
};
use crate::conversation::queue::{AcceptQueue, DatagramQueue, DatagramQueueView};
use crate::proto::address::SocketAddr;
use crate::proto::header::build_forwarding_additional_bytes;
use crate::proto::message::ChannelOpenConfirmationMessage;
use crate::proto::request::bytes_encodable;
use crate::proto::wire::{
    read_var_int, var_int_bytes, var_int_bytes_round_trip, var_int_parsed, Error, ErrorView,
    Reader, MAX_VARINT,
};
use std::collections::hash_map::Entry;
use std::collections::HashMap;
use vstd::prelude::*;
use vstd::slice::slice_to_vec;
use vstd::string::*;

verus! {

broadcast use vstd::std_specs::hash::group_hash_axioms;

/// How many datagrams wait for a channel that is not known yet.
pub const DANGLING_DATAGRAM_QUEUE_SIZE: usize = 10;

/// Why an operation on a conversation failed.
#[derive(Clone, Debug, PartialEq, Eq)]
pub enum ConversationError {
    Channel(ChannelError),
    Proto(Error),
    ChannelNotFound { channel_id: u64 },
}

/// The mathematical counterpart of [`ConversationError`].
pub enum ConversationErrorView {
    Channel(ChannelErrorView),
    Proto(ErrorView),
    ChannelNotFound { channel_id: u64 },
}

impl View for ConversationError {
    type V = ConversationErrorView;

    open spec fn view(&self) -> ConversationErrorView {
        match *self {
            ConversationError::Channel(error) => ConversationErrorView::Channel(error@),
            ConversationError::Proto(error) => ConversationErrorView::Proto(error@),
            ConversationError::ChannelNotFound { channel_id } =>
                ConversationErrorView::ChannelNotFound { channel_id },
        }
    }
}

/// A conversation between two peers.
pub struct Conversation {
    control_stream_id: u64,
    conversation_id: ConversationId,
    max_packet_size: u64,
    default_datagrams_queue_size: usize,
    channels: HashMap<u64, Channel>,
    dangling: HashMap<u64, DatagramQueue>,
    incoming: AcceptQueue<AcceptedChannel>,
}

/// The mathematical counterpart of [`Conversation`].
pub struct ConversationView {
    pub control_stream_id: u64,
    pub conversation_id: Seq<u8>,
    pub max_packet_size: u64,
    pub default_datagrams_queue_size: nat,
    /// The channels in use.
    pub channels: Map<u64, ChannelView>,
    /// The datagrams that came for channels that are not in use.
    pub dangling: Map<u64, DatagramQueueView>,
    /// The channels that wait to be accepted.
    pub incoming: Seq<AcceptedChannelView>,
}

impl View for Conversation {
    type V = ConversationView;

    closed spec fn view(&self) -> ConversationView {
        ConversationView {
            control_stream_id: self.control_stream_id,
            conversation_id: self.conversation_id@,
            max_packet_size: self.max_packet_size,
            default_datagrams_queue_size: self.default_datagrams_queue_size as nat,
            channels: self.channels@.map_values(|channel: Channel| channel@),
            dangling: self.dangling@.map_values(|queue: DatagramQueue| queue@),
            incoming: self.incoming@.map_values(|accepted: AcceptedChannel| accepted@),
        }
    }
}

/// The channel that this side opens on `stream_id`.
pub open spec fn opened_channel(
    conversation: ConversationView,
    stream_id: u64,
    channel_type: Seq<u8>,
    max_packet_size: u64,
    datagram_sender: Option<ConversationDatagramSender>,
    datagrams_queue_size: nat,
    additional_bytes: Option<Seq<u8>>,
) -> ChannelView {
    let info = ChannelInfoView {
        max_packet_size,
        conversation_stream_id: conversation.control_stream_id,
        conversation_id: conversation.conversation_id,
        channel_id: stream_id,
        channel_type,
    };
    ChannelView {
        info,
        confirm_sent: true,
        confirm_received: false,
        header: Some(info.header().encoding(additional_bytes)),
        datagram_sender,
        datagrams: DatagramQueueView::empty(datagrams_queue_size),
        received: Seq::empty(),
    }
}

impl ConversationView {
    /// A conversation without channels.
    pub open spec fn opened(
        control_stream_id: u64,
        conversation_id: Seq<u8>,
        max_packet_size: u64,
        default_datagrams_queue_size: nat,
    ) -> ConversationView {
        ConversationView {
            control_stream_id,
            conversation_id,
            max_packet_size,
            default_datagrams_queue_size,
            channels: Map::empty(),
            dangling: Map::empty(),
            incoming: Seq::empty(),
        }
    }

    /// The conversation with a channel taken into use. The datagrams that came for it before are
    /// the ones that wait on it.
    pub open spec fn with_channel(self, channel: ChannelView) -> ConversationView {
        let id = channel.info.channel_id;
        if self.dangling.contains_key(id) {
            ConversationView {
                channels: self.channels.insert(
                    id,
                    ChannelView { datagrams: self.dangling[id], ..channel },
                ),
                dangling: self.dangling.remove(id),
                ..self
            }
        } else {
            ConversationView { channels: self.channels.insert(id, channel), ..self }
        }
    }

    /// What becomes of a datagram: it is added to those of its channel (or waits where there is no
    /// room), or it is kept, in place of any kept before, until its channel is in use.
    pub open spec fn add_datagram(self, datagram: Seq<u8>) -> (
        Result<bool, ConversationErrorView>,
        ConversationView,
    ) {
        match var_int_parsed(datagram) {
            Err((error, _)) => (Err(ConversationErrorView::Proto(error)), self),
            Ok((channel_id, payload)) => if self.channels.contains_key(channel_id) {
                let channel = self.channels[channel_id];
                (
                    Ok(channel.datagrams.has_room()),
                    ConversationView {
                        channels: self.channels.insert(
                            channel_id,
                            ChannelView { datagrams: channel.datagrams.added(payload), ..channel },
                        ),
                        ..self
                    },
                )
            } else {
                (
                    Err(ConversationErrorView::ChannelNotFound { channel_id }),
                    ConversationView {
                        dangling: self.dangling.insert(
                            channel_id,
                            DatagramQueueView::empty(
                                DANGLING_DATAGRAM_QUEUE_SIZE as nat,
                            ).added(payload),
                        ),
                        ..self
                    },
                )
            },
        }
    }

    /// Every channel in use is found under its own number, and no datagram is kept aside for it;
    /// no queue holds more than it has room for.
    pub open spec fn wf(self) -> bool {
        &&& forall|id: u64| #[trigger]
            self.channels.contains_key(id) ==> self.channels[id].info.channel_id == id
                && self.channels[id].datagrams.wf() && !self.dangling.contains_key(id)
        &&& forall|id: u64| #[trigger]
            self.dangling.contains_key(id) ==> self.dangling[id].wf()
    }

    /// Taking channels into use and taking in datagrams keep a conversation well formed.
    pub proof fn operations_keep_wf(self, channel: ChannelView, datagram: Seq<u8>)
        requires
            self.wf(),
            channel.datagrams.wf(),
        ensures
            self.with_channel(channel).wf(),
            self.add_datagram(datagram).1.wf(),
    {
    }

    /// A datagram that came before its channel waits on the channel once that is in use.
    pub proof fn early_datagram_reaches_the_channel(self, datagram: Seq<u8>, channel: ChannelView)
        requires
            var_int_parsed(datagram) matches Ok((id, _)) && id == channel.info.channel_id,
            !self.channels.contains_key(channel.info.channel_id),
        ensures
            ({
                let id = channel.info.channel_id;
                let payload = var_int_parsed(datagram)->Ok_0.1;
                let after = self.add_datagram(datagram).1.with_channel(channel);
                &&& self.add_datagram(datagram).0 == Err::<bool, ConversationErrorView>(
                    ConversationErrorView::ChannelNotFound { channel_id: id },
                )
                &&& after.channels[id].datagrams.datagrams == seq![payload]
                &&& !after.dangling.contains_key(id)
            }),
    {
        let payload = var_int_parsed(datagram)->Ok_0.1;
        assert(Seq::<Seq<u8>>::empty().push(payload) =~= seq![payload]);
    }

    /// A datagram changes no channel but the one it is for.
    pub proof fn datagram_touches_one_channel(self, datagram: Seq<u8>, other: u64)
        requires
            var_int_parsed(datagram) matches Ok((id, _)) ==> id != other,
        ensures
            self.add_datagram(datagram).1.channels.contains_key(other)
                == self.channels.contains_key(other),
            self.channels.contains_key(other) ==> self.add_datagram(datagram).1.channels[other]
                == self.channels[other],
            self.add_datagram(datagram).1.dangling.contains_key(other)
                == self.dangling.contains_key(other),
            self.dangling.contains_key(other) ==> self.add_datagram(datagram).1.dangling[other]
                == self.dangling[other],
    {
    }

    /// What one peer's channel sends as a datagram reaches the other peer's channel of that number
    /// unchanged, where it is in use and has room.
    pub proof fn sent_datagram_arrives(self, sender: ConversationDatagramSender, datagram: Seq<u8>)
        requires
            sender.encodable(),
            sender.control_stream_id == self.control_stream_id,
            self.channels.contains_key(sender.channel_id),
            self.channels[sender.channel_id].datagrams.has_room(),
        ensures
            ({
                let id = sender.channel_id;
                let framed = sender.framed(datagram);
                &&& var_int_parsed(framed) matches Ok((stream, rest)) && {
                    &&& stream == self.control_stream_id
                    &&& self.add_datagram(rest).0 == Ok::<bool, ConversationErrorView>(true)
                    &&& self.add_datagram(rest).1.channels[id].datagrams.datagrams
                        == self.channels[id].datagrams.datagrams.push(datagram)
                }
            }),
    {
        sender.framed_round_trip(datagram);
    }
}

impl Conversation {
    pub fn new(
        control_stream_id: u64,
        conversation_id: ConversationId,
        max_packet_size: u64,
        default_datagrams_queue_size: usize,
    ) -> (conversation: Self)
        ensures
            conversation@ == ConversationView::opened(
                control_stream_id,
                conversation_id@,
                max_packet_size,
                default_datagrams_queue_size as nat,
            ),
            conversation@.wf(),
    {
        let conversation = Conversation {
            control_stream_id,
            conversation_id,
            max_packet_size,
            default_datagrams_queue_size,
            channels: HashMap::new(),
            dangling: HashMap::new(),
            incoming: AcceptQueue::new(),
        };
        proof {
            assert(conversation@.channels =~= Map::<u64, ChannelView>::empty());
            assert(conversation@.dangling =~= Map::<u64, DatagramQueueView>::empty());
            assert(conversation@.incoming =~= Seq::<AcceptedChannelView>::empty());
        }
        conversation
    }

    /// Takes a channel into use.
    pub fn add_channel(&mut self, channel: Channel)
        ensures
            final(self)@ == old(self)@.with_channel(channel@),
    {
        let id: u64 = channel.channel_id();
        let mut channel: Channel = channel;
        let ghost given = channel@;
        if let Some(queue) = self.dangling.remove(&id) {
            channel.set_datagram_queue(queue);
        }
        self.channels.insert(id, channel);
        proof {
            assert(self@.channels =~= old(self)@.with_channel(given).channels);
            assert(self@.dangling =~= old(self)@.with_channel(given).dangling);
        }
    }

    /// Opens a channel. Its header goes out with the first thing that is written on it.
    pub fn open_channel(
        &mut self,
        stream_id: u64,
        channel_type: Vec<u8>,
        max_packet_size: u64,
        datagrams_queue_size: usize,
    )
        requires
            old(self)@.control_stream_id <= MAX_VARINT,
            bytes_encodable(channel_type@),
            max_packet_size <= MAX_VARINT,
        ensures
            final(self)@ == old(self)@.with_channel(
                opened_channel(
                    old(self)@,
                    stream_id,
                    channel_type@,
                    max_packet_size,
                    None,
                    datagrams_queue_size as nat,
                    None,
                ),
            ),
    {
        let channel: Channel = Channel::new(
            self.control_stream_id,
            self.conversation_id,
            stream_id,
            channel_type,
            max_packet_size,
            None,
            true,
            true,
            false,
            datagrams_queue_size,
            None,
        );
        self.add_channel(channel);
    }

    /// What prefixes the datagrams of a channel.
    pub fn datagram_sender_for_channel(&self, channel_id: u64) -> (sender:
        ConversationDatagramSender)
        ensures
            sender == (ConversationDatagramSender {
                control_stream_id: self@.control_stream_id,
                channel_id,
            }),
    {
        ConversationDatagramSender::new(self.control_stream_id, channel_id)
    }

    /// A channel that forwards UDP, and its header. [`Self::add_channel`] follows once the header
    /// is written.
    pub fn open_udp_forwarding_channel(
        &self,
        stream_id: u64,
        max_packet_size: u64,
        datagrams_queue_size: usize,
        remote_addr: SocketAddr,
    ) -> (opened: (Channel, Vec<u8>))
        requires
            self@.control_stream_id <= MAX_VARINT,
            max_packet_size <= MAX_VARINT,
        ensures
            ({
                let sender = ConversationDatagramSender {
                    control_stream_id: self@.control_stream_id,
                    channel_id: stream_id,
                };
                let channel = opened_channel(
                    self@,
                    stream_id,
                    "direct-udp".spec_bytes(),
                    max_packet_size,
                    Some(sender),
                    datagrams_queue_size as nat,
                    Some(remote_addr@.encoding()),
                );
                &&& opened.0@ == channel.header_sent()
                &&& channel.header == Some(opened.1@)
            }),
    {
        let sender: ConversationDatagramSender = self.datagram_sender_for_channel(stream_id);
        self.open_forwarding_channel(
            "direct-udp",
            stream_id,
            max_packet_size,
            Some(sender),
            datagrams_queue_size,
            remote_addr,
        )
    }

    /// A channel that forwards TCP, and its header. [`Self::add_channel`] follows once the header
    /// is written.
    pub fn open_tcp_forwarding_channel(
        &self,
        stream_id: u64,
        max_packet_size: u64,
        datagrams_queue_size: usize,
        remote_addr: SocketAddr,
    ) -> (opened: (Channel, Vec<u8>))
        requires
            self@.control_stream_id <= MAX_VARINT,
            max_packet_size <= MAX_VARINT,
        ensures
            ({
                let channel = opened_channel(
                    self@,
                    stream_id,
                    "direct-tcp".spec_bytes(),
                    max_packet_size,
                    None,
                    datagrams_queue_size as nat,
                    Some(remote_addr@.encoding()),
                );
                &&& opened.0@ == channel.header_sent()
                &&& channel.header == Some(opened.1@)
            }),
    {
        self.open_forwarding_channel(
            "direct-tcp",
            stream_id,
            max_packet_size,
            None,
            datagrams_queue_size,
            remote_addr,
        )
    }

    fn open_forwarding_channel(
        &self,
        channel_type: &str,
        stream_id: u64,
        max_packet_size: u64,
        datagram_sender: Option<ConversationDatagramSender>,
        datagrams_queue_size: usize,
        remote_addr: SocketAddr,
    ) -> (opened: (Channel, Vec<u8>))
        requires
            self@.control_stream_id <= MAX_VARINT,
            max_packet_size <= MAX_VARINT,
            channel_type@ == "direct-udp"@ || channel_type@ == "direct-tcp"@,
        ensures
            ({
                let channel = opened_channel(
                    self@,
                    stream_id,
                    channel_type.spec_bytes(),
                    max_packet_size,
                    datagram_sender,
                    datagrams_queue_size as nat,
                    Some(remote_addr@.encoding()),
                );
                &&& opened.0@ == channel.header_sent()
                &&& channel.header == Some(opened.1@)
            }),
    {
        proof {
            reveal_strlit("direct-udp");
            reveal_strlit("direct-tcp");
            assert("direct-udp".is_ascii());
            assert("direct-tcp".is_ascii());
            assert(channel_type.is_ascii());
            assert(channel_type.spec_bytes().len() == 10);
        }
        let additional: Vec<u8> = build_forwarding_additional_bytes(
            remote_addr.ip,
            remote_addr.port,
        );
        let mut channel: Channel = Channel::new(
            self.control_stream_id,
            self.conversation_id,
            stream_id,
            slice_to_vec(channel_type.as_bytes()),
            max_packet_size,
            datagram_sender,
            true,
            true,
            false,
            datagrams_queue_size,
            Some(additional.as_slice()),
        );
        match channel.maybe_send_header() {
            Some(header) => (channel, header),
            None => (channel, Vec::new()),
        }
    }

    pub fn queue_incoming_channel(&mut self, channel: Channel)
        ensures
            final(self)@ == (ConversationView {
                incoming: old(self)@.incoming.push(AcceptedChannelView::Channel(channel@)),
                ..old(self)@
            }),
    {
        self.queue_incoming_accepted_channel(AcceptedChannel::Channel(channel));
    }

    /// Adds a channel to those that wait to be accepted.
    pub fn queue_incoming_accepted_channel(&mut self, channel: AcceptedChannel)
        ensures
            final(self)@ == (ConversationView {
                incoming: old(self)@.incoming.push(channel@),
                ..old(self)@
            }),
    {
        self.incoming.add(channel);
        proof {
            assert(self@.incoming =~= old(self)@.incoming.push(channel@));
        }
    }

    /// Takes the channel that has waited longest to be accepted, and what is to be written to
    /// confirm it. [`Self::confirm_and_register_channel`] follows once that is written. `None`
    /// where no channel waits.
    pub fn accept_channel_with_metadata(&mut self) -> (accepted: Option<
        (AcceptedChannel, Vec<Vec<u8>>),
    >)
        requires
            old(self)@.max_packet_size <= MAX_VARINT,
        ensures
            match accepted {
                None => old(self)@.incoming.len() == 0 && final(self)@ == old(self)@,
                Some((channel, parts)) => {
                    let first = old(self)@.incoming[0];
                    &&& old(self)@.incoming.len() > 0
                    &&& final(self)@ == (ConversationView {
                        incoming: old(self)@.incoming.skip(1),
                        ..old(self)@
                    })
                    &&& channel@.channel() == first.channel().header_sent()
                    &&& channel@.remote_addr() == first.remote_addr()
                    &&& (channel@ is Channel) == (first is Channel)
                    &&& (channel@ is UdpForwarding) == (first is UdpForwarding)
                    &&& parts_view(parts@) == first.channel().header_parts().push(
                        (ChannelOpenConfirmationMessage {
                            max_packet_size: old(self)@.max_packet_size,
                        }).encoding(),
                    )
                },
            },
    {
        match self.incoming.next() {
            None => None,
            Some(accepted) => {
                proof {
                    assert(self@.incoming =~= old(self)@.incoming.skip(1));
                }
                let max_packet_size: u64 = self.max_packet_size;
                match accepted {
                    AcceptedChannel::Channel(channel) => {
                        let mut channel: Channel = channel;
                        let parts: Vec<Vec<u8>> = channel.confirm_channel(max_packet_size);
                        Some((AcceptedChannel::Channel(channel), parts))
                    },
                    AcceptedChannel::UdpForwarding { channel, remote_addr } => {
                        let mut channel: Channel = channel;
                        let parts: Vec<Vec<u8>> = channel.confirm_channel(max_packet_size);
                        Some((AcceptedChannel::UdpForwarding { channel, remote_addr }, parts))
                    },
                    AcceptedChannel::TcpForwarding { channel, remote_addr } => {
                        let mut channel: Channel = channel;
                        let parts: Vec<Vec<u8>> = channel.confirm_channel(max_packet_size);
                        Some((AcceptedChannel::TcpForwarding { channel, remote_addr }, parts))
                    },
                }
            },
        }
    }

    /// Takes the channel that has waited longest to be accepted, and what is to be written to
    /// confirm it, whatever the channel is for. `None` where no channel waits.
    pub fn accept_channel(&mut self) -> (accepted: Option<(Channel, Vec<Vec<u8>>)>)
        requires
            old(self)@.max_packet_size <= MAX_VARINT,
        ensures
            match accepted {
                None => old(self)@.incoming.len() == 0 && final(self)@ == old(self)@,
                Some((channel, parts)) => {
                    let first = old(self)@.incoming[0].channel();
                    &&& old(self)@.incoming.len() > 0
                    &&& final(self)@ == (ConversationView {
                        incoming: old(self)@.incoming.skip(1),
                        ..old(self)@
                    })
                    &&& channel@ == first.header_sent()
                    &&& parts_view(parts@) == first.header_parts().push(
                        (ChannelOpenConfirmationMessage {
                            max_packet_size: old(self)@.max_packet_size,
                        }).encoding(),
                    )
                },
            },
    {
        match self.accept_channel_with_metadata() {
            None => None,
            Some((accepted, parts)) => Some((accepted.into_channel(), parts)),
        }
    }

    /// Takes an accepted channel into use, now that its confirmation is written.
    pub fn confirm_and_register_channel(&mut self, accepted: AcceptedChannel)
        ensures
            final(self)@ == old(self)@.with_channel(
                ChannelView { confirm_sent: true, ..accepted@.channel() },
            ),
    {
        let mut channel: Channel = accepted.into_channel();
        channel.confirmed();
        self.add_channel(channel);
    }

    /// Takes in a datagram, behind the number of the conversation. `Ok(false)` means that its
    /// channel has no room for it yet.
    pub fn add_datagram(&mut self, datagram: &[u8]) -> (result: Result<bool, ConversationError>)
        ensures
            (match result {
                Ok(added) => Ok::<bool, ConversationErrorView>(added),
                Err(error) => Err(error@),
            }) == old(self)@.add_datagram(datagram@).0,
            final(self)@ == old(self)@.add_datagram(datagram@).1,
    {
        let mut reader: Reader = Reader::new(datagram);
        let channel_id: u64 = match read_var_int(&mut reader) {
            Ok(channel_id) => channel_id,
            Err(error) => {
                return Err(ConversationError::Proto(error));
            },
        };
        let payload: Vec<u8> = slice_to_vec(reader.remaining());
        if let Some(channel) = self.channels.remove(&channel_id) {
            let mut channel: Channel = channel;
            let added: bool = channel.add_datagram(payload);
            self.channels.insert(channel_id, channel);
            proof {
                assert(self@.channels =~= old(self)@.add_datagram(datagram@).1.channels);
            }
            return Ok(added);
        }
        proof {
            assert(self@.channels =~= old(self)@.channels);
        }
        let mut queue: DatagramQueue = DatagramQueue::new(DANGLING_DATAGRAM_QUEUE_SIZE);
        queue.add(payload);
        self.dangling.insert(channel_id, queue);
        proof {
            assert(self@.dangling =~= old(self)@.add_datagram(datagram@).1.dangling);
        }
        Err(ConversationError::ChannelNotFound { channel_id })
    }

    /// A channel in use.
    pub fn channel_mut(&mut self, channel_id: u64) -> (channel: Option<&mut Channel>)
        ensures
            match channel {
                Some(channel) => {
                    &&& old(self)@.channels.contains_key(channel_id)
                    &&& channel@ == old(self)@.channels[channel_id]
                    &&& final(self)@ == (ConversationView {
                        channels: old(self)@.channels.insert(channel_id, final(channel)@),
                        ..old(self)@
                    })
                },
                None => !old(self)@.channels.contains_key(channel_id) && final(self)@ == old(
                    self,
                )@,
            },
    {
        proof {
            let before = self.channels@;
            let view = |channel: Channel| channel@;
            assert forall|after: Channel| #[trigger]
                before.insert(channel_id, after).map_values(view) == before.map_values(view).insert(
                    channel_id,
                    after@,
                ) by {
                assert(before.insert(channel_id, after).map_values(view) =~= before.map_values(
                    view,
                ).insert(channel_id, after@));
            }
            assert(!before.contains_key(channel_id) ==> before.remove(channel_id) =~= before);
        }
        match self.channels.entry(channel_id) {
            Entry::Occupied(entry) => Some(entry.into_mut()),
            Entry::Vacant(_) => None,
        }
    }

    pub fn control_stream_id(&self) -> (id: u64)
        ensures
            id == self@.control_stream_id,
    {
        self.control_stream_id
    }

    pub fn conversation_id(&self) -> (id: ConversationId)
        ensures
            id@ == self@.conversation_id,
    {
        self.conversation_id
    }

    pub fn default_datagrams_queue_size(&self) -> (size: usize)
        ensures
            size == self@.default_datagrams_queue_size,
    {
        self.default_datagrams_queue_size
    }
}

/// A channel is taken into use under its own number, as it is but for the datagrams that came
/// before it, and no other channel changes.
pub proof fn channel_is_taken_into_use(
    conversation: ConversationView,
    channel: ChannelView,
    other: u64,
)
    requires
        other != channel.info.channel_id,
    ensures
        ({
            let id = channel.info.channel_id;
            let after = conversation.with_channel(channel);
            &&& after.channels.contains_key(id)
            &&& !conversation.dangling.contains_key(id) ==> after.channels[id] == channel
            &&& conversation.dangling.contains_key(id) ==> after.channels[id] == (ChannelView {
                datagrams: conversation.dangling[id],
                ..channel
            })
            &&& !after.dangling.contains_key(id)
            &&& after.channels.contains_key(other) == conversation.channels.contains_key(other)
            &&& conversation.channels.contains_key(other) ==> after.channels[other]
                == conversation.channels[other]
            &&& after.dangling.contains_key(other) == conversation.dangling.contains_key(other)
            &&& conversation.dangling.contains_key(other) ==> after.dangling[other]
                == conversation.dangling[other]
            &&& after.incoming == conversation.incoming
            &&& after.control_stream_id == conversation.control_stream_id
            &&& after.conversation_id == conversation.conversation_id
            &&& after.max_packet_size == conversation.max_packet_size
            &&& after.default_datagrams_queue_size == conversation.default_datagrams_queue_size
        }),
{
}

/// A datagram for a channel in use is told to be taken in where there is room, and not to be where
/// there is none, when nothing changes; one that names no channel is refused, and nothing changes.
pub proof fn datagram_is_taken_in_where_there_is_room(
    conversation: ConversationView,
    id: u64,
    payload: Seq<u8>,
)
    requires
        id <= MAX_VARINT,
        conversation.channels.contains_key(id),
    ensures
        ({
            let datagram = var_int_bytes(id) + payload;
            let (result, after) = conversation.add_datagram(datagram);
            let before = conversation.channels[id].datagrams;
            &&& before.datagrams.len() < before.capacity ==> {
                &&& result == Ok::<bool, ConversationErrorView>(true)
                &&& after.channels[id] == (ChannelView {
                    datagrams: DatagramQueueView {
                        datagrams: before.datagrams.push(payload),
                        capacity: before.capacity,
                    },
                    ..conversation.channels[id]
                })
            }
            &&& before.datagrams.len() >= before.capacity ==> {
                &&& result == Ok::<bool, ConversationErrorView>(false)
                &&& after.channels[id] == conversation.channels[id]
            }
            &&& after.incoming == conversation.incoming
            &&& after.dangling == conversation.dangling
        }),
        conversation.add_datagram(Seq::empty()) == (
            Err::<bool, ConversationErrorView>(
                ConversationErrorView::Proto(ErrorView::UnexpectedEof),
            ),
            conversation,
        ),
{
    var_int_bytes_round_trip(id, payload);
    reveal(var_int_parsed);
}

/// A conversation starts without channels and without datagrams, with what it was opened with.
pub proof fn conversation_starts_empty(
    control_stream_id: u64,
    conversation_id: Seq<u8>,
    max_packet_size: u64,
    queue_size: nat,
)
    ensures
        ({
            let conversation = ConversationView::opened(
                control_stream_id,
                conversation_id,
                max_packet_size,
                queue_size,
            );
            &&& conversation.control_stream_id == control_stream_id
            &&& conversation.conversation_id == conversation_id
            &&& conversation.max_packet_size == max_packet_size
            &&& conversation.default_datagrams_queue_size == queue_size
            &&& conversation.incoming.len() == 0
            &&& forall|id: u64|
                !(#[trigger] conversation.channels.contains_key(id))
                    && !conversation.dangling.contains_key(id)
        }),
{
}

/// A channel that this side opens may be written to at once, waits for the confirmation of the
/// peer, sends its header first, and has room for as many datagrams as it was asked to.
pub proof fn opened_channel_waits_for_its_confirmation(
    conversation: ConversationView,
    stream_id: u64,
    channel_type: Seq<u8>,
    max_packet_size: u64,
    sender: Option<ConversationDatagramSender>,
    queue_size: nat,
    additional: Option<Seq<u8>>,
)
    ensures
        ({
            let channel = opened_channel(
                conversation,
                stream_id,
                channel_type,
                max_packet_size,
                sender,
                queue_size,
                additional,
            );
            &&& channel.confirm_sent
            &&& !channel.confirm_received
            &&& channel.header is Some
            &&& channel.datagram_sender == sender
            &&& channel.datagrams.datagrams.len() == 0
            &&& channel.datagrams.capacity == queue_size
            &&& channel.received.len() == 0
            &&& channel.info.channel_id == stream_id
            &&& channel.info.channel_type == channel_type
            &&& channel.info.max_packet_size == max_packet_size
            &&& channel.info.conversation_stream_id == conversation.control_stream_id
            &&& channel.info.conversation_id == conversation.conversation_id
        }),
{
}

} // verus!
