//! Moving bytes between a channel and a socket.

use crate::proto::address::{IpAddr, IpAddrView, SocketAddr, SocketAddrView};
use crate::proto::message::{Message, MessageView, SSH_EXTENDED_DATA_NONE};
use vstd::prelude::*;

verus! {

/// What a message on a relayed channel asks for.
#[derive(Clone, Debug, PartialEq, Eq)]
pub enum RelayStep {
    /// Write the data to the socket.
    Write(Vec<u8>),
    /// Stop: the peer sends no more.
    Stop,
    Ignore,
}

/// The mathematical counterpart of [`RelayStep`].
pub enum RelayStepView {
    Write(Seq<u8>),
    Stop,
    Ignore,
}

impl View for RelayStep {
    type V = RelayStepView;

    open spec fn view(&self) -> RelayStepView {
        match *self {
            RelayStep::Write(data) => RelayStepView::Write(data@),
            RelayStep::Stop => RelayStepView::Stop,
            RelayStep::Ignore => RelayStepView::Ignore,
        }
    }
}

/// What a message on a relayed channel asks for: ordinary data goes to the socket, and the end of
/// the data, or of the channel, ends the relay.
pub open spec fn relayed(message: MessageView) -> RelayStepView {
    match message {
        MessageView::Data(data) => if data.data_type == SSH_EXTENDED_DATA_NONE {
            RelayStepView::Write(data.data)
        } else {
            RelayStepView::Ignore
        },
        MessageView::ChannelEof => RelayStepView::Stop,
        MessageView::ChannelClose => RelayStepView::Stop,
        _ => RelayStepView::Ignore,
    }
}

pub fn relay_message(message: Message) -> (step: RelayStep)
    ensures
        step@ == relayed(message@),
{
    match message {
        Message::Data(data) => if data.data_type == SSH_EXTENDED_DATA_NONE {
            RelayStep::Write(data.data)
        } else {
            RelayStep::Ignore
        },
        Message::ChannelEof => RelayStep::Stop,
        Message::ChannelClose => RelayStep::Stop,
        _ => RelayStep::Ignore,
    }
}

/// How many bytes are read from a socket at a time: as many as a packet of the channel holds, but
/// at least one, and 30000 where the packet size is beyond the memory of the machine.
pub fn read_buffer_size(max_packet_size: u64) -> (size: usize)
    ensures
        size == (if max_packet_size == 0 {
            1
        } else if max_packet_size <= usize::MAX {
            max_packet_size as int
        } else {
            30_000
        }),
{
    if max_packet_size == 0 {
        1
    } else if max_packet_size <= usize::MAX as u64 {
        max_packet_size as usize
    } else {
        30_000
    }
}

/// The address from which a peer is reached: any address of the peer's family, and any port.
pub open spec fn unspecified_like(remote: SocketAddrView) -> SocketAddrView {
    SocketAddrView {
        ip: match remote.ip {
            IpAddrView::V4(_) => IpAddrView::V4(Seq::new(4, |i: int| 0u8)),
            IpAddrView::V6(_) => IpAddrView::V6(Seq::new(16, |i: int| 0u8)),
        },
        port: 0,
    }
}

pub fn bind_address_for(remote: &SocketAddr) -> (local: SocketAddr)
    ensures
        local@ == unspecified_like(remote@),
{
    let ip: IpAddr = match remote.ip {
        IpAddr::V4(_) => {
            let octets: [u8; 4] = [0u8;4];
            proof {
                assert(octets@ =~= Seq::new(4, |i: int| 0u8));
            }
            IpAddr::V4(octets)
        },
        IpAddr::V6(_) => {
            let octets: [u8; 16] = [0u8;16];
            proof {
                assert(octets@ =~= Seq::new(16, |i: int| 0u8));
            }
            IpAddr::V6(octets)
        },
    };
    SocketAddr { ip, port: 0 }
}

/// Ordinary data goes to the socket as it is, the end of the data or of the channel ends the relay,
/// and nothing else does anything.
pub proof fn ordinary_data_is_relayed(message: MessageView)
    ensures
        message matches MessageView::Data(data) ==> (data.data_type == 0 ==> relayed(message)
            == RelayStepView::Write(data.data)),
        message matches MessageView::Data(data) ==> (data.data_type != 0 ==> relayed(message)
            is Ignore),
        message is ChannelEof || message is ChannelClose <==> relayed(message) is Stop,
        message is ChannelRequest || message is ChannelOpenConfirmation || message
            is ChannelOpenFailure || message is ChannelSuccess || message is ChannelFailure
            ==> relayed(message) is Ignore,
{
}

/// A peer is reached from any address of its own family, from any port.
pub proof fn peers_are_reached_from_their_family(remote: SocketAddrView)
    ensures
        ({
            let local = unspecified_like(remote);
            &&& local.port == 0
            &&& remote.ip is V4 <==> local.ip is V4
            &&& local.ip.valid()
            &&& forall|i: int| 0 <= i < local.ip.octets().len() ==> local.ip.octets()[i] == 0
        }),
{
}

} // verus!
