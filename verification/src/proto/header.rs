//! The header that opens a channel, and the forwarding target that may follow it.

use crate::proto::address::{
    append_socket_addr, read_socket_addr, IpAddr, SocketAddr, SocketAddrView,
};
use crate::proto::request::bytes_encodable;
use crate::proto::wire::{
    append_ssh_bytes, append_var_int, read_ssh_bytes, read_var_int, reads, reads_or_stops, ssh_bytes_encoding,
    ssh_bytes_extends, ssh_bytes_parsed, ssh_bytes_parsed_fits, ssh_bytes_round_trip, stands,
    var_int_bytes, var_int_bytes_round_trip, var_int_extends, var_int_parsed, var_int_parsed_fits,
    Error, Parsed, Reader, Stopped, MAX_VARINT,
};
use vstd::prelude::*;

verus! {

/// The frame type that marks a stream as an SSH3 channel.
pub const SSH_FRAME_TYPE: u64 = 0xaf36_27e6;

/// The type of the channels that carry sessions.
pub const SESSION_CHANNEL: &'static str = "session";

/// The type of the channels that lead to the agent of the client.
pub const AGENT_CHANNEL: &'static str = "agent-connection";

/// What the opener of a channel tells about it.
#[derive(Clone, Debug, PartialEq, Eq)]
pub struct ChannelHeader {
    pub conversation_stream_id: u64,
    pub channel_type: Vec<u8>,
    pub max_packet_size: u64,
}

/// The mathematical counterpart of [`ChannelHeader`].
pub struct ChannelHeaderView {
    pub conversation_stream_id: u64,
    pub channel_type: Seq<u8>,
    pub max_packet_size: u64,
}

impl View for ChannelHeader {
    type V = ChannelHeaderView;

    open spec fn view(&self) -> ChannelHeaderView {
        ChannelHeaderView {
            conversation_stream_id: self.conversation_stream_id,
            channel_type: self.channel_type@,
            max_packet_size: self.max_packet_size,
        }
    }
}

impl ChannelHeaderView {
    pub open spec fn encodable(self) -> bool {
        &&& self.conversation_stream_id <= MAX_VARINT
        &&& bytes_encodable(self.channel_type)
        &&& self.max_packet_size <= MAX_VARINT
    }

    /// The header behind its frame type.
    pub open spec fn payload(self) -> Seq<u8> {
        var_int_bytes(self.conversation_stream_id) + ssh_bytes_encoding(self.channel_type)
            + var_int_bytes(self.max_packet_size)
    }

    /// The frame type, the header, and whatever the channel type adds.
    pub open spec fn encoding(self, additional_bytes: Option<Seq<u8>>) -> Seq<u8> {
        var_int_bytes(SSH_FRAME_TYPE) + self.payload() + (match additional_bytes {
            Some(bytes) => bytes,
            None => Seq::empty(),
        })
    }

    /// Reads what follows the frame type.
    pub open spec fn parsed(bytes: Seq<u8>) -> Parsed<ChannelHeaderView> {
        match var_int_parsed(bytes) {
            Err(error) => Err(error),
            Ok((conversation_stream_id, rest)) => match ssh_bytes_parsed(rest) {
                Err(error) => Err(error),
                Ok((channel_type, rest)) => match var_int_parsed(rest) {
                    Err(error) => Err(error),
                    Ok((max_packet_size, rest)) => Ok(
                        (
                            ChannelHeaderView {
                                conversation_stream_id,
                                channel_type,
                                max_packet_size,
                            },
                            rest,
                        ),
                    ),
                },
            },
        }
    }

    /// A header reads back as itself behind its frame type, and leaves the additional bytes and
    /// whatever follows them.
    pub proof fn round_trip(self, additional_bytes: Option<Seq<u8>>, rest: Seq<u8>)
        requires
            self.encodable(),
        ensures
            ({
                let additional = match additional_bytes {
                    Some(bytes) => bytes,
                    None => Seq::empty(),
                };
                &&& var_int_parsed(self.encoding(additional_bytes) + rest) == Ok::<
                    (u64, Seq<u8>),
                    Stopped,
                >((SSH_FRAME_TYPE, self.payload() + (additional + rest)))
                &&& Self::parsed(self.payload() + (additional + rest)) == Ok::<
                    (ChannelHeaderView, Seq<u8>),
                    Stopped,
                >((self, additional + rest))
            }),
    {
        let additional = match additional_bytes {
            Some(bytes) => bytes,
            None => Seq::empty(),
        };
        let tail_3 = additional + rest;
        let tail_2 = var_int_bytes(self.max_packet_size) + tail_3;
        let tail_1 = ssh_bytes_encoding(self.channel_type) + tail_2;
        let tail_0 = var_int_bytes(self.conversation_stream_id) + tail_1;
        var_int_bytes_round_trip(self.max_packet_size, tail_3);
        ssh_bytes_round_trip(self.channel_type, tail_2);
        var_int_bytes_round_trip(self.conversation_stream_id, tail_1);
        var_int_bytes_round_trip(SSH_FRAME_TYPE, tail_0);
        assert(self.payload() + tail_3 =~= tail_0);
        assert(self.encoding(additional_bytes) + rest =~= var_int_bytes(SSH_FRAME_TYPE) + tail_0);
    }

    /// Whatever parses can be encoded again.
    pub proof fn parsed_encodable(bytes: Seq<u8>)
        ensures
            Self::parsed(bytes) matches Ok((value, rest)) ==> value.encodable() && rest.len()
                <= bytes.len(),
            Self::parsed(bytes) matches Err((_, rest)) ==> rest.len() <= bytes.len(),
    {
        var_int_parsed_fits(bytes);
        if let Ok((_, rest)) = var_int_parsed(bytes) {
            ssh_bytes_parsed_fits(rest);
            if let Ok((_, rest)) = ssh_bytes_parsed(rest) {
                var_int_parsed_fits(rest);
            }
        }
    }

    /// A parse stands when more bytes follow.
    pub proof fn extends(bytes: Seq<u8>, more: Seq<u8>)
        ensures
            stands(Self::parsed(bytes), Self::parsed(bytes + more), more),
    {
        var_int_extends(bytes, more);
        if let Ok((_, rest)) = var_int_parsed(bytes) {
            ssh_bytes_extends(rest, more);
            if let Ok((_, rest)) = ssh_bytes_parsed(rest) {
                var_int_extends(rest, more);
            }
        }
    }
}

impl ChannelHeader {
    /// The header as it travels, with its frame type in front and `additional_bytes` behind.
    pub fn encode(&self, additional_bytes: Option<&[u8]>) -> (out: Vec<u8>)
        requires
            self@.encodable(),
        ensures
            out@ == self@.encoding(
                match additional_bytes {
                    Some(bytes) => Some(bytes@),
                    None => None,
                },
            ),
    {
        let mut out: Vec<u8> = Vec::new();
        append_var_int(&mut out, SSH_FRAME_TYPE);
        append_var_int(&mut out, self.conversation_stream_id);
        append_ssh_bytes(&mut out, &self.channel_type);
        append_var_int(&mut out, self.max_packet_size);
        proof {
            assert(out@ =~= var_int_bytes(SSH_FRAME_TYPE) + self@.payload());
            assert(out@ =~= out@ + Seq::<u8>::empty());
        }
        if let Some(bytes) = additional_bytes {
            let ghost header = out@;
            out.extend_from_slice(bytes);
            proof {
                assert(out@ =~= header + bytes@);
            }
        }
        out
    }

    pub(crate) fn parse_fields(reader: &mut Reader) -> (result: Result<Self, Error>)
        ensures
            reads_or_stops(
                result,
                |value: ChannelHeader| value@,
                final(reader)@,
                ChannelHeaderView::parsed(old(reader)@),
            ),
    {
        let conversation_stream_id: u64 = read_var_int(reader)?;
        let channel_type: Vec<u8> = read_ssh_bytes(reader)?;
        let max_packet_size: u64 = read_var_int(reader)?;
        Ok(ChannelHeader { conversation_stream_id, channel_type, max_packet_size })
    }

    /// Reads the header behind its frame type. Nothing is consumed where the input ends too early.
    pub fn parse_payload(reader: &mut Reader) -> (result: Result<Self, Error>)
        ensures
            reads(
                result,
                |value: ChannelHeader| value@,
                old(reader)@,
                final(reader)@,
                ChannelHeaderView::parsed(old(reader)@),
            ),
    {
        let start: &[u8] = reader.remaining();
        let result: Result<ChannelHeader, Error> = ChannelHeader::parse_fields(reader);
        if matches!(result, Err(Error::UnexpectedEof)) {
            reader.rewind(start);
        }
        result
    }
}

/// What a forwarding channel adds to its header: the address to forward to.
pub fn build_forwarding_additional_bytes(remote_addr: IpAddr, port: u16) -> (out: Vec<u8>)
    ensures
        out@ == (SocketAddrView { ip: remote_addr@, port }).encoding(),
{
    let mut out: Vec<u8> = Vec::new();
    append_socket_addr(&mut out, SocketAddr { ip: remote_addr, port });
    proof {
        let target = SocketAddrView { ip: remote_addr@, port };
        assert(Seq::<u8>::empty() + target.encoding() =~= target.encoding());
    }
    out
}

/// Reads the address that a forwarding channel adds to its header. Nothing is consumed where the
/// input ends too early.
pub fn parse_forwarding_payload(reader: &mut Reader) -> (result: Result<SocketAddr, Error>)
    ensures
        reads(
            result,
            |value: SocketAddr| value@,
            old(reader)@,
            final(reader)@,
            SocketAddrView::parsed(old(reader)@),
        ),
{
    let start: &[u8] = reader.remaining();
    let result: Result<SocketAddr, Error> = read_socket_addr(reader);
    if matches!(result, Err(Error::UnexpectedEof)) {
        reader.rewind(start);
    }
    result
}

pub fn parse_udp_forwarding_payload(reader: &mut Reader) -> (result: Result<SocketAddr, Error>)
    ensures
        reads(
            result,
            |value: SocketAddr| value@,
            old(reader)@,
            final(reader)@,
            SocketAddrView::parsed(old(reader)@),
        ),
{
    parse_forwarding_payload(reader)
}

pub fn parse_tcp_forwarding_payload(reader: &mut Reader) -> (result: Result<SocketAddr, Error>)
    ensures
        reads(
            result,
            |value: SocketAddr| value@,
            old(reader)@,
            final(reader)@,
            SocketAddrView::parsed(old(reader)@),
        ),
{
    parse_forwarding_payload(reader)
}

/// A channel is announced by the frame type of channels, the number of its conversation, its type,
/// the size of its packets, and whatever its type adds.
pub proof fn headers_are_laid_out(header: ChannelHeaderView, additional: Seq<u8>)
    ensures
        header.encoding(Some(additional)) == var_int_bytes(0xaf36_27e6) + (var_int_bytes(
            header.conversation_stream_id,
        ) + ssh_bytes_encoding(header.channel_type) + var_int_bytes(header.max_packet_size))
            + additional,
        header.encoding(None) == var_int_bytes(0xaf36_27e6) + (var_int_bytes(
            header.conversation_stream_id,
        ) + ssh_bytes_encoding(header.channel_type) + var_int_bytes(header.max_packet_size)),
{
    let alone = var_int_bytes(0xaf36_27e6) + header.payload();
    assert(alone + Seq::<u8>::empty() =~= alone);
}

} // verus!
