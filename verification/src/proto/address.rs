//! Network addresses, and how forwarding requests write them.

use crate::proto::wire::{
    append_var_int, be_bytes, be_value, integers_are_laid_out, read_var_int, reads_or_stops,
    stands, take_extends, take_parsed, var_int_bytes, var_int_bytes_round_trip, var_int_extends, var_int_len, var_int_parsed,
    var_int_parsed_fits, Error, ErrorView, Parsed, Reader, Stopped, MAX_VARINT,
};
use vstd::prelude::*;

verus! {

/// An IP address, by its octets.
#[derive(Clone, Copy, Debug, PartialEq, Eq)]
pub enum IpAddr {
    V4([u8; 4]),
    V6([u8; 16]),
}

/// The mathematical counterpart of [`IpAddr`].
pub enum IpAddrView {
    V4(Seq<u8>),
    V6(Seq<u8>),
}

impl View for IpAddr {
    type V = IpAddrView;

    open spec fn view(&self) -> IpAddrView {
        match *self {
            IpAddr::V4(octets) => IpAddrView::V4(octets@),
            IpAddr::V6(octets) => IpAddrView::V6(octets@),
        }
    }
}

/// An IP address and a port.
#[derive(Clone, Copy, Debug, PartialEq, Eq)]
pub struct SocketAddr {
    pub ip: IpAddr,
    pub port: u16,
}

/// The mathematical counterpart of [`SocketAddr`].
pub struct SocketAddrView {
    pub ip: IpAddrView,
    pub port: u16,
}

impl View for SocketAddr {
    type V = SocketAddrView;

    open spec fn view(&self) -> SocketAddrView {
        SocketAddrView { ip: self.ip@, port: self.port }
    }
}

/// The two address families, by the number that stands for each on the wire.
#[derive(Clone, Copy, Debug, PartialEq, Eq, Structural)]
pub enum ForwardingAddressFamily {
    Ipv4,
    Ipv6,
}

impl ForwardingAddressFamily {
    pub open spec fn number(self) -> u64 {
        match self {
            ForwardingAddressFamily::Ipv4 => 4,
            ForwardingAddressFamily::Ipv6 => 6,
        }
    }

    pub open spec fn octets(self) -> nat {
        match self {
            ForwardingAddressFamily::Ipv4 => 4,
            ForwardingAddressFamily::Ipv6 => 16,
        }
    }

    /// How many octets an address of the family has.
    pub fn octet_len(self) -> (length: usize)
        ensures
            length == self.octets(),
    {
        match self {
            ForwardingAddressFamily::Ipv4 => 4,
            ForwardingAddressFamily::Ipv6 => 16,
        }
    }

    pub fn as_u64(self) -> (number: u64)
        ensures
            number == self.number(),
    {
        match self {
            ForwardingAddressFamily::Ipv4 => 4,
            ForwardingAddressFamily::Ipv6 => 6,
        }
    }

    pub fn from_ip(ip_address: IpAddr) -> (family: Self)
        ensures
            family == ip_address@.family(),
    {
        match ip_address {
            IpAddr::V4(_) => ForwardingAddressFamily::Ipv4,
            IpAddr::V6(_) => ForwardingAddressFamily::Ipv6,
        }
    }

    pub fn try_from(value: u64) -> (result: Result<Self, Error>)
        ensures
            match result {
                Ok(family) => family.number() == value,
                Err(error) => value != 4 && value != 6 && error@ == ErrorView::InvalidAddressFamily(
                    value,
                ),
            },
    {
        match value {
            4 => Ok(ForwardingAddressFamily::Ipv4),
            6 => Ok(ForwardingAddressFamily::Ipv6),
            _ => Err(Error::InvalidAddressFamily(value)),
        }
    }
}

impl IpAddrView {
    pub open spec fn family(self) -> ForwardingAddressFamily {
        match self {
            IpAddrView::V4(_) => ForwardingAddressFamily::Ipv4,
            IpAddrView::V6(_) => ForwardingAddressFamily::Ipv6,
        }
    }

    pub open spec fn octets(self) -> Seq<u8> {
        match self {
            IpAddrView::V4(octets) => octets,
            IpAddrView::V6(octets) => octets,
        }
    }

    /// Whether the address has as many octets as its family demands.
    pub open spec fn valid(self) -> bool {
        self.octets().len() == self.family().octets()
    }
}

impl SocketAddrView {
    pub open spec fn valid(self) -> bool {
        self.ip.valid()
    }

    /// The address family, the octets, and the port in network byte order.
    pub open spec fn encoding(self) -> Seq<u8> {
        var_int_bytes(self.ip.family().number()) + self.ip.octets() + be_bytes(self.port as nat, 2)
    }

    pub open spec fn parsed(bytes: Seq<u8>) -> Parsed<SocketAddrView> {
        match var_int_parsed(bytes) {
            Err(error) => Err(error),
            Ok((family, rest)) => if family != 4 && family != 6 {
                Err((ErrorView::InvalidAddressFamily(family), rest))
            } else {
                match take_parsed(rest, if family == 4 { 4 } else { 16 }) {
                    Err(error) => Err(error),
                    Ok((octets, rest)) => match take_parsed(rest, 2) {
                        Err(error) => Err(error),
                        Ok((port, rest)) => Ok(
                            (
                                SocketAddrView {
                                    ip: if family == 4 {
                                        IpAddrView::V4(octets)
                                    } else {
                                        IpAddrView::V6(octets)
                                    },
                                    port: be_value(port) as u16,
                                },
                                rest,
                            ),
                        ),
                    },
                }
            },
        }
    }

    /// A written address reads back as itself, whatever bytes follow it.
    pub proof fn round_trip(self, rest: Seq<u8>)
        requires
            self.valid(),
        ensures
            Self::parsed(self.encoding() + rest) == Ok::<(SocketAddrView, Seq<u8>), Stopped>(
                (self, rest),
            ),
    {
        let port = be_bytes(self.port as nat, 2);
        let octets = self.ip.octets();
        let family = self.ip.family().number();
        reveal_with_fuel(be_bytes, 3);
        reveal_with_fuel(be_value, 3);
        assert(port =~= seq![(self.port / 256) as u8, (self.port % 256) as u8]);
        assert(port.drop_last().drop_last() =~= Seq::<u8>::empty());
        assert(be_value(port) == self.port);
        let tail_2 = port + rest;
        let tail_1 = octets + tail_2;
        var_int_bytes_round_trip(family, tail_1);
        assert(self.encoding() + rest =~= var_int_bytes(family) + tail_1);
        assert(tail_1.take(octets.len() as int) =~= octets);
        assert(tail_1.skip(octets.len() as int) =~= tail_2);
        assert(tail_2.take(2) =~= port);
        assert(tail_2.skip(2) =~= rest);
    }

    /// Whatever parses as an address is one.
    pub proof fn parsed_valid(bytes: Seq<u8>)
        ensures
            Self::parsed(bytes) matches Ok((value, rest)) ==> value.valid() && rest.len()
                <= bytes.len(),
            Self::parsed(bytes) matches Err((_, rest)) ==> rest.len() <= bytes.len(),
    {
        var_int_parsed_fits(bytes);
    }

    /// A parse stands when more bytes follow.
    pub proof fn extends(bytes: Seq<u8>, more: Seq<u8>)
        ensures
            stands(Self::parsed(bytes), Self::parsed(bytes + more), more),
    {
        var_int_extends(bytes, more);
        if let Ok((family, rest)) = var_int_parsed(bytes) {
            let length: nat = if family == 4 { 4 } else { 16 };
            take_extends(rest, length, more);
            if let Ok((_, rest)) = take_parsed(rest, length) {
                take_extends(rest, 2, more);
            }
        }
    }
}

/// Reads an address family, an address of that family and a port.
pub(crate) fn read_socket_addr(reader: &mut Reader) -> (result: Result<SocketAddr, Error>)
    ensures
        reads_or_stops(
            result,
            |value: SocketAddr| value@,
            final(reader)@,
            SocketAddrView::parsed(old(reader)@),
        ),
{
    let number: u64 = read_var_int(reader)?;
    let family: ForwardingAddressFamily = ForwardingAddressFamily::try_from(number)?;
    let octets: &[u8] = reader.take(family.octet_len())?;
    let ip: IpAddr = match family {
        ForwardingAddressFamily::Ipv4 => {
            let array: [u8; 4] = [octets[0], octets[1], octets[2], octets[3]];
            proof {
                assert(array@ =~= octets@);
            }
            IpAddr::V4(array)
        },
        ForwardingAddressFamily::Ipv6 => {
            let array: [u8; 16] = [
                octets[0],
                octets[1],
                octets[2],
                octets[3],
                octets[4],
                octets[5],
                octets[6],
                octets[7],
                octets[8],
                octets[9],
                octets[10],
                octets[11],
                octets[12],
                octets[13],
                octets[14],
                octets[15],
            ];
            proof {
                assert(array@ =~= octets@);
            }
            IpAddr::V6(array)
        },
    };
    let digits: &[u8] = reader.take(2)?;
    let port: u16 = digits[0] as u16 * 256 + digits[1] as u16;
    proof {
        reveal_with_fuel(be_value, 3);
        assert(digits@.drop_last().drop_last() =~= Seq::<u8>::empty());
    }
    Ok(SocketAddr { ip, port })
}

/// Appends an address family, the address and the port.
pub(crate) fn append_socket_addr(out: &mut Vec<u8>, addr: SocketAddr)
    ensures
        final(out)@ == old(out)@ + addr@.encoding(),
{
    append_var_int(out, ForwardingAddressFamily::from_ip(addr.ip).as_u64());
    match addr.ip {
        IpAddr::V4(octets) => out.extend_from_slice(octets.as_slice()),
        IpAddr::V6(octets) => out.extend_from_slice(octets.as_slice()),
    }
    out.push((addr.port / 256) as u8);
    out.push((addr.port % 256) as u8);
    proof {
        reveal_with_fuel(be_bytes, 3);
        assert(out@ =~= old(out)@ + addr@.encoding());
    }
}

/// How many bytes [`append_socket_addr`] writes.
pub(crate) fn socket_addr_len(addr: SocketAddr) -> (length: usize)
    ensures
        length == addr@.encoding().len(),
{
    let family: ForwardingAddressFamily = ForwardingAddressFamily::from_ip(addr.ip);
    proof {
        reveal_with_fuel(be_bytes, 3);
        assert(family.number() <= MAX_VARINT);
        var_int_bytes_round_trip(family.number(), Seq::empty());
    }
    var_int_len(family.as_u64()) + family.octet_len() + 2
}

/// An address is written as the number of its family, four or six, its octets, and the two bytes of
/// its port, the more significant first.
pub proof fn addresses_are_laid_out(octets: Seq<u8>, port: u16)
    ensures
        (SocketAddrView { ip: IpAddrView::V4(octets), port }).encoding() == seq![4u8] + octets
            + seq![(port / 256) as u8, (port % 256) as u8],
        (SocketAddrView { ip: IpAddrView::V6(octets), port }).encoding() == seq![6u8] + octets
            + seq![(port / 256) as u8, (port % 256) as u8],
        (IpAddrView::V4(octets)).valid() <==> octets.len() == 4,
        (IpAddrView::V6(octets)).valid() <==> octets.len() == 16,
{
    integers_are_laid_out(4);
    integers_are_laid_out(6);
    reveal_with_fuel(be_bytes, 3);
    assert(be_bytes(port as nat, 2) =~= seq![(port / 256) as u8, (port % 256) as u8]);
}

/// A family other than the two is refused, and what is behind its number is left.
pub proof fn other_families_are_refused(family: u64, rest: Seq<u8>)
    requires
        family <= MAX_VARINT,
        family != 4,
        family != 6,
    ensures
        SocketAddrView::parsed(var_int_bytes(family) + rest) == Err::<
            (SocketAddrView, Seq<u8>),
            Stopped,
        >((ErrorView::InvalidAddressFamily(family), rest)),
{
    var_int_bytes_round_trip(family, rest);
}

} // verus!
