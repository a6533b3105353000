//! Reading the addresses, ports and protocol of a captured Ethernet frame.

use etherparse::{NetSlice, SlicedPacket, TransportSlice};
use vstd::prelude::*;

verus! {

/// The transport layer of a frame, as far as the statistics need it.
#[derive(Debug, Clone, Copy, PartialEq, Eq, Structural)]
pub enum TransportLayer {
    /// Source and destination port.
    Tcp(u16, u16),
    /// Source and destination port.
    Udp(u16, u16),
    Icmpv4,
    Icmpv6,
    Igmp,
    /// The frame carries no transport layer that is understood.
    Absent,
}

/// What etherparse's `SlicedPacket::from_ethernet` reads from a frame:
/// `None` when it rejects the frame; otherwise the source and destination
/// address of its IPv4 or IPv6 layer in the standard text form (`None`
/// for any other network layer), and its transport layer.
pub uninterp spec fn ethernet_layers(
    frame: Seq<u8>,
) -> Option<(Option<(Seq<char>, Seq<char>)>, TransportLayer)>;

/// The text of a pair of addresses.
pub open spec fn spec_address_view(a: Option<(String, String)>) -> Option<(Seq<char>, Seq<char>)> {
    match a {
        Some((s, d)) => Some((s@, d@)),
        None => None,
    }
}

/// Calls `SlicedPacket::from_ethernet` and keeps the addresses of its IP
/// layer, written by `Ipv4Addr`'s or `Ipv6Addr`'s `to_string`. The claim
/// is that this is the network part of `ethernet_layers`.
#[verifier::external_body]
fn slice_ip_addresses(frame: &[u8]) -> (r: Option<Option<(String, String)>>)
    ensures
        match r {
            Some(a) => ethernet_layers(frame@) matches Some(l) && l.0 == spec_address_view(a),
            None => ethernet_layers(frame@) is None,
        },
{
    match SlicedPacket::from_ethernet(frame).map(|p| p.net) {
        Ok(Some(NetSlice::Ipv4(h))) => Some(Some((h.header().source_addr().to_string(), h.header().destination_addr().to_string()))),
        Ok(Some(NetSlice::Ipv6(h))) => Some(Some((h.header().source_addr().to_string(), h.header().destination_addr().to_string()))),
        Ok(_) => Some(None),
        Err(_) => None,
    }
}

/// Calls `SlicedPacket::from_ethernet` and keeps its transport layer. The
/// claim is that this is the transport part of `ethernet_layers`.
#[verifier::external_body]
fn slice_transport(frame: &[u8]) -> (r: Option<TransportLayer>)
    ensures
        match r {
            Some(t) => ethernet_layers(frame@) matches Some(l) && l.1 == t,
            None => ethernet_layers(frame@) is None,
        },
{
    match SlicedPacket::from_ethernet(frame).map(|p| p.transport) {
        Ok(Some(TransportSlice::Tcp(t))) => Some(TransportLayer::Tcp(t.source_port(), t.destination_port())),
        Ok(Some(TransportSlice::Udp(u))) => Some(TransportLayer::Udp(u.source_port(), u.destination_port())),
        Ok(Some(TransportSlice::Icmpv4(_))) => Some(TransportLayer::Icmpv4),
        Ok(Some(TransportSlice::Icmpv6(_))) => Some(TransportLayer::Icmpv6),
        Ok(Some(TransportSlice::Igmp(_))) => Some(TransportLayer::Igmp),
        Ok(None) => Some(TransportLayer::Absent),
        Err(_) => None,
    }
}

#[derive(Debug, Clone)]
pub struct PacketInfo {
    pub source_ip: Option<String>,
    pub destination_ip: Option<String>,
    pub protocol: String,
    pub source_port: Option<u16>,
    pub destination_port: Option<u16>,
    pub packet_size: usize,
}

/// The text of an optional string.
pub open spec fn spec_opt_view(o: Option<String>) -> Option<Seq<char>> {
    match o {
        Some(s) => Some(s@),
        None => None,
    }
}

/// The protocol name reported for a transport layer.
pub open spec fn spec_protocol_name(t: TransportLayer) -> Seq<char> {
    match t {
        TransportLayer::Tcp(_, _) => "TCP"@,
        TransportLayer::Udp(_, _) => "UDP"@,
        TransportLayer::Icmpv4 => "ICMPv4"@,
        TransportLayer::Icmpv6 => "ICMPv6"@,
        TransportLayer::Igmp => "IGMP"@,
        TransportLayer::Absent => "Unknown"@,
    }
}

/// The source port of a transport layer that has ports.
pub open spec fn spec_source_port(t: TransportLayer) -> Option<u16> {
    match t {
        TransportLayer::Tcp(s, _) => Some(s),
        TransportLayer::Udp(s, _) => Some(s),
        _ => None,
    }
}

/// The destination port of a transport layer that has ports.
pub open spec fn spec_destination_port(t: TransportLayer) -> Option<u16> {
    match t {
        TransportLayer::Tcp(_, d) => Some(d),
        TransportLayer::Udp(_, d) => Some(d),
        _ => None,
    }
}

/// `info` describes a frame of `size` bytes whose layers read as `layers`
/// (`None`: the frame was rejected, and nothing but its size is known).
pub open spec fn spec_describes(
    info: PacketInfo,
    size: usize,
    layers: Option<(Option<(Seq<char>, Seq<char>)>, TransportLayer)>,
) -> bool {
    &&& info.packet_size == size
    &&& match layers {
        Some((addresses, transport)) => {
            &&& spec_opt_view(info.source_ip) == (match addresses {
                Some((s, _)) => Some(s),
                None => None::<Seq<char>>,
            })
            &&& spec_opt_view(info.destination_ip) == (match addresses {
                Some((_, d)) => Some(d),
                None => None::<Seq<char>>,
            })
            &&& info.protocol@ == spec_protocol_name(transport)
            &&& info.source_port == spec_source_port(transport)
            &&& info.destination_port == spec_destination_port(transport)
        },
        None => {
            &&& info.source_ip is None
            &&& info.destination_ip is None
            &&& info.protocol@ == "Unknown"@
            &&& info.source_port is None
            &&& info.destination_port is None
        },
    }
}

/// The description of a frame of `size` bytes from what slicing it gave:
/// its IP addresses and its transport layer (`None` for either: the frame
/// was rejected).
pub fn packet_info_from_layers(
    size: usize,
    addresses: Option<Option<(String, String)>>,
    transport: Option<TransportLayer>,
) -> (info: PacketInfo)
    ensures
        spec_describes(
            info,
            size,
            match (addresses, transport) {
                (Some(a), Some(t)) => Some((spec_address_view(a), t)),
                _ => None,
            },
        ),
{
    match (addresses, transport) {
        (Some(a), Some(t)) => {
            let (source_ip, destination_ip) = match a {
                Some((s, d)) => (Some(s), Some(d)),
                None => (None, None),
            };
            let (protocol, source_port, destination_port) = match t {
                TransportLayer::Tcp(s, d) => ("TCP".to_owned(), Some(s), Some(d)),
                TransportLayer::Udp(s, d) => ("UDP".to_owned(), Some(s), Some(d)),
                TransportLayer::Icmpv4 => ("ICMPv4".to_owned(), None, None),
                TransportLayer::Icmpv6 => ("ICMPv6".to_owned(), None, None),
                TransportLayer::Igmp => ("IGMP".to_owned(), None, None),
                TransportLayer::Absent => ("Unknown".to_owned(), None, None),
            };
            PacketInfo {
                source_ip,
                destination_ip,
                protocol,
                source_port,
                destination_port,
                packet_size: size,
            }
        },
        _ => PacketInfo {
            source_ip: None,
            destination_ip: None,
            protocol: "Unknown".to_owned(),
            source_port: None,
            destination_port: None,
            packet_size: size,
        },
    }
}

/// Describes a captured Ethernet frame.
pub fn parse_packet(data: &[u8]) -> (info: PacketInfo)
    ensures
        spec_describes(info, data@.len() as usize, ethernet_layers(data@)),
{
    let packet_size = data.len();
    let addresses = slice_ip_addresses(data);
    let transport = slice_transport(data);
    packet_info_from_layers(packet_size, addresses, transport)
}

} // verus!
