use vstd::prelude::*;
use crate::be::be16;
use crate::error::ReadError;
use crate::ipv4::{ipv4_decodes_to, ipv4_ihl_of, ipv4_read_error, ipv4_readable, Ipv4Header};
use crate::ipv6::{ipv6_decodes_to, ipv6_next_header_of, ipv6_read_error, ipv6_readable, Ipv6Header, IPV6_HEADER_LEN};
use crate::link::{
    ethernet2_decodes_to, ethernet2_read_error, vlan_decodes_to, vlan_read_error, Ethernet2Header,
    SingleVlanHeader, ETHERNET2_HEADER_LEN, VLAN_HEADER_LEN,
};
use crate::tcp::{tcp_data_offset_of, tcp_decodes_to, tcp_read_error, tcp_readable, TcpHeader};
use crate::udp::{udp_decodes_to, udp_read_error, UdpHeader, UDP_HEADER_LEN};

verus! {

/// IP protocol number of TCP.
pub const IP_NUMBER_TCP: u8 = 6;

/// IP protocol number of UDP.
pub const IP_NUMBER_UDP: u8 = 17;

/// Ether type of IPv4.
pub const ETHER_TYPE_IPV4: u16 = 0x0800;

/// Ether type of IPv6.
pub const ETHER_TYPE_IPV6: u16 = 0x86dd;

/// Ether type of an IEEE 802.1Q VLAN tag.
pub const ETHER_TYPE_VLAN_TAGGED_FRAME: u16 = 0x8100;

/// Ether type of an IEEE 802.1ad provider bridging tag.
pub const ETHER_TYPE_PROVIDER_BRIDGING: u16 = 0x88a8;

/// Ether type of a VLAN double-tagging tag.
pub const ETHER_TYPE_VLAN_DOUBLE_TAGGED_FRAME: u16 = 0x9100;

/// The ether type announces a VLAN tag.
pub open spec fn is_vlan_ether_type(t: u16) -> bool {
    t == ETHER_TYPE_VLAN_TAGGED_FRAME || t == ETHER_TYPE_PROVIDER_BRIDGING || t
        == ETHER_TYPE_VLAN_DOUBLE_TAGGED_FRAME
}

/// Tells whether an ether type announces a VLAN tag.
pub fn is_vlan(t: u16) -> (r: bool)
    ensures
        r == is_vlan_ether_type(t),
{
    t == ETHER_TYPE_VLAN_TAGGED_FRAME || t == ETHER_TYPE_PROVIDER_BRIDGING || t
        == ETHER_TYPE_VLAN_DOUBLE_TAGGED_FRAME
}

/// The headers decoded from one packet, layer by layer, and where decoding
/// stopped.
#[derive(Clone, Copy, Debug, PartialEq, Eq)]
pub struct DecodedLayers<'a> {
    /// The link-layer header, if decoding started there and it could be read.
    pub ethernet: Option<Ethernet2Header>,
    /// The first VLAN tag, if one was announced and could be read.
    pub vlan_outer: Option<SingleVlanHeader>,
    /// The second VLAN tag, if one was announced and could be read.
    pub vlan_inner: Option<SingleVlanHeader>,
    /// The IPv4 header, if one was announced and could be read.
    pub ipv4: Option<Ipv4Header>,
    /// The IPv6 header, if one was announced and could be read.
    pub ipv6: Option<Ipv6Header>,
    /// The TCP header, if one was announced and could be read.
    pub tcp: Option<TcpHeader>,
    /// The UDP header, if one was announced and could be read.
    pub udp: Option<UdpHeader>,
    /// The bytes after the last header that was read.
    pub payload: &'a [u8],
    /// The first error met; the headers before it are kept.
    pub error: Option<ReadError>,
}

/// The bytes of `b` after its first `n`.
pub open spec fn after(b: Seq<u8>, n: int) -> Seq<u8> {
    b.subrange(n, b.len() as int)
}

/// No header of a network or transport layer was decoded into `r`.
pub open spec fn no_upper_layers(r: DecodedLayers) -> bool {
    r.ipv4 is None && r.ipv6 is None && r.tcp is None && r.udp is None
}

/// `r` holds the transport layer decoded from `b`, which follows a network
/// header announcing protocol `next`: a TCP or UDP header, or nothing for
/// any other protocol.
pub open spec fn transport_walk(b: Seq<u8>, next: u8, r: DecodedLayers) -> bool {
    &&& next != IP_NUMBER_TCP ==> r.tcp is None
    &&& next != IP_NUMBER_UDP ==> r.udp is None
    &&& next != IP_NUMBER_TCP && next != IP_NUMBER_UDP ==> r.payload@ == b && r.error is None
    &&& next == IP_NUMBER_TCP && !tcp_readable(b) ==> r.tcp is None && r.payload@ == b && r.error
        == Some(tcp_read_error(b))
    &&& next == IP_NUMBER_TCP && tcp_readable(b) ==> r.tcp is Some && tcp_decodes_to(b, r.tcp->0)
        && r.payload@ == after(b, tcp_data_offset_of(b) as int * 4) && r.error is None
    &&& next == IP_NUMBER_UDP && b.len() < UDP_HEADER_LEN ==> r.udp is None && r.payload@ == b
        && r.error == Some(udp_read_error(b))
    &&& next == IP_NUMBER_UDP && b.len() >= UDP_HEADER_LEN ==> r.udp is Some && udp_decodes_to(
        b,
        r.udp->0,
    ) && r.payload@ == after(b, UDP_HEADER_LEN as int) && r.error is None
}

/// `r` holds the network and transport layers decoded from `b`, which
/// starts with an IPv6 header.
pub open spec fn ipv6_walk(b: Seq<u8>, r: DecodedLayers) -> bool {
    &&& !ipv6_readable(b) ==> no_upper_layers(r) && r.payload@ == b && r.error == Some(
        ipv6_read_error(b),
    )
    &&& ipv6_readable(b) ==> r.ipv4 is None && r.ipv6 is Some && ipv6_decodes_to(b, r.ipv6->0)
        && transport_walk(after(b, IPV6_HEADER_LEN as int), ipv6_next_header_of(b), r)
}

/// `r` holds the network and transport layers decoded from `b`, which
/// starts with an IPv4 header.
pub open spec fn ipv4_walk(b: Seq<u8>, r: DecodedLayers) -> bool {
    &&& !ipv4_readable(b) ==> no_upper_layers(r) && r.payload@ == b && r.error == Some(
        ipv4_read_error(b),
    )
    &&& ipv4_readable(b) ==> r.ipv6 is None && r.ipv4 is Some && ipv4_decodes_to(b, r.ipv4->0)
        && transport_walk(after(b, ipv4_ihl_of(b) as int * 4), b[9], r)
}

/// `r` holds what follows a link-layer header whose ether type is `t`, in
/// the bytes `b`: an IPv4 or IPv6 walk, and nothing more for any other type.
pub open spec fn network_walk(b: Seq<u8>, t: u16, r: DecodedLayers) -> bool {
    &&& t == ETHER_TYPE_IPV4 ==> ipv4_walk(b, r)
    &&& t == ETHER_TYPE_IPV6 ==> ipv6_walk(b, r)
    &&& t != ETHER_TYPE_IPV4 && t != ETHER_TYPE_IPV6 ==> no_upper_layers(r) && r.payload@ == b
        && r.error is None
}

/// `r` holds what follows an Ethernet II header whose ether type is `t`, in
/// the bytes `b`: at most two VLAN tags, then the network walk.
pub open spec fn vlan_walk(b: Seq<u8>, t: u16, r: DecodedLayers) -> bool {
    let b2 = after(b, VLAN_HEADER_LEN as int);
    let t2 = be16(b[2], b[3]) as u16;
    let b3 = after(b2, VLAN_HEADER_LEN as int);
    let t3 = be16(b2[2], b2[3]) as u16;
    &&& !is_vlan_ether_type(t) ==> r.vlan_outer is None && r.vlan_inner is None && network_walk(b, t, r)
    &&& is_vlan_ether_type(t) && b.len() < VLAN_HEADER_LEN ==> r.vlan_outer is None && r.vlan_inner is None
        && no_upper_layers(r) && r.payload@ == b && r.error == Some(vlan_read_error(b))
    &&& is_vlan_ether_type(t) && b.len() >= VLAN_HEADER_LEN ==> r.vlan_outer is Some && vlan_decodes_to(
        b,
        r.vlan_outer->0,
    )
    &&& is_vlan_ether_type(t) && b.len() >= VLAN_HEADER_LEN && !is_vlan_ether_type(t2)
        ==> r.vlan_inner is None && network_walk(b2, t2, r)
    &&& is_vlan_ether_type(t) && b.len() >= VLAN_HEADER_LEN && is_vlan_ether_type(t2) && b2.len()
        < VLAN_HEADER_LEN ==> r.vlan_inner is None && no_upper_layers(r) && r.payload@ == b2
        && r.error == Some(vlan_read_error(b2))
    &&& is_vlan_ether_type(t) && b.len() >= VLAN_HEADER_LEN && is_vlan_ether_type(t2) && b2.len()
        >= VLAN_HEADER_LEN ==> r.vlan_inner is Some && vlan_decodes_to(b2, r.vlan_inner->0)
        && network_walk(b3, t3, r)
}

/// A result holding nothing yet, whose payload is all of `packet`.
fn empty_layers<'a>(packet: &'a [u8]) -> (r: DecodedLayers<'a>)
    ensures
        r.ethernet is None && r.vlan_outer is None && r.vlan_inner is None,
        no_upper_layers(r),
        r.payload == packet,
        r.error is None,
{
    DecodedLayers {
        ethernet: None,
        vlan_outer: None,
        vlan_inner: None,
        ipv4: None,
        ipv6: None,
        tcp: None,
        udp: None,
        payload: packet,
        error: None,
    }
}

/// Fills the transport layer of `r` from `b`, which follows a network
/// header announcing protocol `next`.
fn decode_transport_layers<'a>(r: DecodedLayers<'a>, b: &'a [u8], next: u8) -> (o: DecodedLayers<'a>)
    ensures
        o.ethernet == r.ethernet && o.vlan_outer == r.vlan_outer && o.vlan_inner == r.vlan_inner,
        o.ipv4 == r.ipv4 && o.ipv6 == r.ipv6,
        transport_walk(b@, next, o),
{
    let r = DecodedLayers { tcp: None, udp: None, payload: b, error: None, ..r };
    if next == IP_NUMBER_TCP {
        match TcpHeader::from_slice(b) {
            Err(e) => DecodedLayers { error: Some(e), ..r },
            Ok((tcp, payload)) => DecodedLayers { tcp: Some(tcp), payload, ..r },
        }
    } else if next == IP_NUMBER_UDP {
        match UdpHeader::from_slice(b) {
            Err(e) => DecodedLayers { error: Some(e), ..r },
            Ok((udp, payload)) => DecodedLayers { udp: Some(udp), payload, ..r },
        }
    } else {
        r
    }
}

/// Fills the network and transport layers of `r` from `b`, which starts with
/// an IPv6 header.
fn decode_ipv6_layers<'a>(r: DecodedLayers<'a>, b: &'a [u8]) -> (o: DecodedLayers<'a>)
    ensures
        o.ethernet == r.ethernet && o.vlan_outer == r.vlan_outer && o.vlan_inner == r.vlan_inner,
        ipv6_walk(b@, o),
{
    let r = DecodedLayers { ipv4: None, ipv6: None, tcp: None, udp: None, payload: b, error: None, ..r };
    match Ipv6Header::from_slice(b) {
        Err(e) => DecodedLayers { error: Some(e), ..r },
        Ok((ip, rest)) => decode_transport_layers(DecodedLayers { ipv6: Some(ip), ..r }, rest, ip.next_header),
    }
}

/// Fills the network and transport layers of `r` from `b`, which starts with
/// an IPv4 header.
fn decode_ipv4_layers<'a>(r: DecodedLayers<'a>, b: &'a [u8]) -> (o: DecodedLayers<'a>)
    ensures
        o.ethernet == r.ethernet && o.vlan_outer == r.vlan_outer && o.vlan_inner == r.vlan_inner,
        ipv4_walk(b@, o),
{
    let r = DecodedLayers { ipv4: None, ipv6: None, tcp: None, udp: None, payload: b, error: None, ..r };
    match Ipv4Header::from_slice(b) {
        Err(e) => DecodedLayers { error: Some(e), ..r },
        Ok((ip, rest)) => decode_transport_layers(DecodedLayers { ipv4: Some(ip), ..r }, rest, ip.protocol),
    }
}

/// Fills the network and transport layers of `r` from `b`, which follows a
/// link-layer header of ether type `t`.
fn decode_network_layers<'a>(r: DecodedLayers<'a>, b: &'a [u8], t: u16) -> (o: DecodedLayers<'a>)
    ensures
        o.ethernet == r.ethernet && o.vlan_outer == r.vlan_outer && o.vlan_inner == r.vlan_inner,
        network_walk(b@, t, o),
{
    if t == ETHER_TYPE_IPV4 {
        decode_ipv4_layers(r, b)
    } else if t == ETHER_TYPE_IPV6 {
        decode_ipv6_layers(r, b)
    } else {
        DecodedLayers { ipv4: None, ipv6: None, tcp: None, udp: None, payload: b, error: None, ..r }
    }
}

/// Decodes an IPv6 packet: the IPv6 header, then a TCP or UDP header when
/// the next header number announces one. Decoding stops at the first
/// failure, keeping what was decoded before it, and at a protocol it does
/// not know.
pub fn decode_ipv6_packet<'a>(packet: &'a [u8]) -> (r: DecodedLayers<'a>)
    ensures
        r.ethernet is None && r.vlan_outer is None && r.vlan_inner is None,
        ipv6_walk(packet@, r),
{
    decode_ipv6_layers(empty_layers(packet), packet)
}

/// Decodes an IPv4 packet: the IPv4 header, then a TCP or UDP header when
/// the protocol number announces one. Decoding stops at the first failure,
/// keeping what was decoded before it, and at a protocol it does not know.
pub fn decode_ipv4_packet<'a>(packet: &'a [u8]) -> (r: DecodedLayers<'a>)
    ensures
        r.ethernet is None && r.vlan_outer is None && r.vlan_inner is None,
        ipv4_walk(packet@, r),
{
    decode_ipv4_layers(empty_layers(packet), packet)
}

/// Decodes an Ethernet II frame: the Ethernet II header, up to two VLAN
/// tags, then IPv4 or IPv6 and TCP or UDP as their discriminants announce
/// them. Decoding stops at the first failure, keeping what was decoded
/// before it, and at a discriminant it does not know.
pub fn decode_ethernet2_packet<'a>(packet: &'a [u8]) -> (r: DecodedLayers<'a>)
    ensures
        packet@.len() < ETHERNET2_HEADER_LEN ==> r.ethernet is None && r.vlan_outer is None
            && r.vlan_inner is None && no_upper_layers(r) && r.payload == packet && r.error == Some(
            ethernet2_read_error(packet@),
        ),
        packet@.len() >= ETHERNET2_HEADER_LEN ==> r.ethernet is Some && ethernet2_decodes_to(
            packet@,
            r.ethernet->0,
        ) && vlan_walk(
            after(packet@, ETHERNET2_HEADER_LEN as int),
            be16(packet@[12], packet@[13]) as u16,
            r,
        ),
{
    let none = empty_layers(packet);
    let (eth, rest) = match Ethernet2Header::from_slice(packet) {
        Err(e) => {
            return DecodedLayers { error: Some(e), ..none };
        },
        Ok(decoded) => decoded,
    };
    let r = DecodedLayers { ethernet: Some(eth), ..none };
    if !is_vlan(eth.ether_type) {
        return decode_network_layers(r, rest, eth.ether_type);
    }
    let (outer, rest) = match SingleVlanHeader::from_slice(rest) {
        Err(e) => {
            return DecodedLayers { payload: rest, error: Some(e), ..r };
        },
        Ok(decoded) => decoded,
    };
    let r = DecodedLayers { vlan_outer: Some(outer), ..r };
    if !is_vlan(outer.ether_type) {
        return decode_network_layers(r, rest, outer.ether_type);
    }
    let (inner, rest) = match SingleVlanHeader::from_slice(rest) {
        Err(e) => {
            return DecodedLayers { payload: rest, error: Some(e), ..r };
        },
        Ok(decoded) => decoded,
    };
    let r = DecodedLayers { vlan_inner: Some(inner), ..r };
    decode_network_layers(r, rest, inner.ether_type)
}

} // verus!
