use etherparse::error::{ErrorField, Layer, ReadError, UnexpectedEndOfSliceError, ValueError, WriteError};
use etherparse::ipv6::Ipv6Header;
use etherparse::layers::decode_ethernet2_packet;
use etherparse::link::{Ethernet2Header, SingleVlanHeader};
use etherparse::tcp::TcpHeader;

fn ethernet(ether_type: u16) -> Ethernet2Header {
    Ethernet2Header {
        destination: [1, 2, 3, 4, 5, 6],
        source: [7, 8, 9, 10, 11, 12],
        ether_type,
    }
}

fn vlan(vlan_identifier: u16, ether_type: u16) -> SingleVlanHeader {
    SingleVlanHeader {
        priority_code_point: 5,
        drop_eligible_indicator: true,
        vlan_identifier,
        ether_type,
    }
}

#[test]
fn ethernet2_round_trip() {
    let header = ethernet(0x86dd);
    let mut bytes = Vec::new();
    header.write(&mut bytes);
    assert_eq!(bytes, vec![1, 2, 3, 4, 5, 6, 7, 8, 9, 10, 11, 12, 0x86, 0xdd]);
    bytes.push(0x42);
    let (decoded, rest) = Ethernet2Header::from_slice(&bytes).unwrap();
    assert_eq!(decoded, header);
    assert_eq!(rest, &[0x42]);
    assert_eq!(
        Ethernet2Header::from_slice(&bytes[..13]),
        Err(ReadError::UnexpectedEndOfSlice(UnexpectedEndOfSliceError {
            expected_min_len: 14,
            actual_len: 13,
            layer: Layer::Ethernet2Header,
        }))
    );
}

#[test]
fn vlan_round_trip() {
    let header = vlan(0xabc, 0x0800);
    let mut bytes = Vec::new();
    header.write(&mut bytes).unwrap();
    assert_eq!(bytes, vec![0xba, 0xbc, 0x08, 0x00]);
    let (decoded, rest) = SingleVlanHeader::from_slice(&bytes).unwrap();
    assert_eq!(decoded, header);
    assert!(rest.is_empty());
}

#[test]
fn vlan_value_errors() {
    let mut out = vec![9u8];
    let mut header = vlan(0x1000, 0);
    assert_eq!(
        header.write(&mut out),
        Err(WriteError::ValueError(ValueError {
            field: ErrorField::VlanIdentifier,
            value: 0x1000,
            min: 0,
            max: 0xfff,
        }))
    );
    header.priority_code_point = 8;
    assert_eq!(
        header.write(&mut out),
        Err(WriteError::ValueError(ValueError {
            field: ErrorField::VlanPriorityCodePoint,
            value: 8,
            min: 0,
            max: 7,
        }))
    );
    assert_eq!(out, vec![9u8]);
}

#[test]
fn frame_with_two_vlan_tags_ipv6_and_tcp() {
    let mut packet = Vec::new();
    ethernet(0x88a8).write(&mut packet);
    vlan(1, 0x8100).write(&mut packet).unwrap();
    vlan(2, 0x86dd).write(&mut packet).unwrap();
    let ip = Ipv6Header {
        traffic_class: 0,
        flow_label: 0,
        payload_length: 21,
        next_header: 6,
        hop_limit: 1,
        source: [0; 16],
        destination: [0; 16],
    };
    ip.write(&mut packet).unwrap();
    TcpHeader::default().write(&mut packet).unwrap();
    packet.push(0xee);
    let decoded = decode_ethernet2_packet(&packet);
    assert_eq!(decoded.ethernet, Some(ethernet(0x88a8)));
    assert_eq!(decoded.vlan_outer, Some(vlan(1, 0x8100)));
    assert_eq!(decoded.vlan_inner, Some(vlan(2, 0x86dd)));
    assert_eq!(decoded.ipv6, Some(ip));
    assert_eq!(decoded.tcp, Some(TcpHeader::default()));
    assert_eq!(decoded.payload, &[0xee]);
    assert_eq!(decoded.error, None);
}

#[test]
fn frame_stops_at_unknown_ether_type() {
    let mut packet = Vec::new();
    ethernet(0x0806).write(&mut packet);
    packet.extend_from_slice(&[0x45, 0]);
    let decoded = decode_ethernet2_packet(&packet);
    assert!(decoded.ethernet.is_some());
    assert_eq!(decoded.vlan_outer, None);
    assert_eq!(decoded.ipv6, None);
    assert_eq!(decoded.payload, &[0x45, 0]);
    assert_eq!(decoded.error, None);
}

#[test]
fn frame_with_truncated_vlan_tag() {
    let mut packet = Vec::new();
    ethernet(0x8100).write(&mut packet);
    packet.extend_from_slice(&[0, 1, 2]);
    let decoded = decode_ethernet2_packet(&packet);
    assert!(decoded.ethernet.is_some());
    assert_eq!(decoded.vlan_outer, None);
    assert_eq!(decoded.payload, &[0, 1, 2]);
    assert_eq!(
        decoded.error,
        Some(ReadError::UnexpectedEndOfSlice(UnexpectedEndOfSliceError {
            expected_min_len: 4,
            actual_len: 3,
            layer: Layer::VlanHeader,
        }))
    );
}

#[test]
fn frame_too_short() {
    let packet = [0u8; 5];
    let decoded = decode_ethernet2_packet(&packet);
    assert_eq!(decoded.ethernet, None);
    assert_eq!(decoded.payload, &packet[..]);
    assert_eq!(
        decoded.error,
        Some(ReadError::UnexpectedEndOfSlice(UnexpectedEndOfSliceError {
            expected_min_len: 14,
            actual_len: 5,
            layer: Layer::Ethernet2Header,
        }))
    );
}
