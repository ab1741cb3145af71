use etherparse::error::{Layer, ReadError, UnexpectedEndOfSliceError};
use etherparse::ipv6::Ipv6Header;
use etherparse::layers::decode_ipv6_packet;
use etherparse::tcp::TcpHeader;

fn ipv6_bytes(next_header: u8, payload_length: u16) -> Vec<u8> {
    let header = Ipv6Header {
        traffic_class: 1,
        flow_label: 2,
        payload_length,
        next_header,
        hop_limit: 3,
        source: [4; 16],
        destination: [5; 16],
    };
    header.to_bytes().unwrap()
}

#[test]
fn decodes_ipv6_and_tcp() {
    let mut packet = ipv6_bytes(6, 23);
    let mut tcp = TcpHeader::default();
    tcp.destination_port = 443;
    tcp.write(&mut packet).unwrap();
    packet.extend_from_slice(&[9, 8, 7]);
    let decoded = decode_ipv6_packet(&packet);
    assert_eq!(decoded.ipv6.unwrap().next_header, 6);
    assert_eq!(decoded.tcp, Some(tcp));
    assert_eq!(decoded.payload, &[9, 8, 7]);
    assert_eq!(decoded.error, None);
}

#[test]
fn stops_at_unknown_next_header() {
    let mut packet = ipv6_bytes(59, 2);
    packet.extend_from_slice(&[1, 2]);
    let decoded = decode_ipv6_packet(&packet);
    assert!(decoded.ipv6.is_some());
    assert_eq!(decoded.tcp, None);
    assert_eq!(decoded.payload, &[1, 2]);
    assert_eq!(decoded.error, None);
}

#[test]
fn keeps_ipv6_when_tcp_is_truncated() {
    let mut packet = ipv6_bytes(6, 5);
    packet.extend_from_slice(&[0, 1, 2, 3, 4]);
    let decoded = decode_ipv6_packet(&packet);
    assert_eq!(decoded.ipv6.unwrap().hop_limit, 3);
    assert_eq!(decoded.tcp, None);
    assert_eq!(decoded.payload, &[0, 1, 2, 3, 4]);
    assert_eq!(
        decoded.error,
        Some(ReadError::UnexpectedEndOfSlice(UnexpectedEndOfSliceError {
            expected_min_len: 20,
            actual_len: 5,
            layer: Layer::TcpHeader,
        }))
    );
}

#[test]
fn reports_bad_ip_version() {
    let mut packet = ipv6_bytes(6, 0);
    packet[0] = 0x45;
    let decoded = decode_ipv6_packet(&packet);
    assert_eq!(decoded.ipv6, None);
    assert_eq!(decoded.tcp, None);
    assert_eq!(decoded.payload, &packet[..]);
    assert_eq!(decoded.error, Some(ReadError::Ipv6UnexpectedVersion(4)));
}

#[test]
fn reports_tcp_data_offset_too_small() {
    let mut packet = ipv6_bytes(6, 20);
    let mut tcp_bytes = Vec::new();
    TcpHeader::default().write(&mut tcp_bytes).unwrap();
    tcp_bytes[12] = 0x40;
    packet.extend_from_slice(&tcp_bytes);
    let decoded = decode_ipv6_packet(&packet);
    assert!(decoded.ipv6.is_some());
    assert_eq!(decoded.error, Some(ReadError::TcpDataOffsetTooSmall(4)));
    assert_eq!(decoded.payload.len(), 20);
}
