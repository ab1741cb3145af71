use etherparse::error::{ErrorField, Layer, ReadError, UnexpectedEndOfSliceError, ValueError};
use etherparse::ipv6::Ipv6Header;
use etherparse::layers::decode_ipv6_packet;
use etherparse::udp::UdpHeader;

const SOURCE: [u8; 16] = [1, 2, 3, 4, 5, 6, 7, 8, 9, 10, 11, 12, 13, 14, 15, 16];
const DESTINATION: [u8; 16] = [
    0xf0, 0xf1, 0xf2, 0xf3, 0xf4, 0xf5, 0xf6, 0xf7, 0xf8, 0xf9, 0xfa, 0xfb, 0xfc, 0xfd, 0xfe, 0xff,
];

fn sample() -> UdpHeader {
    UdpHeader { source_port: 12345, destination_port: 53, length: 13, checksum: 0x1111 }
}

#[test]
fn udp_round_trip() {
    let mut bytes = Vec::new();
    sample().write(&mut bytes);
    assert_eq!(bytes, vec![0x30, 0x39, 0x00, 0x35, 0, 13, 0x11, 0x11]);
    let (decoded, rest) = UdpHeader::from_slice(&bytes).unwrap();
    assert_eq!(decoded, sample());
    assert!(rest.is_empty());
    assert_eq!(
        UdpHeader::from_slice(&bytes[..7]),
        Err(ReadError::UnexpectedEndOfSlice(UnexpectedEndOfSliceError {
            expected_min_len: 8,
            actual_len: 7,
            layer: Layer::UdpHeader,
        }))
    );
}

#[test]
fn udp_checksum_ipv6() {
    let payload = [1, 2, 3, 4, 5];
    assert_eq!(sample().calc_checksum_ipv6(&SOURCE, &DESTINATION, &payload), Ok(0xc650));
    let too_long = vec![0u8; 0xffff - 7];
    assert_eq!(
        sample().calc_checksum_ipv6(&SOURCE, &DESTINATION, &too_long),
        Err(ValueError { field: ErrorField::UdpPayloadLength, value: 0xffff - 7, min: 0, max: 0xffff - 8 })
    );
}

#[test]
fn decodes_ipv6_and_udp() {
    let ip = Ipv6Header {
        traffic_class: 0,
        flow_label: 0,
        payload_length: 13,
        next_header: 17,
        hop_limit: 9,
        source: SOURCE,
        destination: DESTINATION,
    };
    let mut packet = ip.to_bytes().unwrap();
    sample().write(&mut packet);
    packet.extend_from_slice(&[1, 2, 3, 4, 5]);
    let decoded = decode_ipv6_packet(&packet);
    assert_eq!(decoded.ipv6, Some(ip));
    assert_eq!(decoded.tcp, None);
    assert_eq!(decoded.udp, Some(sample()));
    assert_eq!(decoded.payload, &[1, 2, 3, 4, 5]);
    assert_eq!(decoded.error, None);
}
