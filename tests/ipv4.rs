use etherparse::error::{ErrorField, Layer, ReadError, UnexpectedEndOfSliceError, ValueError, WriteError};
use etherparse::ipv4::Ipv4Header;
use etherparse::layers::{decode_ethernet2_packet, decode_ipv4_packet};
use etherparse::link::Ethernet2Header;
use etherparse::tcp::TcpHeader;

// 45 00 00 73 00 00 40 00 40 11 b8 61 c0 a8 00 01 c0 a8 00 c7
fn known_bytes() -> Vec<u8> {
    vec![
        0x45, 0x00, 0x00, 0x73, 0x00, 0x00, 0x40, 0x00, 0x40, 0x11, 0xb8, 0x61, 0xc0, 0xa8, 0x00,
        0x01, 0xc0, 0xa8, 0x00, 0xc7,
    ]
}

fn known_header() -> Ipv4Header {
    Ipv4Header {
        dscp: 0,
        ecn: 0,
        total_length: 0x73,
        identification: 0,
        dont_fragment: true,
        more_fragments: false,
        fragment_offset: 0,
        time_to_live: 64,
        protocol: 17,
        header_checksum: 0xb861,
        source: [192, 168, 0, 1],
        destination: [192, 168, 0, 199],
        options_len: 0,
        options: [0; 40],
    }
}

#[test]
fn ipv4_decode_known_header() {
    let bytes = known_bytes();
    let (header, rest) = Ipv4Header::from_slice(&bytes).unwrap();
    assert_eq!(header, known_header());
    assert!(rest.is_empty());
    assert_eq!(header.calc_header_checksum(), Ok(0xb861));
}

#[test]
fn ipv4_round_trip_with_options() {
    let mut header = known_header();
    header.dscp = 0x2e;
    header.ecn = 1;
    header.more_fragments = true;
    header.fragment_offset = 0x1abc;
    header.options_len = 8;
    header.options[..8].copy_from_slice(&[1, 2, 3, 4, 5, 6, 7, 8]);
    let mut bytes = Vec::new();
    header.write(&mut bytes).unwrap();
    assert_eq!(bytes.len(), 28);
    assert_eq!(bytes[0], 0x47);
    assert_eq!(bytes[1], 0xb9);
    assert_eq!(bytes[6], 0x60 | 0x1a);
    assert_eq!(bytes[7], 0xbc);
    bytes.push(0xaa);
    let (decoded, rest) = Ipv4Header::from_slice(&bytes).unwrap();
    assert_eq!(decoded, header);
    assert_eq!(rest, &[0xaa]);
}

#[test]
fn ipv4_read_errors() {
    let bytes = known_bytes();
    assert_eq!(
        Ipv4Header::from_slice(&bytes[..19]),
        Err(ReadError::UnexpectedEndOfSlice(UnexpectedEndOfSliceError {
            expected_min_len: 20,
            actual_len: 19,
            layer: Layer::Ipv4Header,
        }))
    );
    let mut bad = bytes.clone();
    bad[0] = 0x65;
    assert_eq!(Ipv4Header::from_slice(&bad), Err(ReadError::Ipv4UnexpectedVersion(6)));
    bad[0] = 0x44;
    assert_eq!(Ipv4Header::from_slice(&bad), Err(ReadError::Ipv4HeaderLengthTooSmall(4)));
    bad[0] = 0x46;
    assert_eq!(
        Ipv4Header::from_slice(&bad),
        Err(ReadError::UnexpectedEndOfSlice(UnexpectedEndOfSliceError {
            expected_min_len: 24,
            actual_len: 20,
            layer: Layer::Ipv4Header,
        }))
    );
}

#[test]
fn ipv4_value_errors() {
    let mut out = vec![3u8];
    let mut header = known_header();
    header.options_len = 6;
    assert_eq!(
        header.write(&mut out),
        Err(WriteError::ValueError(ValueError {
            field: ErrorField::Ipv4OptionsLength,
            value: 6,
            min: 0,
            max: 40,
        }))
    );
    header.fragment_offset = 0x2000;
    assert_eq!(
        header.calc_header_checksum(),
        Err(ValueError { field: ErrorField::Ipv4FragmentOffset, value: 0x2000, min: 0, max: 0x1fff })
    );
    header.ecn = 4;
    header.dscp = 64;
    assert_eq!(
        header.write(&mut out),
        Err(WriteError::ValueError(ValueError { field: ErrorField::Ipv4Dscp, value: 64, min: 0, max: 63 }))
    );
    assert_eq!(out, vec![3u8]);
}

#[test]
fn ipv4_tcp_frame() {
    let mut ip = known_header();
    ip.protocol = 6;
    let mut packet = Vec::new();
    Ethernet2Header { destination: [0xff; 6], source: [1; 6], ether_type: 0x0800 }.write(&mut packet);
    ip.write(&mut packet).unwrap();
    let mut tcp = TcpHeader::default();
    tcp.syn = true;
    tcp.write(&mut packet).unwrap();
    packet.extend_from_slice(b"hi");
    let decoded = decode_ethernet2_packet(&packet);
    assert_eq!(decoded.ipv4, Some(ip));
    assert_eq!(decoded.ipv6, None);
    assert_eq!(decoded.tcp, Some(tcp));
    assert_eq!(decoded.payload, b"hi");
    assert_eq!(decoded.error, None);
}

#[test]
fn ipv4_packet_with_bad_header_length() {
    let mut bytes = known_bytes();
    bytes[0] = 0x43;
    let decoded = decode_ipv4_packet(&bytes);
    assert_eq!(decoded.ipv4, None);
    assert_eq!(decoded.payload, &bytes[..]);
    assert_eq!(decoded.error, Some(ReadError::Ipv4HeaderLengthTooSmall(3)));
}
