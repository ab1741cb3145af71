use etherparse::checksum::{add_words, checksum_of};
use etherparse::error::{ChecksumMismatch, ErrorField, Layer, ValueError};
use etherparse::tcp::TcpHeader;

#[test]
fn rfc_example_checksum() {
    assert_eq!(checksum_of(&[0x00, 0x01, 0xf2, 0x03, 0xf4, 0xf5, 0xf6, 0xf7]), 0x220d);
}

#[test]
fn checksum_edge_cases() {
    assert_eq!(checksum_of(&[]), 0xffff);
    // odd length: the last byte is the high byte of a zero-padded word
    assert_eq!(checksum_of(&[0x12]), 0xedff);
    // end-around carry folds 0x1fffe to 0xffff
    assert_eq!(checksum_of(&[0xff, 0xff, 0xff, 0xff]), 0x0000);
    assert_eq!(add_words(0xffff, &[0x00, 0x01]), 0x0001);
    assert_eq!(add_words(0, &[]), 0);
}

fn sample_header() -> TcpHeader {
    let mut options = [0u8; 40];
    options[..4].copy_from_slice(&[1, 2, 3, 4]);
    TcpHeader {
        source_port: 0x1234,
        destination_port: 0x5678,
        sequence_number: 0x9abc_def0,
        acknowledgment_number: 0x0102_0304,
        data_offset: 6,
        ns: true,
        fin: true,
        syn: false,
        rst: true,
        psh: false,
        ack: true,
        ece: false,
        urg: true,
        cwr: false,
        window_size: 0xfffe,
        checksum: 0xbeef,
        urgent_pointer: 0x0a0b,
        options,
    }
}

const SOURCE: [u8; 16] = [1, 2, 3, 4, 5, 6, 7, 8, 9, 10, 11, 12, 13, 14, 15, 16];
const DESTINATION: [u8; 16] = [
    0xf0, 0xf1, 0xf2, 0xf3, 0xf4, 0xf5, 0xf6, 0xf7, 0xf8, 0xf9, 0xfa, 0xfb, 0xfc, 0xfd, 0xfe, 0xff,
];

#[test]
fn tcp_checksum_ipv6() {
    let header = sample_header();
    let payload = [0xde, 0xad, 0xbe];
    assert_eq!(header.calc_checksum_ipv6(&SOURCE, &DESTINATION, &payload), Ok(0x0d7b));
    // the stored checksum does not take part
    let mut other = header;
    other.checksum = 0;
    assert_eq!(other.calc_checksum_ipv6(&SOURCE, &DESTINATION, &payload), Ok(0x0d7b));
}

#[test]
fn tcp_checksum_mismatch_is_reported() {
    let header = sample_header();
    let payload = [0xde, 0xad, 0xbe];
    assert_eq!(
        header.check_checksum_ipv6(&SOURCE, &DESTINATION, &payload),
        Ok(Some(ChecksumMismatch { layer: Layer::TcpHeader, expected: 0xbeef, computed: 0x0d7b }))
    );
    let mut good = header;
    good.checksum = 0x0d7b;
    assert_eq!(good.check_checksum_ipv6(&SOURCE, &DESTINATION, &payload), Ok(None));
}

#[test]
fn tcp_checksum_bad_data_offset() {
    let mut header = sample_header();
    header.data_offset = 4;
    assert_eq!(
        header.calc_checksum_ipv6(&SOURCE, &DESTINATION, &[]),
        Err(ValueError { field: ErrorField::TcpDataOffset, value: 4, min: 5, max: 15 })
    );
}

#[test]
fn tcp_checksum_ipv4() {
    let header = sample_header();
    let payload = [0xde, 0xad, 0xbe];
    assert_eq!(
        header.calc_checksum_ipv4(&[192, 168, 1, 1], &[10, 0, 0, 2], &payload),
        Ok(0x41df)
    );
}

#[test]
fn tcp_checksum_ipv4_payload_too_long() {
    let header = sample_header();
    let payload = vec![0u8; 0xffff - 23];
    assert_eq!(
        header.calc_checksum_ipv4(&[0; 4], &[0; 4], &payload),
        Err(ValueError { field: ErrorField::TcpPayloadLength, value: 0xffff - 23, min: 0, max: 0xffff - 24 })
    );
    assert!(header.calc_checksum_ipv4(&[0; 4], &[0; 4], &payload[1..]).is_ok());
}
