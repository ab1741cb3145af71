use etherparse::error::{ErrorField, Layer, ReadError, UnexpectedEndOfSliceError, ValueError, WriteError};
use etherparse::ipv6::{Ipv6Header, Ipv6HeaderSlice};

fn sample_header() -> Ipv6Header {
    Ipv6Header {
        traffic_class: 0xa5,
        flow_label: 0xb_cdef,
        payload_length: 0x1234,
        next_header: 6,
        hop_limit: 64,
        source: [1, 2, 3, 4, 5, 6, 7, 8, 9, 10, 11, 12, 13, 14, 15, 16],
        destination: [
            0xf0, 0xf1, 0xf2, 0xf3, 0xf4, 0xf5, 0xf6, 0xf7, 0xf8, 0xf9, 0xfa, 0xfb, 0xfc, 0xfd,
            0xfe, 0xff,
        ],
    }
}

#[test]
fn debug() {
    let header: Ipv6Header = Default::default();
    let bytes = header.to_bytes().unwrap();
    let slice = Ipv6HeaderSlice::from_slice(&bytes).unwrap();
    assert_eq!(
        format!("{:?}", slice),
        format!("Ipv6HeaderSlice {{ slice: {:?} }}", &bytes[..])
    );
}

#[test]
fn clone_eq() {
    let bytes = sample_header().to_bytes().unwrap();
    let slice = Ipv6HeaderSlice::from_slice(&bytes).unwrap();
    assert_eq!(slice.clone(), slice);
}

#[test]
fn ipv6_encoding_layout() {
    let bytes = sample_header().to_bytes().unwrap();
    assert_eq!(bytes.len(), 40);
    assert_eq!(&bytes[..8], &[0x6a, 0x5b, 0xcd, 0xef, 0x12, 0x34, 6, 64]);
    assert_eq!(&bytes[8..24], &sample_header().source[..]);
    assert_eq!(&bytes[24..40], &sample_header().destination[..]);
}

#[test]
fn from_slice() {
    let header = sample_header();
    // ok read, also with trailing bytes that are not part of the header
    {
        let mut bytes = header.to_bytes().unwrap();
        let actual = Ipv6HeaderSlice::from_slice(&bytes).unwrap();
        assert_eq!(actual.slice(), &bytes[..]);
        bytes.push(0x99);
        let actual = Ipv6HeaderSlice::from_slice(&bytes).unwrap();
        assert_eq!(actual.slice(), &bytes[..40]);
    }
    // version error, for every other version
    for bad_version in 0..=0b1111u8 {
        if bad_version != 6 {
            let mut bytes = header.to_bytes().unwrap();
            bytes[0] = (0b1111 & bytes[0]) | (bad_version << 4);
            assert_eq!(
                Ipv6HeaderSlice::from_slice(&bytes),
                Err(ReadError::Ipv6UnexpectedVersion(bad_version))
            );
        }
    }
    // length error
    {
        let bytes = header.to_bytes().unwrap();
        for len in 0..bytes.len() {
            assert_eq!(
                Ipv6HeaderSlice::from_slice(&bytes[..len])
                    .unwrap_err()
                    .unexpected_end_of_slice()
                    .unwrap(),
                UnexpectedEndOfSliceError {
                    expected_min_len: Ipv6Header::LEN,
                    actual_len: len,
                    layer: Layer::Ipv6Header,
                }
            );
        }
    }
}

#[test]
fn getters() {
    let header = sample_header();
    let bytes = header.to_bytes().unwrap();
    let actual = Ipv6HeaderSlice::from_slice(&bytes).unwrap();
    assert_eq!(actual.slice(), &bytes[..]);
    assert_eq!(actual.version(), 6);
    assert_eq!(actual.traffic_class(), header.traffic_class);
    assert_eq!(actual.flow_label(), header.flow_label);
    assert_eq!(actual.payload_length(), header.payload_length);
    assert_eq!(actual.next_header(), header.next_header);
    assert_eq!(actual.hop_limit(), header.hop_limit);
    assert_eq!(actual.source(), header.source);
    assert_eq!(actual.destination(), header.destination);
}

#[test]
fn to_header() {
    let header = sample_header();
    let bytes = header.to_bytes().unwrap();
    let actual = Ipv6HeaderSlice::from_slice(&bytes).unwrap();
    assert_eq!(actual.to_header(), header);
}

#[test]
fn header_round_trip_with_rest() {
    let header = sample_header();
    let mut bytes = header.to_bytes().unwrap();
    bytes.extend_from_slice(&[7, 8, 9]);
    let (decoded, rest) = Ipv6Header::from_slice(&bytes).unwrap();
    assert_eq!(decoded, header);
    assert_eq!(rest, &[7, 8, 9]);
}

#[test]
fn all_zero_with_version_six() {
    let mut bytes = [0u8; 40];
    bytes[0] = 0x60;
    let view = Ipv6HeaderSlice::from_slice(&bytes).unwrap();
    assert_eq!(view.version(), 6);
    assert_eq!(view.traffic_class(), 0);
    assert_eq!(view.flow_label(), 0);
    assert_eq!(view.next_header(), 0);
    assert_eq!(view.source(), [0u8; 16]);
    assert_eq!(view.destination(), [0u8; 16]);
    assert_eq!(view.to_header(), Ipv6Header::default());
}

#[test]
fn flow_label_too_large() {
    let mut header = sample_header();
    header.flow_label = 0x10_0000;
    let expected = ValueError {
        field: ErrorField::Ipv6FlowLabel,
        value: 0x10_0000,
        min: 0,
        max: 0xf_ffff,
    };
    assert_eq!(header.to_bytes(), Err(expected));
    let mut out = vec![1u8, 2];
    assert_eq!(header.write(&mut out), Err(WriteError::ValueError(expected)));
    assert_eq!(out, vec![1u8, 2]);
}

#[test]
fn write_appends() {
    let header = sample_header();
    let mut out = vec![0xaau8];
    header.write(&mut out).unwrap();
    assert_eq!(out.len(), 41);
    assert_eq!(&out[1..], &header.to_bytes().unwrap()[..]);
}

#[test]
fn address_byte_changes_one_encoded_byte() {
    let base = sample_header();
    let mut other = base;
    other.source[3] ^= 0xff;
    assert_ne!(other, base);
    let a = base.to_bytes().unwrap();
    let b = other.to_bytes().unwrap();
    let differing: Vec<usize> = (0..40).filter(|&i| a[i] != b[i]).collect();
    assert_eq!(differing, vec![11]);
}
