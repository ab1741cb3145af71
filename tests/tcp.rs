use etherparse::error::{ErrorField, Layer, ReadError, UnexpectedEndOfSliceError, ValueError, WriteError};
use etherparse::tcp::{TcpHeader, TCP_MAXIMUM_DATA_OFFSET, TCP_MINIMUM_DATA_OFFSET};

fn sample_header(data_offset: u8) -> TcpHeader {
    let mut options = [0u8; 40];
    let n = data_offset as usize * 4 - 20;
    for (i, o) in options.iter_mut().enumerate().take(n) {
        *o = (i as u8) + 1;
    }
    TcpHeader {
        source_port: 0x1234,
        destination_port: 0x5678,
        sequence_number: 0x9abc_def0,
        acknowledgment_number: 0x0102_0304,
        data_offset,
        ns: true,
        fin: true,
        syn: false,
        rst: true,
        psh: false,
        ack: true,
        ece: false,
        urg: true,
        cwr: false,
        window_size: 0xfffe,
        checksum: 0xbeef,
        urgent_pointer: 0x0a0b,
        options,
    }
}

#[test]
fn read_write() {
    for data_offset in TCP_MINIMUM_DATA_OFFSET..=TCP_MAXIMUM_DATA_OFFSET {
        let input = sample_header(data_offset);
        let mut buffer: Vec<u8> = Vec::with_capacity(20);
        input.write(&mut buffer).unwrap();
        assert_eq!(input.data_offset as usize * 4, buffer.len());
        let (result, rest) = TcpHeader::from_slice(&buffer).unwrap();
        assert_eq!(input, result);
        assert!(rest.is_empty());
    }
}

#[test]
fn tcp_encoding_layout() {
    let input = sample_header(6);
    let mut buffer: Vec<u8> = Vec::new();
    input.write(&mut buffer).unwrap();
    assert_eq!(
        buffer,
        vec![
            0x12, 0x34, 0x56, 0x78, 0x9a, 0xbc, 0xde, 0xf0, 0x01, 0x02, 0x03, 0x04, 0x61,
            0b0011_0101, 0xff, 0xfe, 0xbe, 0xef, 0x0a, 0x0b, 1, 2, 3, 4
        ]
    );
}

#[test]
fn write_data_offset_too_small() {
    for data_offset in 0..TCP_MINIMUM_DATA_OFFSET {
        let mut input = sample_header(5);
        input.data_offset = data_offset;
        let mut buffer: Vec<u8> = Vec::with_capacity(20);
        assert_eq!(
            input.write(&mut buffer),
            Err(WriteError::ValueError(ValueError {
                field: ErrorField::TcpDataOffset,
                value: data_offset as u64,
                min: 5,
                max: 15,
            }))
        );
        assert_eq!(0, buffer.len());
    }
}

#[test]
fn write_data_offset_too_large() {
    for data_offset in (TCP_MAXIMUM_DATA_OFFSET + 1)..255 {
        let mut input = sample_header(5);
        input.data_offset = data_offset;
        let mut buffer: Vec<u8> = Vec::with_capacity(20);
        assert!(matches!(input.write(&mut buffer), Err(WriteError::ValueError(_))));
        assert_eq!(0, buffer.len());
    }
}

#[test]
fn read_data_offset_too_small() {
    for data_offset in 0..TCP_MINIMUM_DATA_OFFSET {
        let input = sample_header(5);
        let mut buffer: Vec<u8> = Vec::with_capacity(20);
        input.write(&mut buffer).unwrap();
        buffer[12] = (buffer[12] & 0xf) | ((data_offset << 4) & 0xf0);
        assert_eq!(
            TcpHeader::from_slice(&buffer),
            Err(ReadError::TcpDataOffsetTooSmall(data_offset))
        );
    }
}

#[test]
fn read_too_short() {
    let input = sample_header(7);
    let mut buffer: Vec<u8> = Vec::new();
    input.write(&mut buffer).unwrap();
    for len in 0..20 {
        assert_eq!(
            TcpHeader::from_slice(&buffer[..len]),
            Err(ReadError::UnexpectedEndOfSlice(UnexpectedEndOfSliceError {
                expected_min_len: 20,
                actual_len: len,
                layer: Layer::TcpHeader,
            }))
        );
    }
    for len in 20..28 {
        assert_eq!(
            TcpHeader::from_slice(&buffer[..len]),
            Err(ReadError::UnexpectedEndOfSlice(UnexpectedEndOfSliceError {
                expected_min_len: 28,
                actual_len: len,
                layer: Layer::TcpHeader,
            }))
        );
    }
}

#[test]
fn source_port_eighty() {
    let mut bytes = [0u8; 20];
    bytes[12] = 0x50;
    bytes[0] = 0x00;
    bytes[1] = 0x50;
    let (header, rest) = TcpHeader::from_slice(&bytes).unwrap();
    assert_eq!(header.source_port, 80);
    assert_eq!(header.data_offset, 5);
    assert!(!header.ns);
    assert_eq!(header.options, [0u8; 40]);
    assert!(rest.is_empty());
    let mut expected = TcpHeader::default();
    expected.source_port = 80;
    assert_eq!(header, expected);
}

#[test]
fn flag_changes_one_encoded_byte() {
    let base = sample_header(5);
    let mut a: Vec<u8> = Vec::new();
    base.write(&mut a).unwrap();
    let mut other = base;
    other.syn = !other.syn;
    assert_ne!(other, base);
    let mut b: Vec<u8> = Vec::new();
    other.write(&mut b).unwrap();
    let differing: Vec<usize> = (0..20).filter(|&i| a[i] != b[i]).collect();
    assert_eq!(differing, vec![13]);
    assert_eq!(a[13] ^ b[13], 0x02);
}

#[test]
fn eq() {
    let base = TcpHeader {
        source_port: 1,
        destination_port: 2,
        sequence_number: 3,
        acknowledgment_number: 4,
        data_offset: 5,
        ns: false,
        fin: false,
        syn: false,
        rst: false,
        psh: false,
        ack: false,
        ece: false,
        urg: false,
        cwr: false,
        window_size: 6,
        checksum: 7,
        urgent_pointer: 8,
        options: [0; 40],
    };
    //equal
    {
        let other = base.clone();
        assert_eq!(other, base);
    }
    //change every field and check for neq
    {
        let mut other = base.clone();
        other.source_port = 10;
        assert_ne!(other, base);
    }
    {
        let mut other = base.clone();
        other.destination_port = 10;
        assert_ne!(other, base);
    }
    {
        let mut other = base.clone();
        other.sequence_number = 10;
        assert_ne!(other, base);
    }
    {
        let mut other = base.clone();
        other.acknowledgment_number = 10;
        assert_ne!(other, base);
    }
    {
        let mut other = base.clone();
        other.data_offset = 10;
        assert_ne!(other, base);
    }
    {
        let mut other = base.clone();
        other.ns = true;
        assert_ne!(other, base);
    }
    {
        let mut other = base.clone();
        other.fin = true;
        assert_ne!(other, base);
    }
    {
        let mut other = base.clone();
        other.syn = true;
        assert_ne!(other, base);
    }
    {
        let mut other = base.clone();
        other.rst = true;
        assert_ne!(other, base);
    }
    {
        let mut other = base.clone();
        other.psh = true;
        assert_ne!(other, base);
    }
    {
        let mut other = base.clone();
        other.ack = true;
        assert_ne!(other, base);
    }
    {
        let mut other = base.clone();
        other.ece = true;
        assert_ne!(other, base);
    }
    {
        let mut other = base.clone();
        other.urg = true;
        assert_ne!(other, base);
    }
    {
        let mut other = base.clone();
        other.cwr = true;
        assert_ne!(other, base);
    }
    {
        let mut other = base.clone();
        other.window_size = 10;
        assert_ne!(other, base);
    }
    {
        let mut other = base.clone();
        other.checksum = 10;
        assert_ne!(other, base);
    }
    {
        let mut other = base.clone();
        other.urgent_pointer = 10;
        assert_ne!(other, base);
    }
    //options (first element)
    {
        let mut other = base.clone();
        other.options[0] = 10;
        assert_ne!(other, base);
    }
    //options (last element)
    {
        let mut other = base.clone();
        other.options[39] = 10;
        assert_ne!(other, base);
    }
}
