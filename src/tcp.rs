use vstd::prelude::*;
use crate::be::{be16, be16_bytes, be32, be32_bytes, bit_set, flag_bit, lemma_byte_bits, bytes_equal, lemma_be16_round_trip, lemma_be32_round_trip, push_be_u16, push_be_u32, push_bytes, read_be_u16, read_be_u32};
use crate::checksum::{add_words, internet_checksum, ipv4_pseudo_header, ipv6_pseudo_header, lemma_fold_fold, lemma_sum16_concat, sum16};
use crate::error::{ChecksumMismatch, ErrorField, Layer, ReadError, UnexpectedEndOfSliceError, ValueError, WriteError};

verus! {

/// Smallest data offset: a header of 20 bytes without options.
pub const TCP_MINIMUM_DATA_OFFSET: u8 = 5;

/// Largest data offset: a header of 60 bytes with 40 bytes of options.
pub const TCP_MAXIMUM_DATA_OFFSET: u8 = 15;

/// Length in bytes of a TCP header without options.
pub const TCP_MINIMUM_HEADER_SIZE: usize = 20;

/// An owned TCP header.
#[derive(Clone, Copy, Debug)]
pub struct TcpHeader {
    pub source_port: u16,
    pub destination_port: u16,
    pub sequence_number: u32,
    pub acknowledgment_number: u32,
    /// Header length in 32-bit words; only 5 to 15 can be encoded.
    pub data_offset: u8,
    pub ns: bool,
    pub fin: bool,
    pub syn: bool,
    pub rst: bool,
    pub psh: bool,
    pub ack: bool,
    pub ece: bool,
    pub urg: bool,
    pub cwr: bool,
    pub window_size: u16,
    pub checksum: u16,
    pub urgent_pointer: u16,
    /// Option bytes; the first `data_offset * 4 - 20` of them are on the wire.
    pub options: [u8; 40],
}

/// Number of option bytes a header with data offset `d` carries.
pub open spec fn tcp_options_len(d: u8) -> int {
    d as int * 4 - TCP_MINIMUM_HEADER_SIZE
}

/// Byte 12: the data offset nibble, three reserved zero bits, and NS.
pub open spec fn tcp_offset_byte(h: TcpHeader) -> u8 {
    (h.data_offset as int * 16 + flag_bit(h.ns, 1)) as u8
}

/// Byte 13: CWR, ECE, URG, ACK, PSH, RST, SYN, FIN from the top bit down.
pub open spec fn tcp_flags_byte(h: TcpHeader) -> u8 {
    (flag_bit(h.cwr, 128) + flag_bit(h.ece, 64) + flag_bit(h.urg, 32) + flag_bit(h.ack, 16)
        + flag_bit(h.psh, 8) + flag_bit(h.rst, 4) + flag_bit(h.syn, 2) + flag_bit(h.fin, 1)) as u8
}

/// The bytes that encode `h` (meaningful when the data offset is 5 to 15).
pub open spec fn tcp_encoding(h: TcpHeader) -> Seq<u8> {
    be16_bytes(h.source_port) + be16_bytes(h.destination_port) + be32_bytes(h.sequence_number)
        + be32_bytes(h.acknowledgment_number) + seq![tcp_offset_byte(h), tcp_flags_byte(h)]
        + be16_bytes(h.window_size) + be16_bytes(h.checksum) + be16_bytes(h.urgent_pointer)
        + h.options@.subrange(0, tcp_options_len(h.data_offset))
}

/// The TCP checksum over IPv6 of `h` and `payload`: the internet checksum
/// of the pseudo-header, `h` encoded with a zero checksum field, and `payload`.
pub open spec fn tcp_checksum_ipv6(h: TcpHeader, source: Seq<u8>, destination: Seq<u8>, payload: Seq<u8>) -> u16 {
    let zeroed = TcpHeader { checksum: 0, ..h };
    internet_checksum(
        ipv6_pseudo_header(source, destination, (h.data_offset as int * 4 + payload.len()) as u32, 6)
            + tcp_encoding(zeroed) + payload,
    )
}

/// The TCP checksum over IPv4 of `h` and `payload`: the internet checksum
/// of the pseudo-header, `h` encoded with a zero checksum field, and `payload`.
pub open spec fn tcp_checksum_ipv4(h: TcpHeader, source: Seq<u8>, destination: Seq<u8>, payload: Seq<u8>) -> u16 {
    let zeroed = TcpHeader { checksum: 0, ..h };
    internet_checksum(
        ipv4_pseudo_header(source, destination, 6, (h.data_offset as int * 4 + payload.len()) as u16)
            + tcp_encoding(zeroed) + payload,
    )
}

/// The data offset nibble of a buffer holding a TCP header.
pub open spec fn tcp_data_offset_of(b: Seq<u8>) -> u8 {
    (b[12] / 16) as u8
}

/// A buffer starts with a readable TCP header: at least 20 bytes, a data
/// offset of at least 5, and as many bytes as the data offset declares.
pub open spec fn tcp_readable(b: Seq<u8>) -> bool {
    &&& b.len() >= TCP_MINIMUM_HEADER_SIZE
    &&& tcp_data_offset_of(b) >= TCP_MINIMUM_DATA_OFFSET
    &&& b.len() >= tcp_data_offset_of(b) as int * 4
}

/// The error that reading a TCP header from an unreadable buffer gives.
pub open spec fn tcp_read_error(b: Seq<u8>) -> ReadError {
    if b.len() < TCP_MINIMUM_HEADER_SIZE {
        ReadError::UnexpectedEndOfSlice(UnexpectedEndOfSliceError {
            expected_min_len: TCP_MINIMUM_HEADER_SIZE,
            actual_len: b.len() as usize,
            layer: Layer::TcpHeader,
        })
    } else if tcp_data_offset_of(b) < TCP_MINIMUM_DATA_OFFSET {
        ReadError::TcpDataOffsetTooSmall(tcp_data_offset_of(b))
    } else {
        ReadError::UnexpectedEndOfSlice(UnexpectedEndOfSliceError {
            expected_min_len: (tcp_data_offset_of(b) as int * 4) as usize,
            actual_len: b.len() as usize,
            layer: Layer::TcpHeader,
        })
    }
}

/// `h` holds exactly the fields that the header at the start of `b` carries,
/// with the option bytes past the header's length zero.
pub open spec fn tcp_decodes_to(b: Seq<u8>, h: TcpHeader) -> bool {
    let n = tcp_options_len(h.data_offset);
    &&& h.source_port == be16(b[0], b[1])
    &&& h.destination_port == be16(b[2], b[3])
    &&& h.sequence_number == be32(b[4], b[5], b[6], b[7])
    &&& h.acknowledgment_number == be32(b[8], b[9], b[10], b[11])
    &&& h.data_offset == tcp_data_offset_of(b)
    &&& h.ns == bit_set(b[12], 1)
    &&& h.cwr == bit_set(b[13], 128)
    &&& h.ece == bit_set(b[13], 64)
    &&& h.urg == bit_set(b[13], 32)
    &&& h.ack == bit_set(b[13], 16)
    &&& h.psh == bit_set(b[13], 8)
    &&& h.rst == bit_set(b[13], 4)
    &&& h.syn == bit_set(b[13], 2)
    &&& h.fin == bit_set(b[13], 1)
    &&& h.window_size == be16(b[14], b[15])
    &&& h.checksum == be16(b[16], b[17])
    &&& h.urgent_pointer == be16(b[18], b[19])
    &&& h.options@.subrange(0, n) == b.subrange(20, 20 + n)
    &&& forall|i: int| n <= i < 40 ==> h.options@[i] == 0
}

impl PartialEq for TcpHeader {
    fn eq(&self, o: &TcpHeader) -> (r: bool) {
        let same_options = bytes_equal(self.options.as_slice(), o.options.as_slice());
        proof {
            if same_options {
                assert(self.options =~= o.options);
            }
        }
        self.source_port == o.source_port && self.destination_port == o.destination_port
            && self.sequence_number == o.sequence_number && self.acknowledgment_number
            == o.acknowledgment_number && self.data_offset == o.data_offset && self.ns == o.ns
            && self.fin == o.fin && self.syn == o.syn && self.rst == o.rst && self.psh == o.psh
            && self.ack == o.ack && self.ece == o.ece && self.urg == o.urg && self.cwr == o.cwr
            && self.window_size == o.window_size && self.checksum == o.checksum
            && self.urgent_pointer == o.urgent_pointer && same_options
    }
}

impl vstd::std_specs::cmp::PartialEqSpecImpl for TcpHeader {
    open spec fn obeys_eq_spec() -> bool {
        true
    }

    open spec fn eq_spec(&self, o: &TcpHeader) -> bool {
        *self == *o
    }
}

impl Eq for TcpHeader {

}

impl Default for TcpHeader {
    /// A header without options: data offset 5, every other field zero.
    fn default() -> (r: TcpHeader)
        ensures
            r.source_port == 0 && r.destination_port == 0 && r.sequence_number == 0
                && r.acknowledgment_number == 0 && r.data_offset == TCP_MINIMUM_DATA_OFFSET,
            !r.ns && !r.fin && !r.syn && !r.rst && !r.psh && !r.ack && !r.ece && !r.urg && !r.cwr,
            r.window_size == 0 && r.checksum == 0 && r.urgent_pointer == 0,
            r.options@ == Seq::new(40, |_i: int| 0u8),
            r.is_valid(),
    {
        let r = TcpHeader {
            source_port: 0,
            destination_port: 0,
            sequence_number: 0,
            acknowledgment_number: 0,
            data_offset: TCP_MINIMUM_DATA_OFFSET,
            ns: false,
            fin: false,
            syn: false,
            rst: false,
            psh: false,
            ack: false,
            ece: false,
            urg: false,
            cwr: false,
            window_size: 0,
            checksum: 0,
            urgent_pointer: 0,
            options: [0u8; 40],
        };
        assert(r.options@ =~= Seq::new(40, |_i: int| 0u8));
        r
    }
}

impl TcpHeader {
    /// The data offset is one the 4-bit field can carry and at least 5.
    pub open spec fn has_encodable_offset(&self) -> bool {
        TCP_MINIMUM_DATA_OFFSET <= self.data_offset <= TCP_MAXIMUM_DATA_OFFSET
    }

    /// The header can be encoded and the option bytes past its length are
    /// zero, so that decoding its encoding gives it back.
    pub open spec fn is_valid(&self) -> bool {
        &&& self.has_encodable_offset()
        &&& forall|i: int| tcp_options_len(self.data_offset) <= i < 40 ==> self.options@[i] == 0
    }

    /// Length in bytes of the encoded header.
    pub fn header_len(&self) -> (r: usize)
        ensures
            r == self.data_offset as int * 4,
    {
        self.data_offset as usize * 4
    }

    /// Appends the encoded header to `out`, or leaves `out` untouched when the
    /// data offset is outside 5 to 15.
    pub fn write(&self, out: &mut Vec<u8>) -> (r: Result<(), WriteError>)
        ensures
            r is Ok <==> self.has_encodable_offset(),
            r is Ok ==> final(out)@ == old(out)@ + tcp_encoding(*self),
            r is Err ==> final(out)@ == old(out)@,
            r is Err ==> r == Err::<(), WriteError>(WriteError::ValueError(ValueError {
                field: ErrorField::TcpDataOffset,
                value: self.data_offset as u64,
                min: TCP_MINIMUM_DATA_OFFSET as u64,
                max: TCP_MAXIMUM_DATA_OFFSET as u64,
            })),
    {
        if self.data_offset < TCP_MINIMUM_DATA_OFFSET || self.data_offset > TCP_MAXIMUM_DATA_OFFSET {
            return Err(WriteError::ValueError(ValueError {
                field: ErrorField::TcpDataOffset,
                value: self.data_offset as u64,
                min: TCP_MINIMUM_DATA_OFFSET as u64,
                max: TCP_MAXIMUM_DATA_OFFSET as u64,
            }));
        }
        push_be_u16(out, self.source_port);
        push_be_u16(out, self.destination_port);
        push_be_u32(out, self.sequence_number);
        push_be_u32(out, self.acknowledgment_number);
        let d = self.data_offset;
        let ns: u8 = if self.ns { 1 } else { 0 };
        assert(d <= 15 && (ns == 0 || ns == 1) ==> (d << 4u8) | ns == d * 16 + ns) by (bit_vector);
        out.push((d << 4u8) | ns);
        out.push(self.flags_byte());
        push_be_u16(out, self.window_size);
        push_be_u16(out, self.checksum);
        push_be_u16(out, self.urgent_pointer);
        let n = self.header_len() - TCP_MINIMUM_HEADER_SIZE;
        push_bytes(out, vstd::slice::slice_subrange(self.options.as_slice(), 0, n));
        assert(out@ =~= old(out)@ + tcp_encoding(*self));
        Ok(())
    }

    /// Decodes a header from the start of `slice`, returning it together with
    /// the bytes that follow it. The data offset is checked before it is
    /// trusted as the header's length.
    pub fn from_slice(slice: &[u8]) -> (r: Result<(TcpHeader, &[u8]), ReadError>)
        ensures
            r is Ok <==> tcp_readable(slice@),
            r is Err ==> r->Err_0 == tcp_read_error(slice@),
            r is Ok ==> tcp_decodes_to(slice@, r->Ok_0.0) && r->Ok_0.0.is_valid() && r->Ok_0.1@
                == slice@.subrange(tcp_data_offset_of(slice@) as int * 4, slice@.len() as int),
    {
        match TcpHeaderSlice::from_slice(slice) {
            Err(e) => Err(e),
            Ok(view) => {
                let h = view.to_header();
                let len = view.slice().len();
                proof {
                    lemma_decode_prefix(slice@, len as int, h);
                }
                let rest = vstd::slice::slice_subrange(slice, len, slice.len());
                Ok((h, rest))
            },
        }
    }

    /// The checksum of this header over IPv6: the internet checksum of the
    /// pseudo-header, this header with its checksum field zero, and `payload`.
    pub fn calc_checksum_ipv6(&self, source: &[u8; 16], destination: &[u8; 16], payload: &[u8]) -> (r: Result<u16, ValueError>)
        ensures
            !self.has_encodable_offset() ==> r == Err::<u16, ValueError>(ValueError {
                field: ErrorField::TcpDataOffset,
                value: self.data_offset as u64,
                min: TCP_MINIMUM_DATA_OFFSET as u64,
                max: TCP_MAXIMUM_DATA_OFFSET as u64,
            }),
            self.has_encodable_offset() && payload@.len() > u32::MAX - self.data_offset as int * 4
                ==> r == Err::<u16, ValueError>(ValueError {
                field: ErrorField::TcpPayloadLength,
                value: payload.len() as u64,
                min: 0,
                max: (u32::MAX - self.data_offset as int * 4) as u64,
            }),
            r is Ok <==> self.has_encodable_offset() && payload@.len() <= u32::MAX
                - self.data_offset as int * 4,
            r is Ok ==> r->Ok_0 == tcp_checksum_ipv6(*self, source@, destination@, payload@),
    {
        if self.data_offset < TCP_MINIMUM_DATA_OFFSET || self.data_offset > TCP_MAXIMUM_DATA_OFFSET {
            return Err(ValueError {
                field: ErrorField::TcpDataOffset,
                value: self.data_offset as u64,
                min: TCP_MINIMUM_DATA_OFFSET as u64,
                max: TCP_MAXIMUM_DATA_OFFSET as u64,
            });
        }
        let hl = self.header_len();
        let max_payload = u32::MAX as usize - hl;
        if payload.len() > max_payload {
            return Err(ValueError {
                field: ErrorField::TcpPayloadLength,
                value: payload.len() as u64,
                min: 0,
                max: max_payload as u64,
            });
        }
        let mut buf: Vec<u8> = Vec::new();
        push_bytes(&mut buf, source.as_slice());
        push_bytes(&mut buf, destination.as_slice());
        push_be_u32(&mut buf, (hl + payload.len()) as u32);
        buf.push(0);
        buf.push(0);
        buf.push(0);
        buf.push(6);
        let zeroed = TcpHeader { checksum: 0, ..*self };
        let _ = zeroed.write(&mut buf);
        assert(buf@ =~= ipv6_pseudo_header(source@, destination@, (hl + payload@.len()) as u32, 6)
            + tcp_encoding(zeroed));
        let folded = add_words(0, buf.as_slice());
        let folded = add_words(folded, payload);
        proof {
            lemma_fold_fold(sum16(buf@) as int, sum16(payload@) as int);
            lemma_sum16_concat(buf@, payload@);
        }
        Ok(0xffff - folded)
    }

    /// The checksum of this header over IPv4: the internet checksum of the
    /// pseudo-header, this header with its checksum field zero, and `payload`.
    pub fn calc_checksum_ipv4(&self, source: &[u8; 4], destination: &[u8; 4], payload: &[u8]) -> (r: Result<u16, ValueError>)
        ensures
            !self.has_encodable_offset() ==> r == Err::<u16, ValueError>(ValueError {
                field: ErrorField::TcpDataOffset,
                value: self.data_offset as u64,
                min: TCP_MINIMUM_DATA_OFFSET as u64,
                max: TCP_MAXIMUM_DATA_OFFSET as u64,
            }),
            self.has_encodable_offset() && payload@.len() > u16::MAX - self.data_offset as int * 4
                ==> r == Err::<u16, ValueError>(ValueError {
                field: ErrorField::TcpPayloadLength,
                value: payload.len() as u64,
                min: 0,
                max: (u16::MAX - self.data_offset as int * 4) as u64,
            }),
            r is Ok <==> self.has_encodable_offset() && payload@.len() <= u16::MAX
                - self.data_offset as int * 4,
            r is Ok ==> r->Ok_0 == tcp_checksum_ipv4(*self, source@, destination@, payload@),
    {
        if self.data_offset < TCP_MINIMUM_DATA_OFFSET || self.data_offset > TCP_MAXIMUM_DATA_OFFSET {
            return Err(ValueError {
                field: ErrorField::TcpDataOffset,
                value: self.data_offset as u64,
                min: TCP_MINIMUM_DATA_OFFSET as u64,
                max: TCP_MAXIMUM_DATA_OFFSET as u64,
            });
        }
        let hl = self.header_len();
        let max_payload = u16::MAX as usize - hl;
        if payload.len() > max_payload {
            return Err(ValueError {
                field: ErrorField::TcpPayloadLength,
                value: payload.len() as u64,
                min: 0,
                max: max_payload as u64,
            });
        }
        let mut buf: Vec<u8> = Vec::new();
        push_bytes(&mut buf, source.as_slice());
        push_bytes(&mut buf, destination.as_slice());
        buf.push(0);
        buf.push(6);
        push_be_u16(&mut buf, (hl + payload.len()) as u16);
        let zeroed = TcpHeader { checksum: 0, ..*self };
        let _ = zeroed.write(&mut buf);
        assert(buf@ =~= ipv4_pseudo_header(source@, destination@, 6, (hl + payload@.len()) as u16)
            + tcp_encoding(zeroed));
        let folded = add_words(0, buf.as_slice());
        let folded = add_words(folded, payload);
        proof {
            lemma_fold_fold(sum16(buf@) as int, sum16(payload@) as int);
            lemma_sum16_concat(buf@, payload@);
        }
        Ok(0xffff - folded)
    }

    /// Compares the stored checksum with the one computed over IPv6; a
    /// mismatch is returned as a value, not as a failure.
    pub fn check_checksum_ipv6(&self, source: &[u8; 16], destination: &[u8; 16], payload: &[u8]) -> (r: Result<Option<ChecksumMismatch>, ValueError>)
        ensures
            r is Ok <==> self.has_encodable_offset() && payload@.len() <= u32::MAX
                - self.data_offset as int * 4,
            r is Ok ==> ({
                let computed = tcp_checksum_ipv6(*self, source@, destination@, payload@);
                r->Ok_0 == if computed == self.checksum {
                    None
                } else {
                    Some(ChecksumMismatch { layer: Layer::TcpHeader, expected: self.checksum, computed })
                }
            }),
            r is Err ==> r == Err::<Option<ChecksumMismatch>, ValueError>(
                self.calc_checksum_ipv6_error(payload@.len() as int),
            ),
    {
        match self.calc_checksum_ipv6(source, destination, payload) {
            Err(e) => Err(e),
            Ok(computed) => {
                if computed == self.checksum {
                    Ok(None)
                } else {
                    Ok(Some(ChecksumMismatch { layer: Layer::TcpHeader, expected: self.checksum, computed }))
                }
            },
        }
    }

    /// The error that computing the checksum reports, when it fails, for a
    /// payload of `len` bytes.
    pub open spec fn calc_checksum_ipv6_error(&self, len: int) -> ValueError {
        if !self.has_encodable_offset() {
            ValueError {
                field: ErrorField::TcpDataOffset,
                value: self.data_offset as u64,
                min: TCP_MINIMUM_DATA_OFFSET as u64,
                max: TCP_MAXIMUM_DATA_OFFSET as u64,
            }
        } else {
            ValueError {
                field: ErrorField::TcpPayloadLength,
                value: len as u64,
                min: 0,
                max: (u32::MAX - self.data_offset as int * 4) as u64,
            }
        }
    }

    /// Packs the eight one-bit flags of byte 13.
    fn flags_byte(&self) -> (r: u8)
        ensures
            r == tcp_flags_byte(*self),
    {
        let c: u8 = if self.cwr { 0x80 } else { 0 };
        let e: u8 = if self.ece { 0x40 } else { 0 };
        let u: u8 = if self.urg { 0x20 } else { 0 };
        let a: u8 = if self.ack { 0x10 } else { 0 };
        let p: u8 = if self.psh { 0x08 } else { 0 };
        let r: u8 = if self.rst { 0x04 } else { 0 };
        let s: u8 = if self.syn { 0x02 } else { 0 };
        let f: u8 = if self.fin { 0x01 } else { 0 };
        assert((c == 0 || c == 0x80) && (e == 0 || e == 0x40) && (u == 0 || u == 0x20) && (a == 0
            || a == 0x10) && (p == 0 || p == 0x08) && (r == 0 || r == 0x04) && (s == 0 || s == 0x02)
            && (f == 0 || f == 0x01) ==> c | e | u | a | p | r | s | f == c + e + u + a + p + r + s
            + f) by (bit_vector);
        c | e | u | a | p | r | s | f
    }
}


/// Each of the eight flag bits of a flags byte reads back as the flag that
/// set it.
proof fn lemma_flag_bits(c: u8, e: u8, u: u8, a: u8, p: u8, r: u8, s: u8, f: u8)
    requires
        c == 0 || c == 128,
        e == 0 || e == 64,
        u == 0 || u == 32,
        a == 0 || a == 16,
        p == 0 || p == 8,
        r == 0 || r == 4,
        s == 0 || s == 2,
        f == 0 || f == 1,
    ensures
        ({
            let t = (c + e + u + a + p + r + s + f) as u8;
            &&& ((t / 128) % 2 == 1 <==> c == 128)
            &&& ((t / 64) % 2 == 1 <==> e == 64)
            &&& ((t / 32) % 2 == 1 <==> u == 32)
            &&& ((t / 16) % 2 == 1 <==> a == 16)
            &&& ((t / 8) % 2 == 1 <==> p == 8)
            &&& ((t / 4) % 2 == 1 <==> r == 4)
            &&& ((t / 2) % 2 == 1 <==> s == 2)
            &&& ((t / 1) % 2 == 1 <==> f == 1)
        }),
{
    let t = (c + e + u + a + p + r + s + f) as u8;
    assert(
        (c == 0 || c == 128) && (e == 0 || e == 64) && (u == 0 || u == 32) && (a == 0 || a == 16)
        && (p == 0 || p == 8) && (r == 0 || r == 4) && (s == 0 || s == 2) && (f == 0 || f == 1)
        && t == (c + e + u + a + p + r + s + f) as u8 ==> ((t / 128) % 2 == 1 <==> c == 128) && ((t
        / 64) % 2 == 1 <==> e == 64) && ((t / 32) % 2 == 1 <==> u == 32) && ((t / 16) % 2 == 1
        <==> a == 16) && ((t / 8) % 2 == 1 <==> p == 8) && ((t / 4) % 2 == 1 <==> r == 4) && ((t
        / 2) % 2 == 1 <==> s == 2) && ((t / 1) % 2 == 1 <==> f == 1)) by (bit_vector);
}

/// The flags of a header read back from its flags byte.
proof fn lemma_flags_byte_decodes(h: TcpHeader)
    ensures
        h.cwr == bit_set(tcp_flags_byte(h), 128),
        h.ece == bit_set(tcp_flags_byte(h), 64),
        h.urg == bit_set(tcp_flags_byte(h), 32),
        h.ack == bit_set(tcp_flags_byte(h), 16),
        h.psh == bit_set(tcp_flags_byte(h), 8),
        h.rst == bit_set(tcp_flags_byte(h), 4),
        h.syn == bit_set(tcp_flags_byte(h), 2),
        h.fin == bit_set(tcp_flags_byte(h), 1),
{
    lemma_flag_bits(
        flag_bit(h.cwr, 128) as u8,
        flag_bit(h.ece, 64) as u8,
        flag_bit(h.urg, 32) as u8,
        flag_bit(h.ack, 16) as u8,
        flag_bit(h.psh, 8) as u8,
        flag_bit(h.rst, 4) as u8,
        flag_bit(h.syn, 2) as u8,
        flag_bit(h.fin, 1) as u8,
    );
}

/// Decoding reads only the bytes of the header itself.
proof fn lemma_decode_prefix(b: Seq<u8>, len: int, h: TcpHeader)
    requires
        TCP_MINIMUM_HEADER_SIZE <= len <= b.len(),
        h.data_offset as int * 4 == len,
        tcp_decodes_to(b.subrange(0, len), h),
    ensures
        tcp_decodes_to(b, h),
{
    let n = tcp_options_len(h.data_offset);
    assert(b.subrange(0, len).subrange(20, 20 + n) =~= b.subrange(20, 20 + n));
}

/// A read-only view of one TCP header, options included, inside a buffer.
#[derive(Clone, Copy, Debug, PartialEq, Eq)]
pub struct TcpHeaderSlice<'a> {
    slice: &'a [u8],
}

impl<'a> View for TcpHeaderSlice<'a> {
    type V = Seq<u8>;

    closed spec fn view(&self) -> Seq<u8> {
        self.slice@
    }
}

impl<'a> TcpHeaderSlice<'a> {
    /// The view covers exactly the header length its data offset declares,
    /// which is at least 5 words.
    #[verifier::type_invariant]
    spec fn inv(&self) -> bool {
        &&& self.slice@.len() >= TCP_MINIMUM_HEADER_SIZE
        &&& tcp_data_offset_of(self.slice@) >= TCP_MINIMUM_DATA_OFFSET
        &&& self.slice@.len() == tcp_data_offset_of(self.slice@) as int * 4
    }

    /// Checks the minimum length, then the data offset, then the declared
    /// length, and views the header at the start of `slice`.
    pub fn from_slice(slice: &'a [u8]) -> (r: Result<TcpHeaderSlice<'a>, ReadError>)
        ensures
            r is Ok <==> tcp_readable(slice@),
            r is Err ==> r->Err_0 == tcp_read_error(slice@),
            r is Ok ==> r->Ok_0@ == slice@.subrange(0, tcp_data_offset_of(slice@) as int * 4),
    {
        if slice.len() < TCP_MINIMUM_HEADER_SIZE {
            return Err(
                ReadError::UnexpectedEndOfSlice(UnexpectedEndOfSliceError {
                    expected_min_len: TCP_MINIMUM_HEADER_SIZE,
                    actual_len: slice.len(),
                    layer: Layer::TcpHeader,
                }),
            );
        }
        let b12 = slice[12];
        let d = b12 >> 4u8;
        proof {
            lemma_byte_bits(b12);
        }
        if d < TCP_MINIMUM_DATA_OFFSET {
            return Err(ReadError::TcpDataOffsetTooSmall(d));
        }
        let len = d as usize * 4;
        if slice.len() < len {
            return Err(
                ReadError::UnexpectedEndOfSlice(UnexpectedEndOfSliceError {
                    expected_min_len: len,
                    actual_len: slice.len(),
                    layer: Layer::TcpHeader,
                }),
            );
        }
        let view = TcpHeaderSlice { slice: vstd::slice::slice_subrange(slice, 0, len) };
        Ok(view)
    }

    /// The bytes of the header, options included.
    pub fn slice(&self) -> (r: &'a [u8])
        ensures
            r@ == self@,
            r@.len() == tcp_data_offset_of(self@) as int * 4,
            tcp_data_offset_of(self@) >= TCP_MINIMUM_DATA_OFFSET,
    {
        proof {
            use_type_invariant(self);
        }
        self.slice
    }

    /// The source port.
    pub fn source_port(&self) -> (r: u16)
        ensures
            r == be16(self@[0], self@[1]),
    {
        proof {
            use_type_invariant(self);
        }
        read_be_u16(self.slice, 0)
    }

    /// The destination port.
    pub fn destination_port(&self) -> (r: u16)
        ensures
            r == be16(self@[2], self@[3]),
    {
        proof {
            use_type_invariant(self);
        }
        read_be_u16(self.slice, 2)
    }

    /// The window size.
    pub fn window_size(&self) -> (r: u16)
        ensures
            r == be16(self@[14], self@[15]),
    {
        proof {
            use_type_invariant(self);
        }
        read_be_u16(self.slice, 14)
    }

    /// The checksum field as stored.
    pub fn checksum(&self) -> (r: u16)
        ensures
            r == be16(self@[16], self@[17]),
    {
        proof {
            use_type_invariant(self);
        }
        read_be_u16(self.slice, 16)
    }

    /// The urgent pointer.
    pub fn urgent_pointer(&self) -> (r: u16)
        ensures
            r == be16(self@[18], self@[19]),
    {
        proof {
            use_type_invariant(self);
        }
        read_be_u16(self.slice, 18)
    }

    /// The sequence number.
    pub fn sequence_number(&self) -> (r: u32)
        ensures
            r == be32(self@[4], self@[5], self@[6], self@[7]),
    {
        proof {
            use_type_invariant(self);
        }
        read_be_u32(self.slice, 4)
    }

    /// The acknowledgment number.
    pub fn acknowledgment_number(&self) -> (r: u32)
        ensures
            r == be32(self@[8], self@[9], self@[10], self@[11]),
    {
        proof {
            use_type_invariant(self);
        }
        read_be_u32(self.slice, 8)
    }

    /// The data offset: the header length in 32-bit words, 5 to 15.
    pub fn data_offset(&self) -> (r: u8)
        ensures
            r == tcp_data_offset_of(self@),
            TCP_MINIMUM_DATA_OFFSET <= r <= TCP_MAXIMUM_DATA_OFFSET,
    {
        proof {
            use_type_invariant(self);
        }
        let b12 = self.slice[12];
        proof {
            lemma_byte_bits(b12);
        }
        b12 >> 4u8
    }

    /// The NS flag (ECN-nonce).
    pub fn ns(&self) -> (r: bool)
        ensures
            r == bit_set(self@[12], 1),
    {
        proof {
            use_type_invariant(self);
        }
        let b = self.slice[12];
        proof {
            lemma_byte_bits(b);
        }
        b & 0x1 != 0
    }

    /// The CWR flag (congestion window reduced).
    pub fn cwr(&self) -> (r: bool)
        ensures
            r == bit_set(self@[13], 128),
    {
        proof {
            use_type_invariant(self);
        }
        let b = self.slice[13];
        proof {
            lemma_byte_bits(b);
        }
        b & 0x80 != 0
    }

    /// The ECE flag (ECN-echo).
    pub fn ece(&self) -> (r: bool)
        ensures
            r == bit_set(self@[13], 64),
    {
        proof {
            use_type_invariant(self);
        }
        let b = self.slice[13];
        proof {
            lemma_byte_bits(b);
        }
        b & 0x40 != 0
    }

    /// The URG flag (urgent pointer significant).
    pub fn urg(&self) -> (r: bool)
        ensures
            r == bit_set(self@[13], 32),
    {
        proof {
            use_type_invariant(self);
        }
        let b = self.slice[13];
        proof {
            lemma_byte_bits(b);
        }
        b & 0x20 != 0
    }

    /// The ACK flag (acknowledgment number significant).
    pub fn ack(&self) -> (r: bool)
        ensures
            r == bit_set(self@[13], 16),
    {
        proof {
            use_type_invariant(self);
        }
        let b = self.slice[13];
        proof {
            lemma_byte_bits(b);
        }
        b & 0x10 != 0
    }

    /// The PSH flag (push).
    pub fn psh(&self) -> (r: bool)
        ensures
            r == bit_set(self@[13], 8),
    {
        proof {
            use_type_invariant(self);
        }
        let b = self.slice[13];
        proof {
            lemma_byte_bits(b);
        }
        b & 0x8 != 0
    }

    /// The RST flag (reset).
    pub fn rst(&self) -> (r: bool)
        ensures
            r == bit_set(self@[13], 4),
    {
        proof {
            use_type_invariant(self);
        }
        let b = self.slice[13];
        proof {
            lemma_byte_bits(b);
        }
        b & 0x4 != 0
    }

    /// The SYN flag (synchronize sequence numbers).
    pub fn syn(&self) -> (r: bool)
        ensures
            r == bit_set(self@[13], 2),
    {
        proof {
            use_type_invariant(self);
        }
        let b = self.slice[13];
        proof {
            lemma_byte_bits(b);
        }
        b & 0x2 != 0
    }

    /// The FIN flag (no more data from sender).
    pub fn fin(&self) -> (r: bool)
        ensures
            r == bit_set(self@[13], 1),
    {
        proof {
            use_type_invariant(self);
        }
        let b = self.slice[13];
        proof {
            lemma_byte_bits(b);
        }
        b & 0x1 != 0
    }

    /// The option bytes that follow the first 20 bytes.
    pub fn options(&self) -> (r: &'a [u8])
        ensures
            r@ == self@.subrange(TCP_MINIMUM_HEADER_SIZE as int, self@.len() as int),
            r@.len() <= 40,
    {
        proof {
            use_type_invariant(self);
        }
        vstd::slice::slice_subrange(self.slice, TCP_MINIMUM_HEADER_SIZE, self.slice.len())
    }

    /// Decodes every field into an owned header.
    pub fn to_header(&self) -> (r: TcpHeader)
        ensures
            tcp_decodes_to(self@, r),
            r.is_valid(),
    {
        proof {
            use_type_invariant(self);
        }
        let opts = self.options();
        let n = opts.len();
        let mut options = [0u8; 40];
        let mut i: usize = 0;
        while i < n
            invariant
                n == opts@.len(),
                n <= 40,
                i <= n,
                options@.len() == 40,
                forall|k: int| 0 <= k < i ==> options@[k] == opts@[k],
                forall|k: int| n <= k < 40 ==> options@[k] == 0,
            decreases n - i,
        {
            options[i] = opts[i];
            i = i + 1;
        }
        let h = TcpHeader {
            source_port: self.source_port(),
            destination_port: self.destination_port(),
            sequence_number: self.sequence_number(),
            acknowledgment_number: self.acknowledgment_number(),
            data_offset: self.data_offset(),
            ns: self.ns(),
            fin: self.fin(),
            syn: self.syn(),
            rst: self.rst(),
            psh: self.psh(),
            ack: self.ack(),
            ece: self.ece(),
            urg: self.urg(),
            cwr: self.cwr(),
            window_size: self.window_size(),
            checksum: self.checksum(),
            urgent_pointer: self.urgent_pointer(),
            options,
        };
        assert(h.options@.subrange(0, n as int) =~= opts@);
        h
    }
}

/// Decoding the encoding of a valid header gives back exactly that header,
/// and the encoding is `data_offset * 4` bytes long.
pub proof fn lemma_tcp_round_trip(h: TcpHeader)
    requires
        h.is_valid(),
    ensures
        tcp_encoding(h).len() == h.data_offset as int * 4,
        tcp_data_offset_of(tcp_encoding(h)) == h.data_offset,
        forall|g: TcpHeader| tcp_decodes_to(tcp_encoding(h), g) <==> g == h,
{
    let e = tcp_encoding(h);
    let d = h.data_offset;
    let ns: u8 = if h.ns { 1 } else { 0 };
    assert(e[12] == tcp_offset_byte(h));
    assert(e[13] == tcp_flags_byte(h));
    assert(tcp_offset_byte(h) == (d * 16 + ns) as u8);
    assert(d <= 15 && (ns == 0 || ns == 1) ==> ((d * 16 + ns) as u8) / 16 == d && (((d * 16 + ns)
        as u8) / 1) % 2 == ns) by (bit_vector);
    lemma_flags_byte_decodes(h);
    lemma_be16_round_trip(h.source_port);
    lemma_be16_round_trip(h.destination_port);
    lemma_be32_round_trip(h.sequence_number);
    lemma_be32_round_trip(h.acknowledgment_number);
    lemma_be16_round_trip(h.window_size);
    lemma_be16_round_trip(h.checksum);
    lemma_be16_round_trip(h.urgent_pointer);
    let n = tcp_options_len(d);
    assert(e.subrange(20, 20 + n) =~= h.options@.subrange(0, n));
    assert(tcp_decodes_to(e, h));
    assert forall|g: TcpHeader| tcp_decodes_to(e, g) implies g == h by {
        assert(g.options@.subrange(0, n) =~= h.options@.subrange(0, n));
        assert forall|i: int| 0 <= i < 40 implies g.options@[i] == h.options@[i] by {
            if i < n {
                assert(g.options@.subrange(0, n)[i] == h.options@.subrange(0, n)[i]);
            }
        }
        assert(g.options =~= h.options);
    }
}


/// Every prefix of a valid encoding shorter than 20 bytes is too short to
/// read, and reading it reports the 20 bytes needed and the prefix's length.
pub proof fn lemma_tcp_truncation(h: TcpHeader, len: int)
    requires
        h.is_valid(),
        0 <= len < TCP_MINIMUM_HEADER_SIZE,
    ensures
        !tcp_readable(tcp_encoding(h).subrange(0, len)),
        tcp_read_error(tcp_encoding(h).subrange(0, len)) == ReadError::UnexpectedEndOfSlice(
            UnexpectedEndOfSliceError {
                expected_min_len: TCP_MINIMUM_HEADER_SIZE,
                actual_len: len as usize,
                layer: Layer::TcpHeader,
            },
        ),
{
    lemma_tcp_round_trip(h);
}

/// Byte 12 of a TCP header with its data offset nibble replaced by `d`.
pub open spec fn tcp_with_data_offset(b12: u8, d: u8) -> u8 {
    (b12 & 0xf) | (d << 4u8)
}

/// Overwriting the data offset nibble of a buffer with `d` makes the buffer
/// declare data offset `d`, leaving the NS bit in place.
pub proof fn lemma_tcp_data_offset_overwrite(b: Seq<u8>, d: u8)
    requires
        b.len() >= TCP_MINIMUM_HEADER_SIZE,
        d < 16,
    ensures
        tcp_data_offset_of(b.update(12, tcp_with_data_offset(b[12], d))) == d,
        bit_set(b.update(12, tcp_with_data_offset(b[12], d))[12], 1) == bit_set(b[12], 1),
        d < TCP_MINIMUM_DATA_OFFSET ==> !tcp_readable(b.update(12, tcp_with_data_offset(b[12], d))),
        d < TCP_MINIMUM_DATA_OFFSET ==> tcp_read_error(b.update(12, tcp_with_data_offset(b[12], d)))
            == ReadError::TcpDataOffsetTooSmall(d),
{
    let b12 = b[12];
    assert(d < 16 ==> (((b12 & 0xf) | (d << 4u8)) / 16) as u8 == d) by (bit_vector);
    assert((((b12 & 0xf) | (d << 4u8)) / 1) % 2 == (b12 / 1) % 2) by (bit_vector);
}

/// Changing the eight flags of byte 13, keeping every other field, changes
/// exactly byte 13 of the encoding; if any flag differs, the header and
/// that byte both differ.
pub proof fn lemma_tcp_flags_independent(h: TcpHeader, g: TcpHeader)
    requires
        h.has_encodable_offset(),
        g.source_port == h.source_port,
        g.destination_port == h.destination_port,
        g.sequence_number == h.sequence_number,
        g.acknowledgment_number == h.acknowledgment_number,
        g.data_offset == h.data_offset,
        g.ns == h.ns,
        g.window_size == h.window_size,
        g.checksum == h.checksum,
        g.urgent_pointer == h.urgent_pointer,
        g.options == h.options,
    ensures
        tcp_encoding(g) == tcp_encoding(h).update(13, tcp_flags_byte(g)),
        (g.fin != h.fin || g.syn != h.syn || g.rst != h.rst || g.psh != h.psh || g.ack != h.ack
            || g.ece != h.ece || g.urg != h.urg || g.cwr != h.cwr) ==> g != h
            && tcp_encoding(g)[13] != tcp_encoding(h)[13],
{
    lemma_flags_byte_decodes(h);
    lemma_flags_byte_decodes(g);
    assert(tcp_encoding(g) =~= tcp_encoding(h).update(13, tcp_flags_byte(g)));
}

} // verus!
