use vstd::prelude::*;
use crate::be::{be16, be16_bytes, bit_set, flag_bit, bytes_equal, lemma_byte_bits, lemma_be16_round_trip, push_be_u16, push_bytes, read_be_u16};
use crate::checksum::{add_words, internet_checksum};
use crate::error::{ErrorField, Layer, ReadError, UnexpectedEndOfSliceError, ValueError, WriteError};

verus! {

/// Length in bytes of an IPv4 header without options.
pub const IPV4_MIN_HEADER_LEN: usize = 20;

/// Smallest header length field: 5 words, no options.
pub const IPV4_MIN_IHL: u8 = 5;

/// Largest number of option bytes.
pub const IPV4_MAX_OPTIONS_LEN: u8 = 40;

/// Largest 6-bit differentiated services code point.
pub const IPV4_MAX_DSCP: u8 = 0x3f;

/// Largest 2-bit explicit congestion notification.
pub const IPV4_MAX_ECN: u8 = 3;

/// Largest 13-bit fragment offset.
pub const IPV4_MAX_FRAGMENT_OFFSET: u16 = 0x1fff;

/// Version nibble: the top four bits of byte 0.
pub open spec fn ipv4_version_of(b: Seq<u8>) -> u8 {
    (b[0] / 16) as u8
}

/// Header length in 32-bit words: the low four bits of byte 0.
pub open spec fn ipv4_ihl_of(b: Seq<u8>) -> u8 {
    (b[0] % 16) as u8
}

/// A buffer starts with a readable IPv4 header: at least 20 bytes, version
/// 4, a header length of at least 5 words, and as many bytes as it declares.
pub open spec fn ipv4_readable(b: Seq<u8>) -> bool {
    &&& b.len() >= IPV4_MIN_HEADER_LEN
    &&& ipv4_version_of(b) == 4
    &&& ipv4_ihl_of(b) >= IPV4_MIN_IHL
    &&& b.len() >= ipv4_ihl_of(b) as int * 4
}

/// The error that reading an IPv4 header from an unreadable buffer gives.
pub open spec fn ipv4_read_error(b: Seq<u8>) -> ReadError {
    if b.len() < IPV4_MIN_HEADER_LEN {
        ReadError::UnexpectedEndOfSlice(UnexpectedEndOfSliceError {
            expected_min_len: IPV4_MIN_HEADER_LEN,
            actual_len: b.len() as usize,
            layer: Layer::Ipv4Header,
        })
    } else if ipv4_version_of(b) != 4 {
        ReadError::Ipv4UnexpectedVersion(ipv4_version_of(b))
    } else if ipv4_ihl_of(b) < IPV4_MIN_IHL {
        ReadError::Ipv4HeaderLengthTooSmall(ipv4_ihl_of(b))
    } else {
        ReadError::UnexpectedEndOfSlice(UnexpectedEndOfSliceError {
            expected_min_len: (ipv4_ihl_of(b) as int * 4) as usize,
            actual_len: b.len() as usize,
            layer: Layer::Ipv4Header,
        })
    }
}

/// An owned IPv4 header, options included.
#[derive(Clone, Copy, Debug)]
pub struct Ipv4Header {
    /// 6-bit differentiated services code point.
    pub dscp: u8,
    /// 2-bit explicit congestion notification.
    pub ecn: u8,
    /// Length of header and payload in bytes.
    pub total_length: u16,
    pub identification: u16,
    pub dont_fragment: bool,
    pub more_fragments: bool,
    /// 13-bit fragment offset, in units of 8 bytes.
    pub fragment_offset: u16,
    pub time_to_live: u8,
    /// Protocol number of the payload.
    pub protocol: u8,
    pub header_checksum: u16,
    pub source: [u8; 4],
    pub destination: [u8; 4],
    /// Number of option bytes in use: a multiple of 4, at most 40.
    pub options_len: u8,
    /// Option bytes; the first `options_len` of them are on the wire.
    pub options: [u8; 40],
}

/// Byte 0: version 4 and the header length in words.
pub open spec fn ipv4_byte0(h: Ipv4Header) -> u8 {
    (0x40 + (IPV4_MIN_IHL as int + h.options_len as int / 4)) as u8
}

/// Byte 6: a zero reserved bit, the two fragmentation flags, and the top five
/// bits of the fragment offset.
pub open spec fn ipv4_byte6(h: Ipv4Header) -> u8 {
    (flag_bit(h.dont_fragment, 64) + flag_bit(h.more_fragments, 32) + h.fragment_offset as int / 256)
        as u8
}

/// The bytes that encode `h` (meaningful when `h.is_encodable()`).
pub open spec fn ipv4_encoding(h: Ipv4Header) -> Seq<u8> {
    seq![ipv4_byte0(h), (h.dscp as int * 4 + h.ecn as int) as u8] + be16_bytes(h.total_length)
        + be16_bytes(h.identification) + seq![ipv4_byte6(h), (h.fragment_offset % 256) as u8,
        h.time_to_live, h.protocol] + be16_bytes(h.header_checksum) + h.source@ + h.destination@
        + h.options@.subrange(0, h.options_len as int)
}

/// `h` holds exactly the fields of the IPv4 header at the start of `b`, with
/// the option bytes past `options_len` zero.
pub open spec fn ipv4_decodes_to(b: Seq<u8>, h: Ipv4Header) -> bool {
    let n = h.options_len as int;
    &&& n == ipv4_ihl_of(b) as int * 4 - IPV4_MIN_HEADER_LEN
    &&& h.dscp == b[1] / 4
    &&& h.ecn == b[1] % 4
    &&& h.total_length == be16(b[2], b[3])
    &&& h.identification == be16(b[4], b[5])
    &&& h.dont_fragment == bit_set(b[6], 64)
    &&& h.more_fragments == bit_set(b[6], 32)
    &&& h.fragment_offset == (b[6] % 32) as int * 256 + b[7] as int
    &&& h.time_to_live == b[8]
    &&& h.protocol == b[9]
    &&& h.header_checksum == be16(b[10], b[11])
    &&& h.source@ == b.subrange(12, 16)
    &&& h.destination@ == b.subrange(16, 20)
    &&& h.options@.subrange(0, n) == b.subrange(20, 20 + n)
    &&& forall|i: int| n <= i < 40 ==> h.options@[i] == 0
}

/// The error that writing a header with an out-of-range field gives: the
/// first such field in wire order.
pub open spec fn ipv4_value_error(h: Ipv4Header) -> ValueError {
    if h.dscp > IPV4_MAX_DSCP {
        ValueError { field: ErrorField::Ipv4Dscp, value: h.dscp as u64, min: 0, max: IPV4_MAX_DSCP as u64 }
    } else if h.ecn > IPV4_MAX_ECN {
        ValueError { field: ErrorField::Ipv4Ecn, value: h.ecn as u64, min: 0, max: IPV4_MAX_ECN as u64 }
    } else if h.fragment_offset > IPV4_MAX_FRAGMENT_OFFSET {
        ValueError {
            field: ErrorField::Ipv4FragmentOffset,
            value: h.fragment_offset as u64,
            min: 0,
            max: IPV4_MAX_FRAGMENT_OFFSET as u64,
        }
    } else {
        ValueError {
            field: ErrorField::Ipv4OptionsLength,
            value: h.options_len as u64,
            min: 0,
            max: IPV4_MAX_OPTIONS_LEN as u64,
        }
    }
}

/// Copies the 4 bytes starting at `start`.
fn copy_addr(b: &[u8], start: usize) -> (r: [u8; 4])
    requires
        start + 4 <= b@.len(),
    ensures
        r@ == b@.subrange(start as int, start + 4),
{
    let r = [b[start], b[start + 1], b[start + 2], b[start + 3]];
    assert(r@ =~= b@.subrange(start as int, start + 4));
    r
}

impl Ipv4Header {
    /// Every field fits its wire width and the options fill whole words.
    pub open spec fn is_encodable(&self) -> bool {
        &&& self.dscp <= IPV4_MAX_DSCP
        &&& self.ecn <= IPV4_MAX_ECN
        &&& self.fragment_offset <= IPV4_MAX_FRAGMENT_OFFSET
        &&& self.options_len <= IPV4_MAX_OPTIONS_LEN
        &&& self.options_len % 4 == 0
    }

    /// The header can be encoded and the option bytes past `options_len` are
    /// zero, so that decoding its encoding gives it back.
    pub open spec fn is_valid(&self) -> bool {
        &&& self.is_encodable()
        &&& forall|i: int| self.options_len <= i < 40 ==> self.options@[i] == 0
    }

    /// Checks that every field fits its wire width.
    pub fn check_values(&self) -> (r: Result<(), ValueError>)
        ensures
            r is Ok <==> self.is_encodable(),
            r is Err ==> r->Err_0 == ipv4_value_error(*self),
    {
        if self.dscp > IPV4_MAX_DSCP {
            Err(ValueError { field: ErrorField::Ipv4Dscp, value: self.dscp as u64, min: 0, max: IPV4_MAX_DSCP as u64 })
        } else if self.ecn > IPV4_MAX_ECN {
            Err(ValueError { field: ErrorField::Ipv4Ecn, value: self.ecn as u64, min: 0, max: IPV4_MAX_ECN as u64 })
        } else if self.fragment_offset > IPV4_MAX_FRAGMENT_OFFSET {
            Err(ValueError {
                field: ErrorField::Ipv4FragmentOffset,
                value: self.fragment_offset as u64,
                min: 0,
                max: IPV4_MAX_FRAGMENT_OFFSET as u64,
            })
        } else if self.options_len > IPV4_MAX_OPTIONS_LEN || self.options_len % 4 != 0 {
            Err(ValueError {
                field: ErrorField::Ipv4OptionsLength,
                value: self.options_len as u64,
                min: 0,
                max: IPV4_MAX_OPTIONS_LEN as u64,
            })
        } else {
            Ok(())
        }
    }

    /// Length in bytes of the encoded header.
    pub fn header_len(&self) -> (r: usize)
        ensures
            r == IPV4_MIN_HEADER_LEN + self.options_len,
    {
        IPV4_MIN_HEADER_LEN + self.options_len as usize
    }

    /// Appends the encoded header to `out`, or leaves `out` untouched when a
    /// field does not fit its wire width.
    pub fn write(&self, out: &mut Vec<u8>) -> (r: Result<(), WriteError>)
        ensures
            r is Ok <==> self.is_encodable(),
            r is Ok ==> final(out)@ == old(out)@ + ipv4_encoding(*self),
            r is Err ==> final(out)@ == old(out)@,
            r is Err ==> r->Err_0 == WriteError::ValueError(ipv4_value_error(*self)),
    {
        if let Err(e) = self.check_values() {
            return Err(WriteError::ValueError(e));
        }
        let ihl = IPV4_MIN_IHL + self.options_len / 4;
        assert(ihl <= 15 ==> 0x40u8 | ihl == 0x40 + ihl) by (bit_vector);
        out.push(0x40u8 | ihl);
        let dscp = self.dscp;
        let ecn = self.ecn;
        assert(dscp <= 0x3f && ecn <= 3 ==> (dscp << 2u8) | ecn == dscp * 4 + ecn) by (bit_vector);
        out.push((dscp << 2u8) | ecn);
        push_be_u16(out, self.total_length);
        push_be_u16(out, self.identification);
        let df: u8 = if self.dont_fragment { 0x40 } else { 0 };
        let mf: u8 = if self.more_fragments { 0x20 } else { 0 };
        let fo = self.fragment_offset;
        assert((df == 0 || df == 0x40) && (mf == 0 || mf == 0x20) && fo <= 0x1fff ==> df | mf | ((fo
            >> 8u16) as u8) == df + mf + (fo / 256) as u8) by (bit_vector);
        assert((fo & 0xff) as u8 == (fo % 256) as u8) by (bit_vector);
        out.push(df | mf | ((fo >> 8u16) as u8));
        out.push((fo & 0xff) as u8);
        out.push(self.time_to_live);
        out.push(self.protocol);
        push_be_u16(out, self.header_checksum);
        push_bytes(out, self.source.as_slice());
        push_bytes(out, self.destination.as_slice());
        let n = self.options_len as usize;
        push_bytes(out, vstd::slice::slice_subrange(self.options.as_slice(), 0, n));
        assert(out@ =~= old(out)@ + ipv4_encoding(*self));
        Ok(())
    }

    /// The header checksum: the internet checksum of the encoded header with
    /// its checksum field zero.
    pub fn calc_header_checksum(&self) -> (r: Result<u16, ValueError>)
        ensures
            r is Ok <==> self.is_encodable(),
            r is Ok ==> r->Ok_0 == internet_checksum(ipv4_encoding(Ipv4Header { header_checksum: 0, ..*self })),
            r is Err ==> r->Err_0 == ipv4_value_error(*self),
    {
        let zeroed = Ipv4Header { header_checksum: 0, ..*self };
        let mut buf: Vec<u8> = Vec::new();
        match zeroed.write(&mut buf) {
            Err(WriteError::ValueError(e)) => Err(e),
            Ok(()) => {
                assert(buf@ =~= ipv4_encoding(zeroed));
                Ok(0xffff - add_words(0, buf.as_slice()))
            },
        }
    }

    /// Decodes a header from the start of `slice`, returning it together with
    /// the bytes that follow it. The header length field is checked before
    /// it is trusted as the header's length.
    pub fn from_slice(slice: &[u8]) -> (r: Result<(Ipv4Header, &[u8]), ReadError>)
        ensures
            r is Ok <==> ipv4_readable(slice@),
            r is Err ==> r->Err_0 == ipv4_read_error(slice@),
            r is Ok ==> ipv4_decodes_to(slice@, r->Ok_0.0) && r->Ok_0.0.is_valid() && r->Ok_0.1@
                == slice@.subrange(ipv4_ihl_of(slice@) as int * 4, slice@.len() as int),
    {
        if slice.len() < IPV4_MIN_HEADER_LEN {
            return Err(
                ReadError::UnexpectedEndOfSlice(UnexpectedEndOfSliceError {
                    expected_min_len: IPV4_MIN_HEADER_LEN,
                    actual_len: slice.len(),
                    layer: Layer::Ipv4Header,
                }),
            );
        }
        let b0 = slice[0];
        let version = b0 >> 4u8;
        let ihl = b0 & 0xf;
        proof {
            lemma_byte_bits(b0);
        }
        if version != 4 {
            return Err(ReadError::Ipv4UnexpectedVersion(version));
        }
        if ihl < IPV4_MIN_IHL {
            return Err(ReadError::Ipv4HeaderLengthTooSmall(ihl));
        }
        let len = ihl as usize * 4;
        if slice.len() < len {
            return Err(
                ReadError::UnexpectedEndOfSlice(UnexpectedEndOfSliceError {
                    expected_min_len: len,
                    actual_len: slice.len(),
                    layer: Layer::Ipv4Header,
                }),
            );
        }
        let n = len - IPV4_MIN_HEADER_LEN;
        let mut options = [0u8; 40];
        let mut i: usize = 0;
        while i < n
            invariant
                n == len - 20,
                len <= slice@.len(),
                20 <= len <= 60,
                i <= n,
                options@.len() == 40,
                forall|k: int| 0 <= k < i ==> options@[k] == slice@[20 + k],
                forall|k: int| n <= k < 40 ==> options@[k] == 0,
            decreases n - i,
        {
            options[i] = slice[IPV4_MIN_HEADER_LEN + i];
            i = i + 1;
        }
        let b1 = slice[1];
        let b6 = slice[6];
        let b7 = slice[7];
        proof {
            lemma_byte_bits(b1);
            lemma_byte_bits(b6);
        }
        assert(((b6 & 0x1f) as u16) << 8u16 | (b7 as u16) == (b6 % 32) as u16 * 256 + b7 as u16)
            by (bit_vector);
        let h = Ipv4Header {
            dscp: b1 >> 2u8,
            ecn: b1 & 3,
            total_length: read_be_u16(slice, 2),
            identification: read_be_u16(slice, 4),
            dont_fragment: b6 & 0x40 != 0,
            more_fragments: b6 & 0x20 != 0,
            fragment_offset: ((b6 & 0x1f) as u16) << 8u16 | (b7 as u16),
            time_to_live: slice[8],
            protocol: slice[9],
            header_checksum: read_be_u16(slice, 10),
            source: copy_addr(slice, 12),
            destination: copy_addr(slice, 16),
            options_len: n as u8,
            options,
        };
        assert(h.options@.subrange(0, n as int) =~= slice@.subrange(20, 20 + n));
        assert((b6 % 32) as u16 * 256 + b7 as u16 <= 0x1fff) by (bit_vector);
        Ok((h, vstd::slice::slice_subrange(slice, len, slice.len())))
    }
}

impl PartialEq for Ipv4Header {
    fn eq(&self, o: &Ipv4Header) -> (r: bool) {
        let same_source = bytes_equal(self.source.as_slice(), o.source.as_slice());
        let same_destination = bytes_equal(self.destination.as_slice(), o.destination.as_slice());
        let same_options = bytes_equal(self.options.as_slice(), o.options.as_slice());
        proof {
            if same_source {
                assert(self.source =~= o.source);
            }
            if same_destination {
                assert(self.destination =~= o.destination);
            }
            if same_options {
                assert(self.options =~= o.options);
            }
        }
        self.dscp == o.dscp && self.ecn == o.ecn && self.total_length == o.total_length
            && self.identification == o.identification && self.dont_fragment == o.dont_fragment
            && self.more_fragments == o.more_fragments && self.fragment_offset == o.fragment_offset
            && self.time_to_live == o.time_to_live && self.protocol == o.protocol
            && self.header_checksum == o.header_checksum && self.options_len == o.options_len
            && same_source && same_destination && same_options
    }
}

impl vstd::std_specs::cmp::PartialEqSpecImpl for Ipv4Header {
    open spec fn obeys_eq_spec() -> bool {
        true
    }

    open spec fn eq_spec(&self, o: &Ipv4Header) -> bool {
        *self == *o
    }
}

impl Eq for Ipv4Header {

}

/// Decoding the encoding of a valid header gives back exactly that header:
/// the encoding carries version 4 and is `20 + options_len` bytes long, as
/// its header length field declares, and the only header it decodes to is
/// the one encoded.
pub proof fn lemma_ipv4_round_trip(h: Ipv4Header)
    requires
        h.is_valid(),
    ensures
        ipv4_encoding(h).len() == IPV4_MIN_HEADER_LEN + h.options_len,
        ipv4_encoding(h).len() == ipv4_ihl_of(ipv4_encoding(h)) as int * 4,
        ipv4_readable(ipv4_encoding(h)),
        forall|g: Ipv4Header| ipv4_decodes_to(ipv4_encoding(h), g) <==> g == h,
{
    let e = ipv4_encoding(h);
    let n = h.options_len;
    let dscp = h.dscp;
    let ecn = h.ecn;
    let fo = h.fragment_offset;
    let df: u8 = if h.dont_fragment { 64 } else { 0 };
    let mf: u8 = if h.more_fragments { 32 } else { 0 };
    assert(e[0] == ipv4_byte0(h));
    assert(e[1] == (dscp as int * 4 + ecn as int) as u8);
    assert(e[6] == ipv4_byte6(h));
    assert(e[7] == (fo % 256) as u8);
    assert(n <= 40 && n % 4 == 0 ==> ((0x40 + (5 + n / 4)) as u8) / 16 == 4 && ((0x40 + (5 + n / 4))
        as u8) % 16 == 5 + n / 4) by (bit_vector);
    assert(dscp <= 0x3f && ecn <= 3 ==> ((dscp * 4 + ecn) as u8) / 4 == dscp && ((dscp * 4 + ecn)
        as u8) % 4 == ecn) by (bit_vector);
    assert((df == 0 || df == 64) && (mf == 0 || mf == 32) && fo <= 0x1fff ==> (((df + mf + fo / 256)
        as u8) / 64) % 2 == df / 64 && (((df + mf + fo / 256) as u8) / 32) % 2 == mf / 32 && ((((df
        + mf + fo / 256) as u8) % 32) as u16 * 256 + ((fo % 256) as u8) as u16) == fo)
        by (bit_vector);
    lemma_be16_round_trip(h.total_length);
    lemma_be16_round_trip(h.identification);
    lemma_be16_round_trip(h.header_checksum);
    assert(e.subrange(12, 16) =~= h.source@);
    assert(e.subrange(16, 20) =~= h.destination@);
    assert(e.subrange(20, 20 + n) =~= h.options@.subrange(0, n as int));
    assert(ipv4_decodes_to(e, h));
    assert forall|g: Ipv4Header| ipv4_decodes_to(e, g) implies g == h by {
        assert(g.source =~= h.source);
        assert(g.destination =~= h.destination);
        assert forall|i: int| 0 <= i < 40 implies g.options@[i] == h.options@[i] by {
            if i < n {
                assert(g.options@.subrange(0, n as int)[i] == h.options@.subrange(0, n as int)[i]);
            }
        }
        assert(g.options =~= h.options);
    }
}

} // verus!
