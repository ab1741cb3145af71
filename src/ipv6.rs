use vstd::prelude::*;
use crate::be::{lemma_byte_bits, be16, be16_bytes, bytes_equal, push_be_u16, push_bytes, read_be_u16};
use crate::error::{ErrorField, Layer, ReadError, UnexpectedEndOfSliceError, ValueError, WriteError};

verus! {

/// Length in bytes of the fixed IPv6 header.
pub const IPV6_HEADER_LEN: usize = 40;

/// Largest value the 20-bit flow label can carry.
pub const IPV6_MAX_FLOW_LABEL: u32 = 0xf_ffff;

/// Version nibble: the top four bits of byte 0.
pub open spec fn ipv6_version_of(b: Seq<u8>) -> u8 {
    (b[0] / 16) as u8
}

/// Traffic class: low nibble of byte 0 followed by the high nibble of byte 1.
pub open spec fn ipv6_traffic_class_of(b: Seq<u8>) -> u8 {
    ((b[0] % 16) * 16 + b[1] / 16) as u8
}

/// Flow label: low nibble of byte 1 followed by bytes 2 and 3 (20 bits).
pub open spec fn ipv6_flow_label_of(b: Seq<u8>) -> u32 {
    ((b[1] % 16) as int * 0x1_0000 + b[2] as int * 256 + b[3] as int) as u32
}

/// Payload length: bytes 4 and 5, big endian.
pub open spec fn ipv6_payload_length_of(b: Seq<u8>) -> u16 {
    be16(b[4], b[5]) as u16
}

/// Next header: byte 6.
pub open spec fn ipv6_next_header_of(b: Seq<u8>) -> u8 {
    b[6]
}

/// Hop limit: byte 7.
pub open spec fn ipv6_hop_limit_of(b: Seq<u8>) -> u8 {
    b[7]
}

/// Source address: bytes 8 to 23.
pub open spec fn ipv6_source_of(b: Seq<u8>) -> Seq<u8> {
    b.subrange(8, 24)
}

/// Destination address: bytes 24 to 39.
pub open spec fn ipv6_destination_of(b: Seq<u8>) -> Seq<u8> {
    b.subrange(24, 40)
}

/// A buffer starts with a readable IPv6 header: 40 bytes, version 6.
pub open spec fn ipv6_readable(b: Seq<u8>) -> bool {
    b.len() >= IPV6_HEADER_LEN && ipv6_version_of(b) == 6
}

/// The error that reading an IPv6 header from an unreadable buffer gives.
pub open spec fn ipv6_read_error(b: Seq<u8>) -> ReadError {
    if b.len() < IPV6_HEADER_LEN {
        ReadError::UnexpectedEndOfSlice(UnexpectedEndOfSliceError {
            expected_min_len: IPV6_HEADER_LEN,
            actual_len: b.len() as usize,
            layer: Layer::Ipv6Header,
        })
    } else {
        ReadError::Ipv6UnexpectedVersion(ipv6_version_of(b))
    }
}

/// An owned IPv6 fixed header (without extension headers).
#[derive(Clone, Copy, Debug)]
pub struct Ipv6Header {
    pub traffic_class: u8,
    /// 20-bit flow label; values above `IPV6_MAX_FLOW_LABEL` cannot be encoded.
    pub flow_label: u32,
    /// Length of the extension headers and payload that follow.
    pub payload_length: u16,
    /// Protocol number of the next header.
    pub next_header: u8,
    pub hop_limit: u8,
    pub source: [u8; 16],
    pub destination: [u8; 16],
}

/// `h` holds exactly the fields that the 40 bytes `b` carry.
pub open spec fn ipv6_decodes_to(b: Seq<u8>, h: Ipv6Header) -> bool {
    &&& h.traffic_class == ipv6_traffic_class_of(b)
    &&& h.flow_label == ipv6_flow_label_of(b)
    &&& h.payload_length == ipv6_payload_length_of(b)
    &&& h.next_header == ipv6_next_header_of(b)
    &&& h.hop_limit == ipv6_hop_limit_of(b)
    &&& h.source@ == ipv6_source_of(b)
    &&& h.destination@ == ipv6_destination_of(b)
}

/// The 40 bytes that encode `h` (meaningful when `h.is_valid()`).
pub open spec fn ipv6_encoding(h: Ipv6Header) -> Seq<u8> {
    seq![
        (0x60 + h.traffic_class / 16) as u8,
        ((h.traffic_class % 16) as int * 16 + h.flow_label as int / 0x1_0000) as u8,
        ((h.flow_label / 256) % 256) as u8,
        (h.flow_label % 256) as u8,
    ] + be16_bytes(h.payload_length) + seq![h.next_header, h.hop_limit] + h.source@
        + h.destination@
}

impl Ipv6Header {
    /// Length in bytes of the fixed IPv6 header.
    pub const LEN: usize = 40;

    /// Every field fits its wire width.
    pub open spec fn is_valid(&self) -> bool {
        self.flow_label <= IPV6_MAX_FLOW_LABEL
    }

    /// Checks that every field fits its wire width.
    pub fn check_values(&self) -> (r: Result<(), ValueError>)
        ensures
            r is Ok <==> self.is_valid(),
            r is Err ==> r == Err::<(), ValueError>(ValueError {
                field: ErrorField::Ipv6FlowLabel,
                value: self.flow_label as u64,
                min: 0,
                max: IPV6_MAX_FLOW_LABEL as u64,
            }),
    {
        if self.flow_label > IPV6_MAX_FLOW_LABEL {
            Err(ValueError {
                field: ErrorField::Ipv6FlowLabel,
                value: self.flow_label as u64,
                min: 0,
                max: IPV6_MAX_FLOW_LABEL as u64,
            })
        } else {
            Ok(())
        }
    }
}


impl PartialEq for Ipv6Header {
    fn eq(&self, o: &Ipv6Header) -> (r: bool) {
        let same_source = bytes_equal(self.source.as_slice(), o.source.as_slice());
        let same_destination = bytes_equal(self.destination.as_slice(), o.destination.as_slice());
        proof {
            if same_source {
                assert(self.source =~= o.source);
            }
            if same_destination {
                assert(self.destination =~= o.destination);
            }
        }
        self.traffic_class == o.traffic_class && self.flow_label == o.flow_label
            && self.payload_length == o.payload_length && self.next_header == o.next_header
            && self.hop_limit == o.hop_limit && same_source && same_destination
    }
}

impl vstd::std_specs::cmp::PartialEqSpecImpl for Ipv6Header {
    open spec fn obeys_eq_spec() -> bool {
        true
    }

    open spec fn eq_spec(&self, o: &Ipv6Header) -> bool {
        *self == *o
    }
}

impl Eq for Ipv6Header {

}

impl Default for Ipv6Header {
    /// All fields zero.
    fn default() -> (r: Ipv6Header)
        ensures
            r.traffic_class == 0 && r.flow_label == 0 && r.payload_length == 0
                && r.next_header == 0 && r.hop_limit == 0,
            r.source@ == Seq::new(16, |_i: int| 0u8),
            r.destination@ == Seq::new(16, |_i: int| 0u8),
    {
        let r = Ipv6Header {
            traffic_class: 0,
            flow_label: 0,
            payload_length: 0,
            next_header: 0,
            hop_limit: 0,
            source: [0u8; 16],
            destination: [0u8; 16],
        };
        assert(r.source@ =~= Seq::new(16, |_i: int| 0u8));
        assert(r.destination@ =~= Seq::new(16, |_i: int| 0u8));
        r
    }
}

impl Ipv6Header {
    /// Appends the 40 encoded bytes to `out`, or leaves `out` untouched when
    /// a field does not fit its wire width.
    pub fn write(&self, out: &mut Vec<u8>) -> (r: Result<(), WriteError>)
        ensures
            r is Ok <==> self.is_valid(),
            r is Ok ==> final(out)@ == old(out)@ + ipv6_encoding(*self),
            r is Err ==> final(out)@ == old(out)@,
            r is Err ==> r == Err::<(), WriteError>(WriteError::ValueError(ValueError {
                field: ErrorField::Ipv6FlowLabel,
                value: self.flow_label as u64,
                min: 0,
                max: IPV6_MAX_FLOW_LABEL as u64,
            })),
    {
        match self.check_values() {
            Err(e) => Err(WriteError::ValueError(e)),
            Ok(()) => {
                self.write_unchecked(out);
                Ok(())
            },
        }
    }

    /// Appends the 40 encoded bytes of a valid header to `out`.
    fn write_unchecked(&self, out: &mut Vec<u8>)
        requires
            self.is_valid(),
        ensures
            final(out)@ == old(out)@ + ipv6_encoding(*self),
    {
        let tc = self.traffic_class;
        let fl = self.flow_label;
        let b0 = 0x60u8 | (tc >> 4u8);
        let b1 = (tc << 4u8) | (((fl >> 16u32) & 0xf) as u8);
        let b2 = ((fl >> 8u32) & 0xff) as u8;
        let b3 = (fl & 0xff) as u8;
        assert(0x60u8 | (tc >> 4u8) == 0x60 + tc / 16) by (bit_vector);
        assert(fl <= 0xf_ffff ==> (tc << 4u8) | (((fl >> 16u32) & 0xf) as u8) == ((tc % 16) * 16
            + fl / 0x1_0000) as u8) by (bit_vector);
        assert(((fl >> 8u32) & 0xff) as u8 == ((fl / 256) % 256) as u8) by (bit_vector);
        assert((fl & 0xff) as u8 == (fl % 256) as u8) by (bit_vector);
        out.push(b0);
        out.push(b1);
        out.push(b2);
        out.push(b3);
        push_be_u16(out, self.payload_length);
        out.push(self.next_header);
        out.push(self.hop_limit);
        push_bytes(out, self.source.as_slice());
        push_bytes(out, self.destination.as_slice());
        assert(out@ =~= old(out)@ + ipv6_encoding(*self));
    }

    /// The 40 encoded bytes, or the offending field when one does not fit.
    pub fn to_bytes(&self) -> (r: Result<Vec<u8>, ValueError>)
        ensures
            r is Ok <==> self.is_valid(),
            r is Ok ==> r->Ok_0@ == ipv6_encoding(*self),
            r is Err ==> r == Err::<Vec<u8>, ValueError>(ValueError {
                field: ErrorField::Ipv6FlowLabel,
                value: self.flow_label as u64,
                min: 0,
                max: IPV6_MAX_FLOW_LABEL as u64,
            }),
    {
        match self.check_values() {
            Err(e) => Err(e),
            Ok(()) => {
                let mut out: Vec<u8> = Vec::new();
                self.write_unchecked(&mut out);
                assert(out@ =~= ipv6_encoding(*self));
                Ok(out)
            },
        }
    }

    /// Decodes a header from the start of `slice`, returning it together with
    /// the bytes that follow it.
    pub fn from_slice(slice: &[u8]) -> (r: Result<(Ipv6Header, &[u8]), ReadError>)
        ensures
            r is Ok <==> ipv6_readable(slice@),
            r is Err ==> r->Err_0 == ipv6_read_error(slice@),
            r is Ok ==> ipv6_decodes_to(slice@, r->Ok_0.0) && r->Ok_0.0.is_valid()
                && r->Ok_0.1@ == slice@.subrange(IPV6_HEADER_LEN as int, slice@.len() as int),
    {
        match Ipv6HeaderSlice::from_slice(slice) {
            Err(e) => Err(e),
            Ok(view) => {
                let h = view.to_header();
                proof {
                    lemma_decode_prefix(slice@, h);
                }
                let rest = vstd::slice::slice_subrange(slice, IPV6_HEADER_LEN, slice.len());
                Ok((h, rest))
            },
        }
    }
}

/// Decoding the encoding of a valid header gives back exactly that header:
/// the encoding is 40 bytes long, carries version 6, and the only header
/// it decodes to is the one encoded.
pub proof fn lemma_ipv6_round_trip(h: Ipv6Header)
    requires
        h.is_valid(),
    ensures
        ipv6_encoding(h).len() == IPV6_HEADER_LEN,
        ipv6_version_of(ipv6_encoding(h)) == 6,
        forall|g: Ipv6Header| ipv6_decodes_to(ipv6_encoding(h), g) <==> g == h,
{
    let e = ipv6_encoding(h);
    let tc = h.traffic_class;
    let fl = h.flow_label;
    assert(e[0] == (0x60 + tc / 16) as u8);
    assert(e[1] == ((tc % 16) as int * 16 + fl as int / 0x1_0000) as u8);
    assert((((0x60 + tc / 16) as u8) / 16) as u8 == 6) by (bit_vector);
    assert(fl <= 0xf_ffff ==> ((((0x60 + tc / 16) as u8) % 16) * 16 + (((tc % 16) as u32 * 16 + fl
        / 0x1_0000) as u8) / 16) as u8 == tc) by (bit_vector);
    assert(fl <= 0xf_ffff ==> (((((tc % 16) as u32 * 16 + fl / 0x1_0000) as u8) % 16) as u32
        * 0x1_0000 + (((fl / 256) % 256) as u8) as u32 * 256 + ((fl % 256) as u8) as u32) == fl)
        by (bit_vector);
    let pl = h.payload_length;
    assert((((pl / 256) as u8) as u16 * 256 + ((pl % 256) as u8) as u16) == pl) by (bit_vector);
    assert(ipv6_source_of(e) =~= h.source@);
    assert(ipv6_destination_of(e) =~= h.destination@);
    assert forall|g: Ipv6Header| ipv6_decodes_to(e, g) <==> g == h by {
        if ipv6_decodes_to(e, g) {
            assert(g.source =~= h.source);
            assert(g.destination =~= h.destination);
        }
    }
}

/// Overwriting the version nibble of an encoded header with `v` makes the
/// buffer carry version `v`, leaving every other bit in place.
pub proof fn lemma_ipv6_version_overwrite(b: Seq<u8>, v: u8)
    requires
        b.len() >= IPV6_HEADER_LEN,
        v < 16,
    ensures
        ipv6_version_of(b.update(0, ipv6_with_version(b[0], v))) == v,
        ipv6_traffic_class_of(b.update(0, ipv6_with_version(b[0], v))) == ipv6_traffic_class_of(b),
        v != 6 ==> !ipv6_readable(b.update(0, ipv6_with_version(b[0], v))),
        v != 6 ==> ipv6_read_error(b.update(0, ipv6_with_version(b[0], v)))
            == ReadError::Ipv6UnexpectedVersion(v),
{
    let b0 = b[0];
    assert(v < 16 ==> (((b0 & 0xf) | (v << 4u8)) / 16) as u8 == v) by (bit_vector);
    assert(((b0 & 0xf) | (v << 4u8)) % 16 == b0 % 16) by (bit_vector);
}

/// Every proper prefix of a valid encoding is too short to read, and
/// reading it reports the 40 bytes needed and the prefix's length.
pub proof fn lemma_ipv6_truncation(h: Ipv6Header, len: int)
    requires
        h.is_valid(),
        0 <= len < IPV6_HEADER_LEN,
    ensures
        !ipv6_readable(ipv6_encoding(h).subrange(0, len)),
        ipv6_read_error(ipv6_encoding(h).subrange(0, len)) == ReadError::UnexpectedEndOfSlice(
            UnexpectedEndOfSliceError {
                expected_min_len: IPV6_HEADER_LEN,
                actual_len: len as usize,
                layer: Layer::Ipv6Header,
            },
        ),
{
    lemma_ipv6_round_trip(h);
}

/// Byte 0 of an IPv6 header with its version nibble replaced by `v`.
pub open spec fn ipv6_with_version(b0: u8, v: u8) -> u8 {
    (b0 & 0xf) | (v << 4u8)
}

/// Changing one byte of the 32 address bytes (source followed by
/// destination) of a header, keeping every other field, changes the header
/// and changes exactly the matching byte of its encoding.
pub proof fn lemma_ipv6_address_byte_independent(h: Ipv6Header, g: Ipv6Header, i: int, x: u8)
    requires
        0 <= i < 32,
        x != (h.source@ + h.destination@)[i],
        g.traffic_class == h.traffic_class,
        g.flow_label == h.flow_label,
        g.payload_length == h.payload_length,
        g.next_header == h.next_header,
        g.hop_limit == h.hop_limit,
        g.source@ + g.destination@ == (h.source@ + h.destination@).update(i, x),
    ensures
        g != h,
        ipv6_encoding(g) == ipv6_encoding(h).update(8 + i, x),
{
    let ha = h.source@ + h.destination@;
    let ga = g.source@ + g.destination@;
    assert(ga[i] != ha[i]);
    let p = ipv6_encoding(h).subrange(0, 8);
    assert(ipv6_encoding(g).subrange(0, 8) =~= p);
    assert(ipv6_encoding(h) =~= p + ha);
    assert(ipv6_encoding(g) =~= p + ga);
    assert((p + ha).update(8 + i, x) =~= p + ha.update(i, x));
}

/// Decoding reads only the first 40 bytes of a buffer.
proof fn lemma_decode_prefix(b: Seq<u8>, h: Ipv6Header)
    requires
        b.len() >= IPV6_HEADER_LEN,
        ipv6_decodes_to(b.subrange(0, IPV6_HEADER_LEN as int), h),
    ensures
        ipv6_decodes_to(b, h),
{
    let p = b.subrange(0, IPV6_HEADER_LEN as int);
    assert(ipv6_source_of(p) =~= ipv6_source_of(b));
    assert(ipv6_destination_of(p) =~= ipv6_destination_of(b));
}

/// A read-only view of the 40 bytes of an IPv6 fixed header inside a buffer.
#[derive(Clone, Copy, Debug, PartialEq, Eq)]
pub struct Ipv6HeaderSlice<'a> {
    slice: &'a [u8],
}

impl<'a> View for Ipv6HeaderSlice<'a> {
    type V = Seq<u8>;

    closed spec fn view(&self) -> Seq<u8> {
        self.slice@
    }
}

impl<'a> Ipv6HeaderSlice<'a> {
    /// The view covers exactly one header, whose version nibble is 6.
    #[verifier::type_invariant]
    spec fn inv(&self) -> bool {
        &&& self.slice@.len() == IPV6_HEADER_LEN
        &&& ipv6_version_of(self.slice@) == 6
    }

    /// Checks length and version, then views the first 40 bytes of `slice`.
    pub fn from_slice(slice: &'a [u8]) -> (r: Result<Ipv6HeaderSlice<'a>, ReadError>)
        ensures
            r is Ok <==> ipv6_readable(slice@),
            r is Err ==> r->Err_0 == ipv6_read_error(slice@),
            r is Ok ==> r->Ok_0@ == slice@.subrange(0, IPV6_HEADER_LEN as int),
    {
        if slice.len() < IPV6_HEADER_LEN {
            return Err(
                ReadError::UnexpectedEndOfSlice(UnexpectedEndOfSliceError {
                    expected_min_len: IPV6_HEADER_LEN,
                    actual_len: slice.len(),
                    layer: Layer::Ipv6Header,
                }),
            );
        }
        let b0 = slice[0];
        let version = b0 >> 4u8;
        proof {
            lemma_byte_bits(b0);
        }
        if version != 6 {
            return Err(ReadError::Ipv6UnexpectedVersion(version));
        }
        let header = vstd::slice::slice_subrange(slice, 0, IPV6_HEADER_LEN);
        Ok(Ipv6HeaderSlice { slice: header })
    }

    /// The bytes of the header.
    pub fn slice(&self) -> (r: &'a [u8])
        ensures
            r@ == self@,
            r@.len() == IPV6_HEADER_LEN,
    {
        proof {
            use_type_invariant(self);
        }
        self.slice
    }

    /// The version field (always 6 for a view).
    pub fn version(&self) -> (r: u8)
        ensures
            r == ipv6_version_of(self@),
            r == 6,
    {
        proof {
            use_type_invariant(self);
        }
        let b0 = self.slice[0];
        proof {
            lemma_byte_bits(b0);
        }
        b0 >> 4u8
    }

    /// The traffic class field.
    pub fn traffic_class(&self) -> (r: u8)
        ensures
            r == ipv6_traffic_class_of(self@),
    {
        proof {
            use_type_invariant(self);
        }
        let b0 = self.slice[0];
        let b1 = self.slice[1];
        assert((b0 << 4u8) | (b1 >> 4u8) == ((b0 % 16) * 16 + b1 / 16) as u8) by (bit_vector);
        (b0 << 4u8) | (b1 >> 4u8)
    }

    /// The 20-bit flow label, zero-extended.
    pub fn flow_label(&self) -> (r: u32)
        ensures
            r == ipv6_flow_label_of(self@),
            r <= IPV6_MAX_FLOW_LABEL,
    {
        proof {
            use_type_invariant(self);
        }
        let b1 = self.slice[1];
        let b2 = self.slice[2];
        let b3 = self.slice[3];
        let r = (((b1 & 0xf) as u32) << 16u32) | ((b2 as u32) << 8u32) | (b3 as u32);
        assert((((b1 & 0xf) as u32) << 16u32) | ((b2 as u32) << 8u32) | (b3 as u32)
            == ((b1 % 16) as u32) * 0x1_0000 + (b2 as u32) * 256 + b3 as u32) by (bit_vector);
        r
    }

    /// The payload length field.
    pub fn payload_length(&self) -> (r: u16)
        ensures
            r == ipv6_payload_length_of(self@),
    {
        proof {
            use_type_invariant(self);
        }
        read_be_u16(self.slice, 4)
    }

    /// The next header field.
    pub fn next_header(&self) -> (r: u8)
        ensures
            r == ipv6_next_header_of(self@),
    {
        proof {
            use_type_invariant(self);
        }
        self.slice[6]
    }

    /// The hop limit field.
    pub fn hop_limit(&self) -> (r: u8)
        ensures
            r == ipv6_hop_limit_of(self@),
    {
        proof {
            use_type_invariant(self);
        }
        self.slice[7]
    }

    /// The source address.
    pub fn source(&self) -> (r: [u8; 16])
        ensures
            r@ == ipv6_source_of(self@),
    {
        proof {
            use_type_invariant(self);
        }
        copy_address(self.slice, 8)
    }

    /// The destination address.
    pub fn destination(&self) -> (r: [u8; 16])
        ensures
            r@ == ipv6_destination_of(self@),
    {
        proof {
            use_type_invariant(self);
        }
        copy_address(self.slice, 24)
    }

    /// Decodes every field into an owned header.
    pub fn to_header(&self) -> (r: Ipv6Header)
        ensures
            ipv6_decodes_to(self@, r),
            r.is_valid(),
    {
        Ipv6Header {
            traffic_class: self.traffic_class(),
            flow_label: self.flow_label(),
            payload_length: self.payload_length(),
            next_header: self.next_header(),
            hop_limit: self.hop_limit(),
            source: self.source(),
            destination: self.destination(),
        }
    }
}

/// Copies the 16 bytes starting at `start`.
fn copy_address(b: &[u8], start: usize) -> (r: [u8; 16])
    requires
        start + 16 <= b@.len(),
    ensures
        r@ == b@.subrange(start as int, start + 16),
{
    let n = b.len();
    let mut r = [0u8; 16];
    let mut i: usize = 0;
    while i < 16
        invariant
            i <= 16,
            start + 16 <= n,
            n == b@.len(),
            r@.len() == 16,
            forall|k: int| 0 <= k < i ==> r@[k] == b@[start + k],
        decreases 16 - i,
    {
        r[i] = b[start + i];
        i = i + 1;
    }
    assert(r@ =~= b@.subrange(start as int, start + 16));
    r
}

} // verus!
