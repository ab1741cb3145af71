use vstd::prelude::*;
use crate::be::{be16, be16_bytes, bit_set, bytes_equal, lemma_byte_bits, flag_bit, lemma_be16_round_trip, push_be_u16, push_bytes, read_be_u16};
use crate::error::{ErrorField, Layer, ReadError, UnexpectedEndOfSliceError, ValueError, WriteError};

verus! {

/// Length in bytes of an Ethernet II header.
pub const ETHERNET2_HEADER_LEN: usize = 14;

/// Length in bytes of one VLAN tag.
pub const VLAN_HEADER_LEN: usize = 4;

/// Largest 3-bit priority code point.
pub const VLAN_MAX_PRIORITY_CODE_POINT: u8 = 7;

/// Largest 12-bit VLAN identifier.
pub const VLAN_MAX_IDENTIFIER: u16 = 0xfff;

/// An owned Ethernet II header.
#[derive(Clone, Copy, Debug)]
pub struct Ethernet2Header {
    pub destination: [u8; 6],
    pub source: [u8; 6],
    /// Protocol of the payload.
    pub ether_type: u16,
}

/// `h` holds exactly the fields of the Ethernet II header at the start of `b`.
pub open spec fn ethernet2_decodes_to(b: Seq<u8>, h: Ethernet2Header) -> bool {
    &&& h.destination@ == b.subrange(0, 6)
    &&& h.source@ == b.subrange(6, 12)
    &&& h.ether_type == be16(b[12], b[13])
}

/// The 14 bytes that encode `h`.
pub open spec fn ethernet2_encoding(h: Ethernet2Header) -> Seq<u8> {
    h.destination@ + h.source@ + be16_bytes(h.ether_type)
}

/// The error that reading an Ethernet II header from too short a buffer gives.
pub open spec fn ethernet2_read_error(b: Seq<u8>) -> ReadError {
    ReadError::UnexpectedEndOfSlice(UnexpectedEndOfSliceError {
        expected_min_len: ETHERNET2_HEADER_LEN,
        actual_len: b.len() as usize,
        layer: Layer::Ethernet2Header,
    })
}

/// Copies the 6 bytes starting at `start`.
fn copy_mac(b: &[u8], start: usize) -> (r: [u8; 6])
    requires
        start + 6 <= b@.len(),
    ensures
        r@ == b@.subrange(start as int, start + 6),
{
    let n = b.len();
    let mut r = [0u8; 6];
    let mut i: usize = 0;
    while i < 6
        invariant
            i <= 6,
            start + 6 <= n,
            n == b@.len(),
            r@.len() == 6,
            forall|k: int| 0 <= k < i ==> r@[k] == b@[start + k],
        decreases 6 - i,
    {
        r[i] = b[start + i];
        i = i + 1;
    }
    assert(r@ =~= b@.subrange(start as int, start + 6));
    r
}

impl PartialEq for Ethernet2Header {
    fn eq(&self, o: &Ethernet2Header) -> (r: bool) {
        let same_destination = bytes_equal(self.destination.as_slice(), o.destination.as_slice());
        let same_source = bytes_equal(self.source.as_slice(), o.source.as_slice());
        proof {
            if same_destination {
                assert(self.destination =~= o.destination);
            }
            if same_source {
                assert(self.source =~= o.source);
            }
        }
        same_destination && same_source && self.ether_type == o.ether_type
    }
}

impl vstd::std_specs::cmp::PartialEqSpecImpl for Ethernet2Header {
    open spec fn obeys_eq_spec() -> bool {
        true
    }

    open spec fn eq_spec(&self, o: &Ethernet2Header) -> bool {
        *self == *o
    }
}

impl Eq for Ethernet2Header {

}

impl Ethernet2Header {
    /// Length in bytes of the header.
    pub const LEN: usize = 14;

    /// Decodes a header from the start of `slice`, returning it together with
    /// the bytes that follow it.
    pub fn from_slice(slice: &[u8]) -> (r: Result<(Ethernet2Header, &[u8]), ReadError>)
        ensures
            r is Ok <==> slice@.len() >= ETHERNET2_HEADER_LEN,
            r is Err ==> r->Err_0 == ethernet2_read_error(slice@),
            r is Ok ==> ethernet2_decodes_to(slice@, r->Ok_0.0) && r->Ok_0.1@ == slice@.subrange(
                ETHERNET2_HEADER_LEN as int,
                slice@.len() as int,
            ),
    {
        if slice.len() < ETHERNET2_HEADER_LEN {
            return Err(
                ReadError::UnexpectedEndOfSlice(UnexpectedEndOfSliceError {
                    expected_min_len: ETHERNET2_HEADER_LEN,
                    actual_len: slice.len(),
                    layer: Layer::Ethernet2Header,
                }),
            );
        }
        let h = Ethernet2Header {
            destination: copy_mac(slice, 0),
            source: copy_mac(slice, 6),
            ether_type: read_be_u16(slice, 12),
        };
        Ok((h, vstd::slice::slice_subrange(slice, ETHERNET2_HEADER_LEN, slice.len())))
    }

    /// Appends the 14 encoded bytes to `out`.
    pub fn write(&self, out: &mut Vec<u8>)
        ensures
            final(out)@ == old(out)@ + ethernet2_encoding(*self),
    {
        push_bytes(out, self.destination.as_slice());
        push_bytes(out, self.source.as_slice());
        push_be_u16(out, self.ether_type);
        assert(out@ =~= old(out)@ + ethernet2_encoding(*self));
    }
}

/// Decoding the encoding of an Ethernet II header gives back exactly that
/// header, and the encoding is 14 bytes long.
pub proof fn lemma_ethernet2_round_trip(h: Ethernet2Header)
    ensures
        ethernet2_encoding(h).len() == ETHERNET2_HEADER_LEN,
        forall|g: Ethernet2Header| ethernet2_decodes_to(ethernet2_encoding(h), g) <==> g == h,
{
    let e = ethernet2_encoding(h);
    lemma_be16_round_trip(h.ether_type);
    assert(e.subrange(0, 6) =~= h.destination@);
    assert(e.subrange(6, 12) =~= h.source@);
    assert forall|g: Ethernet2Header| ethernet2_decodes_to(e, g) <==> g == h by {
        if ethernet2_decodes_to(e, g) {
            assert(g.destination =~= h.destination);
            assert(g.source =~= h.source);
        }
    }
}

/// An owned IEEE 802.1Q VLAN tag.
#[derive(Clone, Copy, Debug, PartialEq, Eq, Structural)]
pub struct SingleVlanHeader {
    /// 3-bit priority code point.
    pub priority_code_point: u8,
    pub drop_eligible_indicator: bool,
    /// 12-bit VLAN identifier.
    pub vlan_identifier: u16,
    /// Protocol of the payload.
    pub ether_type: u16,
}

/// `h` holds exactly the fields of the VLAN tag at the start of `b`.
pub open spec fn vlan_decodes_to(b: Seq<u8>, h: SingleVlanHeader) -> bool {
    &&& h.priority_code_point == b[0] / 32
    &&& h.drop_eligible_indicator == bit_set(b[0], 16)
    &&& h.vlan_identifier == (b[0] % 16) as int * 256 + b[1] as int
    &&& h.ether_type == be16(b[2], b[3])
}

/// The 4 bytes that encode `h` (meaningful when `h.is_valid()`).
pub open spec fn vlan_encoding(h: SingleVlanHeader) -> Seq<u8> {
    seq![
        (h.priority_code_point as int * 32 + flag_bit(h.drop_eligible_indicator, 16)
            + h.vlan_identifier as int / 256) as u8,
        (h.vlan_identifier % 256) as u8,
    ] + be16_bytes(h.ether_type)
}

/// The error that reading a VLAN tag from too short a buffer gives.
pub open spec fn vlan_read_error(b: Seq<u8>) -> ReadError {
    ReadError::UnexpectedEndOfSlice(UnexpectedEndOfSliceError {
        expected_min_len: VLAN_HEADER_LEN,
        actual_len: b.len() as usize,
        layer: Layer::VlanHeader,
    })
}

impl SingleVlanHeader {
    /// Length in bytes of the tag.
    pub const LEN: usize = 4;

    /// Every field fits its wire width.
    pub open spec fn is_valid(&self) -> bool {
        self.priority_code_point <= VLAN_MAX_PRIORITY_CODE_POINT && self.vlan_identifier
            <= VLAN_MAX_IDENTIFIER
    }

    /// Decodes a tag from the start of `slice`, returning it together with
    /// the bytes that follow it.
    pub fn from_slice(slice: &[u8]) -> (r: Result<(SingleVlanHeader, &[u8]), ReadError>)
        ensures
            r is Ok <==> slice@.len() >= VLAN_HEADER_LEN,
            r is Err ==> r->Err_0 == vlan_read_error(slice@),
            r is Ok ==> vlan_decodes_to(slice@, r->Ok_0.0) && r->Ok_0.0.is_valid() && r->Ok_0.1@
                == slice@.subrange(VLAN_HEADER_LEN as int, slice@.len() as int),
    {
        if slice.len() < VLAN_HEADER_LEN {
            return Err(
                ReadError::UnexpectedEndOfSlice(UnexpectedEndOfSliceError {
                    expected_min_len: VLAN_HEADER_LEN,
                    actual_len: slice.len(),
                    layer: Layer::VlanHeader,
                }),
            );
        }
        let b0 = slice[0];
        let b1 = slice[1];
        proof {
            lemma_byte_bits(b0);
        }
        assert(((b0 & 0xf) as u16) << 8u16 | (b1 as u16) == (b0 % 16) as u16 * 256 + b1 as u16)
            by (bit_vector);
        let h = SingleVlanHeader {
            priority_code_point: b0 >> 5u8,
            drop_eligible_indicator: b0 & 0x10 != 0,
            vlan_identifier: ((b0 & 0xf) as u16) << 8u16 | (b1 as u16),
            ether_type: read_be_u16(slice, 2),
        };
        Ok((h, vstd::slice::slice_subrange(slice, VLAN_HEADER_LEN, slice.len())))
    }

    /// Appends the 4 encoded bytes to `out`, or leaves `out` untouched when
    /// a field does not fit its wire width.
    pub fn write(&self, out: &mut Vec<u8>) -> (r: Result<(), WriteError>)
        ensures
            r is Ok <==> self.is_valid(),
            r is Ok ==> final(out)@ == old(out)@ + vlan_encoding(*self),
            r is Err ==> final(out)@ == old(out)@,
            self.priority_code_point > VLAN_MAX_PRIORITY_CODE_POINT ==> r == Err::<(), WriteError>(
                WriteError::ValueError(ValueError {
                    field: ErrorField::VlanPriorityCodePoint,
                    value: self.priority_code_point as u64,
                    min: 0,
                    max: VLAN_MAX_PRIORITY_CODE_POINT as u64,
                }),
            ),
            self.priority_code_point <= VLAN_MAX_PRIORITY_CODE_POINT && self.vlan_identifier
                > VLAN_MAX_IDENTIFIER ==> r == Err::<(), WriteError>(
                WriteError::ValueError(ValueError {
                    field: ErrorField::VlanIdentifier,
                    value: self.vlan_identifier as u64,
                    min: 0,
                    max: VLAN_MAX_IDENTIFIER as u64,
                }),
            ),
    {
        if self.priority_code_point > VLAN_MAX_PRIORITY_CODE_POINT {
            return Err(
                WriteError::ValueError(ValueError {
                    field: ErrorField::VlanPriorityCodePoint,
                    value: self.priority_code_point as u64,
                    min: 0,
                    max: VLAN_MAX_PRIORITY_CODE_POINT as u64,
                }),
            );
        }
        if self.vlan_identifier > VLAN_MAX_IDENTIFIER {
            return Err(
                WriteError::ValueError(ValueError {
                    field: ErrorField::VlanIdentifier,
                    value: self.vlan_identifier as u64,
                    min: 0,
                    max: VLAN_MAX_IDENTIFIER as u64,
                }),
            );
        }
        let pcp = self.priority_code_point;
        let dei: u8 = if self.drop_eligible_indicator { 0x10 } else { 0 };
        let vid = self.vlan_identifier;
        assert(pcp <= 7 && vid <= 0xfff && (dei == 0 || dei == 0x10) ==> (pcp << 5u8) | dei | ((vid
            >> 8u16) as u8) == pcp * 32 + dei + (vid / 256) as u8) by (bit_vector);
        assert((vid & 0xff) as u8 == (vid % 256) as u8) by (bit_vector);
        out.push((pcp << 5u8) | dei | ((vid >> 8u16) as u8));
        out.push((vid & 0xff) as u8);
        push_be_u16(out, self.ether_type);
        assert(out@ =~= old(out)@ + vlan_encoding(*self));
        Ok(())
    }
}

/// Decoding the encoding of a valid VLAN tag gives back exactly that tag,
/// and the encoding is 4 bytes long.
pub proof fn lemma_vlan_round_trip(h: SingleVlanHeader)
    requires
        h.is_valid(),
    ensures
        vlan_encoding(h).len() == VLAN_HEADER_LEN,
        forall|g: SingleVlanHeader| vlan_decodes_to(vlan_encoding(h), g) <==> g == h,
{
    let pcp = h.priority_code_point;
    let vid = h.vlan_identifier;
    let dei: u8 = if h.drop_eligible_indicator { 16 } else { 0 };
    lemma_be16_round_trip(h.ether_type);
    let b0 = (pcp * 32 + dei + vid / 256) as u8;
    assert(vlan_encoding(h)[0] == b0);
    assert(pcp <= 7 && vid <= 0xfff && (dei == 0 || dei == 16) ==> ((pcp * 32 + dei + vid / 256)
        as u8) / 32 == pcp && (((pcp * 32 + dei + vid / 256) as u8) / 16) % 2 == dei / 16 && ((((pcp
        * 32 + dei + vid / 256) as u8) % 16) as u16 * 256 + ((vid % 256) as u8) as u16) == vid)
        by (bit_vector);
}

} // verus!
