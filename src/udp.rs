use vstd::prelude::*;
use crate::be::{be16, be16_bytes, lemma_be16_round_trip, push_be_u16, push_be_u32, push_bytes, read_be_u16};
use crate::checksum::{add_words, internet_checksum, ipv6_pseudo_header, lemma_fold_fold, lemma_sum16_concat, sum16};
use crate::error::{ErrorField, Layer, ReadError, UnexpectedEndOfSliceError, ValueError};

verus! {

/// Length in bytes of a UDP header.
pub const UDP_HEADER_LEN: usize = 8;

/// An owned UDP header.
#[derive(Clone, Copy, Debug, PartialEq, Eq, Structural)]
pub struct UdpHeader {
    pub source_port: u16,
    pub destination_port: u16,
    /// Length of header and payload in bytes.
    pub length: u16,
    pub checksum: u16,
}

/// `h` holds exactly the fields of the UDP header at the start of `b`.
pub open spec fn udp_decodes_to(b: Seq<u8>, h: UdpHeader) -> bool {
    &&& h.source_port == be16(b[0], b[1])
    &&& h.destination_port == be16(b[2], b[3])
    &&& h.length == be16(b[4], b[5])
    &&& h.checksum == be16(b[6], b[7])
}

/// The 8 bytes that encode `h`.
pub open spec fn udp_encoding(h: UdpHeader) -> Seq<u8> {
    be16_bytes(h.source_port) + be16_bytes(h.destination_port) + be16_bytes(h.length) + be16_bytes(
        h.checksum,
    )
}

/// The error that reading a UDP header from too short a buffer gives.
pub open spec fn udp_read_error(b: Seq<u8>) -> ReadError {
    ReadError::UnexpectedEndOfSlice(UnexpectedEndOfSliceError {
        expected_min_len: UDP_HEADER_LEN,
        actual_len: b.len() as usize,
        layer: Layer::UdpHeader,
    })
}

/// The UDP checksum over IPv6 of `h` and `payload`: the internet checksum of
/// the pseudo-header, `h` encoded with a zero checksum field, and `payload`,
/// where a result of 0 is sent as 0xffff since 0 means "no checksum".
pub open spec fn udp_checksum_ipv6(h: UdpHeader, source: Seq<u8>, destination: Seq<u8>, payload: Seq<u8>) -> u16 {
    let zeroed = UdpHeader { checksum: 0, ..h };
    let c = internet_checksum(
        ipv6_pseudo_header(source, destination, (UDP_HEADER_LEN + payload.len()) as u32, 17)
            + udp_encoding(zeroed) + payload,
    );
    if c == 0 {
        0xffff
    } else {
        c
    }
}

impl UdpHeader {
    /// Length in bytes of the header.
    pub const LEN: usize = 8;

    /// Decodes a header from the start of `slice`, returning it together with
    /// the bytes that follow it.
    pub fn from_slice(slice: &[u8]) -> (r: Result<(UdpHeader, &[u8]), ReadError>)
        ensures
            r is Ok <==> slice@.len() >= UDP_HEADER_LEN,
            r is Err ==> r->Err_0 == udp_read_error(slice@),
            r is Ok ==> udp_decodes_to(slice@, r->Ok_0.0) && r->Ok_0.1@ == slice@.subrange(
                UDP_HEADER_LEN as int,
                slice@.len() as int,
            ),
    {
        if slice.len() < UDP_HEADER_LEN {
            return Err(
                ReadError::UnexpectedEndOfSlice(UnexpectedEndOfSliceError {
                    expected_min_len: UDP_HEADER_LEN,
                    actual_len: slice.len(),
                    layer: Layer::UdpHeader,
                }),
            );
        }
        let h = UdpHeader {
            source_port: read_be_u16(slice, 0),
            destination_port: read_be_u16(slice, 2),
            length: read_be_u16(slice, 4),
            checksum: read_be_u16(slice, 6),
        };
        Ok((h, vstd::slice::slice_subrange(slice, UDP_HEADER_LEN, slice.len())))
    }

    /// Appends the 8 encoded bytes to `out`.
    pub fn write(&self, out: &mut Vec<u8>)
        ensures
            final(out)@ == old(out)@ + udp_encoding(*self),
    {
        push_be_u16(out, self.source_port);
        push_be_u16(out, self.destination_port);
        push_be_u16(out, self.length);
        push_be_u16(out, self.checksum);
        assert(out@ =~= old(out)@ + udp_encoding(*self));
    }

    /// The checksum of this header over IPv6.
    pub fn calc_checksum_ipv6(&self, source: &[u8; 16], destination: &[u8; 16], payload: &[u8]) -> (r: Result<u16, ValueError>)
        ensures
            payload@.len() > u16::MAX - UDP_HEADER_LEN ==> r == Err::<u16, ValueError>(ValueError {
                field: ErrorField::UdpPayloadLength,
                value: payload.len() as u64,
                min: 0,
                max: (u16::MAX - UDP_HEADER_LEN) as u64,
            }),
            r is Ok <==> payload@.len() <= u16::MAX - UDP_HEADER_LEN,
            r is Ok ==> r->Ok_0 == udp_checksum_ipv6(*self, source@, destination@, payload@),
    {
        let max_payload = u16::MAX as usize - UDP_HEADER_LEN;
        if payload.len() > max_payload {
            return Err(ValueError {
                field: ErrorField::UdpPayloadLength,
                value: payload.len() as u64,
                min: 0,
                max: max_payload as u64,
            });
        }
        let mut buf: Vec<u8> = Vec::new();
        push_bytes(&mut buf, source.as_slice());
        push_bytes(&mut buf, destination.as_slice());
        push_be_u32(&mut buf, (UDP_HEADER_LEN + payload.len()) as u32);
        buf.push(0);
        buf.push(0);
        buf.push(0);
        buf.push(17);
        let zeroed = UdpHeader { checksum: 0, ..*self };
        zeroed.write(&mut buf);
        assert(buf@ =~= ipv6_pseudo_header(source@, destination@, (UDP_HEADER_LEN + payload@.len()) as u32, 17)
            + udp_encoding(zeroed));
        let folded = add_words(0, buf.as_slice());
        let folded = add_words(folded, payload);
        proof {
            lemma_fold_fold(sum16(buf@) as int, sum16(payload@) as int);
            lemma_sum16_concat(buf@, payload@);
        }
        let c = 0xffff - folded;
        if c == 0 {
            Ok(0xffff)
        } else {
            Ok(c)
        }
    }
}

/// Decoding the encoding of a UDP header gives back exactly that header,
/// and the encoding is 8 bytes long.
pub proof fn lemma_udp_round_trip(h: UdpHeader)
    ensures
        udp_encoding(h).len() == UDP_HEADER_LEN,
        forall|g: UdpHeader| udp_decodes_to(udp_encoding(h), g) <==> g == h,
{
    lemma_be16_round_trip(h.source_port);
    lemma_be16_round_trip(h.destination_port);
    lemma_be16_round_trip(h.length);
    lemma_be16_round_trip(h.checksum);
}

} // verus!
