use vstd::prelude::*;

verus! {

/// The protocol layer at which a decoding failure was detected.
#[derive(Clone, Copy, Debug, PartialEq, Eq, Structural)]
pub enum Layer {
    Ethernet2Header,
    VlanHeader,
    Ipv4Header,
    Ipv6Header,
    TcpHeader,
    UdpHeader,
}

/// The buffer ended before the minimum length of a header was reached.
#[derive(Clone, Copy, Debug, PartialEq, Eq, Structural)]
pub struct UnexpectedEndOfSliceError {
    /// Minimum number of bytes the header needs.
    pub expected_min_len: usize,
    /// Number of bytes that were available.
    pub actual_len: usize,
    /// Layer whose header was being read.
    pub layer: Layer,
}

/// Errors that can occur while decoding a header from bytes.
#[derive(Clone, Copy, Debug, PartialEq, Eq, Structural)]
pub enum ReadError {
    /// Not enough bytes for the header.
    UnexpectedEndOfSlice(UnexpectedEndOfSliceError),
    /// The version nibble of an IPv4 header was not 4 (the value found).
    Ipv4UnexpectedVersion(u8),
    /// The IPv4 header length field was below the minimum of 5 (the value found).
    Ipv4HeaderLengthTooSmall(u8),
    /// The version nibble of an IPv6 header was not 6 (the value found).
    Ipv6UnexpectedVersion(u8),
    /// The TCP data offset was below the minimum of 5 (the value found).
    TcpDataOffsetTooSmall(u8),
}

impl ReadError {
    /// Returns the end-of-slice error if this is one.
    pub fn unexpected_end_of_slice(&self) -> (r: Option<UnexpectedEndOfSliceError>)
        ensures
            r == (match *self {
                ReadError::UnexpectedEndOfSlice(e) => Some(e),
                _ => None,
            }),
    {
        match *self {
            ReadError::UnexpectedEndOfSlice(e) => Some(e),
            _ => None,
        }
    }
}

/// A header field that is restricted to a sub-range of its storage type.
#[derive(Clone, Copy, Debug, PartialEq, Eq, Structural)]
pub enum ErrorField {
    /// The 3-bit VLAN priority code point.
    VlanPriorityCodePoint,
    /// The 12-bit VLAN identifier.
    VlanIdentifier,
    /// The 6-bit IPv4 differentiated services code point.
    Ipv4Dscp,
    /// The 2-bit IPv4 explicit congestion notification.
    Ipv4Ecn,
    /// The 13-bit IPv4 fragment offset.
    Ipv4FragmentOffset,
    /// The number of IPv4 option bytes: a multiple of 4, at most 40.
    Ipv4OptionsLength,
    /// The 20-bit IPv6 flow label.
    Ipv6FlowLabel,
    /// The 4-bit TCP data offset, in 32-bit words.
    TcpDataOffset,
    /// The length of a UDP payload, which with the header must fit the
    /// 16-bit length field.
    UdpPayloadLength,
    /// The length of a TCP payload, which with the header must fit a
    /// 32-bit pseudo-header length.
    TcpPayloadLength,
}

/// A field held a value outside the range the wire format can carry.
#[derive(Clone, Copy, Debug, PartialEq, Eq, Structural)]
pub struct ValueError {
    /// The offending field.
    pub field: ErrorField,
    /// The value it held.
    pub value: u64,
    /// Smallest accepted value.
    pub min: u64,
    /// Largest accepted value.
    pub max: u64,
}

/// Errors that can occur while encoding a header.
#[derive(Clone, Copy, Debug, PartialEq, Eq, Structural)]
pub enum WriteError {
    /// A field was out of its valid range; nothing was written.
    ValueError(ValueError),
}

/// A stored checksum that differs from the one computed over the data.
/// Reported beside a successful decode, never in place of one.
#[derive(Clone, Copy, Debug, PartialEq, Eq, Structural)]
pub struct ChecksumMismatch {
    /// Layer whose checksum was checked.
    pub layer: Layer,
    /// The checksum stored in the header.
    pub expected: u16,
    /// The checksum computed over the data.
    pub computed: u16,
}

} // verus!
