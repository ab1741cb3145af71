use vstd::prelude::*;

verus! {

/// `w` if `b` is set, else 0.
pub open spec fn flag_bit(b: bool, w: int) -> int {
    if b {
        w
    } else {
        0
    }
}

/// Whether bit `w` (a power of two) of `byte` is set.
pub open spec fn bit_set(byte: u8, w: int) -> bool {
    (byte as int / w) % 2 == 1
}

/// How masks and shifts of a byte read as arithmetic: each single-bit mask
/// tests one bit, and the nibble and field masks and shifts are remainders
/// and quotients.
pub proof fn lemma_byte_bits(b: u8)
    by (bit_vector)
    ensures
        (b & 0x80 != 0) == ((b / 128) % 2 == 1),
        (b & 0x40 != 0) == ((b / 64) % 2 == 1),
        (b & 0x20 != 0) == ((b / 32) % 2 == 1),
        (b & 0x10 != 0) == ((b / 16) % 2 == 1),
        (b & 0x08 != 0) == ((b / 8) % 2 == 1),
        (b & 0x04 != 0) == ((b / 4) % 2 == 1),
        (b & 0x02 != 0) == ((b / 2) % 2 == 1),
        (b & 0x01 != 0) == ((b / 1) % 2 == 1),
        b >> 4u8 == b / 16,
        b >> 5u8 == b / 32,
        b >> 2u8 == b / 4,
        b & 0xf == b % 16,
        b & 3 == b % 4,
        b / 16 <= 15,
        b / 32 <= 7,
        b / 4 <= 0x3f,
{
}

/// The big-endian value of two bytes.
pub open spec fn be16(hi: u8, lo: u8) -> int {
    hi as int * 256 + lo as int
}

/// The big-endian value of four bytes.
pub open spec fn be32(b0: u8, b1: u8, b2: u8, b3: u8) -> int {
    b0 as int * 0x100_0000 + b1 as int * 0x1_0000 + b2 as int * 0x100 + b3 as int
}

/// Reads a big-endian `u16` at `offset`.
pub fn read_be_u16(b: &[u8], offset: usize) -> (r: u16)
    requires
        offset + 2 <= b@.len(),
    ensures
        r as int == be16(b@[offset as int], b@[offset + 1]),
{
    let hi = b[offset];
    let lo = b[offset + 1];
    let r = ((hi as u16) << 8) | (lo as u16);
    assert(((hi as u16) << 8) | (lo as u16) == hi as u16 * 256 + lo as u16) by (bit_vector);
    r
}

/// Reads a big-endian `u32` at `offset`.
pub fn read_be_u32(b: &[u8], offset: usize) -> (r: u32)
    requires
        offset + 4 <= b@.len(),
    ensures
        r as int == be32(b@[offset as int], b@[offset + 1], b@[offset + 2], b@[offset + 3]),
{
    let b0 = b[offset];
    let b1 = b[offset + 1];
    let b2 = b[offset + 2];
    let b3 = b[offset + 3];
    let r = ((b0 as u32) << 24) | ((b1 as u32) << 16) | ((b2 as u32) << 8) | (b3 as u32);
    assert(((b0 as u32) << 24) | ((b1 as u32) << 16) | ((b2 as u32) << 8) | (b3 as u32)
        == b0 as u32 * 0x100_0000 + b1 as u32 * 0x1_0000 + b2 as u32 * 0x100 + b3 as u32)
        by (bit_vector);
    r
}

/// The two big-endian bytes of a 16-bit value.
pub open spec fn be16_bytes(v: u16) -> Seq<u8> {
    seq![(v / 256) as u8, (v % 256) as u8]
}

/// The four big-endian bytes of a 32-bit value.
pub open spec fn be32_bytes(v: u32) -> Seq<u8> {
    seq![(v / 0x100_0000) as u8, ((v / 0x1_0000) % 256) as u8, ((v / 256) % 256) as u8,
        (v % 256) as u8]
}

/// Appends the big-endian bytes of `v`.
pub fn push_be_u16(out: &mut Vec<u8>, v: u16)
    ensures
        final(out)@ == old(out)@ + be16_bytes(v),
{
    let hi = (v >> 8) as u8;
    let lo = (v & 0xff) as u8;
    assert(v >> 8 == v / 256 && v & 0xff == v % 256) by (bit_vector);
    out.push(hi);
    out.push(lo);
    assert(out@ =~= old(out)@ + be16_bytes(v));
}

/// Appends the big-endian bytes of `v`.
pub fn push_be_u32(out: &mut Vec<u8>, v: u32)
    ensures
        final(out)@ == old(out)@ + be32_bytes(v),
{
    assert(v >> 24u32 == v / 0x100_0000 && (v >> 16u32) & 0xff == (v / 0x1_0000) % 256 && (v
        >> 8u32) & 0xff == (v / 256) % 256 && v & 0xff == v % 256) by (bit_vector);
    out.push((v >> 24u32) as u8);
    out.push(((v >> 16u32) & 0xff) as u8);
    out.push(((v >> 8u32) & 0xff) as u8);
    out.push((v & 0xff) as u8);
    assert(out@ =~= old(out)@ + be32_bytes(v));
}

/// Reading back the two bytes of `v` gives `v`.
pub proof fn lemma_be16_round_trip(v: u16)
    ensures
        be16(be16_bytes(v)[0], be16_bytes(v)[1]) == v,
{
    assert((((v / 256) as u8) as u16 * 256 + ((v % 256) as u8) as u16) == v) by (bit_vector);
}

/// Reading back the four bytes of `v` gives `v`.
pub proof fn lemma_be32_round_trip(v: u32)
    ensures
        be32(be32_bytes(v)[0], be32_bytes(v)[1], be32_bytes(v)[2], be32_bytes(v)[3]) == v,
{
    assert(((v / 0x100_0000) as u8) as u32 * 0x100_0000 + (((v / 0x1_0000) % 256) as u8) as u32
        * 0x1_0000 + (((v / 256) % 256) as u8) as u32 * 0x100 + ((v % 256) as u8) as u32 == v)
        by (bit_vector);
}

/// Appends every byte of `src` to `out`.
pub fn push_bytes(out: &mut Vec<u8>, src: &[u8])
    ensures
        final(out)@ == old(out)@ + src@,
{
    let mut i: usize = 0;
    while i < src.len()
        invariant
            i <= src@.len(),
            out@ == old(out)@ + src@.subrange(0, i as int),
        decreases src@.len() - i,
    {
        out.push(src[i]);
        i = i + 1;
        assert(out@ =~= old(out)@ + src@.subrange(0, i as int));
    }
    assert(src@.subrange(0, i as int) =~= src@);
}

/// Compares two byte slices element by element.
pub fn bytes_equal(a: &[u8], b: &[u8]) -> (r: bool)
    ensures
        r == (a@ == b@),
{
    if a.len() != b.len() {
        return false;
    }
    let mut i: usize = 0;
    while i < a.len()
        invariant
            i <= a@.len(),
            a@.len() == b@.len(),
            forall|k: int| 0 <= k < i ==> a@[k] == b@[k],
        decreases a@.len() - i,
    {
        if a[i] != b[i] {
            return false;
        }
        i = i + 1;
    }
    assert(a@ =~= b@);
    true
}

} // verus!
