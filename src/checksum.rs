use vstd::prelude::*;
use crate::be::{be16_bytes, be32_bytes};
use vstd::arithmetic::div_mod::{lemma_add_mod_noop, lemma_mod_sub_multiples_vanish, lemma_small_mod};

verus! {

/// The modulus of one's-complement 16-bit arithmetic.
pub open spec fn ones_modulus() -> int {
    0xffff
}

/// Sum of the big-endian 16-bit words of `b`; an odd last byte is taken as
/// the high byte of a word whose low byte is zero.
pub open spec fn sum16(b: Seq<u8>) -> nat
    decreases b.len(),
{
    if b.len() == 0 {
        0
    } else if b.len() == 1 {
        b[0] as nat * 256
    } else {
        b[0] as nat * 256 + b[1] as nat + sum16(b.subrange(2, b.len() as int))
    }
}

/// A sum folded into 16 bits with end-around carry: 0 stays 0, any other
/// sum becomes the value in 1 to 0xffff that is congruent to it modulo 0xffff.
pub open spec fn fold_sum(s: int) -> u16 {
    if s <= 0 {
        0
    } else {
        (((s - 1) % ones_modulus()) + 1) as u16
    }
}

/// The internet checksum of `b`: the complement of its folded word sum.
pub open spec fn internet_checksum(b: Seq<u8>) -> u16 {
    (0xffff - fold_sum(sum16(b) as int)) as u16
}

/// Two sums that agree modulo 0xffff and are zero together fold alike after
/// adding the same amount.
proof fn lemma_fold_congruent(x: int, y: int, r: int)
    requires
        x >= 0,
        y >= 0,
        r >= 0,
        x % ones_modulus() == y % ones_modulus(),
        x == 0 <==> y == 0,
    ensures
        fold_sum(x + r) == fold_sum(y + r),
{
    if x != 0 {
        lemma_add_mod_noop(x, r - 1, ones_modulus());
        lemma_add_mod_noop(y, r - 1, ones_modulus());
    }
}

/// A value that already fits in 16 bits folds to itself.
proof fn lemma_fold_small(a: int)
    requires
        0 <= a <= 0xffff,
    ensures
        fold_sum(a) == a,
{
    if a > 0 {
        lemma_small_mod((a - 1) as nat, ones_modulus() as nat);
    }
}

/// The word sum of two buffers, the first of even length, is the sum of
/// their word sums.
pub proof fn lemma_sum16_concat(a: Seq<u8>, b: Seq<u8>)
    requires
        a.len() % 2 == 0,
    ensures
        sum16(a + b) == sum16(a) + sum16(b),
    decreases a.len(),
{
    if a.len() > 0 {
        let tail = a.subrange(2, a.len() as int);
        lemma_sum16_concat(tail, b);
        assert((a + b).subrange(2, (a + b).len() as int) =~= tail + b);
    } else {
        assert(a + b =~= b);
    }
}

/// Adds `w` to a folded sum with end-around carry.
fn add_folded(acc: u16, w: u16, Ghost(rest): Ghost<int>) -> (r: u16)
    requires
        rest >= 0,
    ensures
        fold_sum(r + rest) == fold_sum(acc + w + rest),
{
    let t = acc as u32 + w as u32;
    let r = if t > 0xffff {
        (t - 0xffff) as u16
    } else {
        t as u16
    };
    proof {
        if t > 0xffff {
            lemma_mod_sub_multiples_vanish(t as int, ones_modulus());
        }
        lemma_fold_congruent(r as int, t as int, rest);
    }
    r
}

/// Adds the words of `b` to the folded sum `acc`.
pub fn add_words(start: u16, b: &[u8]) -> (r: u16)
    ensures
        r == fold_sum(start + sum16(b@)),
{
    let n = b.len();
    let mut acc = start;
    let mut i: usize = 0;
    assert(b@.subrange(0, n as int) =~= b@);
    while n - i > 1
        invariant
            n == b@.len(),
            i <= n,
            fold_sum(start + sum16(b@)) == fold_sum(acc + sum16(b@.subrange(i as int, n as int))),
        decreases n - i,
    {
        let w = (b[i] as u16) * 256 + b[i + 1] as u16;
        let ghost rest = b@.subrange(i + 2, n as int);
        assert(b@.subrange(i as int, n as int).subrange(2, n - i) =~= rest);
        acc = add_folded(acc, w, Ghost(sum16(rest) as int));
        i = i + 2;
    }
    if i < n {
        assert(b@.subrange(i as int, n as int).len() == 1);
        let w = (b[i] as u16) * 256;
        acc = add_folded(acc, w, Ghost(0));
    } else {
        assert(b@.subrange(i as int, n as int).len() == 0);
    }
    proof {
        lemma_fold_small(acc as int);
    }
    acc
}

/// Folding part of a sum first does not change the folded total.
pub proof fn lemma_fold_fold(x: int, r: int)
    requires
        x >= 0,
        r >= 0,
    ensures
        fold_sum(fold_sum(x) + r) == fold_sum(x + r),
{
    if x > 0 {
        lemma_add_mod_noop(x - 1, 1, ones_modulus());
        lemma_small_mod(1, ones_modulus() as nat);
    }
    lemma_fold_congruent(fold_sum(x) as int, x, r);
}

/// The internet checksum of `b`.
pub fn checksum_of(b: &[u8]) -> (r: u16)
    ensures
        r == internet_checksum(b@),
{
    let folded = add_words(0, b);
    0xffff - folded
}

/// The IPv6 pseudo-header that a transport checksum covers: both addresses,
/// the upper-layer length, three zero bytes and the next-header number.
pub open spec fn ipv6_pseudo_header(source: Seq<u8>, destination: Seq<u8>, len: u32, next_header: u8) -> Seq<u8> {
    source + destination + be32_bytes(len) + seq![0u8, 0u8, 0u8, next_header]
}

/// The IPv4 pseudo-header that a transport checksum covers: both addresses,
/// a zero byte, the protocol number and the upper-layer length.
pub open spec fn ipv4_pseudo_header(source: Seq<u8>, destination: Seq<u8>, protocol: u8, len: u16) -> Seq<u8> {
    source + destination + seq![0u8, protocol] + be16_bytes(len)
}

} // verus!
