//! Little/big-endian integer helpers and byte-vector utilities shared by
//! all protocol encoders and decoders.

use vstd::prelude::*;

verus! {

/// Low byte of a 16-bit value.
pub open spec fn lo8(x: u16) -> u8 {
    (x % 256) as u8
}

/// High byte of a 16-bit value.
pub open spec fn hi8(x: u16) -> u8 {
    (x / 256) as u8
}

/// Little-endian two-byte encoding of a 16-bit value.
pub open spec fn le16(x: u16) -> Seq<u8> {
    seq![lo8(x), hi8(x)]
}

/// Big-endian two-byte encoding of a 16-bit value.
pub open spec fn be16(x: u16) -> Seq<u8> {
    seq![hi8(x), lo8(x)]
}

/// Value of two little-endian bytes.
pub open spec fn u16_le(a: u8, b: u8) -> u16 {
    (a as int + (b as int) * 256) as u16
}

/// Big-endian four-byte encoding of a 32-bit value.
pub open spec fn be32(x: u32) -> Seq<u8> {
    seq![(x / 0x1000000) as u8, ((x / 0x10000) % 256) as u8, ((x / 256) % 256) as u8, (x % 256) as u8]
}

/// Value of four big-endian bytes.
pub open spec fn u32_be(a: u8, b: u8, c: u8, d: u8) -> u32 {
    (a as int * 0x1000000 + b as int * 0x10000 + c as int * 256 + d as int) as u32
}

pub proof fn lemma_le16_roundtrip(x: u16)
    ensures
        u16_le(lo8(x), hi8(x)) == x,
{
}

/// Computes the low byte of `x`.
pub fn low_byte(x: u16) -> (r: u8)
    ensures
        r == lo8(x),
{
    (x % 256) as u8
}

/// Computes the high byte of `x`.
pub fn high_byte(x: u16) -> (r: u8)
    ensures
        r == hi8(x),
{
    (x / 256) as u8
}

/// Reads a little-endian 16-bit value from two bytes.
pub fn read_u16_le(a: u8, b: u8) -> (r: u16)
    ensures
        r == u16_le(a, b),
        r as int == a as int + (b as int) * 256,
{
    a as u16 + (b as u16) * 256
}

/// Reads a big-endian 16-bit value from two bytes.
pub fn read_u16_be(a: u8, b: u8) -> (r: u16)
    ensures
        r == u16_le(b, a),
        r as int == b as int + (a as int) * 256,
{
    b as u16 + (a as u16) * 256
}

/// Reads a big-endian 32-bit value from four bytes.
pub fn read_u32_be(a: u8, b: u8, c: u8, d: u8) -> (r: u32)
    ensures
        r == u32_be(a, b, c, d),
{
    (a as u32) * 0x1000000 + (b as u32) * 0x10000 + (c as u32) * 256 + d as u32
}

/// Appends the little-endian encoding of `x`.
pub fn push_u16_le(buf: &mut Vec<u8>, x: u16)
    ensures
        final(buf)@ == old(buf)@ + le16(x),
{
    buf.push(low_byte(x));
    buf.push(high_byte(x));
    assert(final(buf)@ =~= old(buf)@ + le16(x));
}

/// Appends the big-endian encoding of `x`.
pub fn push_u16_be(buf: &mut Vec<u8>, x: u16)
    ensures
        final(buf)@ == old(buf)@ + be16(x),
{
    buf.push(high_byte(x));
    buf.push(low_byte(x));
    assert(final(buf)@ =~= old(buf)@ + be16(x));
}

/// Appends the big-endian encoding of `x`.
pub fn push_u32_be(buf: &mut Vec<u8>, x: u32)
    ensures
        final(buf)@ == old(buf)@ + be32(x),
{
    buf.push((x / 0x1000000) as u8);
    buf.push(((x / 0x10000) % 256) as u8);
    buf.push(((x / 256) % 256) as u8);
    buf.push((x % 256) as u8);
    assert(final(buf)@ =~= old(buf)@ + be32(x));
}

/// Appends every byte of `s`.
pub fn push_slice(buf: &mut Vec<u8>, s: &[u8])
    ensures
        final(buf)@ == old(buf)@ + s@,
{
    let ghost start = buf@;
    let mut i: usize = 0;
    while i < s.len()
        invariant
            i <= s@.len(),
            buf@ == start + s@.subrange(0, i as int),
        decreases s@.len() - i,
    {
        buf.push(s[i]);
        i = i + 1;
        assert(buf@ =~= start + s@.subrange(0, i as int));
    }
    assert(s@.subrange(0, i as int) =~= s@);
}

/// Copies `data[start..end]` into a new vector.
pub fn copy_range(data: &[u8], start: usize, end: usize) -> (r: Vec<u8>)
    requires
        start <= end <= data@.len(),
    ensures
        r@ == data@.subrange(start as int, end as int),
{
    let mut r: Vec<u8> = Vec::new();
    let mut i: usize = start;
    while i < end
        invariant
            start <= i <= end <= data@.len(),
            r@ == data@.subrange(start as int, i as int),
        decreases end - i,
    {
        r.push(data[i]);
        i = i + 1;
        assert(r@ =~= data@.subrange(start as int, i as int));
    }
    r
}

/// Whether the bit of value `weight` (a power of two) is set in `b`.
pub open spec fn has_bit(b: u8, weight: int) -> bool {
    (b as int / weight) % 2 == 1
}

/// Byte-wise equality of two byte strings.
pub fn bytes_equal(a: &[u8], b: &[u8]) -> (r: bool)
    ensures
        r == (a@ == b@),
{
    if a.len() != b.len() {
        return false;
    }
    let mut i: usize = 0;
    while i < a.len()
        invariant
            i <= a@.len(),
            a@.len() == b@.len(),
            forall|j: int| 0 <= j < i ==> a@[j] == b@[j],
        decreases a@.len() - i,
    {
        if a[i] != b[i] {
            return false;
        }
        i = i + 1;
    }
    assert(a@ =~= b@);
    true
}

} // verus!
