//! Little-endian byte sequences and the sink operations that append them.

use vstd::prelude::*;

verus! {

/// The two bytes of `v`, least significant first.
pub open spec fn le_bytes_u16(v: u16) -> Seq<u8> {
    seq![(v % 256) as u8, (v / 256) as u8]
}

/// The four bytes of `v`, least significant first.
pub open spec fn le_bytes_u32(v: u32) -> Seq<u8> {
    seq![
        (v % 256) as u8,
        ((v / 256) % 256) as u8,
        ((v / 65536) % 256) as u8,
        (v / 16777216) as u8,
    ]
}

/// The number that four bytes spell, least significant first.
pub open spec fn le_value(bytes: Seq<u8>) -> int
    recommends
        bytes.len() == 4,
{
    bytes[0] + 256 * bytes[1] + 65536 * bytes[2] + 16777216 * bytes[3]
}

/// The 32-bit little-endian number stored at `offset` in `bytes`.
pub open spec fn le_u32_at(bytes: Seq<u8>, offset: int) -> int
    recommends
        0 <= offset,
        offset + 4 <= bytes.len(),
{
    le_value(bytes.subrange(offset, offset + 4))
}

/// `count` zero bytes.
pub open spec fn zeros(count: nat) -> Seq<u8> {
    Seq::new(count, |i: int| 0u8)
}

/// Joining three runs of bytes gives the same whichever two are joined
/// first.
pub proof fn lemma_join(a: Seq<u8>, b: Seq<u8>, c: Seq<u8>)
    ensures
        (a + b) + c == a + (b + c),
{
    assert((a + b) + c =~= a + (b + c));
}

/// Reading back the bytes of a number gives the number.
pub proof fn lemma_le_bytes_u32_value(v: u32)
    ensures
        le_bytes_u32(v).len() == 4,
        le_value(le_bytes_u32(v)) == v,
{
}

/// A number written between two runs of bytes is read back at the
/// length of the first run.
pub proof fn lemma_le_u32_at_join(before: Seq<u8>, v: u32, after: Seq<u8>)
    ensures
        le_u32_at(before + le_bytes_u32(v) + after, before.len() as int) == v,
{
    let all = before + le_bytes_u32(v) + after;
    let at = before.len() as int;
    assert(all.subrange(at, at + 4) =~= le_bytes_u32(v));
    lemma_le_bytes_u32_value(v);
}

/// Bytes appended to a run do not change what is read inside the run.
pub proof fn lemma_le_u32_at_prefix(bytes: Seq<u8>, appended: Seq<u8>, offset: int)
    requires
        0 <= offset,
        offset + 4 <= bytes.len(),
    ensures
        le_u32_at(bytes + appended, offset) == le_u32_at(bytes, offset),
{
    assert((bytes + appended).subrange(offset, offset + 4) =~= bytes.subrange(offset, offset + 4));
}

pub fn push_u16_le(buf: &mut Vec<u8>, v: u16)
    ensures
        final(buf)@ == old(buf)@ + le_bytes_u16(v),
{
    assert(v & 0xff == v % 256 && v >> 8 == v / 256 && (v >> 8) < 256) by (bit_vector);
    buf.push((v & 0xff) as u8);
    buf.push((v >> 8) as u8);
}

pub fn push_u32_le(buf: &mut Vec<u8>, v: u32)
    ensures
        final(buf)@ == old(buf)@ + le_bytes_u32(v),
{
    assert(v & 0xff == v % 256 && (v >> 8) & 0xff == (v / 256) % 256 && (v >> 16) & 0xff == (v
        / 65536) % 256 && v >> 24 == v / 16777216 && (v >> 24) < 256) by (bit_vector);
    buf.push((v & 0xff) as u8);
    buf.push(((v >> 8) & 0xff) as u8);
    buf.push(((v >> 16) & 0xff) as u8);
    buf.push((v >> 24) as u8);
}

/// Appends `count` zero bytes.
pub fn push_zeros(buf: &mut Vec<u8>, count: usize)
    ensures
        final(buf)@ == old(buf)@ + zeros(count as nat),
{
    let mut i: usize = 0;
    while i < count
        invariant
            i <= count,
            buf@ == old(buf)@ + zeros(i as nat),
        decreases count - i,
    {
        buf.push(0);
        i += 1;
    }
}

/// Appends a copy of `bytes`.
pub fn push_bytes(buf: &mut Vec<u8>, bytes: &[u8])
    ensures
        final(buf)@ == old(buf)@ + bytes@,
{
    let mut i: usize = 0;
    while i < bytes.len()
        invariant
            i <= bytes@.len(),
            buf@ == old(buf)@ + bytes@.subrange(0, i as int),
        decreases bytes@.len() - i,
    {
        buf.push(bytes[i]);
        i += 1;
    }
}

} // verus!
