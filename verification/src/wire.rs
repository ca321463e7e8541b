//! Little-endian wire format helpers.
//!
//! Submission entries, completion entries and the identify data structures
//! are all little-endian byte layouts; these spec functions say what a
//! number looks like on the wire, and the exec helpers read and write it.

use vstd::prelude::*;

verus! {

/// The two little-endian bytes of `x`.
pub open spec fn le16(x: u16) -> Seq<u8> {
    seq![(x & 0xFF) as u8, ((x >> 8) & 0xFF) as u8]
}

/// The four little-endian bytes of `x`.
pub open spec fn le32(x: u32) -> Seq<u8> {
    seq![
        (x & 0xFF) as u8,
        ((x >> 8) & 0xFF) as u8,
        ((x >> 16) & 0xFF) as u8,
        ((x >> 24) & 0xFF) as u8,
    ]
}

/// The eight little-endian bytes of `x`.
pub open spec fn le64(x: u64) -> Seq<u8> {
    seq![
        (x & 0xFF) as u8,
        ((x >> 8) & 0xFF) as u8,
        ((x >> 16) & 0xFF) as u8,
        ((x >> 24) & 0xFF) as u8,
        ((x >> 32) & 0xFF) as u8,
        ((x >> 40) & 0xFF) as u8,
        ((x >> 48) & 0xFF) as u8,
        ((x >> 56) & 0xFF) as u8,
    ]
}

/// The 16-bit little-endian number at byte offset `off` of `s`.
pub open spec fn u16_at(s: Seq<u8>, off: int) -> u16
    recommends
        0 <= off,
        off + 2 <= s.len(),
{
    ((s[off] as u16) | ((s[off + 1] as u16) << 8)) as u16
}

/// The 32-bit little-endian number at byte offset `off` of `s`.
pub open spec fn u32_at(s: Seq<u8>, off: int) -> u32
    recommends
        0 <= off,
        off + 4 <= s.len(),
{
    ((s[off] as u32) | ((s[off + 1] as u32) << 8) | ((s[off + 2] as u32) << 16) | ((s[off
        + 3] as u32) << 24)) as u32
}

/// The 64-bit little-endian number at byte offset `off` of `s`.
pub open spec fn u64_at(s: Seq<u8>, off: int) -> u64
    recommends
        0 <= off,
        off + 8 <= s.len(),
{
    ((u32_at(s, off) as u64) | ((u32_at(s, off + 4) as u64) << 32)) as u64
}

/// Append the four little-endian bytes of `x`.
pub fn push_le32(v: &mut Vec<u8>, x: u32)
    ensures
        final(v)@ == old(v)@ + le32(x),
{
    v.push((x & 0xFF) as u8);
    v.push(((x >> 8) & 0xFF) as u8);
    v.push(((x >> 16) & 0xFF) as u8);
    v.push(((x >> 24) & 0xFF) as u8);
    assert(final(v)@ =~= old(v)@ + le32(x));
}

/// Append the eight little-endian bytes of `x`.
pub fn push_le64(v: &mut Vec<u8>, x: u64)
    ensures
        final(v)@ == old(v)@ + le64(x),
{
    v.push((x & 0xFF) as u8);
    v.push(((x >> 8) & 0xFF) as u8);
    v.push(((x >> 16) & 0xFF) as u8);
    v.push(((x >> 24) & 0xFF) as u8);
    v.push(((x >> 32) & 0xFF) as u8);
    v.push(((x >> 40) & 0xFF) as u8);
    v.push(((x >> 48) & 0xFF) as u8);
    v.push(((x >> 56) & 0xFF) as u8);
    assert(final(v)@ =~= old(v)@ + le64(x));
}

/// Read the 16-bit little-endian number at byte offset `off`.
pub fn read_u16_at(s: &[u8], off: usize) -> (r: u16)
    requires
        off + 2 <= s@.len(),
    ensures
        r == u16_at(s@, off as int),
{
    (s[off] as u16) | ((s[off + 1] as u16) << 8)
}

/// Read the 32-bit little-endian number at byte offset `off`.
pub fn read_u32_at(s: &[u8], off: usize) -> (r: u32)
    requires
        off + 4 <= s@.len(),
    ensures
        r == u32_at(s@, off as int),
{
    (s[off] as u32) | ((s[off + 1] as u32) << 8) | ((s[off + 2] as u32) << 16) | ((s[off
        + 3] as u32) << 24)
}

/// Read the 64-bit little-endian number at byte offset `off`.
pub fn read_u64_at(s: &[u8], off: usize) -> (r: u64)
    requires
        off + 8 <= s@.len(),
    ensures
        r == u64_at(s@, off as int),
{
    let n = s.len();
    proof {
        assert(off + 8 <= n);
    }
    let lo = read_u32_at(s, off);
    let hi = read_u32_at(s, off + 4);
    (lo as u64) | ((hi as u64) << 32)
}

/// The low and high halves of a 32-bit number, as read back from its wire
/// bytes.
pub proof fn lemma_le32_halves(x: u32)
    ensures
        u16_at(le32(x), 0) == (x & 0xFFFF) as u16,
        u16_at(le32(x), 2) == (x >> 16) as u16,
{
    assert((((x & 0xFF) as u8 as u16) | ((((x >> 8) & 0xFF) as u8 as u16) << 8)) == (x
        & 0xFFFF) as u16) by (bit_vector);
    assert(((((x >> 16) & 0xFF) as u8 as u16) | ((((x >> 24) & 0xFF) as u8 as u16) << 8)) == (x
        >> 16) as u16) by (bit_vector);
}

} // verus!
