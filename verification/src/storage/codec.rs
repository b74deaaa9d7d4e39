//! Little-endian integer encodings used by the persisted records and the
//! slot header, with their exact byte-level meaning.

use vstd::prelude::*;

verus! {

/// Little-endian bytes of a `u16`.
pub open spec fn le16(x: u16) -> Seq<u8> {
    seq![x as u8, (x >> 8u16) as u8]
}

/// The `u16` whose little-endian bytes are `b0, b1`.
pub open spec fn from_le16(b0: u8, b1: u8) -> u16 {
    (b0 as u16) | ((b1 as u16) << 8u16)
}

/// Little-endian bytes of a `u32`.
pub open spec fn le32(x: u32) -> Seq<u8> {
    seq![x as u8, (x >> 8u32) as u8, (x >> 16u32) as u8, (x >> 24u32) as u8]
}

/// The `u32` whose little-endian bytes are `b0..b3`.
pub open spec fn from_le32(b0: u8, b1: u8, b2: u8, b3: u8) -> u32 {
    (b0 as u32) | ((b1 as u32) << 8u32) | ((b2 as u32) << 16u32) | ((b3 as u32) << 24u32)
}

/// Little-endian bytes of a `u64`.
pub open spec fn le64(x: u64) -> Seq<u8> {
    seq![
        x as u8,
        (x >> 8u64) as u8,
        (x >> 16u64) as u8,
        (x >> 24u64) as u8,
        (x >> 32u64) as u8,
        (x >> 40u64) as u8,
        (x >> 48u64) as u8,
        (x >> 56u64) as u8,
    ]
}

/// The `u64` whose little-endian bytes are the eight bytes of `s` starting
/// at `at`.
pub open spec fn from_le64_at(s: Seq<u8>, at: int) -> u64 {
    (s[at] as u64) | ((s[at + 1] as u64) << 8u64) | ((s[at + 2] as u64) << 16u64) | ((s[at
        + 3] as u64) << 24u64) | ((s[at + 4] as u64) << 32u64) | ((s[at + 5] as u64) << 40u64)
        | ((s[at + 6] as u64) << 48u64) | ((s[at + 7] as u64) << 56u64)
}

/// The `u16` read little-endian from `s` at `at`.
pub open spec fn from_le16_at(s: Seq<u8>, at: int) -> u16 {
    from_le16(s[at], s[at + 1])
}

/// The `u32` read little-endian from `s` at `at`.
pub open spec fn from_le32_at(s: Seq<u8>, at: int) -> u32 {
    from_le32(s[at], s[at + 1], s[at + 2], s[at + 3])
}

pub proof fn lemma_le16_roundtrip(x: u16)
    ensures
        from_le16(le16(x)[0], le16(x)[1]) == x,
{
    let b0 = x as u8;
    let b1 = (x >> 8u16) as u8;
    assert(((b0 as u16) | ((b1 as u16) << 8u16)) == x) by (bit_vector)
        requires
            b0 == x as u8,
            b1 == (x >> 8u16) as u8,
    ;
}

pub proof fn lemma_le32_roundtrip(x: u32)
    ensures
        from_le32(le32(x)[0], le32(x)[1], le32(x)[2], le32(x)[3]) == x,
{
    let b0 = x as u8;
    let b1 = (x >> 8u32) as u8;
    let b2 = (x >> 16u32) as u8;
    let b3 = (x >> 24u32) as u8;
    assert(((b0 as u32) | ((b1 as u32) << 8u32) | ((b2 as u32) << 16u32) | ((b3 as u32)
        << 24u32)) == x) by (bit_vector)
        requires
            b0 == x as u8,
            b1 == (x >> 8u32) as u8,
            b2 == (x >> 16u32) as u8,
            b3 == (x >> 24u32) as u8,
    ;
}

pub proof fn lemma_le64_roundtrip(x: u64, s: Seq<u8>, at: int)
    requires
        0 <= at,
        at + 8 <= s.len(),
        s.subrange(at, at + 8) == le64(x),
    ensures
        from_le64_at(s, at) == x,
{
    assert(s[at] == le64(x)[0]);
    assert(s[at + 1] == le64(x)[1]);
    assert(s[at + 2] == le64(x)[2]);
    assert(s[at + 3] == le64(x)[3]);
    assert(s[at + 4] == le64(x)[4]);
    assert(s[at + 5] == le64(x)[5]);
    assert(s[at + 6] == le64(x)[6]);
    assert(s[at + 7] == le64(x)[7]);
    let b0 = x as u8;
    let b1 = (x >> 8u64) as u8;
    let b2 = (x >> 16u64) as u8;
    let b3 = (x >> 24u64) as u8;
    let b4 = (x >> 32u64) as u8;
    let b5 = (x >> 40u64) as u8;
    let b6 = (x >> 48u64) as u8;
    let b7 = (x >> 56u64) as u8;
    assert(((b0 as u64) | ((b1 as u64) << 8u64) | ((b2 as u64) << 16u64) | ((b3 as u64)
        << 24u64) | ((b4 as u64) << 32u64) | ((b5 as u64) << 40u64) | ((b6 as u64) << 48u64)
        | ((b7 as u64) << 56u64)) == x) by (bit_vector)
        requires
            b0 == x as u8,
            b1 == (x >> 8u64) as u8,
            b2 == (x >> 16u64) as u8,
            b3 == (x >> 24u64) as u8,
            b4 == (x >> 32u64) as u8,
            b5 == (x >> 40u64) as u8,
            b6 == (x >> 48u64) as u8,
            b7 == (x >> 56u64) as u8,
    ;
}

/// Two's-complement bits of an `i16` survive the trip through `u16`.
pub proof fn lemma_i16_bits(x: i16)
    ensures
        ((x as u16) as i16) == x,
{
    assert(((x as u16) as i16) == x) by (bit_vector);
}

/// Two's-complement bits of an `i64` survive the trip through `u64`.
pub proof fn lemma_i64_bits(x: i64)
    ensures
        ((x as u64) as i64) == x,
{
    assert(((x as u64) as i64) == x) by (bit_vector);
}

pub fn push_u16(v: &mut Vec<u8>, x: u16)
    ensures
        final(v)@ == old(v)@ + le16(x),
{
    v.push(x as u8);
    v.push((x >> 8) as u8);
    assert(final(v)@ =~= old(v)@ + le16(x));
}

pub fn push_u32(v: &mut Vec<u8>, x: u32)
    ensures
        final(v)@ == old(v)@ + le32(x),
{
    v.push(x as u8);
    v.push((x >> 8) as u8);
    v.push((x >> 16) as u8);
    v.push((x >> 24) as u8);
    assert(final(v)@ =~= old(v)@ + le32(x));
}

pub fn push_u64(v: &mut Vec<u8>, x: u64)
    ensures
        final(v)@ == old(v)@ + le64(x),
{
    v.push(x as u8);
    v.push((x >> 8) as u8);
    v.push((x >> 16) as u8);
    v.push((x >> 24) as u8);
    v.push((x >> 32) as u8);
    v.push((x >> 40) as u8);
    v.push((x >> 48) as u8);
    v.push((x >> 56) as u8);
    assert(final(v)@ =~= old(v)@ + le64(x));
}

pub fn read_u16(s: &[u8], at: usize) -> (x: u16)
    requires
        at + 2 <= s@.len(),
    ensures
        x == from_le16_at(s@, at as int),
{
    (s[at] as u16) | ((s[at + 1] as u16) << 8)
}

pub fn read_u32(s: &[u8], at: usize) -> (x: u32)
    requires
        at + 4 <= s@.len(),
    ensures
        x == from_le32_at(s@, at as int),
{
    (s[at] as u32) | ((s[at + 1] as u32) << 8) | ((s[at + 2] as u32) << 16) | ((s[at + 3] as u32)
        << 24)
}

pub fn read_u64(s: &[u8], at: usize) -> (x: u64)
    requires
        at + 8 <= s@.len(),
    ensures
        x == from_le64_at(s@, at as int),
{
    (s[at] as u64) | ((s[at + 1] as u64) << 8) | ((s[at + 2] as u64) << 16) | ((s[at + 3] as u64)
        << 24) | ((s[at + 4] as u64) << 32) | ((s[at + 5] as u64) << 40) | ((s[at + 6] as u64)
        << 48) | ((s[at + 7] as u64) << 56)
}

/// Copy `src` over the first `src.len()` bytes of `out`, leaving the rest of
/// `out` as it was.
pub fn copy_prefix(out: &mut [u8], src: &Vec<u8>)
    requires
        src@.len() <= old(out)@.len(),
    ensures
        final(out)@.len() == old(out)@.len(),
        final(out)@ == src@ + old(out)@.subrange(src@.len() as int, old(out)@.len() as int),
{
    let n = src.len();
    let mut i: usize = 0;
    while i < n
        invariant
            n == src@.len(),
            n <= old(out)@.len(),
            i <= n,
            out@.len() == old(out)@.len(),
            forall|j: int| 0 <= j < i ==> out@[j] == src@[j],
            forall|j: int| n <= j < out@.len() ==> out@[j] == old(out)@[j],
        decreases n - i,
    {
        out[i] = src[i];
        i = i + 1;
    }
    assert(out@ =~= src@ + old(out)@.subrange(n as int, old(out)@.len() as int));
}

} // verus!
