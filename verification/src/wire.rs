//! Little-endian integer encoding used by the EMF wire format.

use vstd::prelude::*;

verus! {

/// Unsigned 16-bit value stored little-endian at byte offset `i` of `s`.
pub open spec fn u16_at(s: Seq<u8>, i: int) -> u16 {
    (s[i] + 256 * s[i + 1]) as u16
}

/// Unsigned 32-bit value stored little-endian at byte offset `i` of `s`.
pub open spec fn u32_at(s: Seq<u8>, i: int) -> u32 {
    (s[i] + 256 * s[i + 1] + 65536 * s[i + 2] + 16777216 * s[i + 3]) as u32
}

/// Two's-complement signed 32-bit value stored little-endian at offset `i`.
pub open spec fn i32_at(s: Seq<u8>, i: int) -> i32 {
    u32_at(s, i) as i32
}

/// Two's-complement signed 16-bit value stored little-endian at offset `i`.
pub open spec fn i16_at(s: Seq<u8>, i: int) -> i16 {
    u16_at(s, i) as i16
}

/// Little-endian bytes of a 16-bit value.
pub open spec fn u16_le(v: u16) -> Seq<u8> {
    seq![(v % 256) as u8, (v / 256) as u8]
}

/// Little-endian bytes of a 32-bit value.
pub open spec fn u32_le(v: u32) -> Seq<u8> {
    seq![(v % 256) as u8, ((v / 256) % 256) as u8, ((v / 65536) % 256) as u8, (v / 16777216) as u8]
}

/// The unsigned reinterpretation of a signed 32-bit value.
pub open spec fn i32_bits(v: i32) -> u32 {
    v as u32
}

/// Little-endian bytes of a signed 32-bit value (two's complement).
pub open spec fn i32_le(v: i32) -> Seq<u8> {
    u32_le(i32_bits(v))
}

pub broadcast proof fn lemma_u32_le(v: u32)
    ensures
        #[trigger] u32_le(v).len() == 4,
        u32_le(v)[0] + 256 * u32_le(v)[1] + 65536 * u32_le(v)[2] + 16777216 * u32_le(v)[3] == v,
{
}

pub broadcast proof fn lemma_u16_le(v: u16)
    ensures
        #[trigger] u16_le(v).len() == 2,
        u16_le(v)[0] + 256 * u16_le(v)[1] == v,
{
}

pub broadcast proof fn lemma_i32_bits(v: i32)
    ensures
        #[trigger] i32_bits(v) as i32 == v,
{
    assert((v as u32) as i32 == v) by (bit_vector);
}

pub broadcast group group_wire {
    lemma_u32_le,
    lemma_u16_le,
    lemma_i32_bits,
}

/// The u32 written at the end of `pre` reads back.
pub proof fn lemma_read_u32(pre: Seq<u8>, v: u32, post: Seq<u8>)
    ensures
        u32_at(pre + u32_le(v) + post, pre.len() as int) == v,
        (pre + u32_le(v) + post).len() == pre.len() + 4 + post.len(),
{
    let s = pre + u32_le(v) + post;
    let b = u32_le(v);
    let i = pre.len() as int;
    assert(s[i] == b[0]);
    assert(s[i + 1] == b[1]);
    assert(s[i + 2] == b[2]);
    assert(s[i + 3] == b[3]);
}

/// The u16 written at the end of `pre` reads back.
pub proof fn lemma_read_u16(pre: Seq<u8>, v: u16, post: Seq<u8>)
    ensures
        u16_at(pre + u16_le(v) + post, pre.len() as int) == v,
        (pre + u16_le(v) + post).len() == pre.len() + 2 + post.len(),
{
    let s = pre + u16_le(v) + post;
    let b = u16_le(v);
    let i = pre.len() as int;
    assert(s[i] == b[0]);
    assert(s[i + 1] == b[1]);
}

/// The i32 written at the end of `pre` reads back.
pub proof fn lemma_read_i32(pre: Seq<u8>, v: i32, post: Seq<u8>)
    ensures
        i32_at(pre + i32_le(v) + post, pre.len() as int) == v,
        (pre + i32_le(v) + post).len() == pre.len() + 4 + post.len(),
{
    lemma_read_u32(pre, i32_bits(v), post);
    lemma_i32_bits(v);
}

/// Append the little-endian bytes of `v`.
pub fn push_u32(out: &mut Vec<u8>, v: u32)
    ensures
        final(out)@ == old(out)@ + u32_le(v),
{
    out.push((v % 256) as u8);
    out.push(((v / 256) % 256) as u8);
    out.push(((v / 65536) % 256) as u8);
    out.push((v / 16777216) as u8);
    assert(final(out)@ =~= old(out)@ + u32_le(v));
}

} // verus!

verus! {

/// Read the little-endian u32 at `i`.
pub fn read_u32(s: &[u8], i: usize) -> (v: u32)
    requires
        i + 4 <= s@.len(),
    ensures
        v == u32_at(s@, i as int),
{
    s[i] as u32 + (s[i + 1] as u32) * 256 + (s[i + 2] as u32) * 65536 + (s[i + 3] as u32) * 16777216
}

/// Read the little-endian u16 at `i`.
pub fn read_u16(s: &[u8], i: usize) -> (v: u16)
    requires
        i + 2 <= s@.len(),
    ensures
        v == u16_at(s@, i as int),
{
    s[i] as u16 + (s[i + 1] as u16) * 256
}

} // verus!

verus! {

/// The low 32 bits of a non-negative integer (a wrapping length field).
pub open spec fn trunc32(v: int) -> u32 {
    (v % 0x1_0000_0000) as u32
}

/// Adding a small constant commutes with the reduction to 32 bits.
pub proof fn lemma_trunc32_add(bl: int, k: u32)
    requires
        bl >= 0,
        k <= 0xffff,
    ensures
        trunc32(bl).wrapping_add(k) == trunc32(k + bl),
{
    let m: int = 0x1_0000_0000;
    let q = bl / m;
    let r = bl % m;
    assert(bl == q * m + r && 0 <= r < m) by (nonlinear_arith)
        requires
            m > 0,
            q == bl / m,
            r == bl % m,
    ;
    if r + k < m {
        assert((k + bl) % m == r + k) by (nonlinear_arith)
            requires
                k + bl == q * m + (r + k),
                0 <= r + k < m,
        ;
    } else {
        assert((k + bl) % m == r + k - m) by (nonlinear_arith)
            requires
                k + bl == (q + 1) * m + (r + k - m),
                0 <= r + k - m < m,
        ;
    }
}

/// A value below 2^32 is its own 32-bit reduction.
pub proof fn lemma_trunc32_id(v: int)
    requires
        0 <= v < 0x1_0000_0000,
    ensures
        trunc32(v) == v,
{
}

/// `v` reduced to 32 bits.
pub fn len_u32(v: usize) -> (r: u32)
    ensures
        r == trunc32(v as int),
{
    ((v as u64) % 0x1_0000_0000) as u32
}

/// Append the little-endian bytes of `v`.
pub fn push_u16(out: &mut Vec<u8>, v: u16)
    ensures
        final(out)@ == old(out)@ + u16_le(v),
{
    out.push((v % 256) as u8);
    out.push((v / 256) as u8);
    assert(final(out)@ =~= old(out)@ + u16_le(v));
}

/// Append the little-endian bytes of `v`.
pub fn push_i32(out: &mut Vec<u8>, v: i32)
    ensures
        final(out)@ == old(out)@ + i32_le(v),
{
    push_u32(out, v as u32);
}

/// Append all of `data`.
pub fn push_bytes(out: &mut Vec<u8>, data: &[u8])
    ensures
        final(out)@ == old(out)@ + data@,
{
    let ghost start = out@;
    let mut i: usize = 0;
    while i < data.len()
        invariant
            i <= data@.len(),
            out@ == start + data@.subrange(0, i as int),
        decreases data@.len() - i,
    {
        out.push(data[i]);
        i = i + 1;
        assert(out@ =~= start + data@.subrange(0, i as int));
    }
    assert(data@.subrange(0, data@.len() as int) =~= data@);
}

/// `s` followed by the zero bytes that round its length up to a multiple of 4.
pub open spec fn pad4(s: Seq<u8>) -> Seq<u8> {
    s + Seq::new(((4 - s.len() % 4) % 4) as nat, |i: int| 0u8)
}

/// Append zero bytes until the length is a multiple of 4.
pub fn pad_to_4(out: &mut Vec<u8>)
    ensures
        final(out)@ == pad4(old(out)@),
{
    let ghost start = out@;
    let ghost k = (4 - start.len() % 4) % 4;
    while out.len() % 4 != 0
        invariant
            start.len() <= out@.len() <= start.len() + k,
            out@ == start + Seq::new((out@.len() - start.len()) as nat, |i: int| 0u8),
            k == (4 - start.len() % 4) % 4,
        decreases start.len() + k - out@.len(),
    {
        let ghost before = out@;
        out.push(0);
        assert(out@ =~= start + Seq::new((out@.len() - start.len()) as nat, |i: int| 0u8));
    }
    assert(out@ =~= pad4(start));
}

} // verus!
