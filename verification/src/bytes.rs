//! Little-endian primitive codecs: the byte-level encodings of the
//! unsigned integers that every structure of the format is built from.

use vstd::prelude::*;

verus! {

/// The outcome of running a decoder over a byte sequence: a value together
/// with the position just past its encoding, or the offset at which the
/// input was rejected.
pub enum Decoded<T> {
    Found(T, int),
    Fail(int),
}

/// The 16-bit little-endian value stored at `i`.
pub open spec fn le16_at(s: Seq<u8>, i: int) -> u16 {
    (s[i] + s[i + 1] * 0x100) as u16
}

/// The 32-bit little-endian value stored at `i`.
pub open spec fn le32_at(s: Seq<u8>, i: int) -> u32 {
    (s[i] + s[i + 1] * 0x100 + s[i + 2] * 0x10000 + s[i + 3] * 0x1000000) as u32
}

/// The 64-bit little-endian value stored at `i`.
pub open spec fn le64_at(s: Seq<u8>, i: int) -> u64 {
    (le32_at(s, i) + le32_at(s, i + 4) * 0x1_0000_0000) as u64
}

/// The two-byte little-endian encoding of `v`.
pub open spec fn enc_u16(v: u16) -> Seq<u8> {
    seq![(v % 0x100) as u8, (v / 0x100) as u8]
}

/// The four-byte little-endian encoding of `v`.
pub open spec fn enc_u32(v: u32) -> Seq<u8> {
    enc_u16((v % 0x10000) as u16) + enc_u16((v / 0x10000) as u16)
}

/// The eight-byte little-endian encoding of `v`.
pub open spec fn enc_u64(v: u64) -> Seq<u8> {
    enc_u32((v % 0x1_0000_0000) as u32) + enc_u32((v / 0x1_0000_0000) as u32)
}

/// Decoding inverts encoding for 16-bit values.
pub proof fn lemma_le16_enc(v: u16)
    ensures
        enc_u16(v).len() == 2,
        le16_at(enc_u16(v), 0) == v,
{
}

/// Any two bytes are the encoding of the value they decode to.
pub proof fn lemma_enc_le16(s: Seq<u8>, i: int)
    requires
        0 <= i,
        i + 2 <= s.len(),
    ensures
        enc_u16(le16_at(s, i)) =~= s.subrange(i, i + 2),
{
}

/// A 32-bit load is the pair of 16-bit loads at `i` and `i + 2`.
pub proof fn lemma_le32_split(s: Seq<u8>, i: int)
    requires
        0 <= i,
        i + 4 <= s.len(),
    ensures
        le32_at(s, i) == le16_at(s, i) + le16_at(s, i + 2) * 0x10000,
{
}

/// Decoding inverts encoding for 32-bit values.
pub proof fn lemma_le32_enc(v: u32)
    ensures
        enc_u32(v).len() == 4,
        le32_at(enc_u32(v), 0) == v,
{
    let lo = (v % 0x10000) as u16;
    let hi = (v / 0x10000) as u16;
    lemma_le16_enc(lo);
    lemma_le16_enc(hi);
    let e = enc_u32(v);
    assert(le16_at(e, 0) == lo);
    assert(le16_at(e, 2) == hi);
    lemma_le32_split(e, 0);
}

/// Any four bytes are the encoding of the value they decode to.
pub proof fn lemma_enc_le32(s: Seq<u8>, i: int)
    requires
        0 <= i,
        i + 4 <= s.len(),
    ensures
        enc_u32(le32_at(s, i)) =~= s.subrange(i, i + 4),
{
    let v = le32_at(s, i);
    lemma_le32_split(s, i);
    assert(v % 0x10000 == le16_at(s, i));
    assert(v / 0x10000 == le16_at(s, i + 2));
    lemma_enc_le16(s, i);
    lemma_enc_le16(s, i + 2);
}

/// Decoding inverts encoding for 64-bit values.
pub proof fn lemma_le64_enc(v: u64)
    ensures
        enc_u64(v).len() == 8,
        le64_at(enc_u64(v), 0) == v,
{
    let lo = (v % 0x1_0000_0000) as u32;
    let hi = (v / 0x1_0000_0000) as u32;
    lemma_le32_enc(lo);
    lemma_le32_enc(hi);
    assert(enc_u64(v).subrange(0, 4) =~= enc_u32(lo));
    assert(enc_u64(v).subrange(4, 8) =~= enc_u32(hi));
    assert(le32_at(enc_u64(v), 0) == lo);
    assert(le32_at(enc_u64(v), 4) == hi);
}

/// Any eight bytes are the encoding of the value they decode to.
pub proof fn lemma_enc_le64(s: Seq<u8>, i: int)
    requires
        0 <= i,
        i + 8 <= s.len(),
    ensures
        enc_u64(le64_at(s, i)) =~= s.subrange(i, i + 8),
{
    let v = le64_at(s, i);
    let lo = le32_at(s, i);
    let hi = le32_at(s, i + 4);
    assert(v == lo + hi * 0x1_0000_0000);
    assert(v % 0x1_0000_0000 == lo && v / 0x1_0000_0000 == hi) by (nonlinear_arith)
        requires
            v == lo + hi * 0x1_0000_0000,
            0 <= lo < 0x1_0000_0000,
            0 <= hi < 0x1_0000_0000,
    ;
    lemma_enc_le32(s, i);
    lemma_enc_le32(s, i + 4);
}

/// Reads the 16-bit little-endian integer at `pos`.
pub fn read_u16(data: &[u8], pos: usize) -> (r: u16)
    requires
        pos + 2 <= data@.len(),
    ensures
        r == le16_at(data@, pos as int),
{
    data[pos] as u16 + data[pos + 1] as u16 * 0x100
}

/// Reads the 32-bit little-endian integer at `pos`.
pub fn read_u32(data: &[u8], pos: usize) -> (r: u32)
    requires
        pos + 4 <= data@.len(),
    ensures
        r == le32_at(data@, pos as int),
{
    data[pos] as u32 + data[pos + 1] as u32 * 0x100 + data[pos + 2] as u32 * 0x10000 + data[pos
        + 3] as u32 * 0x1000000
}

/// Reads the 64-bit little-endian integer at `pos`.
pub fn read_u64(data: &[u8], pos: usize) -> (r: u64)
    requires
        pos + 8 <= data@.len(),
    ensures
        r == le64_at(data@, pos as int),
{
    let n = data.len();
    let lo = read_u32(data, pos);
    let hi = read_u32(data, pos + 4);
    lo as u64 + hi as u64 * 0x1_0000_0000
}

/// Appends the two-byte little-endian encoding of `v`.
pub fn write_u16(out: &mut Vec<u8>, v: u16)
    ensures
        final(out)@ =~= old(out)@ + enc_u16(v),
{
    out.push((v % 0x100) as u8);
    out.push((v / 0x100) as u8);
}

/// Appends the four-byte little-endian encoding of `v`.
pub fn write_u32(out: &mut Vec<u8>, v: u32)
    ensures
        final(out)@ =~= old(out)@ + enc_u32(v),
{
    write_u16(out, (v % 0x10000) as u16);
    write_u16(out, (v / 0x10000) as u16);
}

/// Appends the eight-byte little-endian encoding of `v`.
pub fn write_u64(out: &mut Vec<u8>, v: u64)
    ensures
        final(out)@ =~= old(out)@ + enc_u64(v),
{
    write_u32(out, (v % 0x1_0000_0000) as u32);
    write_u32(out, (v / 0x1_0000_0000) as u32);
}

/// The 16-bit big-endian value stored at `i`.
pub open spec fn be16_at(s: Seq<u8>, i: int) -> u16 {
    (s[i] * 0x100 + s[i + 1]) as u16
}

/// The 32-bit big-endian value stored at `i`.
pub open spec fn be32_at(s: Seq<u8>, i: int) -> u32 {
    (be16_at(s, i) * 0x10000 + be16_at(s, i + 2)) as u32
}

/// The two-byte big-endian encoding of `v`.
pub open spec fn enc_u16_be(v: u16) -> Seq<u8> {
    seq![(v / 0x100) as u8, (v % 0x100) as u8]
}

/// The four-byte big-endian encoding of `v`.
pub open spec fn enc_u32_be(v: u32) -> Seq<u8> {
    enc_u16_be((v / 0x10000) as u16) + enc_u16_be((v % 0x10000) as u16)
}

/// Decoding inverts encoding for big-endian 16-bit values.
pub proof fn lemma_be16_enc(v: u16)
    ensures
        enc_u16_be(v).len() == 2,
        be16_at(enc_u16_be(v), 0) == v,
{
}

/// Any two bytes are the big-endian encoding of the value they decode to.
pub proof fn lemma_enc_be16(s: Seq<u8>, i: int)
    requires
        0 <= i,
        i + 2 <= s.len(),
    ensures
        enc_u16_be(be16_at(s, i)) =~= s.subrange(i, i + 2),
{
}

/// Decoding inverts encoding for big-endian 32-bit values.
pub proof fn lemma_be32_enc(v: u32)
    ensures
        enc_u32_be(v).len() == 4,
        be32_at(enc_u32_be(v), 0) == v,
{
    let hi = (v / 0x10000) as u16;
    let lo = (v % 0x10000) as u16;
    lemma_be16_enc(hi);
    lemma_be16_enc(lo);
    let e = enc_u32_be(v);
    assert(be16_at(e, 0) == hi);
    assert(be16_at(e, 2) == lo);
}

/// Any four bytes are the big-endian encoding of the value they decode to.
pub proof fn lemma_enc_be32(s: Seq<u8>, i: int)
    requires
        0 <= i,
        i + 4 <= s.len(),
    ensures
        enc_u32_be(be32_at(s, i)) =~= s.subrange(i, i + 4),
{
    let v = be32_at(s, i);
    assert(v % 0x10000 == be16_at(s, i + 2));
    assert(v / 0x10000 == be16_at(s, i));
    lemma_enc_be16(s, i);
    lemma_enc_be16(s, i + 2);
}

/// Reads the 16-bit big-endian integer at `pos`.
pub fn read_u16_be(data: &[u8], pos: usize) -> (r: u16)
    requires
        pos + 2 <= data@.len(),
    ensures
        r == be16_at(data@, pos as int),
{
    data[pos] as u16 * 0x100 + data[pos + 1] as u16
}

/// Reads the 32-bit big-endian integer at `pos`.
pub fn read_u32_be(data: &[u8], pos: usize) -> (r: u32)
    requires
        pos + 4 <= data@.len(),
    ensures
        r == be32_at(data@, pos as int),
{
    let n = data.len();
    read_u16_be(data, pos) as u32 * 0x10000 + read_u16_be(data, pos + 2) as u32
}

/// Appends the two-byte big-endian encoding of `v`.
pub fn write_u16_be(out: &mut Vec<u8>, v: u16)
    ensures
        final(out)@ =~= old(out)@ + enc_u16_be(v),
{
    out.push((v / 0x100) as u8);
    out.push((v % 0x100) as u8);
}

/// Appends the four-byte big-endian encoding of `v`.
pub fn write_u32_be(out: &mut Vec<u8>, v: u32)
    ensures
        final(out)@ =~= old(out)@ + enc_u32_be(v),
{
    write_u16_be(out, (v / 0x10000) as u16);
    write_u16_be(out, (v % 0x10000) as u16);
}

/// A subrange inside the left part of a concatenation reads off the
/// left part alone.
pub proof fn lemma_prefix_subrange(a: Seq<u8>, b: Seq<u8>, x: int, y: int)
    requires
        0 <= x <= y <= a.len(),
    ensures
        (a + b).subrange(x, y) =~= a.subrange(x, y),
{
}

/// The unsigned reading of a signed 32-bit value, as it is stored on disk.
pub open spec fn u32_of_i32(v: i32) -> u32 {
    if v >= 0 {
        v as u32
    } else {
        (v + 0x1_0000_0000) as u32
    }
}

/// The signed reading of an unsigned 32-bit value.
pub open spec fn i32_of_u32(v: u32) -> i32 {
    if v < 0x8000_0000 {
        v as i32
    } else {
        (v - 0x1_0000_0000) as i32
    }
}

/// The two sign readings invert each other.
pub proof fn lemma_i32_u32(v: i32)
    ensures
        i32_of_u32(u32_of_i32(v)) == v,
{
}

/// The two sign readings invert each other the other way round.
pub proof fn lemma_u32_i32(v: u32)
    ensures
        u32_of_i32(i32_of_u32(v)) == v,
{
}

/// Converts a signed 32-bit value to its stored unsigned form.
pub fn i32_to_u32(v: i32) -> (r: u32)
    ensures
        r == u32_of_i32(v),
{
    if v >= 0 {
        v as u32
    } else {
        ((v as i64) + 0x1_0000_0000) as u32
    }
}

/// Converts a stored unsigned 32-bit value to its signed reading.
pub fn u32_to_i32(v: u32) -> (r: i32)
    ensures
        r == i32_of_u32(v),
{
    if v < 0x8000_0000 {
        v as i32
    } else {
        ((v as i64) - 0x1_0000_0000) as i32
    }
}

} // verus!
