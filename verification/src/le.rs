//! Bounds-checked little-endian primitives over an in-memory byte buffer.
//!
//! All multi-byte integers in the archive format are stored little-endian
//! (low byte first).  `r16`/`r32`/`r64` are the specification-level readers;
//! `le16`/`le32`/`le64` are the specification-level encoders.  The executable
//! readers fail with `ZipError::Truncated` instead of reading past the end;
//! the executable writers only ever append to the output buffer.

use vstd::prelude::*;

use crate::errors::ZipError;

verus! {

/// Little-endian encoding of a 16-bit value, low byte first.
pub open spec fn le16(v: u16) -> Seq<u8> {
    seq![(v & 0xff) as u8, ((v >> 8) & 0xff) as u8]
}

/// Little-endian encoding of a 32-bit value, low byte first.
pub open spec fn le32(v: u32) -> Seq<u8> {
    seq![
        (v & 0xff) as u8,
        ((v >> 8) & 0xff) as u8,
        ((v >> 16) & 0xff) as u8,
        ((v >> 24) & 0xff) as u8,
    ]
}

/// Little-endian encoding of a 64-bit value, low byte first.
pub open spec fn le64(v: u64) -> Seq<u8> {
    seq![
        (v & 0xff) as u8,
        ((v >> 8) & 0xff) as u8,
        ((v >> 16) & 0xff) as u8,
        ((v >> 24) & 0xff) as u8,
        ((v >> 32) & 0xff) as u8,
        ((v >> 40) & 0xff) as u8,
        ((v >> 48) & 0xff) as u8,
        ((v >> 56) & 0xff) as u8,
    ]
}

/// The 16-bit value stored little-endian at offset `i` of `s`.
pub open spec fn r16(s: Seq<u8>, i: int) -> u16 {
    (s[i] as u16) | ((s[i + 1] as u16) << 8)
}

/// The 32-bit value stored little-endian at offset `i` of `s`.
pub open spec fn r32(s: Seq<u8>, i: int) -> u32 {
    (s[i] as u32) | ((s[i + 1] as u32) << 8) | ((s[i + 2] as u32) << 16)
        | ((s[i + 3] as u32) << 24)
}

/// The 64-bit value stored little-endian at offset `i` of `s`.
pub open spec fn r64(s: Seq<u8>, i: int) -> u64 {
    (r32(s, i) as u64) | ((r32(s, i + 4) as u64) << 32)
}

/// Reading back the two bytes of `le16(v)` recovers `v`.
pub proof fn lemma_r16_le16(s: Seq<u8>, i: int, v: u16)
    requires
        0 <= i,
        i + 2 <= s.len(),
        s[i] == le16(v)[0],
        s[i + 1] == le16(v)[1],
    ensures
        r16(s, i) == v,
{
    let b0 = s[i];
    let b1 = s[i + 1];
    assert((b0 as u16) | ((b1 as u16) << 8) == v) by (bit_vector)
        requires
            b0 == (v & 0xff) as u8,
            b1 == ((v >> 8) & 0xff) as u8,
    ;
}

/// Reading back the four bytes of `le32(v)` recovers `v`.
pub proof fn lemma_r32_le32(s: Seq<u8>, i: int, v: u32)
    requires
        0 <= i,
        i + 4 <= s.len(),
        s[i] == le32(v)[0],
        s[i + 1] == le32(v)[1],
        s[i + 2] == le32(v)[2],
        s[i + 3] == le32(v)[3],
    ensures
        r32(s, i) == v,
{
    let b0 = s[i];
    let b1 = s[i + 1];
    let b2 = s[i + 2];
    let b3 = s[i + 3];
    assert((b0 as u32) | ((b1 as u32) << 8) | ((b2 as u32) << 16) | ((b3 as u32) << 24) == v)
        by (bit_vector)
        requires
            b0 == (v & 0xff) as u8,
            b1 == ((v >> 8) & 0xff) as u8,
            b2 == ((v >> 16) & 0xff) as u8,
            b3 == ((v >> 24) & 0xff) as u8,
    ;
}

/// Reading back the eight bytes of `le64(v)` recovers `v`.
pub proof fn lemma_r64_le64(s: Seq<u8>, i: int, v: u64)
    requires
        0 <= i,
        i + 8 <= s.len(),
        s[i] == le64(v)[0],
        s[i + 1] == le64(v)[1],
        s[i + 2] == le64(v)[2],
        s[i + 3] == le64(v)[3],
        s[i + 4] == le64(v)[4],
        s[i + 5] == le64(v)[5],
        s[i + 6] == le64(v)[6],
        s[i + 7] == le64(v)[7],
    ensures
        r64(s, i) == v,
{
    let b0 = s[i];
    let b1 = s[i + 1];
    let b2 = s[i + 2];
    let b3 = s[i + 3];
    let b4 = s[i + 4];
    let b5 = s[i + 5];
    let b6 = s[i + 6];
    let b7 = s[i + 7];
    let lo = r32(s, i);
    let hi = r32(s, i + 4);
    assert(((lo as u64) | ((hi as u64) << 32)) == v) by (bit_vector)
        requires
            lo == (b0 as u32) | ((b1 as u32) << 8) | ((b2 as u32) << 16) | ((b3 as u32) << 24),
            hi == (b4 as u32) | ((b5 as u32) << 8) | ((b6 as u32) << 16) | ((b7 as u32) << 24),
            b0 == (v & 0xff) as u8,
            b1 == ((v >> 8) & 0xff) as u8,
            b2 == ((v >> 16) & 0xff) as u8,
            b3 == ((v >> 24) & 0xff) as u8,
            b4 == ((v >> 32) & 0xff) as u8,
            b5 == ((v >> 40) & 0xff) as u8,
            b6 == ((v >> 48) & 0xff) as u8,
            b7 == ((v >> 56) & 0xff) as u8,
    ;
}

/// Re-encoding the 16-bit value read at offset `i` reproduces the bytes.
pub proof fn lemma_le16_r16(s: Seq<u8>, i: int)
    requires
        0 <= i,
        i + 2 <= s.len(),
    ensures
        le16(r16(s, i)) =~= s.subrange(i, i + 2),
{
    let b0 = s[i];
    let b1 = s[i + 1];
    let v = r16(s, i);
    assert((v & 0xff) as u8 == b0 && ((v >> 8) & 0xff) as u8 == b1) by (bit_vector)
        requires
            v == (b0 as u16) | ((b1 as u16) << 8),
    ;
}

/// Re-encoding the 32-bit value read at offset `i` reproduces the bytes.
pub proof fn lemma_le32_r32(s: Seq<u8>, i: int)
    requires
        0 <= i,
        i + 4 <= s.len(),
    ensures
        le32(r32(s, i)) =~= s.subrange(i, i + 4),
{
    let b0 = s[i];
    let b1 = s[i + 1];
    let b2 = s[i + 2];
    let b3 = s[i + 3];
    let v = r32(s, i);
    assert((v & 0xff) as u8 == b0 && ((v >> 8) & 0xff) as u8 == b1
        && ((v >> 16) & 0xff) as u8 == b2 && ((v >> 24) & 0xff) as u8 == b3) by (bit_vector)
        requires
            v == (b0 as u32) | ((b1 as u32) << 8) | ((b2 as u32) << 16) | ((b3 as u32) << 24),
    ;
}

/// Re-encoding the 64-bit value read at offset `i` reproduces the bytes.
pub proof fn lemma_le64_r64(s: Seq<u8>, i: int)
    requires
        0 <= i,
        i + 8 <= s.len(),
    ensures
        le64(r64(s, i)) =~= s.subrange(i, i + 8),
{
    let b0 = s[i];
    let b1 = s[i + 1];
    let b2 = s[i + 2];
    let b3 = s[i + 3];
    let b4 = s[i + 4];
    let b5 = s[i + 5];
    let b6 = s[i + 6];
    let b7 = s[i + 7];
    let v = r64(s, i);
    assert((v & 0xff) as u8 == b0 && ((v >> 8) & 0xff) as u8 == b1
        && ((v >> 16) & 0xff) as u8 == b2 && ((v >> 24) & 0xff) as u8 == b3
        && ((v >> 32) & 0xff) as u8 == b4 && ((v >> 40) & 0xff) as u8 == b5
        && ((v >> 48) & 0xff) as u8 == b6 && ((v >> 56) & 0xff) as u8 == b7) by (bit_vector)
        requires
            v == ((b0 as u32) | ((b1 as u32) << 8) | ((b2 as u32) << 16) | ((b3 as u32) << 24))
                as u64
                | ((((b4 as u32) | ((b5 as u32) << 8) | ((b6 as u32) << 16) | ((b7 as u32) << 24))
                as u64) << 32),
    ;
}

/// Reads the 16-bit little-endian value at `pos`, or fails with `Truncated`.
pub fn read_u16(buf: &Vec<u8>, pos: usize) -> (r: Result<u16, ZipError>)
    ensures
        pos + 2 <= buf@.len() ==> r == Ok::<u16, ZipError>(r16(buf@, pos as int)),
        pos + 2 > buf@.len() ==> r == Err::<u16, ZipError>(ZipError::Truncated { offset: pos }),
{
    if pos >= buf.len() || buf.len() - pos < 2 {
        return Err(ZipError::Truncated { offset: pos });
    }
    let b0 = buf[pos];
    let b1 = buf[pos + 1];
    Ok((b0 as u16) | ((b1 as u16) << 8))
}

/// Reads the 32-bit little-endian value at `pos`, or fails with `Truncated`.
pub fn read_u32(buf: &Vec<u8>, pos: usize) -> (r: Result<u32, ZipError>)
    ensures
        pos + 4 <= buf@.len() ==> r == Ok::<u32, ZipError>(r32(buf@, pos as int)),
        pos + 4 > buf@.len() ==> r == Err::<u32, ZipError>(ZipError::Truncated { offset: pos }),
{
    if pos >= buf.len() || buf.len() - pos < 4 {
        return Err(ZipError::Truncated { offset: pos });
    }
    let b0 = buf[pos];
    let b1 = buf[pos + 1];
    let b2 = buf[pos + 2];
    let b3 = buf[pos + 3];
    Ok((b0 as u32) | ((b1 as u32) << 8) | ((b2 as u32) << 16) | ((b3 as u32) << 24))
}

/// Reads the 64-bit little-endian value at `pos`, or fails with `Truncated`.
pub fn read_u64(buf: &Vec<u8>, pos: usize) -> (r: Result<u64, ZipError>)
    ensures
        pos + 8 <= buf@.len() ==> r == Ok::<u64, ZipError>(r64(buf@, pos as int)),
        pos + 8 > buf@.len() ==> r == Err::<u64, ZipError>(ZipError::Truncated { offset: pos }),
{
    if pos >= buf.len() || buf.len() - pos < 8 {
        return Err(ZipError::Truncated { offset: pos });
    }
    let lo = match read_u32(buf, pos) {
        Ok(v) => v,
        Err(e) => { return Err(e); },
    };
    let hi = match read_u32(buf, pos + 4) {
        Ok(v) => v,
        Err(e) => { return Err(e); },
    };
    Ok((lo as u64) | ((hi as u64) << 32))
}

/// Reads `n` bytes starting at `pos`, or fails with `Truncated`.
pub fn read_bytes(buf: &Vec<u8>, pos: usize, n: usize) -> (r: Result<Vec<u8>, ZipError>)
    ensures
        pos + n <= buf@.len() ==> (r matches Ok(v)
            && v@ == buf@.subrange(pos as int, pos + n)),
        pos + n > buf@.len() ==> r == Err::<Vec<u8>, ZipError>(ZipError::Truncated { offset: pos }),
{
    let total = buf.len();
    if pos > total || total - pos < n {
        return Err(ZipError::Truncated { offset: pos });
    }
    let mut out: Vec<u8> = Vec::new();
    let mut i: usize = 0;
    while i < n
        invariant
            i <= n,
            pos + n <= total,
            total == buf@.len(),
            out@ == buf@.subrange(pos as int, pos + i),
        decreases n - i,
    {
        out.push(buf[pos + i]);
        i = i + 1;
        assert(out@ =~= buf@.subrange(pos as int, pos + i));
    }
    Ok(out)
}

/// Appends the little-endian encoding of a 16-bit value.
pub fn write_u16(out: &mut Vec<u8>, v: u16)
    ensures
        final(out)@ == old(out)@ + le16(v),
{
    out.push((v & 0xff) as u8);
    out.push(((v >> 8) & 0xff) as u8);
    assert(out@ =~= old(out)@ + le16(v));
}

/// Appends the little-endian encoding of a 32-bit value.
pub fn write_u32(out: &mut Vec<u8>, v: u32)
    ensures
        final(out)@ == old(out)@ + le32(v),
{
    out.push((v & 0xff) as u8);
    out.push(((v >> 8) & 0xff) as u8);
    out.push(((v >> 16) & 0xff) as u8);
    out.push(((v >> 24) & 0xff) as u8);
    assert(out@ =~= old(out)@ + le32(v));
}

/// Appends the little-endian encoding of a 64-bit value.
pub fn write_u64(out: &mut Vec<u8>, v: u64)
    ensures
        final(out)@ == old(out)@ + le64(v),
{
    out.push((v & 0xff) as u8);
    out.push(((v >> 8) & 0xff) as u8);
    out.push(((v >> 16) & 0xff) as u8);
    out.push(((v >> 24) & 0xff) as u8);
    out.push(((v >> 32) & 0xff) as u8);
    out.push(((v >> 40) & 0xff) as u8);
    out.push(((v >> 48) & 0xff) as u8);
    out.push(((v >> 56) & 0xff) as u8);
    assert(out@ =~= old(out)@ + le64(v));
}

/// Appends a copy of `data`.
pub fn write_bytes(out: &mut Vec<u8>, data: &Vec<u8>)
    ensures
        final(out)@ == old(out)@ + data@,
{
    let mut i: usize = 0;
    while i < data.len()
        invariant
            i <= data@.len(),
            out@ == old(out)@ + data@.subrange(0, i as int),
        decreases data@.len() - i,
    {
        out.push(data[i]);
        i = i + 1;
        assert(out@ =~= old(out)@ + data@.subrange(0, i as int));
    }
    assert(out@ =~= old(out)@ + data@);
}

} // verus!
