//! ZIP64 override fields for central directory entries.
//!
//! A 32-bit (or 16-bit) entry field that overflowed is written as the
//! sentinel `0xffffffff` (`0xffff`), and the true value lives in the
//! ZIP64 extended-information extra field block (header id 0x0001).  The
//! override values appear in a fixed canonical order — uncompressed size,
//! compressed size, local header offset, disk start number — and only for
//! the fields whose narrow counterpart is the sentinel.  A reader maps
//! sentinel-valued fields to the next available value in that order, not
//! positionally.

use vstd::prelude::*;

use crate::errors::ZipError;
use crate::le::{le16, le32, le64, r16, r32, r64};
use crate::records::{CentralDirectoryHeader, SENTINEL16, SENTINEL32, ZIP64_EXTRA_FIELD_ID};

verus! {

/// The four entry fields after applying any ZIP64 overrides.
#[derive(Clone, Copy, Debug, PartialEq, Eq, Structural)]
pub struct ResolvedEntryFields {
    pub uncompressed_size: u64,
    pub compressed_size: u64,
    pub local_header_offset: u64,
    pub disk_number_start: u32,
}

/// The data of the first extra field block with the ZIP64 header id, or
/// `None` when no such block fits in the extra field bytes.
pub open spec fn spec_zip64_block(s: Seq<u8>) -> Option<Seq<u8>>
    decreases s.len(),
{
    if s.len() < 4 {
        None
    } else {
        let sz = r16(s, 2) as int;
        if 4 + sz > s.len() {
            None
        } else if r16(s, 0) == ZIP64_EXTRA_FIELD_ID {
            Some(s.subrange(4, 4 + sz))
        } else {
            spec_zip64_block(s.subrange(4 + sz, s.len() as int))
        }
    }
}

/// The entry's uncompressed size field overflowed.
pub open spec fn spec_needs_u(h: CentralDirectoryHeader) -> bool {
    h.uncompressed_size == SENTINEL32
}

/// The entry's compressed size field overflowed.
pub open spec fn spec_needs_c(h: CentralDirectoryHeader) -> bool {
    h.compressed_size == SENTINEL32
}

/// The entry's local header offset field overflowed.
pub open spec fn spec_needs_o(h: CentralDirectoryHeader) -> bool {
    h.relative_offset_of_local_header == SENTINEL32
}

/// The entry's disk start number field overflowed.
pub open spec fn spec_needs_d(h: CentralDirectoryHeader) -> bool {
    h.disk_number_start == SENTINEL16
}

/// How many override bytes the entry's sentinel fields demand.
pub open spec fn spec_z64_needed_len(h: CentralDirectoryHeader) -> int {
    (if spec_needs_u(h) { 8int } else { 0int }) + (if spec_needs_c(h) { 8int } else { 0int })
        + (if spec_needs_o(h) { 8int } else { 0int }) + (if spec_needs_d(h) { 4int } else { 0int })
}

/// The resolved fields of an entry, given the ZIP64 block data `d`:
/// sentinel-valued fields take the next available override value in
/// canonical order, the others keep their narrow value.
pub open spec fn spec_resolved(h: CentralDirectoryHeader, d: Seq<u8>) -> ResolvedEntryFields {
    let off_c = if spec_needs_u(h) { 8int } else { 0int };
    let off_o = off_c + if spec_needs_c(h) { 8int } else { 0int };
    let off_d = off_o + if spec_needs_o(h) { 8int } else { 0int };
    ResolvedEntryFields {
        uncompressed_size: if spec_needs_u(h) { r64(d, 0) } else { h.uncompressed_size as u64 },
        compressed_size: if spec_needs_c(h) { r64(d, off_c) } else { h.compressed_size as u64 },
        local_header_offset: if spec_needs_o(h) { r64(d, off_o) } else {
            h.relative_offset_of_local_header as u64
        },
        disk_number_start: if spec_needs_d(h) { r32(d, off_d) } else {
            h.disk_number_start as u32
        },
    }
}

/// Finds the ZIP64 extended-information block in an extra field.
pub fn find_zip64_block(extra: &Vec<u8>) -> (r: Option<Vec<u8>>)
    ensures
        match r {
            Some(v) => spec_zip64_block(extra@) == Some(v@),
            None => spec_zip64_block(extra@) is None,
        },
{
    let total = extra.len();
    let mut cur: usize = 0;
    proof {
        assert(extra@.subrange(0, total as int) =~= extra@);
    }
    loop
        invariant
            cur <= total,
            total == extra@.len(),
            spec_zip64_block(extra@) == spec_zip64_block(extra@.subrange(cur as int, total as int)),
        decreases total - cur,
    {
        let ghost rest = extra@.subrange(cur as int, total as int);
        if total - cur < 4 {
            return None;
        }
        let id = match crate::le::read_u16(extra, cur) {
            Ok(v) => v,
            Err(_) => { return None; },
        };
        let sz = match crate::le::read_u16(extra, cur + 2) {
            Ok(v) => v,
            Err(_) => { return None; },
        };
        proof {
            assert(r16(rest, 0) == r16(extra@, cur as int)) by {
                assert(rest[0] == extra@[cur as int]);
                assert(rest[1] == extra@[cur + 1]);
            }
            assert(r16(rest, 2) == r16(extra@, cur as int + 2)) by {
                assert(rest[2] == extra@[cur + 2]);
                assert(rest[3] == extra@[cur + 3]);
            }
        }
        if sz as usize > total - cur - 4 {
            return None;
        }
        if id == ZIP64_EXTRA_FIELD_ID {
            let data = match crate::le::read_bytes(extra, cur + 4, sz as usize) {
                Ok(v) => v,
                Err(_) => { return None; },
            };
            proof {
                assert(rest.subrange(4, 4 + r16(rest, 2)) =~= extra@.subrange(cur + 4,
                    cur + 4 + sz));
            }
            return Some(data);
        }
        let next = cur + 4 + sz as usize;
        proof {
            assert(rest.subrange(4 + r16(rest, 2) as int, rest.len() as int)
                =~= extra@.subrange(next as int, total as int));
        }
        cur = next;
    }
}

/// The entry's sentinel fields can all be resolved: either nothing is
/// promoted, or a ZIP64 block exists and carries enough override bytes.
pub open spec fn spec_entry_resolves(h: CentralDirectoryHeader) -> bool {
    ||| spec_z64_needed_len(h) == 0
    ||| (spec_zip64_block(h.extra_field@) matches Some(d) && d.len() >= spec_z64_needed_len(h))
}

/// The four fields of a resolvable entry after applying its overrides.
pub open spec fn spec_resolved_fields(h: CentralDirectoryHeader) -> ResolvedEntryFields {
    if spec_z64_needed_len(h) == 0 {
        spec_resolved(h, Seq::<u8>::empty())
    } else {
        spec_resolved(h, spec_zip64_block(h.extra_field@)->0)
    }
}

/// Resolves the four promotable fields of a central directory entry,
/// applying ZIP64 overrides for each sentinel-valued field.  `at` is the
/// byte offset reported in errors.  It succeeds exactly when
/// [`spec_entry_resolves`] holds, and fails with `InconsistentEntry` when
/// a sentinel demands an override that the extra field does not carry.
pub fn resolve_entry_fields(h: &CentralDirectoryHeader, at: usize) -> (r: Result<
    ResolvedEntryFields,
    ZipError,
>)
    ensures
        r is Ok <==> spec_entry_resolves(*h),
        r matches Ok(f) ==> f == spec_resolved_fields(*h),
        r matches Err(e) ==> e == (ZipError::InconsistentEntry { offset: at }),
{
    let needs_u = h.uncompressed_size == SENTINEL32;
    let needs_c = h.compressed_size == SENTINEL32;
    let needs_o = h.relative_offset_of_local_header == SENTINEL32;
    let needs_d = h.disk_number_start == SENTINEL16;
    if !needs_u && !needs_c && !needs_o && !needs_d {
        return Ok(ResolvedEntryFields {
            uncompressed_size: h.uncompressed_size as u64,
            compressed_size: h.compressed_size as u64,
            local_header_offset: h.relative_offset_of_local_header as u64,
            disk_number_start: h.disk_number_start as u32,
        });
    }
    let needed: usize = (if needs_u { 8 } else { 0 }) + (if needs_c { 8 } else { 0 })
        + (if needs_o { 8 } else { 0 }) + (if needs_d { 4 } else { 0 });
    let d = match find_zip64_block(&h.extra_field) {
        Some(v) => v,
        None => { return Err(ZipError::InconsistentEntry { offset: at }); },
    };
    if d.len() < needed {
        return Err(ZipError::InconsistentEntry { offset: at });
    }
    let mut cur: usize = 0;
    let uncompressed_size: u64;
    if needs_u {
        uncompressed_size = match crate::le::read_u64(&d, cur) {
            Ok(v) => v,
            Err(_) => { return Err(ZipError::InconsistentEntry { offset: at }); },
        };
        cur = cur + 8;
    } else {
        uncompressed_size = h.uncompressed_size as u64;
    }
    let compressed_size: u64;
    if needs_c {
        compressed_size = match crate::le::read_u64(&d, cur) {
            Ok(v) => v,
            Err(_) => { return Err(ZipError::InconsistentEntry { offset: at }); },
        };
        cur = cur + 8;
    } else {
        compressed_size = h.compressed_size as u64;
    }
    let local_header_offset: u64;
    if needs_o {
        local_header_offset = match crate::le::read_u64(&d, cur) {
            Ok(v) => v,
            Err(_) => { return Err(ZipError::InconsistentEntry { offset: at }); },
        };
        cur = cur + 8;
    } else {
        local_header_offset = h.relative_offset_of_local_header as u64;
    }
    let disk_number_start: u32;
    if needs_d {
        disk_number_start = match crate::le::read_u32(&d, cur) {
            Ok(v) => v,
            Err(_) => { return Err(ZipError::InconsistentEntry { offset: at }); },
        };
    } else {
        disk_number_start = h.disk_number_start as u32;
    }
    Ok(ResolvedEntryFields {
        uncompressed_size,
        compressed_size,
        local_header_offset,
        disk_number_start,
    })
}

/// The byte image of the ZIP64 extended-information block carrying the
/// overrides selected by the four flags, in canonical order.
pub open spec fn spec_z64_extra_payload(u: u64, c: u64, o: u64, d: u32, needs_u: bool,
    needs_c: bool, needs_o: bool, needs_d: bool) -> Seq<u8> {
    (if needs_u { le64(u) } else { Seq::<u8>::empty() })
        + (if needs_c { le64(c) } else { Seq::<u8>::empty() })
        + (if needs_o { le64(o) } else { Seq::<u8>::empty() })
        + (if needs_d { le32(d) } else { Seq::<u8>::empty() })
}

/// Builds the ZIP64 extended-information extra field block: header id,
/// data size, then the selected overrides in canonical order.
pub fn build_zip64_extra(u: u64, c: u64, o: u64, d: u32, needs_u: bool, needs_c: bool,
    needs_o: bool, needs_d: bool) -> (r: Vec<u8>)
    ensures
        r@ == le16(ZIP64_EXTRA_FIELD_ID)
            + le16((spec_z64_extra_payload(u, c, o, d, needs_u, needs_c, needs_o,
                needs_d).len()) as u16)
            + spec_z64_extra_payload(u, c, o, d, needs_u, needs_c, needs_o, needs_d),
        r@.len() == 4 + spec_z64_extra_payload(u, c, o, d, needs_u, needs_c, needs_o,
            needs_d).len(),
{
    let payload_len: u16 = (if needs_u { 8u16 } else { 0u16 }) + (if needs_c { 8u16 } else {
        0u16
    }) + (if needs_o { 8u16 } else { 0u16 }) + (if needs_d { 4u16 } else { 0u16 });
    let mut r: Vec<u8> = Vec::new();
    crate::le::write_u16(&mut r, ZIP64_EXTRA_FIELD_ID);
    crate::le::write_u16(&mut r, payload_len);
    if needs_u {
        crate::le::write_u64(&mut r, u);
    }
    if needs_c {
        crate::le::write_u64(&mut r, c);
    }
    if needs_o {
        crate::le::write_u64(&mut r, o);
    }
    if needs_d {
        crate::le::write_u32(&mut r, d);
    }
    assert(r@ =~= le16(ZIP64_EXTRA_FIELD_ID) + le16(payload_len as u16)
        + spec_z64_extra_payload(u, c, o, d, needs_u, needs_c, needs_o, needs_d));
    r
}

/// Reading the built ZIP64 block back recovers each overridden value: the
/// sentinel-promotion law at the extra-field level, for each of the four
/// fields independently.
pub proof fn lemma_zip64_extra_round_trip(h: CentralDirectoryHeader, u: u64, c: u64, o: u64,
    d: u32)
    requires
        h.extra_field@ == le16(ZIP64_EXTRA_FIELD_ID)
            + le16((spec_z64_extra_payload(u, c, o, d, spec_needs_u(h), spec_needs_c(h),
                spec_needs_o(h), spec_needs_d(h)).len()) as u16)
            + spec_z64_extra_payload(u, c, o, d, spec_needs_u(h), spec_needs_c(h),
                spec_needs_o(h), spec_needs_d(h)),
    ensures
        spec_z64_needed_len(h) > 0 ==> spec_zip64_block(h.extra_field@)
            == Some(spec_z64_extra_payload(u, c, o, d, spec_needs_u(h), spec_needs_c(h),
                spec_needs_o(h), spec_needs_d(h))),
        spec_needs_u(h) ==> spec_resolved(h, spec_z64_extra_payload(u, c, o, d,
            spec_needs_u(h), spec_needs_c(h), spec_needs_o(h),
            spec_needs_d(h))).uncompressed_size == u,
        spec_needs_c(h) ==> spec_resolved(h, spec_z64_extra_payload(u, c, o, d,
            spec_needs_u(h), spec_needs_c(h), spec_needs_o(h),
            spec_needs_d(h))).compressed_size == c,
        spec_needs_o(h) ==> spec_resolved(h, spec_z64_extra_payload(u, c, o, d,
            spec_needs_u(h), spec_needs_c(h), spec_needs_o(h),
            spec_needs_d(h))).local_header_offset == o,
        spec_needs_d(h) ==> spec_resolved(h, spec_z64_extra_payload(u, c, o, d,
            spec_needs_u(h), spec_needs_c(h), spec_needs_o(h),
            spec_needs_d(h))).disk_number_start == d,
        !spec_needs_u(h) ==> spec_resolved(h, spec_z64_extra_payload(u, c, o, d,
            spec_needs_u(h), spec_needs_c(h), spec_needs_o(h),
            spec_needs_d(h))).uncompressed_size == h.uncompressed_size,
        !spec_needs_c(h) ==> spec_resolved(h, spec_z64_extra_payload(u, c, o, d,
            spec_needs_u(h), spec_needs_c(h), spec_needs_o(h),
            spec_needs_d(h))).compressed_size == h.compressed_size,
        !spec_needs_o(h) ==> spec_resolved(h, spec_z64_extra_payload(u, c, o, d,
            spec_needs_u(h), spec_needs_c(h), spec_needs_o(h),
            spec_needs_d(h))).local_header_offset == h.relative_offset_of_local_header,
        !spec_needs_d(h) ==> spec_resolved(h, spec_z64_extra_payload(u, c, o, d,
            spec_needs_u(h), spec_needs_c(h), spec_needs_o(h),
            spec_needs_d(h))).disk_number_start == h.disk_number_start,
{
    let nu = spec_needs_u(h);
    let nc = spec_needs_c(h);
    let no = spec_needs_o(h);
    let nd = spec_needs_d(h);
    let p = spec_z64_extra_payload(u, c, o, d, nu, nc, no, nd);
    let s = h.extra_field@;
    let pu = if nu { le64(u) } else { Seq::<u8>::empty() };
    let pc = if nc { le64(c) } else { Seq::<u8>::empty() };
    let po = if no { le64(o) } else { Seq::<u8>::empty() };
    let pd = if nd { le32(d) } else { Seq::<u8>::empty() };
    assert(p.len() == pu.len() + pc.len() + po.len() + pd.len());
    assert(p.len() <= 28);
    assert(s.len() == 4 + p.len());
    assert(s[0] == le16(ZIP64_EXTRA_FIELD_ID)[0] && s[1] == le16(ZIP64_EXTRA_FIELD_ID)[1]);
    crate::le::lemma_r16_le16(s, 0, ZIP64_EXTRA_FIELD_ID);
    assert(s[2] == le16(p.len() as u16)[0] && s[3] == le16(p.len() as u16)[1]);
    crate::le::lemma_r16_le16(s, 2, p.len() as u16);
    assert(s.subrange(4, 4 + p.len() as int) =~= p);
    if spec_z64_needed_len(h) > 0 {
        assert(spec_zip64_block(s) == Some(p));
    }
    let off_c = if nu { 8int } else { 0int };
    let off_o = off_c + if nc { 8int } else { 0int };
    let off_d = off_o + if no { 8int } else { 0int };
    if nu {
        assert forall|k: int| 0 <= k < 8 implies p[k] == le64(u)[k] by {}
        crate::le::lemma_r64_le64(p, 0, u);
    }
    if nc {
        assert forall|k: int| 0 <= k < 8 implies p[off_c + k] == le64(c)[k] by {}
        crate::le::lemma_r64_le64(p, off_c, c);
    }
    if no {
        assert forall|k: int| 0 <= k < 8 implies p[off_o + k] == le64(o)[k] by {}
        crate::le::lemma_r64_le64(p, off_o, o);
    }
    if nd {
        assert(p[off_d] == le32(d)[0] && p[off_d + 1] == le32(d)[1]
            && p[off_d + 2] == le32(d)[2] && p[off_d + 3] == le32(d)[3]);
        crate::le::lemma_r32_le32(p, off_d, d);
    }
}

} // verus!
