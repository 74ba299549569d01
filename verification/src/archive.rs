//! Locating the central directory and building the archive model.
//!
//! The end-of-central-directory record is found by scanning the final
//! window of the stream backward for its signature; the last valid match
//! wins, so a false signature inside the archive comment cannot shadow the
//! true record.  Sentinel-valued fields escalate to the ZIP64
//! end-of-central-directory record, reached through the locator that
//! immediately precedes the end record.  The entry table is then built
//! purely from the central directory, the trusted index.

use vstd::prelude::*;

use crate::errors::ZipError;
use crate::codec::{
    parse_central_directory_header, parse_end_of_central_directory, parse_zip64_eocd,
    parse_central_directory_signature, parse_local_file_header, parse_zip64_locator,
    spec_cdh_len, spec_cdh_matches, spec_cdh_parses, spec_eocd_matches, spec_eocd_parses,
    spec_lfh_len, spec_lfh_matches, spec_lfh_parses, spec_z64_locator_matches,
    spec_z64_locator_parses,
    spec_z64_full_parses, spec_z64_matches, spec_z64_parses,
};
use crate::le::{r16, r32, r64};
use crate::records::CENTRAL_DIRECTORY_SIGNATURE_SIGNATURE;
use crate::records::{
    CentralDirectory, CentralDirectoryHeader, EndOfCentralDirectoryRecord, LocalFileHeader,
    SENTINEL16, SENTINEL32, Zip64EndOfCentralDirectoryLocator,
    Zip64EndOfCentralDirectoryRecord,
};

verus! {

/// The maximum distance from the end of the stream at which the
/// end-of-central-directory signature can legally start: its 22 fixed
/// bytes plus a comment of at most 65535 bytes.
pub const MAX_EOCD_SCAN: usize = 65557;

/// A valid end-of-central-directory match for the backward scan: the
/// record decodes at `j` and its comment runs exactly to the end of the
/// stream, which is what lets the true record shadow a signature pattern
/// that merely occurs inside its comment.
pub open spec fn spec_eocd_valid_at(s: Seq<u8>, j: int) -> bool {
    spec_eocd_parses(s, j) && j + 22 + r16(s, j + 20) == s.len()
}

/// Start of the backward-scan window for a stream of length `len`.
pub open spec fn spec_scan_floor(len: int) -> int {
    if len - 22 > 65535 {
        len - 22 - 65535
    } else {
        0
    }
}

/// Scans the final window of the stream backward for the
/// end-of-central-directory signature and returns the offset of the last
/// valid match: no later offset in the stream holds a valid record.
pub fn find_eocd(buf: &Vec<u8>) -> (r: Result<usize, ZipError>)
    ensures
        match r {
            Ok(p) => {
                &&& spec_eocd_valid_at(buf@, p as int)
                &&& spec_scan_floor(buf@.len() as int) <= p <= buf@.len() - 22
                &&& forall|j: int| p < j <= buf@.len() - 22 ==> !spec_eocd_valid_at(buf@, j)
            },
            Err(e) => {
                &&& forall|j: int| spec_scan_floor(buf@.len() as int) <= j <= buf@.len() - 22
                    ==> !spec_eocd_valid_at(buf@, j)
                &&& e matches ZipError::EndRecordNotFound { .. }
            },
        },
{
    let len = buf.len();
    if len < 22 {
        return Err(ZipError::EndRecordNotFound { offset: 0 });
    }
    let floor: usize = if len > MAX_EOCD_SCAN {
        len - MAX_EOCD_SCAN
    } else {
        0
    };
    let mut i: usize = len - 22;
    loop
        invariant
            floor <= i <= len - 22,
            len == buf@.len(),
            floor == spec_scan_floor(len as int),
            forall|j: int| i < j <= len - 22 ==> !spec_eocd_valid_at(buf@, j),
        decreases i,
    {
        let sig = match crate::le::read_u32(buf, i) {
            Ok(v) => v,
            Err(e) => { return Err(ZipError::EndRecordNotFound { offset: i }); },
        };
        if sig == crate::records::END_OF_CENTRAL_DIRECTORY_SIGNATURE {
            let comment_len = match crate::le::read_u16(buf, i + 20) {
                Ok(v) => v,
                Err(e) => { return Err(ZipError::EndRecordNotFound { offset: i }); },
            };
            if comment_len as usize == len - i - 22 {
                return Ok(i);
            }
        }
        assert(!spec_eocd_valid_at(buf@, i as int));
        if i == floor {
            return Err(ZipError::EndRecordNotFound { offset: i });
        }
        i = i - 1;
    }
}

/// The headers `hs` decode in sequence from offset `i`: the `k`-th header
/// starts where the previous one ended.
pub open spec fn spec_cd_chain(s: Seq<u8>, i: int, hs: Seq<CentralDirectoryHeader>) -> bool
    decreases hs.len(),
{
    if hs.len() == 0 {
        true
    } else {
        &&& spec_cdh_parses(s, i)
        &&& spec_cdh_matches(s, i, hs[0])
        &&& spec_cd_chain(s, i + spec_cdh_len(s, i), hs.drop_first())
    }
}

/// The offset just past the chain of `hs` headers starting at `i`.
pub open spec fn spec_cd_chain_end(s: Seq<u8>, i: int, hs: Seq<CentralDirectoryHeader>) -> int
    decreases hs.len(),
{
    if hs.len() == 0 {
        i
    } else {
        spec_cd_chain_end(s, i + spec_cdh_len(s, i), hs.drop_first())
    }
}

/// Extending a chain by one header that decodes at the chain's end.
pub proof fn lemma_cd_chain_push(s: Seq<u8>, i: int, hs: Seq<CentralDirectoryHeader>,
    h: CentralDirectoryHeader)
    requires
        spec_cd_chain(s, i, hs),
        spec_cdh_parses(s, spec_cd_chain_end(s, i, hs)),
        spec_cdh_matches(s, spec_cd_chain_end(s, i, hs), h),
    ensures
        spec_cd_chain(s, i, hs.push(h)),
        spec_cd_chain_end(s, i, hs.push(h)) == spec_cd_chain_end(s, i, hs)
            + spec_cdh_len(s, spec_cd_chain_end(s, i, hs)),
    decreases hs.len(),
{
    if hs.len() == 0 {
        assert(hs.push(h)[0] == h);
        assert(hs.push(h).drop_first() =~= Seq::<CentralDirectoryHeader>::empty());
        assert(spec_cd_chain_end(s, i, hs) == i);
        assert(spec_cd_chain(s, i + spec_cdh_len(s, i),
            Seq::<CentralDirectoryHeader>::empty()));
        assert(spec_cd_chain_end(s, i + spec_cdh_len(s, i),
            Seq::<CentralDirectoryHeader>::empty()) == i + spec_cdh_len(s, i));
        assert(spec_cd_chain(s, i, hs.push(h)));
        assert(spec_cd_chain_end(s, i, hs.push(h)) == i + spec_cdh_len(s, i));
    } else {
        assert(spec_cd_chain(s, i + spec_cdh_len(s, i), hs.drop_first()));
        assert(spec_cd_chain_end(s, i, hs)
            == spec_cd_chain_end(s, i + spec_cdh_len(s, i), hs.drop_first()));
        lemma_cd_chain_push(s, i + spec_cdh_len(s, i), hs.drop_first(), h);
        assert(hs.push(h)[0] == hs[0]);
        assert(hs.push(h).drop_first() =~= hs.drop_first().push(h));
        assert(spec_cd_chain(s, i + spec_cdh_len(s, i), hs.push(h).drop_first()));
        assert(spec_cd_chain(s, i, hs.push(h)));
        assert(spec_cd_chain_end(s, i, hs.push(h))
            == spec_cd_chain_end(s, i + spec_cdh_len(s, i), hs.push(h).drop_first()));
    }
}

/// `n` central directory headers decode in sequence starting at `i`.
pub open spec fn spec_cd_parses_n(s: Seq<u8>, i: int, n: nat) -> bool
    decreases n,
{
    if n == 0 {
        true
    } else {
        spec_cdh_parses(s, i) && spec_cd_parses_n(s, i + spec_cdh_len(s, i), (n - 1) as nat)
    }
}

/// A decoded chain witnesses that its count of headers decodes there.
pub proof fn lemma_cd_chain_parses_n(s: Seq<u8>, i: int, hs: Seq<CentralDirectoryHeader>)
    requires
        spec_cd_chain(s, i, hs),
    ensures
        spec_cd_parses_n(s, i, hs.len() as nat),
    decreases hs.len(),
{
    if hs.len() > 0 {
        lemma_cd_chain_parses_n(s, i + spec_cdh_len(s, i), hs.drop_first());
    }
}

/// Decodes exactly `count` central directory headers in sequence starting
/// at `start`.  It succeeds exactly when `count` headers decode there
/// ([`spec_cd_parses_n`]); a short read before reaching that count fails
/// with `TruncatedDirectory`, and no partial list is returned.
pub fn read_central_directory(buf: &Vec<u8>, start: usize, count: u64) -> (r: Result<
    (Vec<CentralDirectoryHeader>, usize),
    ZipError,
>)
    ensures
        match r {
            Ok((hs, end)) => {
                &&& hs@.len() == count
                &&& spec_cd_chain(buf@, start as int, hs@)
                &&& end == spec_cd_chain_end(buf@, start as int, hs@)
                &&& spec_cd_parses_n(buf@, start as int, count as nat)
            },
            Err(e) => {
                &&& !spec_cd_parses_n(buf@, start as int, count as nat)
                &&& e matches ZipError::TruncatedDirectory { .. }
            },
        },
{
    let mut hs: Vec<CentralDirectoryHeader> = Vec::new();
    let mut cur = start;
    let mut k: u64 = 0;
    while k < count
        invariant
            k <= count,
            k == hs@.len(),
            cur <= buf@.len() || k == 0,
            spec_cd_chain(buf@, start as int, hs@),
            cur == spec_cd_chain_end(buf@, start as int, hs@),
            spec_cd_parses_n(buf@, start as int, count as nat) == spec_cd_parses_n(buf@,
                cur as int, (count - k) as nat),
        decreases count - k,
    {
        let (h, end) = match parse_central_directory_header(buf, cur) {
            Ok(v) => v,
            Err(_) => { return Err(ZipError::TruncatedDirectory { offset: cur }); },
        };
        proof {
            lemma_cd_chain_push(buf@, start as int, hs@, h);
        }
        hs.push(h);
        cur = end;
        k = k + 1;
    }
    Ok((hs, cur))
}

/// An opened archive: the entry table built from the central directory,
/// the end-of-central-directory record that located it, and the ZIP64
/// records when escalation occurred.
#[derive(Debug)]
pub struct Archive {
    pub directory: CentralDirectory,
    pub end_of_central_directory: EndOfCentralDirectoryRecord,
    pub zip64_locator: Option<Zip64EndOfCentralDirectoryLocator>,
    pub zip64_record: Option<Zip64EndOfCentralDirectoryRecord>,
    pub eocd_offset: usize,
    pub total_entries: u64,
    pub central_directory_offset: u64,
    pub central_directory_size: u64,
}

/// One of the end record's four promotable fields holds its sentinel, so
/// the ZIP64 end-of-central-directory record must be consulted.
pub open spec fn spec_eocd_needs_zip64(e: EndOfCentralDirectoryRecord) -> bool {
    ||| e.total_number_of_entries_in_the_central_directory_on_this_disk == SENTINEL16
    ||| e.total_number_of_entries_in_the_central_directory == SENTINEL16
    ||| e.size_of_the_central_directory == SENTINEL32
    ||| e.offset_of_start_of_central_directory_with_respect_to_the_starting_disk_number
        == SENTINEL32
}

/// The total entry count after the per-field sentinel rule.
pub open spec fn spec_resolved_total(e: EndOfCentralDirectoryRecord,
    z: Option<Zip64EndOfCentralDirectoryRecord>) -> u64 {
    if e.total_number_of_entries_in_the_central_directory == SENTINEL16 && z is Some {
        z->0.total_number_of_entries_in_the_central_directory
    } else {
        e.total_number_of_entries_in_the_central_directory as u64
    }
}

/// The central directory size after the per-field sentinel rule.
pub open spec fn spec_resolved_cd_size(e: EndOfCentralDirectoryRecord,
    z: Option<Zip64EndOfCentralDirectoryRecord>) -> u64 {
    if e.size_of_the_central_directory == SENTINEL32 && z is Some {
        z->0.size_of_the_central_directory
    } else {
        e.size_of_the_central_directory as u64
    }
}

/// The central directory start offset after the per-field sentinel rule.
pub open spec fn spec_resolved_cd_offset(e: EndOfCentralDirectoryRecord,
    z: Option<Zip64EndOfCentralDirectoryRecord>) -> u64 {
    if e.offset_of_start_of_central_directory_with_respect_to_the_starting_disk_number
        == SENTINEL32 && z is Some {
        z->0.offset_of_start_of_central_directory_with_respect_to_the_starting_disk_number
    } else {
        e.offset_of_start_of_central_directory_with_respect_to_the_starting_disk_number as u64
    }
}

/// The end record's four promotable fields, read straight from its bytes
/// at `p`, demand ZIP64 escalation.
pub open spec fn spec_eocd_bytes_need_zip64(s: Seq<u8>, p: int) -> bool {
    ||| r16(s, p + 8) == SENTINEL16
    ||| r16(s, p + 10) == SENTINEL16
    ||| r32(s, p + 12) == SENTINEL32
    ||| r32(s, p + 16) == SENTINEL32
}

/// The total entry count at end record `p`, with the ZIP64 record at `z`
/// superseding a sentinel-valued count.  `z` is read only under a
/// sentinel.
pub open spec fn spec_resolved_count_at(s: Seq<u8>, p: int, z: int) -> u64 {
    if r16(s, p + 10) == SENTINEL16 {
        r64(s, z + 32)
    } else {
        r16(s, p + 10) as u64
    }
}

/// The directory start offset at end record `p`, with the ZIP64 record at
/// `z` superseding a sentinel-valued offset.
pub open spec fn spec_resolved_offset_at(s: Seq<u8>, p: int, z: int) -> u64 {
    if r32(s, p + 16) == SENTINEL32 {
        r64(s, z + 48)
    } else {
        r32(s, p + 16) as u64
    }
}

/// The archive opens from the end record at `p`: `p` is the last valid
/// scan match, escalation resolves when sentinels demand it, and the full
/// resolved count of directory headers decodes at the resolved offset.
pub open spec fn spec_archive_parses_at(s: Seq<u8>, p: int) -> bool {
    &&& spec_scan_floor(s.len() as int) <= p <= s.len() - 22
    &&& spec_eocd_valid_at(s, p)
    &&& forall|j: int| p < j <= s.len() - 22 ==> !spec_eocd_valid_at(s, j)
    &&& if !spec_eocd_bytes_need_zip64(s, p) {
        &&& r32(s, p + 16) <= usize::MAX
        &&& spec_cd_parses_n(s, r32(s, p + 16) as int, r16(s, p + 10) as nat)
    } else {
        &&& p >= 20
        &&& spec_z64_locator_parses(s, p - 20)
        &&& r64(s, p - 12) <= usize::MAX
        &&& spec_z64_full_parses(s, r64(s, p - 12) as int)
        &&& spec_resolved_offset_at(s, p, r64(s, p - 12) as int) <= usize::MAX
        &&& spec_cd_parses_n(s, spec_resolved_offset_at(s, p, r64(s, p - 12) as int) as int,
            spec_resolved_count_at(s, p, r64(s, p - 12) as int) as nat)
    }
}

/// The whole archive opens from its byte stream.
pub open spec fn spec_archive_parses(s: Seq<u8>) -> bool {
    exists|p: int| #[trigger] spec_eocd_valid_at(s, p) && spec_archive_parses_at(s, p)
}

/// Opens an archive from its byte stream: locates the
/// end-of-central-directory record, escalates to ZIP64 when sentinels
/// demand it, and decodes exactly the declared number of central
/// directory headers.  It succeeds exactly when [`spec_archive_parses`]
/// holds of the stream.
pub fn open(buf: &Vec<u8>) -> (r: Result<Archive, ZipError>)
    ensures
        r is Ok <==> spec_archive_parses(buf@),
        match r {
            Ok(a) => {
                &&& spec_eocd_valid_at(buf@, a.eocd_offset as int)
                &&& forall|j: int| a.eocd_offset < j <= buf@.len() - 22
                    ==> !spec_eocd_valid_at(buf@, j)
                &&& spec_eocd_matches(buf@, a.eocd_offset as int, a.end_of_central_directory)
                &&& a.zip64_record is Some <==> spec_eocd_needs_zip64(a.end_of_central_directory)
                &&& a.zip64_record is Some ==> {
                    &&& a.zip64_locator matches Some(l)
                    &&& spec_z64_locator_parses(buf@, a.eocd_offset - 20)
                    &&& spec_z64_locator_matches(buf@, a.eocd_offset - 20, l)
                    &&& spec_z64_parses(buf@,
                        l.relative_offset_of_the_zip64_end_of_central_directory_record as int)
                    &&& spec_z64_matches(buf@,
                        l.relative_offset_of_the_zip64_end_of_central_directory_record as int,
                        a.zip64_record->0)
                }
                &&& a.total_entries == spec_resolved_total(a.end_of_central_directory,
                    a.zip64_record)
                &&& a.central_directory_size == spec_resolved_cd_size(
                    a.end_of_central_directory, a.zip64_record)
                &&& a.central_directory_offset == spec_resolved_cd_offset(
                    a.end_of_central_directory, a.zip64_record)
                &&& a.directory.headers@.len() == a.total_entries
                &&& spec_cd_chain(buf@, a.central_directory_offset as int, a.directory.headers@)
                &&& (a.directory.signature is None ==> !crate::codec::spec_cdsig_parses(buf@,
                    spec_cd_chain_end(buf@, a.central_directory_offset as int,
                        a.directory.headers@)))
                &&& (a.directory.signature matches Some(c) ==> {
                    let cd_end = spec_cd_chain_end(buf@, a.central_directory_offset as int,
                        a.directory.headers@);
                    &&& cd_end + 6 <= buf@.len()
                    &&& r32(buf@, cd_end) == CENTRAL_DIRECTORY_SIGNATURE_SIGNATURE
                    &&& c.size_of_data == r16(buf@, cd_end + 4)
                    &&& c.signature_data@ == buf@.subrange(cd_end + 6,
                        cd_end + 6 + r16(buf@, cd_end + 4))
                })
            },
            Err(e) => {
                ||| e matches ZipError::EndRecordNotFound { .. }
                ||| e matches ZipError::Zip64LocatorMissing { .. }
                ||| e matches ZipError::TruncatedDirectory { .. }
                ||| e matches ZipError::Truncated { .. }
                ||| e matches ZipError::SignatureMismatch { .. }
            },
        },
{
    let p = match find_eocd(buf) {
        Ok(v) => v,
        Err(e) => { return Err(e); },
    };
    let (eocd, _eocd_end) = match parse_end_of_central_directory(buf, p) {
        Ok(v) => v,
        Err(e) => { return Err(e); },
    };
    let needs_zip64 = eocd.total_number_of_entries_in_the_central_directory_on_this_disk
        == SENTINEL16 || eocd.total_number_of_entries_in_the_central_directory == SENTINEL16
        || eocd.size_of_the_central_directory == SENTINEL32
        || eocd.offset_of_start_of_central_directory_with_respect_to_the_starting_disk_number
        == SENTINEL32;
    let mut zip64_locator: Option<Zip64EndOfCentralDirectoryLocator> = None;
    let mut zip64_record: Option<Zip64EndOfCentralDirectoryRecord> = None;
    if needs_zip64 {
        if p < 20 {
            return Err(ZipError::Zip64LocatorMissing { offset: p });
        }
        let (locator, _) = match parse_zip64_locator(buf, p - 20) {
            Ok(v) => v,
            Err(_) => { return Err(ZipError::Zip64LocatorMissing { offset: p - 20 }); },
        };
        let z64_off = locator.relative_offset_of_the_zip64_end_of_central_directory_record;
        if z64_off > usize::MAX as u64 {
            return Err(ZipError::Truncated { offset: p - 20 });
        }
        let (z64, _) = match parse_zip64_eocd(buf, z64_off as usize) {
            Ok(v) => v,
            Err(e) => { return Err(e); },
        };
        zip64_locator = Some(locator);
        zip64_record = Some(z64);
    }
    let total_entries: u64 = match &zip64_record {
        Some(z) => {
            if eocd.total_number_of_entries_in_the_central_directory == SENTINEL16 {
                z.total_number_of_entries_in_the_central_directory
            } else {
                eocd.total_number_of_entries_in_the_central_directory as u64
            }
        },
        None => eocd.total_number_of_entries_in_the_central_directory as u64,
    };
    let central_directory_size: u64 = match &zip64_record {
        Some(z) => {
            if eocd.size_of_the_central_directory == SENTINEL32 {
                z.size_of_the_central_directory
            } else {
                eocd.size_of_the_central_directory as u64
            }
        },
        None => eocd.size_of_the_central_directory as u64,
    };
    let central_directory_offset: u64 = match &zip64_record {
        Some(z) => {
            if eocd.offset_of_start_of_central_directory_with_respect_to_the_starting_disk_number
                == SENTINEL32 {
                z.offset_of_start_of_central_directory_with_respect_to_the_starting_disk_number
            } else {
                eocd.offset_of_start_of_central_directory_with_respect_to_the_starting_disk_number
                    as u64
            }
        },
        None => {
            eocd.offset_of_start_of_central_directory_with_respect_to_the_starting_disk_number
                as u64
        },
    };
    if central_directory_offset > usize::MAX as u64 {
        return Err(ZipError::TruncatedDirectory { offset: p });
    }
    let (headers, cd_end) = match read_central_directory(buf,
        central_directory_offset as usize, total_entries) {
        Ok(v) => v,
        Err(e) => { return Err(e); },
    };
    let signature = match parse_central_directory_signature(buf, cd_end) {
        Ok((c, _)) => Some(c),
        Err(_) => None,
    };
    Ok(Archive {
        directory: CentralDirectory { headers, signature },
        end_of_central_directory: eocd,
        zip64_locator,
        zip64_record,
        eocd_offset: p,
        total_entries,
        central_directory_offset,
        central_directory_size,
    })
}


/// The offsets the greedy forward scan collects from position `i` on:
/// the least position at or after `i` where a local file header decodes,
/// then the scan continues just past that header's extent.
pub open spec fn spec_scan_offsets(s: Seq<u8>, i: int) -> Seq<int>
    decreases s.len() - i,
{
    if i >= s.len() {
        Seq::empty()
    } else if spec_lfh_parses(s, i) {
        seq![i] + spec_scan_offsets(s, i + spec_lfh_len(s, i))
    } else {
        spec_scan_offsets(s, i + 1)
    }
}

/// Best-effort fallback for archives whose central directory cannot be
/// read: a linear forward scan for local file header signatures.  It must
/// be invoked explicitly, never automatically; it returns a partial,
/// offset-ordered entry list, and it claims no CRC-verified correctness.
/// The offsets returned are exactly [`spec_scan_offsets`] of the whole
/// stream: every header the greedy walk meets is reported, and none is
/// skipped.  A payload's extent is implied by the next header's offset or
/// the end of the stream.
pub fn scan_local_headers(buf: &Vec<u8>) -> (r: Vec<(usize, LocalFileHeader)>)
    ensures
        r@.map_values(|p: (usize, LocalFileHeader)| p.0 as int) == spec_scan_offsets(buf@, 0),
        forall|k: int| 0 <= k < r@.len() ==> {
            &&& spec_lfh_parses(buf@, (#[trigger] r@[k]).0 as int)
            &&& spec_lfh_matches(buf@, r@[k].0 as int, r@[k].1)
        },
        forall|k1: int, k2: int| 0 <= k1 < k2 < r@.len()
            ==> (#[trigger] r@[k1]).0 < (#[trigger] r@[k2]).0,
{
    let mut out: Vec<(usize, LocalFileHeader)> = Vec::new();
    let len = buf.len();
    let mut cur: usize = 0;
    while cur < len
        invariant
            len == buf@.len(),
            cur <= len,
            out@.map_values(|p: (usize, LocalFileHeader)| p.0 as int)
                + spec_scan_offsets(buf@, cur as int) == spec_scan_offsets(buf@, 0),
            forall|k: int| 0 <= k < out@.len() ==> {
                &&& spec_lfh_parses(buf@, (#[trigger] out@[k]).0 as int)
                &&& spec_lfh_matches(buf@, out@[k].0 as int, out@[k].1)
                &&& out@[k].0 < cur
            },
            forall|k1: int, k2: int| 0 <= k1 < k2 < out@.len()
                ==> (#[trigger] out@[k1]).0 < (#[trigger] out@[k2]).0,
        decreases len - cur,
    {
        let ghost offsets = out@.map_values(|p: (usize, LocalFileHeader)| p.0 as int);
        match parse_local_file_header(buf, cur) {
            Ok((h, end)) => {
                proof {
                    assert(spec_scan_offsets(buf@, cur as int) == seq![cur as int]
                        + spec_scan_offsets(buf@, end as int));
                    assert(out@.push((cur, h)).map_values(
                        |p: (usize, LocalFileHeader)| p.0 as int)
                        =~= offsets.push(cur as int));
                    assert(offsets.push(cur as int) + spec_scan_offsets(buf@, end as int)
                        =~= offsets + spec_scan_offsets(buf@, cur as int));
                }
                out.push((cur, h));
                cur = end;
            },
            Err(_) => {
                proof {
                    assert(spec_scan_offsets(buf@, cur as int)
                        == spec_scan_offsets(buf@, cur + 1));
                }
                cur = cur + 1;
            },
        }
    }
    proof {
        assert(out@.map_values(|p: (usize, LocalFileHeader)| p.0 as int)
            + spec_scan_offsets(buf@, cur as int)
            =~= out@.map_values(|p: (usize, LocalFileHeader)| p.0 as int));
    }
    out
}

} // verus!
