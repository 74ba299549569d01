//! Entry accessor: resolving an entry to its payload byte range, handing
//! the range to a codec, and verifying the CRC-32 of decoded output.
//!
//! The local file header is read lazily, only to locate the payload start:
//! its size is variable, so the payload offset cannot be computed from the
//! central directory offset alone.  The central directory remains
//! authoritative for sizes and CRC.  Only the `store` method (0) is
//! decoded here; every other method's byte range goes to an external
//! codec, and [`verify_entry_crc`] then upholds the integrity contract.

use vstd::prelude::*;

use crate::codec::{parse_local_file_header, spec_lfh_len, spec_lfh_parses};
use crate::crc::{crc32, spec_crc32};
use crate::errors::ZipError;
use crate::records::{CentralDirectoryHeader, FLAG_DATA_DESCRIPTOR, FLAG_ENCRYPTED};
use crate::zip64::{
    ResolvedEntryFields, resolve_entry_fields, spec_entry_resolves, spec_resolved_fields,
};

verus! {

/// Compression method code for `store`: payload bytes are the file bytes.
pub const METHOD_STORE: u16 = 0;

/// The payload byte range of an entry whose local header sits at
/// `fields.local_header_offset`: it starts just past the local file header
/// and spans `fields.compressed_size` bytes.
pub fn payload_range(buf: &Vec<u8>, fields: &ResolvedEntryFields) -> (r: Result<
    (usize, usize),
    ZipError,
>)
    ensures
        match r {
            Ok((start, len)) => {
                &&& spec_lfh_parses(buf@, fields.local_header_offset as int)
                &&& start == fields.local_header_offset
                    + spec_lfh_len(buf@, fields.local_header_offset as int)
                &&& len == fields.compressed_size
                &&& start + len <= buf@.len()
            },
            Err(e) => {
                &&& !(spec_lfh_parses(buf@, fields.local_header_offset as int)
                    && fields.local_header_offset + spec_lfh_len(buf@,
                        fields.local_header_offset as int) + fields.compressed_size
                    <= buf@.len())
                &&& (e matches ZipError::Truncated { .. }
                    || e matches ZipError::SignatureMismatch { .. })
            },
        },
{
    let total = buf.len();
    if fields.local_header_offset > usize::MAX as u64 {
        return Err(ZipError::Truncated { offset: 0 });
    }
    let off = fields.local_header_offset as usize;
    let (_header, data_start) = match parse_local_file_header(buf, off) {
        Ok(v) => v,
        Err(e) => { return Err(e); },
    };
    if fields.compressed_size > usize::MAX as u64
        || fields.compressed_size as usize > total - data_start {
        return Err(ZipError::Truncated { offset: data_start });
    }
    Ok((data_start, fields.compressed_size as usize))
}

/// Recomputes the CRC-32 over decoded bytes and fails with `CrcMismatch`
/// if it disagrees with the recorded value: the integrity contract of the
/// whole design.
pub fn verify_entry_crc(decoded: &Vec<u8>, recorded: u32, at: usize) -> (r: Result<(), ZipError>)
    ensures
        match r {
            Ok(()) => spec_crc32(decoded@) == recorded,
            Err(e) => {
                &&& spec_crc32(decoded@) != recorded
                &&& e == (ZipError::CrcMismatch {
                    offset: at,
                    recorded,
                    computed: spec_crc32(decoded@),
                })
            },
        },
{
    let computed = crc32(decoded);
    if computed == recorded {
        Ok(())
    } else {
        Err(ZipError::CrcMismatch { offset: at, recorded, computed })
    }
}

/// The payload byte range of a resolvable entry: the bytes just past its
/// local file header, spanning its resolved compressed size.
pub open spec fn spec_stored_payload(s: Seq<u8>, h: CentralDirectoryHeader) -> Seq<u8> {
    let f = spec_resolved_fields(h);
    let start = f.local_header_offset + spec_lfh_len(s, f.local_header_offset as int);
    s.subrange(start, start + f.compressed_size)
}

/// An entry can be extracted by the store path: it is stored (method 0)
/// and unencrypted, its ZIP64 overrides resolve, its local file header
/// decodes, its payload lies within the stream, and the payload's CRC-32
/// equals the recorded value.
pub open spec fn spec_stored_entry_extracts(s: Seq<u8>, h: CentralDirectoryHeader) -> bool {
    &&& h.compression_method == METHOD_STORE
    &&& h.general_purpose_bit_flag & FLAG_ENCRYPTED == 0
    &&& spec_entry_resolves(h)
    &&& spec_lfh_parses(s, spec_resolved_fields(h).local_header_offset as int)
    &&& spec_resolved_fields(h).local_header_offset + spec_lfh_len(s,
        spec_resolved_fields(h).local_header_offset as int)
        + spec_resolved_fields(h).compressed_size <= s.len()
    &&& spec_crc32(spec_stored_payload(s, h)) == h.crc32
}

/// Extracts an entry stored without compression (method 0): resolves the
/// payload range, copies the bytes, and verifies their CRC-32 against the
/// central directory's recorded value.  It succeeds exactly when
/// [`spec_stored_entry_extracts`] holds.  Entries using any other method
/// or an encryption bit are refused with `CodecError`: their byte range
/// is for an external codec or decryptor.
pub fn extract_stored(buf: &Vec<u8>, entry: &CentralDirectoryHeader) -> (r: Result<
    Vec<u8>,
    ZipError,
>)
    ensures
        r is Ok <==> spec_stored_entry_extracts(buf@, *entry),
        match r {
            Ok(data) => {
                &&& data@ == spec_stored_payload(buf@, *entry)
                &&& spec_crc32(data@) == entry.crc32
            },
            Err(e) => {
                &&& ({
                    ||| e matches ZipError::CodecError { .. }
                    ||| e matches ZipError::CrcMismatch { .. }
                    ||| e matches ZipError::Truncated { .. }
                    ||| e matches ZipError::SignatureMismatch { .. }
                    ||| e matches ZipError::InconsistentEntry { .. }
                })
                &&& (e matches ZipError::CodecError { .. }
                    ==> !(entry.compression_method == METHOD_STORE
                        && entry.general_purpose_bit_flag & FLAG_ENCRYPTED == 0))
                &&& (e matches ZipError::InconsistentEntry { .. }
                    ==> !spec_entry_resolves(*entry))
                &&& (e matches ZipError::CrcMismatch { offset: _, recorded: rec, computed: comp }
                    ==> rec == entry.crc32
                        && comp == spec_crc32(spec_stored_payload(buf@, *entry))
                        && comp != rec)
            },
        },
{
    if entry.compression_method != METHOD_STORE
        || entry.general_purpose_bit_flag & FLAG_ENCRYPTED != 0 {
        return Err(ZipError::CodecError { offset: 0, method: entry.compression_method });
    }
    let fields = match resolve_entry_fields(entry, 0) {
        Ok(v) => v,
        Err(e) => { return Err(e); },
    };
    let (start, len) = match payload_range(buf, &fields) {
        Ok(v) => v,
        Err(e) => { return Err(e); },
    };
    let data = match crate::le::read_bytes(buf, start, len) {
        Ok(v) => v,
        Err(e) => { return Err(e); },
    };
    proof {
        assert(data@ == spec_stored_payload(buf@, *entry));
    }
    match verify_entry_crc(&data, entry.crc32, start) {
        Ok(()) => Ok(data),
        Err(e) => Err(e),
    }
}

/// Reads the data descriptor that trails an entry's payload (general
/// purpose bit 3): the three fields start right after the compressed
/// bytes, behind the optional signature.  `zip64` selects 8-byte size
/// fields, for entries whose sizes were ZIP64-escalated.  Returns the
/// recovered (CRC-32, compressed size, uncompressed size).
pub fn read_trailing_descriptor(buf: &Vec<u8>, payload_end: usize, zip64: bool) -> (r: Result<
    (u32, u64, u64),
    ZipError,
>)
    ensures
        match r {
            Ok((crc, csize, usz)) => {
                if zip64 {
                    &&& crate::codec::spec_dd_fields_at(buf@, payload_end as int) + 20
                        <= buf@.len()
                    &&& crc == crate::le::r32(buf@,
                        crate::codec::spec_dd_fields_at(buf@, payload_end as int))
                    &&& csize == crate::le::r64(buf@,
                        crate::codec::spec_dd_fields_at(buf@, payload_end as int) + 4)
                    &&& usz == crate::le::r64(buf@,
                        crate::codec::spec_dd_fields_at(buf@, payload_end as int) + 12)
                } else {
                    &&& crate::codec::spec_dd_fields_at(buf@, payload_end as int) + 12
                        <= buf@.len()
                    &&& crc == crate::le::r32(buf@,
                        crate::codec::spec_dd_fields_at(buf@, payload_end as int))
                    &&& csize == crate::le::r32(buf@,
                        crate::codec::spec_dd_fields_at(buf@, payload_end as int) + 4) as u64
                    &&& usz == crate::le::r32(buf@,
                        crate::codec::spec_dd_fields_at(buf@, payload_end as int) + 8) as u64
                }
            },
            Err(e) => {
                &&& crate::codec::spec_dd_fields_at(buf@, payload_end as int)
                    + (if zip64 { 20int } else { 12int }) > buf@.len()
                &&& e matches ZipError::Truncated { .. }
            },
        },
{
    if zip64 {
        match crate::codec::parse_data_descriptor64(buf, payload_end) {
            Ok((crc, csize, usz, _end)) => Ok((crc, csize, usz)),
            Err(e) => Err(e),
        }
    } else {
        match crate::codec::parse_data_descriptor(buf, payload_end) {
            Ok((d, _end)) => Ok((d.crc32, d.compressed_size as u64, d.uncompressed_size as u64)),
            Err(e) => Err(e),
        }
    }
}

/// Whether an entry defers its sizes and CRC to a trailing data
/// descriptor (general purpose bit 3).
pub fn uses_data_descriptor(entry: &CentralDirectoryHeader) -> (r: bool)
    ensures
        r == (entry.general_purpose_bit_flag & FLAG_DATA_DESCRIPTOR != 0),
{
    entry.general_purpose_bit_flag & FLAG_DATA_DESCRIPTOR != 0
}

} // verus!
