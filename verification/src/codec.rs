//! Fixed-layout encode and decode for each record type.
//!
//! Decoding validates the record signature first and fails with
//! `SignatureMismatch` if it is absent (except for data descriptors, whose
//! signature is optional).  Variable-length trailing fields are read using
//! the immediately preceding explicit length field; decoding never
//! over-reads past the declared lengths.
//!
//! For every record there is a specification-level byte image
//! (`spec_*_bytes`), an encoder proved to append exactly that image, a
//! decoder whose contract gives each field as a function of the input
//! bytes, and a lemma showing that decoding an encoded image recovers the
//! record.

use vstd::prelude::*;

use crate::errors::ZipError;
use crate::le::{le16, le32, le64, r16, r32, r64};
use crate::le::{read_u16, read_u32, read_u64, read_bytes};
use crate::le::{write_u16, write_u32, write_u64, write_bytes};
use crate::records::{
    ARCHIVE_EXTRA_DATA_SIGNATURE, ArchiveExtraDataRecord, CENTRAL_DIRECTORY_HEADER_SIGNATURE,
    CENTRAL_DIRECTORY_SIGNATURE_SIGNATURE, CentralDirectorySignature,
    DATA_DESCRIPTOR_SIGNATURE,
    END_OF_CENTRAL_DIRECTORY_SIGNATURE, LOCAL_FILE_HEADER_SIGNATURE,
    ZIP64_END_OF_CENTRAL_DIRECTORY_SIGNATURE, ZIP64_LOCATOR_SIGNATURE,
    CentralDirectoryHeader, DataDescriptor, EndOfCentralDirectoryRecord, LocalFileHeader,
    VersionMadeBy, Zip64EndOfCentralDirectoryLocator, Zip64EndOfCentralDirectoryRecord,
    Zip64ExtensibleDataSector, lemma_version_made_by_round_trip, spec_version_made_by_of_raw,
    spec_version_made_by_raw,
};

verus! {

/// A local file header is well formed when its explicit length fields agree
/// with its variable-length fields.
pub open spec fn lfh_wf(h: LocalFileHeader) -> bool {
    &&& h.file_name@.len() == h.file_name_length
    &&& h.extra_field@.len() == h.extra_field_length
}

/// The byte image of a local file header given as its parts: the two
/// length fields are taken from the variable-length parts themselves.
pub open spec fn spec_lfh_bytes_parts(version: u16, flags: u16, method: u16, time: u16,
    date: u16, crc: u32, csize: u32, usz: u32, name: Seq<u8>, extra: Seq<u8>) -> Seq<u8> {
    le32(LOCAL_FILE_HEADER_SIGNATURE) + le16(version) + le16(flags) + le16(method) + le16(time)
        + le16(date) + le32(crc) + le32(csize) + le32(usz) + le16(name.len() as u16)
        + le16(extra.len() as u16) + name + extra
}

/// The exact byte image of a well-formed local file header.
pub open spec fn spec_lfh_bytes(h: LocalFileHeader) -> Seq<u8> {
    spec_lfh_bytes_parts(h.extraction_version, h.general_purpose_bit_flag,
        h.compression_method, h.mod_file_time, h.mod_file_date, h.crc32, h.compressed_size,
        h.uncompressed_size, h.file_name@, h.extra_field@)
}

/// Total length of the local file header starting at `i`, taken from its
/// two length fields.
pub open spec fn spec_lfh_len(s: Seq<u8>, i: int) -> int {
    30 + r16(s, i + 26) + r16(s, i + 28)
}

/// A local file header decodes successfully at `i`: the fixed part fits,
/// the signature matches, and the declared trailing fields fit.
pub open spec fn spec_lfh_parses(s: Seq<u8>, i: int) -> bool {
    &&& 0 <= i
    &&& i + 30 <= s.len()
    &&& r32(s, i) == LOCAL_FILE_HEADER_SIGNATURE
    &&& i + spec_lfh_len(s, i) <= s.len()
}

/// Field-by-field relation between a decoded local file header and the
/// bytes it was decoded from.
pub open spec fn spec_lfh_matches(s: Seq<u8>, i: int, h: LocalFileHeader) -> bool {
    &&& h.extraction_version == r16(s, i + 4)
    &&& h.general_purpose_bit_flag == r16(s, i + 6)
    &&& h.compression_method == r16(s, i + 8)
    &&& h.mod_file_time == r16(s, i + 10)
    &&& h.mod_file_date == r16(s, i + 12)
    &&& h.crc32 == r32(s, i + 14)
    &&& h.compressed_size == r32(s, i + 18)
    &&& h.uncompressed_size == r32(s, i + 22)
    &&& h.file_name_length == r16(s, i + 26)
    &&& h.extra_field_length == r16(s, i + 28)
    &&& h.file_name@ == s.subrange(i + 30, i + 30 + r16(s, i + 26))
    &&& h.extra_field@ == s.subrange(i + 30 + r16(s, i + 26), i + spec_lfh_len(s, i))
}

/// Decodes the local file header at `pos`.
pub fn parse_local_file_header(buf: &Vec<u8>, pos: usize) -> (r: Result<
    (LocalFileHeader, usize),
    ZipError,
>)
    ensures
        match r {
            Ok((h, end)) => {
                &&& spec_lfh_parses(buf@, pos as int)
                &&& spec_lfh_matches(buf@, pos as int, h)
                &&& lfh_wf(h)
                &&& end == pos + spec_lfh_len(buf@, pos as int)
            },
            Err(e) => {
                &&& !spec_lfh_parses(buf@, pos as int)
                &&& if pos + 4 <= buf@.len() && r32(buf@, pos as int)
                    != LOCAL_FILE_HEADER_SIGNATURE {
                    e == (ZipError::SignatureMismatch { offset: pos })
                } else {
                    e matches ZipError::Truncated { .. }
                }
            },
        },
{
    let sig = match read_u32(buf, pos) {
        Ok(v) => v,
        Err(e) => { return Err(e); },
    };
    if sig != LOCAL_FILE_HEADER_SIGNATURE {
        return Err(ZipError::SignatureMismatch { offset: pos });
    }
    if buf.len() - pos < 30 {
        return Err(ZipError::Truncated { offset: pos });
    }
    let extraction_version = match read_u16(buf, pos + 4) {
        Ok(v) => v,
        Err(e) => { return Err(e); },
    };
    let general_purpose_bit_flag = match read_u16(buf, pos + 6) {
        Ok(v) => v,
        Err(e) => { return Err(e); },
    };
    let compression_method = match read_u16(buf, pos + 8) {
        Ok(v) => v,
        Err(e) => { return Err(e); },
    };
    let mod_file_time = match read_u16(buf, pos + 10) {
        Ok(v) => v,
        Err(e) => { return Err(e); },
    };
    let mod_file_date = match read_u16(buf, pos + 12) {
        Ok(v) => v,
        Err(e) => { return Err(e); },
    };
    let crc32 = match read_u32(buf, pos + 14) {
        Ok(v) => v,
        Err(e) => { return Err(e); },
    };
    let compressed_size = match read_u32(buf, pos + 18) {
        Ok(v) => v,
        Err(e) => { return Err(e); },
    };
    let uncompressed_size = match read_u32(buf, pos + 22) {
        Ok(v) => v,
        Err(e) => { return Err(e); },
    };
    let file_name_length = match read_u16(buf, pos + 26) {
        Ok(v) => v,
        Err(e) => { return Err(e); },
    };
    let extra_field_length = match read_u16(buf, pos + 28) {
        Ok(v) => v,
        Err(e) => { return Err(e); },
    };
    let file_name = match read_bytes(buf, pos + 30, file_name_length as usize) {
        Ok(v) => v,
        Err(e) => { return Err(e); },
    };
    let extra_field = match read_bytes(buf, pos + 30 + file_name_length as usize,
        extra_field_length as usize) {
        Ok(v) => v,
        Err(e) => { return Err(e); },
    };
    let end = pos + 30 + file_name_length as usize + extra_field_length as usize;
    Ok((
        LocalFileHeader {
            extraction_version,
            general_purpose_bit_flag,
            compression_method,
            mod_file_time,
            mod_file_date,
            crc32,
            compressed_size,
            uncompressed_size,
            file_name_length,
            extra_field_length,
            file_name,
            extra_field,
        },
        end,
    ))
}

/// Encodes a local file header, appending exactly its byte image.
pub fn encode_local_file_header(h: &LocalFileHeader, out: &mut Vec<u8>)
    requires
        lfh_wf(*h),
    ensures
        final(out)@ == old(out)@ + spec_lfh_bytes(*h),
{
    write_u32(out, LOCAL_FILE_HEADER_SIGNATURE);
    write_u16(out, h.extraction_version);
    write_u16(out, h.general_purpose_bit_flag);
    write_u16(out, h.compression_method);
    write_u16(out, h.mod_file_time);
    write_u16(out, h.mod_file_date);
    write_u32(out, h.crc32);
    write_u32(out, h.compressed_size);
    write_u32(out, h.uncompressed_size);
    write_u16(out, h.file_name_length);
    write_u16(out, h.extra_field_length);
    write_bytes(out, &h.file_name);
    write_bytes(out, &h.extra_field);
    assert(out@ =~= old(out)@ + spec_lfh_bytes(*h));
}

/// Decoding the byte image of a well-formed local file header recovers the
/// header: the round-trip law at the record level.
pub proof fn lemma_lfh_round_trip(s: Seq<u8>, i: int, h: LocalFileHeader)
    requires
        lfh_wf(h),
        0 <= i,
        i + spec_lfh_bytes(h).len() <= s.len(),
        s.subrange(i, i + spec_lfh_bytes(h).len()) == spec_lfh_bytes(h),
    ensures
        spec_lfh_bytes(h).len() == 30 + h.file_name@.len() + h.extra_field@.len(),
        spec_lfh_len(s, i) == spec_lfh_bytes(h).len(),
        spec_lfh_parses(s, i),
        spec_lfh_matches(s, i, h),
{
    let b = spec_lfh_bytes(h);
    assert forall|k: int| 0 <= k < b.len() implies s[i + k] == #[trigger] b[k] by {
        assert(s.subrange(i, i + b.len())[k] == s[i + k]);
    }
    assert(s[i] == b[0]) by {
        assert(s.subrange(i, i + b.len())[0] == s[i]);
    }
    assert(b[0] == le32(LOCAL_FILE_HEADER_SIGNATURE)[0]
        && b[1] == le32(LOCAL_FILE_HEADER_SIGNATURE)[1]
        && b[2] == le32(LOCAL_FILE_HEADER_SIGNATURE)[2]
        && b[3] == le32(LOCAL_FILE_HEADER_SIGNATURE)[3]);
    crate::le::lemma_r32_le32(s, i, LOCAL_FILE_HEADER_SIGNATURE);
    assert(b[4] == le16(h.extraction_version)[0] && b[5] == le16(h.extraction_version)[1]);
    crate::le::lemma_r16_le16(s, i + 4, h.extraction_version);
    assert(b[6] == le16(h.general_purpose_bit_flag)[0]
        && b[7] == le16(h.general_purpose_bit_flag)[1]);
    crate::le::lemma_r16_le16(s, i + 6, h.general_purpose_bit_flag);
    assert(b[8] == le16(h.compression_method)[0] && b[9] == le16(h.compression_method)[1]);
    crate::le::lemma_r16_le16(s, i + 8, h.compression_method);
    assert(b[10] == le16(h.mod_file_time)[0] && b[11] == le16(h.mod_file_time)[1]);
    crate::le::lemma_r16_le16(s, i + 10, h.mod_file_time);
    assert(b[12] == le16(h.mod_file_date)[0] && b[13] == le16(h.mod_file_date)[1]);
    crate::le::lemma_r16_le16(s, i + 12, h.mod_file_date);
    assert(b[14] == le32(h.crc32)[0] && b[15] == le32(h.crc32)[1]
        && b[16] == le32(h.crc32)[2] && b[17] == le32(h.crc32)[3]);
    crate::le::lemma_r32_le32(s, i + 14, h.crc32);
    assert(b[18] == le32(h.compressed_size)[0] && b[19] == le32(h.compressed_size)[1]
        && b[20] == le32(h.compressed_size)[2] && b[21] == le32(h.compressed_size)[3]);
    crate::le::lemma_r32_le32(s, i + 18, h.compressed_size);
    assert(b[22] == le32(h.uncompressed_size)[0] && b[23] == le32(h.uncompressed_size)[1]
        && b[24] == le32(h.uncompressed_size)[2] && b[25] == le32(h.uncompressed_size)[3]);
    crate::le::lemma_r32_le32(s, i + 22, h.uncompressed_size);
    assert(b[26] == le16(h.file_name_length)[0] && b[27] == le16(h.file_name_length)[1]);
    crate::le::lemma_r16_le16(s, i + 26, h.file_name_length);
    assert(b[28] == le16(h.extra_field_length)[0] && b[29] == le16(h.extra_field_length)[1]);
    crate::le::lemma_r16_le16(s, i + 28, h.extra_field_length);
    assert(h.file_name@ =~= s.subrange(i + 30, i + 30 + h.file_name@.len())) by {
        assert forall|k: int| 0 <= k < h.file_name@.len() implies
            s[i + 30 + k] == h.file_name@[k] by {
            assert(b[30 + k] == h.file_name@[k]);
            assert(s[i + (30 + k)] == b[30 + k]);
        }
    }
    assert(h.extra_field@ =~= s.subrange(i + 30 + h.file_name@.len(),
        i + 30 + h.file_name@.len() + h.extra_field@.len())) by {
        let nl = h.file_name@.len() as int;
        assert forall|k: int| 0 <= k < h.extra_field@.len() implies
            s[i + 30 + nl + k] == h.extra_field@[k] by {
            assert(b[30 + nl + k] == h.extra_field@[k]);
            assert(s[i + (30 + nl + k)] == b[30 + nl + k]);
        }
    }
}

/// The exact byte image of a 32-bit data descriptor, with or without the
/// optional signature prefix.
pub open spec fn spec_dd_bytes(d: DataDescriptor, with_signature: bool) -> Seq<u8> {
    if with_signature {
        le32(DATA_DESCRIPTOR_SIGNATURE) + le32(d.crc32) + le32(d.compressed_size)
            + le32(d.uncompressed_size)
    } else {
        le32(d.crc32) + le32(d.compressed_size) + le32(d.uncompressed_size)
    }
}

/// The exact byte image of a ZIP64 data descriptor (8-byte sizes), with or
/// without the optional signature prefix.
pub open spec fn spec_dd64_bytes(crc32: u32, compressed_size: u64, uncompressed_size: u64,
    with_signature: bool) -> Seq<u8> {
    if with_signature {
        le32(DATA_DESCRIPTOR_SIGNATURE) + le32(crc32) + le64(compressed_size)
            + le64(uncompressed_size)
    } else {
        le32(crc32) + le64(compressed_size) + le64(uncompressed_size)
    }
}

/// Whether the optional data descriptor signature stands at `i`.  Detecting
/// it is a heuristic: a CRC value equal to the signature constant is
/// indistinguishable from a signature prefix.
pub open spec fn spec_dd_has_signature(s: Seq<u8>, i: int) -> bool {
    i + 4 <= s.len() && r32(s, i) == DATA_DESCRIPTOR_SIGNATURE
}

/// The start of the three descriptor fields at `i`: past the optional
/// signature when one is present.
pub open spec fn spec_dd_fields_at(s: Seq<u8>, i: int) -> int {
    if spec_dd_has_signature(s, i) { i + 4 } else { i }
}

/// Decodes the 32-bit data descriptor at `pos`, first attempting to match
/// the optional signature and otherwise reading the three fields directly.
pub fn parse_data_descriptor(buf: &Vec<u8>, pos: usize) -> (r: Result<
    (DataDescriptor, usize),
    ZipError,
>)
    ensures
        match r {
            Ok((d, end)) => {
                &&& spec_dd_fields_at(buf@, pos as int) + 12 <= buf@.len()
                &&& d.crc32 == r32(buf@, spec_dd_fields_at(buf@, pos as int))
                &&& d.compressed_size == r32(buf@, spec_dd_fields_at(buf@, pos as int) + 4)
                &&& d.uncompressed_size == r32(buf@, spec_dd_fields_at(buf@, pos as int) + 8)
                &&& end == spec_dd_fields_at(buf@, pos as int) + 12
            },
            Err(e) => {
                &&& spec_dd_fields_at(buf@, pos as int) + 12 > buf@.len()
                &&& e matches ZipError::Truncated { .. }
            },
        },
{
    let mut at = pos;
    if pos <= buf.len() && buf.len() - pos >= 4 {
        let maybe_sig = match read_u32(buf, pos) {
            Ok(v) => v,
            Err(e) => { return Err(e); },
        };
        if maybe_sig == DATA_DESCRIPTOR_SIGNATURE {
            at = pos + 4;
        }
    }
    let crc32 = match read_u32(buf, at) {
        Ok(v) => v,
        Err(e) => { return Err(e); },
    };
    let compressed_size = match read_u32(buf, at + 4) {
        Ok(v) => v,
        Err(e) => { return Err(e); },
    };
    let uncompressed_size = match read_u32(buf, at + 8) {
        Ok(v) => v,
        Err(e) => { return Err(e); },
    };
    Ok((DataDescriptor { crc32, compressed_size, uncompressed_size }, at + 12))
}

/// Decodes the ZIP64 data descriptor (8-byte sizes) at `pos`, first
/// attempting to match the optional signature.
pub fn parse_data_descriptor64(buf: &Vec<u8>, pos: usize) -> (r: Result<
    (u32, u64, u64, usize),
    ZipError,
>)
    ensures
        match r {
            Ok((crc32, compressed_size, uncompressed_size, end)) => {
                &&& spec_dd_fields_at(buf@, pos as int) + 20 <= buf@.len()
                &&& crc32 == r32(buf@, spec_dd_fields_at(buf@, pos as int))
                &&& compressed_size == r64(buf@, spec_dd_fields_at(buf@, pos as int) + 4)
                &&& uncompressed_size == r64(buf@, spec_dd_fields_at(buf@, pos as int) + 12)
                &&& end == spec_dd_fields_at(buf@, pos as int) + 20
            },
            Err(e) => {
                &&& spec_dd_fields_at(buf@, pos as int) + 20 > buf@.len()
                &&& e matches ZipError::Truncated { .. }
            },
        },
{
    let mut at = pos;
    if pos <= buf.len() && buf.len() - pos >= 4 {
        let maybe_sig = match read_u32(buf, pos) {
            Ok(v) => v,
            Err(e) => { return Err(e); },
        };
        if maybe_sig == DATA_DESCRIPTOR_SIGNATURE {
            at = pos + 4;
        }
    }
    let crc32 = match read_u32(buf, at) {
        Ok(v) => v,
        Err(e) => { return Err(e); },
    };
    let compressed_size = match read_u64(buf, at + 4) {
        Ok(v) => v,
        Err(e) => { return Err(e); },
    };
    let uncompressed_size = match read_u64(buf, at + 12) {
        Ok(v) => v,
        Err(e) => { return Err(e); },
    };
    Ok((crc32, compressed_size, uncompressed_size, at + 20))
}

/// Encodes a 32-bit data descriptor, with or without the optional
/// signature prefix.
pub fn encode_data_descriptor(d: &DataDescriptor, with_signature: bool, out: &mut Vec<u8>)
    ensures
        final(out)@ == old(out)@ + spec_dd_bytes(*d, with_signature),
{
    if with_signature {
        write_u32(out, DATA_DESCRIPTOR_SIGNATURE);
    }
    write_u32(out, d.crc32);
    write_u32(out, d.compressed_size);
    write_u32(out, d.uncompressed_size);
    assert(out@ =~= old(out)@ + spec_dd_bytes(*d, with_signature));
}

/// Encodes a ZIP64 data descriptor (8-byte sizes), with or without the
/// optional signature prefix.
pub fn encode_data_descriptor64(crc32: u32, compressed_size: u64, uncompressed_size: u64,
    with_signature: bool, out: &mut Vec<u8>)
    ensures
        final(out)@ == old(out)@ + spec_dd64_bytes(crc32, compressed_size, uncompressed_size,
            with_signature),
{
    if with_signature {
        write_u32(out, DATA_DESCRIPTOR_SIGNATURE);
    }
    write_u32(out, crc32);
    write_u64(out, compressed_size);
    write_u64(out, uncompressed_size);
    assert(out@ =~= old(out)@ + spec_dd64_bytes(crc32, compressed_size, uncompressed_size,
        with_signature));
}


/// A central directory header is well formed when its explicit length
/// fields agree with its variable-length fields and its version byte pair
/// re-encodes.
pub open spec fn cdh_wf(h: CentralDirectoryHeader) -> bool {
    &&& h.file_name@.len() == h.file_name_length
    &&& h.extra_field@.len() == h.extra_field_length
    &&& h.file_comment@.len() == h.file_comment_length
    &&& h.version_made_by.wf()
}

/// The exact byte image of a central directory header.
pub open spec fn spec_cdh_bytes(h: CentralDirectoryHeader) -> Seq<u8> {
    le32(CENTRAL_DIRECTORY_HEADER_SIGNATURE) + le16(spec_version_made_by_raw(h.version_made_by))
        + le16(h.version_needed_to_extract) + le16(h.general_purpose_bit_flag)
        + le16(h.compression_method) + le16(h.last_mod_file_time) + le16(h.last_mod_file_date)
        + le32(h.crc32) + le32(h.compressed_size) + le32(h.uncompressed_size)
        + le16(h.file_name_length) + le16(h.extra_field_length) + le16(h.file_comment_length)
        + le16(h.disk_number_start) + le16(h.internal_file_attributes)
        + le32(h.external_file_attributes) + le32(h.relative_offset_of_local_header)
        + h.file_name@ + h.extra_field@ + h.file_comment@
}

/// Total length of the central directory header starting at `i`, taken from
/// its three length fields.
pub open spec fn spec_cdh_len(s: Seq<u8>, i: int) -> int {
    46 + r16(s, i + 28) + r16(s, i + 30) + r16(s, i + 32)
}

/// A central directory header decodes successfully at `i`.
pub open spec fn spec_cdh_parses(s: Seq<u8>, i: int) -> bool {
    &&& 0 <= i
    &&& i + 46 <= s.len()
    &&& r32(s, i) == CENTRAL_DIRECTORY_HEADER_SIGNATURE
    &&& i + spec_cdh_len(s, i) <= s.len()
}

/// Field-by-field relation between a decoded central directory header and
/// the bytes it was decoded from.
pub open spec fn spec_cdh_matches(s: Seq<u8>, i: int, h: CentralDirectoryHeader) -> bool {
    &&& h.version_made_by == spec_version_made_by_of_raw(r16(s, i + 4))
    &&& h.version_needed_to_extract == r16(s, i + 6)
    &&& h.general_purpose_bit_flag == r16(s, i + 8)
    &&& h.compression_method == r16(s, i + 10)
    &&& h.last_mod_file_time == r16(s, i + 12)
    &&& h.last_mod_file_date == r16(s, i + 14)
    &&& h.crc32 == r32(s, i + 16)
    &&& h.compressed_size == r32(s, i + 20)
    &&& h.uncompressed_size == r32(s, i + 24)
    &&& h.file_name_length == r16(s, i + 28)
    &&& h.extra_field_length == r16(s, i + 30)
    &&& h.file_comment_length == r16(s, i + 32)
    &&& h.disk_number_start == r16(s, i + 34)
    &&& h.internal_file_attributes == r16(s, i + 36)
    &&& h.external_file_attributes == r32(s, i + 38)
    &&& h.relative_offset_of_local_header == r32(s, i + 42)
    &&& h.file_name@ == s.subrange(i + 46, i + 46 + r16(s, i + 28))
    &&& h.extra_field@ == s.subrange(i + 46 + r16(s, i + 28),
        i + 46 + r16(s, i + 28) + r16(s, i + 30))
    &&& h.file_comment@ == s.subrange(i + 46 + r16(s, i + 28) + r16(s, i + 30),
        i + spec_cdh_len(s, i))
}

/// Decodes the central directory header at `pos`.
pub fn parse_central_directory_header(buf: &Vec<u8>, pos: usize) -> (r: Result<
    (CentralDirectoryHeader, usize),
    ZipError,
>)
    ensures
        match r {
            Ok((h, end)) => {
                &&& spec_cdh_parses(buf@, pos as int)
                &&& spec_cdh_matches(buf@, pos as int, h)
                &&& cdh_wf(h)
                &&& end == pos + spec_cdh_len(buf@, pos as int)
            },
            Err(e) => {
                &&& !spec_cdh_parses(buf@, pos as int)
                &&& if pos + 4 <= buf@.len() && r32(buf@, pos as int)
                    != CENTRAL_DIRECTORY_HEADER_SIGNATURE {
                    e == (ZipError::SignatureMismatch { offset: pos })
                } else {
                    e matches ZipError::Truncated { .. }
                }
            },
        },
{
    let sig = match read_u32(buf, pos) {
        Ok(v) => v,
        Err(e) => { return Err(e); },
    };
    if sig != CENTRAL_DIRECTORY_HEADER_SIGNATURE {
        return Err(ZipError::SignatureMismatch { offset: pos });
    }
    if buf.len() - pos < 46 {
        return Err(ZipError::Truncated { offset: pos });
    }
    let version_made_by_raw = match read_u16(buf, pos + 4) {
        Ok(v) => v,
        Err(e) => { return Err(e); },
    };
    let version_needed_to_extract = match read_u16(buf, pos + 6) {
        Ok(v) => v,
        Err(e) => { return Err(e); },
    };
    let general_purpose_bit_flag = match read_u16(buf, pos + 8) {
        Ok(v) => v,
        Err(e) => { return Err(e); },
    };
    let compression_method = match read_u16(buf, pos + 10) {
        Ok(v) => v,
        Err(e) => { return Err(e); },
    };
    let last_mod_file_time = match read_u16(buf, pos + 12) {
        Ok(v) => v,
        Err(e) => { return Err(e); },
    };
    let last_mod_file_date = match read_u16(buf, pos + 14) {
        Ok(v) => v,
        Err(e) => { return Err(e); },
    };
    let crc32 = match read_u32(buf, pos + 16) {
        Ok(v) => v,
        Err(e) => { return Err(e); },
    };
    let compressed_size = match read_u32(buf, pos + 20) {
        Ok(v) => v,
        Err(e) => { return Err(e); },
    };
    let uncompressed_size = match read_u32(buf, pos + 24) {
        Ok(v) => v,
        Err(e) => { return Err(e); },
    };
    let file_name_length = match read_u16(buf, pos + 28) {
        Ok(v) => v,
        Err(e) => { return Err(e); },
    };
    let extra_field_length = match read_u16(buf, pos + 30) {
        Ok(v) => v,
        Err(e) => { return Err(e); },
    };
    let file_comment_length = match read_u16(buf, pos + 32) {
        Ok(v) => v,
        Err(e) => { return Err(e); },
    };
    let disk_number_start = match read_u16(buf, pos + 34) {
        Ok(v) => v,
        Err(e) => { return Err(e); },
    };
    let internal_file_attributes = match read_u16(buf, pos + 36) {
        Ok(v) => v,
        Err(e) => { return Err(e); },
    };
    let external_file_attributes = match read_u32(buf, pos + 38) {
        Ok(v) => v,
        Err(e) => { return Err(e); },
    };
    let relative_offset_of_local_header = match read_u32(buf, pos + 42) {
        Ok(v) => v,
        Err(e) => { return Err(e); },
    };
    let file_name = match read_bytes(buf, pos + 46, file_name_length as usize) {
        Ok(v) => v,
        Err(e) => { return Err(e); },
    };
    let extra_field = match read_bytes(buf, pos + 46 + file_name_length as usize,
        extra_field_length as usize) {
        Ok(v) => v,
        Err(e) => { return Err(e); },
    };
    let file_comment = match read_bytes(buf,
        pos + 46 + file_name_length as usize + extra_field_length as usize,
        file_comment_length as usize) {
        Ok(v) => v,
        Err(e) => { return Err(e); },
    };
    let end = pos + 46 + file_name_length as usize + extra_field_length as usize
        + file_comment_length as usize;
    Ok((
        CentralDirectoryHeader {
            version_made_by: VersionMadeBy::from_raw(version_made_by_raw),
            version_needed_to_extract,
            general_purpose_bit_flag,
            compression_method,
            last_mod_file_time,
            last_mod_file_date,
            crc32,
            compressed_size,
            uncompressed_size,
            file_name_length,
            extra_field_length,
            file_comment_length,
            disk_number_start,
            internal_file_attributes,
            external_file_attributes,
            relative_offset_of_local_header,
            file_name,
            extra_field,
            file_comment,
        },
        end,
    ))
}

/// Encodes a central directory header, appending exactly its byte image.
pub fn encode_central_directory_header(h: &CentralDirectoryHeader, out: &mut Vec<u8>)
    requires
        cdh_wf(*h),
    ensures
        final(out)@ == old(out)@ + spec_cdh_bytes(*h),
{
    write_u32(out, CENTRAL_DIRECTORY_HEADER_SIGNATURE);
    write_u16(out, h.version_made_by.to_raw());
    write_u16(out, h.version_needed_to_extract);
    write_u16(out, h.general_purpose_bit_flag);
    write_u16(out, h.compression_method);
    write_u16(out, h.last_mod_file_time);
    write_u16(out, h.last_mod_file_date);
    write_u32(out, h.crc32);
    write_u32(out, h.compressed_size);
    write_u32(out, h.uncompressed_size);
    write_u16(out, h.file_name_length);
    write_u16(out, h.extra_field_length);
    write_u16(out, h.file_comment_length);
    write_u16(out, h.disk_number_start);
    write_u16(out, h.internal_file_attributes);
    write_u32(out, h.external_file_attributes);
    write_u32(out, h.relative_offset_of_local_header);
    write_bytes(out, &h.file_name);
    write_bytes(out, &h.extra_field);
    write_bytes(out, &h.file_comment);
    assert(out@ =~= old(out)@ + spec_cdh_bytes(*h));
}

/// Decoding the byte image of a well-formed central directory header
/// recovers the header.
#[verifier::rlimit(100)]
#[verifier::spinoff_prover]
pub proof fn lemma_cdh_round_trip(s: Seq<u8>, i: int, h: CentralDirectoryHeader)
    requires
        cdh_wf(h),
        0 <= i,
        i + spec_cdh_bytes(h).len() <= s.len(),
        s.subrange(i, i + spec_cdh_bytes(h).len()) == spec_cdh_bytes(h),
    ensures
        spec_cdh_bytes(h).len() == 46 + h.file_name@.len() + h.extra_field@.len()
            + h.file_comment@.len(),
        spec_cdh_len(s, i) == spec_cdh_bytes(h).len(),
        spec_cdh_parses(s, i),
        spec_cdh_matches(s, i, h),
{
    let b = spec_cdh_bytes(h);
    assert forall|k: int| 0 <= k < b.len() implies s[i + k] == #[trigger] b[k] by {
        assert(s.subrange(i, i + b.len())[k] == s[i + k]);
    }
    assert(s[i] == b[0]) by {
        assert(s.subrange(i, i + b.len())[0] == s[i]);
    }
    let vmb = spec_version_made_by_raw(h.version_made_by);
    assert(b[0] == le32(CENTRAL_DIRECTORY_HEADER_SIGNATURE)[0]
        && b[1] == le32(CENTRAL_DIRECTORY_HEADER_SIGNATURE)[1]
        && b[2] == le32(CENTRAL_DIRECTORY_HEADER_SIGNATURE)[2]
        && b[3] == le32(CENTRAL_DIRECTORY_HEADER_SIGNATURE)[3]);
    crate::le::lemma_r32_le32(s, i, CENTRAL_DIRECTORY_HEADER_SIGNATURE);
    assert(b[4] == le16(vmb)[0] && b[5] == le16(vmb)[1]);
    crate::le::lemma_r16_le16(s, i + 4, vmb);
    lemma_version_made_by_round_trip(h.version_made_by);
    assert(b[6] == le16(h.version_needed_to_extract)[0]
        && b[7] == le16(h.version_needed_to_extract)[1]);
    crate::le::lemma_r16_le16(s, i + 6, h.version_needed_to_extract);
    assert(b[8] == le16(h.general_purpose_bit_flag)[0]
        && b[9] == le16(h.general_purpose_bit_flag)[1]);
    crate::le::lemma_r16_le16(s, i + 8, h.general_purpose_bit_flag);
    assert(b[10] == le16(h.compression_method)[0] && b[11] == le16(h.compression_method)[1]);
    crate::le::lemma_r16_le16(s, i + 10, h.compression_method);
    assert(b[12] == le16(h.last_mod_file_time)[0] && b[13] == le16(h.last_mod_file_time)[1]);
    crate::le::lemma_r16_le16(s, i + 12, h.last_mod_file_time);
    assert(b[14] == le16(h.last_mod_file_date)[0] && b[15] == le16(h.last_mod_file_date)[1]);
    crate::le::lemma_r16_le16(s, i + 14, h.last_mod_file_date);
    assert(b[16] == le32(h.crc32)[0] && b[17] == le32(h.crc32)[1]
        && b[18] == le32(h.crc32)[2] && b[19] == le32(h.crc32)[3]);
    crate::le::lemma_r32_le32(s, i + 16, h.crc32);
    assert(b[20] == le32(h.compressed_size)[0] && b[21] == le32(h.compressed_size)[1]
        && b[22] == le32(h.compressed_size)[2] && b[23] == le32(h.compressed_size)[3]);
    crate::le::lemma_r32_le32(s, i + 20, h.compressed_size);
    assert(b[24] == le32(h.uncompressed_size)[0] && b[25] == le32(h.uncompressed_size)[1]
        && b[26] == le32(h.uncompressed_size)[2] && b[27] == le32(h.uncompressed_size)[3]);
    crate::le::lemma_r32_le32(s, i + 24, h.uncompressed_size);
    assert(b[28] == le16(h.file_name_length)[0] && b[29] == le16(h.file_name_length)[1]);
    crate::le::lemma_r16_le16(s, i + 28, h.file_name_length);
    assert(b[30] == le16(h.extra_field_length)[0] && b[31] == le16(h.extra_field_length)[1]);
    crate::le::lemma_r16_le16(s, i + 30, h.extra_field_length);
    assert(b[32] == le16(h.file_comment_length)[0] && b[33] == le16(h.file_comment_length)[1]);
    crate::le::lemma_r16_le16(s, i + 32, h.file_comment_length);
    assert(b[34] == le16(h.disk_number_start)[0] && b[35] == le16(h.disk_number_start)[1]);
    crate::le::lemma_r16_le16(s, i + 34, h.disk_number_start);
    assert(b[36] == le16(h.internal_file_attributes)[0]
        && b[37] == le16(h.internal_file_attributes)[1]);
    crate::le::lemma_r16_le16(s, i + 36, h.internal_file_attributes);
    assert(b[38] == le32(h.external_file_attributes)[0]
        && b[39] == le32(h.external_file_attributes)[1]
        && b[40] == le32(h.external_file_attributes)[2]
        && b[41] == le32(h.external_file_attributes)[3]);
    crate::le::lemma_r32_le32(s, i + 38, h.external_file_attributes);
    assert(b[42] == le32(h.relative_offset_of_local_header)[0]
        && b[43] == le32(h.relative_offset_of_local_header)[1]
        && b[44] == le32(h.relative_offset_of_local_header)[2]
        && b[45] == le32(h.relative_offset_of_local_header)[3]);
    crate::le::lemma_r32_le32(s, i + 42, h.relative_offset_of_local_header);
    let nl = h.file_name@.len() as int;
    let el = h.extra_field@.len() as int;
    let cl = h.file_comment@.len() as int;
    assert(h.file_name@ =~= s.subrange(i + 46, i + 46 + nl)) by {
        assert forall|k: int| 0 <= k < nl implies s[i + 46 + k] == h.file_name@[k] by {
            assert(b[46 + k] == h.file_name@[k]);
            assert(s[i + (46 + k)] == b[46 + k]);
        }
    }
    assert(h.extra_field@ =~= s.subrange(i + 46 + nl, i + 46 + nl + el)) by {
        assert forall|k: int| 0 <= k < el implies s[i + 46 + nl + k] == h.extra_field@[k] by {
            assert(b[46 + nl + k] == h.extra_field@[k]);
            assert(s[i + (46 + nl + k)] == b[46 + nl + k]);
        }
    }
    assert(h.file_comment@ =~= s.subrange(i + 46 + nl + el, i + 46 + nl + el + cl)) by {
        assert forall|k: int| 0 <= k < cl implies s[i + 46 + nl + el + k] == h.file_comment@[k] by {
            assert(b[46 + nl + el + k] == h.file_comment@[k]);
            assert(s[i + (46 + nl + el + k)] == b[46 + nl + el + k]);
        }
    }
}

/// An end-of-central-directory record is well formed when its comment
/// length field agrees with the comment.
pub open spec fn eocd_wf(e: EndOfCentralDirectoryRecord) -> bool {
    e.zip_file_comment@.len() == e.zip_file_comment_length
}

/// The exact byte image of an end-of-central-directory record.
pub open spec fn spec_eocd_bytes(e: EndOfCentralDirectoryRecord) -> Seq<u8> {
    le32(END_OF_CENTRAL_DIRECTORY_SIGNATURE) + le16(e.number_of_this_disk)
        + le16(e.number_of_the_disk_with_the_start_of_the_central_directory)
        + le16(e.total_number_of_entries_in_the_central_directory_on_this_disk)
        + le16(e.total_number_of_entries_in_the_central_directory)
        + le32(e.size_of_the_central_directory)
        + le32(e.offset_of_start_of_central_directory_with_respect_to_the_starting_disk_number)
        + le16(e.zip_file_comment_length) + e.zip_file_comment@
}

/// An end-of-central-directory record decodes successfully at `i`: the
/// fixed part fits, the signature matches, and the declared comment fits.
pub open spec fn spec_eocd_parses(s: Seq<u8>, i: int) -> bool {
    &&& 0 <= i
    &&& i + 22 <= s.len()
    &&& r32(s, i) == END_OF_CENTRAL_DIRECTORY_SIGNATURE
    &&& i + 22 + r16(s, i + 20) <= s.len()
}

/// Field-by-field relation between a decoded end-of-central-directory
/// record and the bytes it was decoded from.
pub open spec fn spec_eocd_matches(s: Seq<u8>, i: int, e: EndOfCentralDirectoryRecord) -> bool {
    &&& e.number_of_this_disk == r16(s, i + 4)
    &&& e.number_of_the_disk_with_the_start_of_the_central_directory == r16(s, i + 6)
    &&& e.total_number_of_entries_in_the_central_directory_on_this_disk == r16(s, i + 8)
    &&& e.total_number_of_entries_in_the_central_directory == r16(s, i + 10)
    &&& e.size_of_the_central_directory == r32(s, i + 12)
    &&& e.offset_of_start_of_central_directory_with_respect_to_the_starting_disk_number
        == r32(s, i + 16)
    &&& e.zip_file_comment_length == r16(s, i + 20)
    &&& e.zip_file_comment@ == s.subrange(i + 22, i + 22 + r16(s, i + 20))
}

/// Decodes the end-of-central-directory record at `pos`.
pub fn parse_end_of_central_directory(buf: &Vec<u8>, pos: usize) -> (r: Result<
    (EndOfCentralDirectoryRecord, usize),
    ZipError,
>)
    ensures
        match r {
            Ok((e, end)) => {
                &&& spec_eocd_parses(buf@, pos as int)
                &&& spec_eocd_matches(buf@, pos as int, e)
                &&& eocd_wf(e)
                &&& end == pos + 22 + r16(buf@, pos as int + 20)
            },
            Err(e) => {
                &&& !spec_eocd_parses(buf@, pos as int)
                &&& if pos + 4 <= buf@.len() && r32(buf@, pos as int)
                    != END_OF_CENTRAL_DIRECTORY_SIGNATURE {
                    e == (ZipError::SignatureMismatch { offset: pos })
                } else {
                    e matches ZipError::Truncated { .. }
                }
            },
        },
{
    let sig = match read_u32(buf, pos) {
        Ok(v) => v,
        Err(e) => { return Err(e); },
    };
    if sig != END_OF_CENTRAL_DIRECTORY_SIGNATURE {
        return Err(ZipError::SignatureMismatch { offset: pos });
    }
    if buf.len() - pos < 22 {
        return Err(ZipError::Truncated { offset: pos });
    }
    let number_of_this_disk = match read_u16(buf, pos + 4) {
        Ok(v) => v,
        Err(e) => { return Err(e); },
    };
    let cd_disk = match read_u16(buf, pos + 6) {
        Ok(v) => v,
        Err(e) => { return Err(e); },
    };
    let entries_this_disk = match read_u16(buf, pos + 8) {
        Ok(v) => v,
        Err(e) => { return Err(e); },
    };
    let entries_total = match read_u16(buf, pos + 10) {
        Ok(v) => v,
        Err(e) => { return Err(e); },
    };
    let size_of_the_central_directory = match read_u32(buf, pos + 12) {
        Ok(v) => v,
        Err(e) => { return Err(e); },
    };
    let cd_offset = match read_u32(buf, pos + 16) {
        Ok(v) => v,
        Err(e) => { return Err(e); },
    };
    let zip_file_comment_length = match read_u16(buf, pos + 20) {
        Ok(v) => v,
        Err(e) => { return Err(e); },
    };
    let zip_file_comment = match read_bytes(buf, pos + 22, zip_file_comment_length as usize) {
        Ok(v) => v,
        Err(e) => { return Err(e); },
    };
    let end = pos + 22 + zip_file_comment_length as usize;
    Ok((
        EndOfCentralDirectoryRecord {
            number_of_this_disk,
            number_of_the_disk_with_the_start_of_the_central_directory: cd_disk,
            total_number_of_entries_in_the_central_directory_on_this_disk: entries_this_disk,
            total_number_of_entries_in_the_central_directory: entries_total,
            size_of_the_central_directory,
            offset_of_start_of_central_directory_with_respect_to_the_starting_disk_number:
                cd_offset,
            zip_file_comment_length,
            zip_file_comment,
        },
        end,
    ))
}

/// Encodes an end-of-central-directory record, appending exactly its byte
/// image.
pub fn encode_end_of_central_directory(e: &EndOfCentralDirectoryRecord, out: &mut Vec<u8>)
    requires
        eocd_wf(*e),
    ensures
        final(out)@ == old(out)@ + spec_eocd_bytes(*e),
{
    write_u32(out, END_OF_CENTRAL_DIRECTORY_SIGNATURE);
    write_u16(out, e.number_of_this_disk);
    write_u16(out, e.number_of_the_disk_with_the_start_of_the_central_directory);
    write_u16(out, e.total_number_of_entries_in_the_central_directory_on_this_disk);
    write_u16(out, e.total_number_of_entries_in_the_central_directory);
    write_u32(out, e.size_of_the_central_directory);
    write_u32(out, e.offset_of_start_of_central_directory_with_respect_to_the_starting_disk_number);
    write_u16(out, e.zip_file_comment_length);
    write_bytes(out, &e.zip_file_comment);
    assert(out@ =~= old(out)@ + spec_eocd_bytes(*e));
}

/// Decoding the byte image of a well-formed end-of-central-directory
/// record recovers the record.
pub proof fn lemma_eocd_round_trip(s: Seq<u8>, i: int, e: EndOfCentralDirectoryRecord)
    requires
        eocd_wf(e),
        0 <= i,
        i + spec_eocd_bytes(e).len() <= s.len(),
        s.subrange(i, i + spec_eocd_bytes(e).len()) == spec_eocd_bytes(e),
    ensures
        spec_eocd_bytes(e).len() == 22 + e.zip_file_comment@.len(),
        spec_eocd_parses(s, i),
        spec_eocd_matches(s, i, e),
{
    let b = spec_eocd_bytes(e);
    assert forall|k: int| 0 <= k < b.len() implies s[i + k] == #[trigger] b[k] by {
        assert(s.subrange(i, i + b.len())[k] == s[i + k]);
    }
    assert(s[i] == b[0]) by {
        assert(s.subrange(i, i + b.len())[0] == s[i]);
    }
    assert(b[0] == le32(END_OF_CENTRAL_DIRECTORY_SIGNATURE)[0]
        && b[1] == le32(END_OF_CENTRAL_DIRECTORY_SIGNATURE)[1]
        && b[2] == le32(END_OF_CENTRAL_DIRECTORY_SIGNATURE)[2]
        && b[3] == le32(END_OF_CENTRAL_DIRECTORY_SIGNATURE)[3]);
    crate::le::lemma_r32_le32(s, i, END_OF_CENTRAL_DIRECTORY_SIGNATURE);
    assert(b[4] == le16(e.number_of_this_disk)[0] && b[5] == le16(e.number_of_this_disk)[1]);
    crate::le::lemma_r16_le16(s, i + 4, e.number_of_this_disk);
    assert(b[6] == le16(e.number_of_the_disk_with_the_start_of_the_central_directory)[0]
        && b[7] == le16(e.number_of_the_disk_with_the_start_of_the_central_directory)[1]);
    crate::le::lemma_r16_le16(s, i + 6,
        e.number_of_the_disk_with_the_start_of_the_central_directory);
    assert(b[8] == le16(e.total_number_of_entries_in_the_central_directory_on_this_disk)[0]
        && b[9] == le16(e.total_number_of_entries_in_the_central_directory_on_this_disk)[1]);
    crate::le::lemma_r16_le16(s, i + 8,
        e.total_number_of_entries_in_the_central_directory_on_this_disk);
    assert(b[10] == le16(e.total_number_of_entries_in_the_central_directory)[0]
        && b[11] == le16(e.total_number_of_entries_in_the_central_directory)[1]);
    crate::le::lemma_r16_le16(s, i + 10, e.total_number_of_entries_in_the_central_directory);
    assert(b[12] == le32(e.size_of_the_central_directory)[0]
        && b[13] == le32(e.size_of_the_central_directory)[1]
        && b[14] == le32(e.size_of_the_central_directory)[2]
        && b[15] == le32(e.size_of_the_central_directory)[3]);
    crate::le::lemma_r32_le32(s, i + 12, e.size_of_the_central_directory);
    assert(b[16]
        == le32(e.offset_of_start_of_central_directory_with_respect_to_the_starting_disk_number)[0]
        && b[17]
        == le32(e.offset_of_start_of_central_directory_with_respect_to_the_starting_disk_number)[1]
        && b[18]
        == le32(e.offset_of_start_of_central_directory_with_respect_to_the_starting_disk_number)[2]
        && b[19]
        == le32(
            e.offset_of_start_of_central_directory_with_respect_to_the_starting_disk_number)[3]);
    crate::le::lemma_r32_le32(s, i + 16,
        e.offset_of_start_of_central_directory_with_respect_to_the_starting_disk_number);
    assert(b[20] == le16(e.zip_file_comment_length)[0]
        && b[21] == le16(e.zip_file_comment_length)[1]);
    crate::le::lemma_r16_le16(s, i + 20, e.zip_file_comment_length);
    let cl = e.zip_file_comment@.len() as int;
    assert(e.zip_file_comment@ =~= s.subrange(i + 22, i + 22 + cl)) by {
        assert forall|k: int| 0 <= k < cl implies s[i + 22 + k] == e.zip_file_comment@[k] by {
            assert(b[22 + k] == e.zip_file_comment@[k]);
            assert(s[i + (22 + k)] == b[22 + k]);
        }
    }
}


/// The exact byte image of a ZIP64 end-of-central-directory locator.
pub open spec fn spec_z64_locator_bytes(l: Zip64EndOfCentralDirectoryLocator) -> Seq<u8> {
    le32(ZIP64_LOCATOR_SIGNATURE)
        + le32(l.number_of_the_disk_with_the_start_of_the_zip64_end_of_central_directory)
        + le64(l.relative_offset_of_the_zip64_end_of_central_directory_record)
        + le32(l.total_number_of_disks)
}

/// A ZIP64 locator decodes successfully at `i`.
pub open spec fn spec_z64_locator_parses(s: Seq<u8>, i: int) -> bool {
    &&& 0 <= i
    &&& i + 20 <= s.len()
    &&& r32(s, i) == ZIP64_LOCATOR_SIGNATURE
}

/// Field-by-field relation between a decoded ZIP64 locator and the bytes it
/// was decoded from.
pub open spec fn spec_z64_locator_matches(s: Seq<u8>, i: int,
    l: Zip64EndOfCentralDirectoryLocator) -> bool {
    &&& l.number_of_the_disk_with_the_start_of_the_zip64_end_of_central_directory == r32(s, i + 4)
    &&& l.relative_offset_of_the_zip64_end_of_central_directory_record == r64(s, i + 8)
    &&& l.total_number_of_disks == r32(s, i + 16)
}

/// Decodes the ZIP64 end-of-central-directory locator at `pos`.
pub fn parse_zip64_locator(buf: &Vec<u8>, pos: usize) -> (r: Result<
    (Zip64EndOfCentralDirectoryLocator, usize),
    ZipError,
>)
    ensures
        match r {
            Ok((l, end)) => {
                &&& spec_z64_locator_parses(buf@, pos as int)
                &&& spec_z64_locator_matches(buf@, pos as int, l)
                &&& end == pos + 20
            },
            Err(e) => {
                &&& !spec_z64_locator_parses(buf@, pos as int)
                &&& if pos + 4 <= buf@.len() && r32(buf@, pos as int) != ZIP64_LOCATOR_SIGNATURE {
                    e == (ZipError::SignatureMismatch { offset: pos })
                } else {
                    e matches ZipError::Truncated { .. }
                }
            },
        },
{
    let sig = match read_u32(buf, pos) {
        Ok(v) => v,
        Err(e) => { return Err(e); },
    };
    if sig != ZIP64_LOCATOR_SIGNATURE {
        return Err(ZipError::SignatureMismatch { offset: pos });
    }
    if buf.len() - pos < 20 {
        return Err(ZipError::Truncated { offset: pos });
    }
    let disk = match read_u32(buf, pos + 4) {
        Ok(v) => v,
        Err(e) => { return Err(e); },
    };
    let offset = match read_u64(buf, pos + 8) {
        Ok(v) => v,
        Err(e) => { return Err(e); },
    };
    let total_disks = match read_u32(buf, pos + 16) {
        Ok(v) => v,
        Err(e) => { return Err(e); },
    };
    Ok((
        Zip64EndOfCentralDirectoryLocator {
            number_of_the_disk_with_the_start_of_the_zip64_end_of_central_directory: disk,
            relative_offset_of_the_zip64_end_of_central_directory_record: offset,
            total_number_of_disks: total_disks,
        },
        pos + 20,
    ))
}

/// Encodes a ZIP64 locator, appending exactly its byte image.
pub fn encode_zip64_locator(l: &Zip64EndOfCentralDirectoryLocator, out: &mut Vec<u8>)
    ensures
        final(out)@ == old(out)@ + spec_z64_locator_bytes(*l),
{
    write_u32(out, ZIP64_LOCATOR_SIGNATURE);
    write_u32(out, l.number_of_the_disk_with_the_start_of_the_zip64_end_of_central_directory);
    write_u64(out, l.relative_offset_of_the_zip64_end_of_central_directory_record);
    write_u32(out, l.total_number_of_disks);
    assert(out@ =~= old(out)@ + spec_z64_locator_bytes(*l));
}

/// Decoding the byte image of a ZIP64 locator recovers the locator.
pub proof fn lemma_z64_locator_round_trip(s: Seq<u8>, i: int, l: Zip64EndOfCentralDirectoryLocator)
    requires
        0 <= i,
        i + 20 <= s.len(),
        s.subrange(i, i + 20) == spec_z64_locator_bytes(l),
    ensures
        spec_z64_locator_bytes(l).len() == 20,
        spec_z64_locator_parses(s, i),
        spec_z64_locator_matches(s, i, l),
{
    let b = spec_z64_locator_bytes(l);
    assert forall|k: int| 0 <= k < 20 implies s[i + k] == #[trigger] b[k] by {
        assert(s.subrange(i, i + 20)[k] == s[i + k]);
    }
    assert(s[i] == b[0]) by {
        assert(s.subrange(i, i + 20)[0] == s[i]);
    }
    assert(b[0] == le32(ZIP64_LOCATOR_SIGNATURE)[0] && b[1] == le32(ZIP64_LOCATOR_SIGNATURE)[1]
        && b[2] == le32(ZIP64_LOCATOR_SIGNATURE)[2] && b[3] == le32(ZIP64_LOCATOR_SIGNATURE)[3]);
    crate::le::lemma_r32_le32(s, i, ZIP64_LOCATOR_SIGNATURE);
    let d = l.number_of_the_disk_with_the_start_of_the_zip64_end_of_central_directory;
    assert(b[4] == le32(d)[0] && b[5] == le32(d)[1] && b[6] == le32(d)[2] && b[7] == le32(d)[3]);
    crate::le::lemma_r32_le32(s, i + 4, d);
    let o = l.relative_offset_of_the_zip64_end_of_central_directory_record;
    assert(b[8] == le64(o)[0] && b[9] == le64(o)[1] && b[10] == le64(o)[2] && b[11] == le64(o)[3]
        && b[12] == le64(o)[4] && b[13] == le64(o)[5] && b[14] == le64(o)[6]
        && b[15] == le64(o)[7]);
    crate::le::lemma_r64_le64(s, i + 8, o);
    let t = l.total_number_of_disks;
    assert(b[16] == le32(t)[0] && b[17] == le32(t)[1] && b[18] == le32(t)[2]
        && b[19] == le32(t)[3]);
    crate::le::lemma_r32_le32(s, i + 16, t);
}

/// The exact byte image of one extensible data sector block.
pub open spec fn spec_ext_block_bytes(b: Zip64ExtensibleDataSector) -> Seq<u8> {
    le16(b.header_id) + le32(b.data_size) + b.data@
}

/// The exact byte image of a sequence of extensible data sector blocks.
pub open spec fn spec_ext_blocks_bytes(blocks: Seq<Zip64ExtensibleDataSector>) -> Seq<u8>
    decreases blocks.len(),
{
    if blocks.len() == 0 {
        Seq::empty()
    } else {
        spec_ext_block_bytes(blocks[0]) + spec_ext_blocks_bytes(blocks.drop_first())
    }
}

/// Appending a block appends its byte image.
pub proof fn lemma_ext_blocks_bytes_push(blocks: Seq<Zip64ExtensibleDataSector>,
    b: Zip64ExtensibleDataSector)
    ensures
        spec_ext_blocks_bytes(blocks.push(b)) == spec_ext_blocks_bytes(blocks)
            + spec_ext_block_bytes(b),
    decreases blocks.len(),
{
    if blocks.len() == 0 {
        assert(blocks.push(b)[0] == b);
        assert(blocks.push(b).drop_first() =~= Seq::<Zip64ExtensibleDataSector>::empty());
        assert(spec_ext_blocks_bytes(blocks.push(b)) == spec_ext_block_bytes(b)
            + spec_ext_blocks_bytes(Seq::<Zip64ExtensibleDataSector>::empty()));
        assert(spec_ext_blocks_bytes(Seq::<Zip64ExtensibleDataSector>::empty())
            == Seq::<u8>::empty());
        assert(spec_ext_blocks_bytes(blocks) == Seq::<u8>::empty());
        assert(spec_ext_blocks_bytes(blocks.push(b)) =~= spec_ext_blocks_bytes(blocks)
            + spec_ext_block_bytes(b));
    } else {
        assert(blocks.push(b).drop_first() =~= blocks.drop_first().push(b));
        lemma_ext_blocks_bytes_push(blocks.drop_first(), b);
        assert(blocks.push(b)[0] == blocks[0]);
        assert(spec_ext_blocks_bytes(blocks.push(b)) == spec_ext_block_bytes(blocks[0])
            + spec_ext_blocks_bytes(blocks.drop_first().push(b)));
        assert(spec_ext_blocks_bytes(blocks) == spec_ext_block_bytes(blocks[0])
            + spec_ext_blocks_bytes(blocks.drop_first()));
        assert(spec_ext_blocks_bytes(blocks.push(b)) =~= spec_ext_blocks_bytes(blocks)
            + spec_ext_block_bytes(b));
    }
}

/// A ZIP64 end-of-central-directory record is well formed when its size
/// field counts the 44 fixed bytes after it plus the extensible sector.
pub open spec fn z64_wf(z: Zip64EndOfCentralDirectoryRecord) -> bool {
    &&& z.version_made_by.wf()
    &&& z.size_of_end_of_central_directory_record
        == 44 + spec_ext_blocks_bytes(z.zip64_extensible_data_sector@).len()
}

/// The exact byte image of a ZIP64 end-of-central-directory record.
pub open spec fn spec_z64_bytes(z: Zip64EndOfCentralDirectoryRecord) -> Seq<u8> {
    le32(ZIP64_END_OF_CENTRAL_DIRECTORY_SIGNATURE)
        + le64(z.size_of_end_of_central_directory_record)
        + le16(spec_version_made_by_raw(z.version_made_by)) + le16(z.version_needed_to_extract)
        + le32(z.number_of_this_disk)
        + le32(z.number_of_the_disk_with_the_start_of_the_central_directory)
        + le64(z.total_number_of_entries_in_the_central_directory_on_this_disk)
        + le64(z.total_number_of_entries_in_the_central_directory)
        + le64(z.size_of_the_central_directory)
        + le64(z.offset_of_start_of_central_directory_with_respect_to_the_starting_disk_number)
        + spec_ext_blocks_bytes(z.zip64_extensible_data_sector@)
}

/// The extensible data sector region `[i, end)` splits exactly into
/// (header id, data size, data) blocks.
pub open spec fn spec_ext_region_parses(s: Seq<u8>, i: int, end: int) -> bool
    decreases end - i,
{
    if i >= end {
        true
    } else if end - i < 6 {
        false
    } else if r32(s, i + 2) > end - i - 6 {
        false
    } else {
        spec_ext_region_parses(s, i + 6 + r32(s, i + 2), end)
    }
}

/// A ZIP64 end-of-central-directory record decodes successfully at `i`:
/// the fixed part fits, the signature matches, and the declared size fits.
pub open spec fn spec_z64_parses(s: Seq<u8>, i: int) -> bool {
    &&& 0 <= i
    &&& i + 56 <= s.len()
    &&& r32(s, i) == ZIP64_END_OF_CENTRAL_DIRECTORY_SIGNATURE
    &&& r64(s, i + 4) >= 44
    &&& i + 12 + r64(s, i + 4) <= s.len()
}

/// The whole ZIP64 end-of-central-directory record decodes at `i`: the
/// fixed part and the extensible data sector blocks behind it.
pub open spec fn spec_z64_full_parses(s: Seq<u8>, i: int) -> bool {
    spec_z64_parses(s, i) && spec_ext_region_parses(s, i + 56, i + 12 + r64(s, i + 4))
}

/// Field-by-field relation between a decoded ZIP64 end-of-central-directory
/// record and the bytes it was decoded from.  The extensible data sector
/// blocks re-encode to exactly the declared trailing region.
pub open spec fn spec_z64_matches(s: Seq<u8>, i: int, z: Zip64EndOfCentralDirectoryRecord) -> bool {
    &&& z.size_of_end_of_central_directory_record == r64(s, i + 4)
    &&& z.version_made_by == spec_version_made_by_of_raw(r16(s, i + 12))
    &&& z.version_needed_to_extract == r16(s, i + 14)
    &&& z.number_of_this_disk == r32(s, i + 16)
    &&& z.number_of_the_disk_with_the_start_of_the_central_directory == r32(s, i + 20)
    &&& z.total_number_of_entries_in_the_central_directory_on_this_disk == r64(s, i + 24)
    &&& z.total_number_of_entries_in_the_central_directory == r64(s, i + 32)
    &&& z.size_of_the_central_directory == r64(s, i + 40)
    &&& z.offset_of_start_of_central_directory_with_respect_to_the_starting_disk_number
        == r64(s, i + 48)
    &&& spec_ext_blocks_bytes(z.zip64_extensible_data_sector@)
        == s.subrange(i + 56, i + 12 + r64(s, i + 4))
}

/// Decodes the ZIP64 end-of-central-directory record at `pos`.  The
/// extensible data sector is decoded into its (header id, data) blocks;
/// it succeeds exactly when [`spec_z64_full_parses`] holds at `pos`, and
/// a sector whose last block overruns the declared record size fails with
/// `Truncated`.
pub fn parse_zip64_eocd(buf: &Vec<u8>, pos: usize) -> (r: Result<
    (Zip64EndOfCentralDirectoryRecord, usize),
    ZipError,
>)
    ensures
        match r {
            Ok((z, end)) => {
                &&& spec_z64_full_parses(buf@, pos as int)
                &&& spec_z64_matches(buf@, pos as int, z)
                &&& end == pos + 12 + r64(buf@, pos as int + 4)
            },
            Err(e) => {
                &&& !spec_z64_full_parses(buf@, pos as int)
                &&& if pos + 4 <= buf@.len() && r32(buf@, pos as int)
                    != ZIP64_END_OF_CENTRAL_DIRECTORY_SIGNATURE {
                    e == (ZipError::SignatureMismatch { offset: pos })
                } else {
                    e matches ZipError::Truncated { .. }
                }
            },
        },
{
    let sig = match read_u32(buf, pos) {
        Ok(v) => v,
        Err(e) => { return Err(e); },
    };
    if sig != ZIP64_END_OF_CENTRAL_DIRECTORY_SIGNATURE {
        return Err(ZipError::SignatureMismatch { offset: pos });
    }
    if buf.len() - pos < 56 {
        return Err(ZipError::Truncated { offset: pos });
    }
    let size = match read_u64(buf, pos + 4) {
        Ok(v) => v,
        Err(e) => { return Err(e); },
    };
    if size < 44 || size > (buf.len() - pos - 12) as u64 {
        return Err(ZipError::Truncated { offset: pos + 4 });
    }
    let version_made_by_raw = match read_u16(buf, pos + 12) {
        Ok(v) => v,
        Err(e) => { return Err(e); },
    };
    let version_needed_to_extract = match read_u16(buf, pos + 14) {
        Ok(v) => v,
        Err(e) => { return Err(e); },
    };
    let number_of_this_disk = match read_u32(buf, pos + 16) {
        Ok(v) => v,
        Err(e) => { return Err(e); },
    };
    let cd_disk = match read_u32(buf, pos + 20) {
        Ok(v) => v,
        Err(e) => { return Err(e); },
    };
    let entries_this_disk = match read_u64(buf, pos + 24) {
        Ok(v) => v,
        Err(e) => { return Err(e); },
    };
    let entries_total = match read_u64(buf, pos + 32) {
        Ok(v) => v,
        Err(e) => { return Err(e); },
    };
    let cd_size = match read_u64(buf, pos + 40) {
        Ok(v) => v,
        Err(e) => { return Err(e); },
    };
    let cd_offset = match read_u64(buf, pos + 48) {
        Ok(v) => v,
        Err(e) => { return Err(e); },
    };
    let end = pos + 12 + size as usize;
    let mut cur = pos + 56;
    let mut blocks: Vec<Zip64ExtensibleDataSector> = Vec::new();
    while cur < end
        invariant
            pos + 56 <= cur <= end,
            end <= buf@.len(),
            end == pos + 12 + r64(buf@, pos as int + 4),
            pos + 4 <= buf@.len(),
            r32(buf@, pos as int) == ZIP64_END_OF_CENTRAL_DIRECTORY_SIGNATURE,
            spec_z64_parses(buf@, pos as int),
            spec_ext_region_parses(buf@, pos + 56, end as int)
                == spec_ext_region_parses(buf@, cur as int, end as int),
            spec_ext_blocks_bytes(blocks@) == buf@.subrange(pos + 56, cur as int),
        decreases end - cur,
    {
        if end - cur < 6 {
            return Err(ZipError::Truncated { offset: cur });
        }
        let header_id = match read_u16(buf, cur) {
            Ok(v) => v,
            Err(e) => { return Err(e); },
        };
        let data_size = match read_u32(buf, cur + 2) {
            Ok(v) => v,
            Err(e) => { return Err(e); },
        };
        if data_size as u64 > (end - cur - 6) as u64 {
            return Err(ZipError::Truncated { offset: cur + 2 });
        }
        let data = match read_bytes(buf, cur + 6, data_size as usize) {
            Ok(v) => v,
            Err(e) => { return Err(e); },
        };
        let block = Zip64ExtensibleDataSector { header_id, data_size, data };
        let next = cur + 6 + data_size as usize;
        proof {
            lemma_ext_blocks_bytes_push(blocks@, block);
            crate::le::lemma_le16_r16(buf@, cur as int);
            crate::le::lemma_le32_r32(buf@, cur as int + 2);
            assert(spec_ext_block_bytes(block) =~= buf@.subrange(cur as int, next as int));
            assert(buf@.subrange(pos + 56, next as int) =~= buf@.subrange(pos + 56, cur as int)
                + buf@.subrange(cur as int, next as int));
        }
        blocks.push(block);
        cur = next;
    }
    Ok((
        Zip64EndOfCentralDirectoryRecord {
            size_of_end_of_central_directory_record: size,
            version_made_by: VersionMadeBy::from_raw(version_made_by_raw),
            version_needed_to_extract,
            number_of_this_disk,
            number_of_the_disk_with_the_start_of_the_central_directory: cd_disk,
            total_number_of_entries_in_the_central_directory_on_this_disk: entries_this_disk,
            total_number_of_entries_in_the_central_directory: entries_total,
            size_of_the_central_directory: cd_size,
            offset_of_start_of_central_directory_with_respect_to_the_starting_disk_number:
                cd_offset,
            zip64_extensible_data_sector: blocks,
        },
        end,
    ))
}

/// Encodes a ZIP64 end-of-central-directory record, appending exactly its
/// byte image.
pub fn encode_zip64_eocd(z: &Zip64EndOfCentralDirectoryRecord, out: &mut Vec<u8>)
    requires
        z64_wf(*z),
        forall|k: int| 0 <= k < z.zip64_extensible_data_sector@.len()
            ==> (#[trigger] z.zip64_extensible_data_sector@[k]).data@.len()
                == z.zip64_extensible_data_sector@[k].data_size,
    ensures
        final(out)@ == old(out)@ + spec_z64_bytes(*z),
{
    write_u32(out, ZIP64_END_OF_CENTRAL_DIRECTORY_SIGNATURE);
    write_u64(out, z.size_of_end_of_central_directory_record);
    write_u16(out, z.version_made_by.to_raw());
    write_u16(out, z.version_needed_to_extract);
    write_u32(out, z.number_of_this_disk);
    write_u32(out, z.number_of_the_disk_with_the_start_of_the_central_directory);
    write_u64(out, z.total_number_of_entries_in_the_central_directory_on_this_disk);
    write_u64(out, z.total_number_of_entries_in_the_central_directory);
    write_u64(out, z.size_of_the_central_directory);
    write_u64(out, z.offset_of_start_of_central_directory_with_respect_to_the_starting_disk_number);
    let ghost fixed: Seq<u8> = out@;
    let mut k: usize = 0;
    while k < z.zip64_extensible_data_sector.len()
        invariant
            k <= z.zip64_extensible_data_sector@.len(),
            out@ == fixed + spec_ext_blocks_bytes(z.zip64_extensible_data_sector@.take(k as int)),
        decreases z.zip64_extensible_data_sector@.len() - k,
    {
        let block = &z.zip64_extensible_data_sector[k];
        write_u16(out, block.header_id);
        write_u32(out, block.data_size);
        write_bytes(out, &block.data);
        proof {
            lemma_ext_blocks_bytes_push(z.zip64_extensible_data_sector@.take(k as int),
                z.zip64_extensible_data_sector@[k as int]);
            assert(z.zip64_extensible_data_sector@.take(k + 1)
                =~= z.zip64_extensible_data_sector@.take(k as int).push(
                z.zip64_extensible_data_sector@[k as int]));
        }
        k = k + 1;
        assert(out@ =~= fixed + spec_ext_blocks_bytes(
            z.zip64_extensible_data_sector@.take(k as int)));
    }
    proof {
        assert(z.zip64_extensible_data_sector@.take(z.zip64_extensible_data_sector@.len() as int)
            =~= z.zip64_extensible_data_sector@);
    }
    assert(out@ =~= old(out)@ + spec_z64_bytes(*z));
}

/// Decoding the byte image of a well-formed ZIP64 end-of-central-directory
/// record with an empty extensible data sector recovers the record.
#[verifier::rlimit(100)]
#[verifier::spinoff_prover]
pub proof fn lemma_z64_round_trip(s: Seq<u8>, i: int, z: Zip64EndOfCentralDirectoryRecord)
    requires
        z64_wf(z),
        z.zip64_extensible_data_sector@.len() == 0,
        0 <= i,
        i + 56 <= s.len(),
        s.subrange(i, i + 56) == spec_z64_bytes(z),
    ensures
        spec_z64_bytes(z).len() == 56,
        spec_z64_parses(s, i),
        spec_z64_matches(s, i, z),
{
    let b = spec_z64_bytes(z);
    assert(b.len() == 56);
    assert forall|k: int| 0 <= k < 56 implies s[i + k] == #[trigger] b[k] by {
        assert(s.subrange(i, i + 56)[k] == s[i + k]);
    }
    assert(s[i] == b[0]) by {
        assert(s.subrange(i, i + 56)[0] == s[i]);
    }
    assert(b[0] == le32(ZIP64_END_OF_CENTRAL_DIRECTORY_SIGNATURE)[0]
        && b[1] == le32(ZIP64_END_OF_CENTRAL_DIRECTORY_SIGNATURE)[1]
        && b[2] == le32(ZIP64_END_OF_CENTRAL_DIRECTORY_SIGNATURE)[2]
        && b[3] == le32(ZIP64_END_OF_CENTRAL_DIRECTORY_SIGNATURE)[3]);
    crate::le::lemma_r32_le32(s, i, ZIP64_END_OF_CENTRAL_DIRECTORY_SIGNATURE);
    let sz = z.size_of_end_of_central_directory_record;
    assert(b[4] == le64(sz)[0] && b[5] == le64(sz)[1] && b[6] == le64(sz)[2]
        && b[7] == le64(sz)[3] && b[8] == le64(sz)[4] && b[9] == le64(sz)[5]
        && b[10] == le64(sz)[6] && b[11] == le64(sz)[7]);
    crate::le::lemma_r64_le64(s, i + 4, sz);
    let vmb = spec_version_made_by_raw(z.version_made_by);
    assert(b[12] == le16(vmb)[0] && b[13] == le16(vmb)[1]);
    crate::le::lemma_r16_le16(s, i + 12, vmb);
    lemma_version_made_by_round_trip(z.version_made_by);
    assert(b[14] == le16(z.version_needed_to_extract)[0]
        && b[15] == le16(z.version_needed_to_extract)[1]);
    crate::le::lemma_r16_le16(s, i + 14, z.version_needed_to_extract);
    assert(b[16] == le32(z.number_of_this_disk)[0] && b[17] == le32(z.number_of_this_disk)[1]
        && b[18] == le32(z.number_of_this_disk)[2] && b[19] == le32(z.number_of_this_disk)[3]);
    crate::le::lemma_r32_le32(s, i + 16, z.number_of_this_disk);
    let cdd = z.number_of_the_disk_with_the_start_of_the_central_directory;
    assert(b[20] == le32(cdd)[0] && b[21] == le32(cdd)[1] && b[22] == le32(cdd)[2]
        && b[23] == le32(cdd)[3]);
    crate::le::lemma_r32_le32(s, i + 20, cdd);
    let etd = z.total_number_of_entries_in_the_central_directory_on_this_disk;
    assert(b[24] == le64(etd)[0] && b[25] == le64(etd)[1] && b[26] == le64(etd)[2]
        && b[27] == le64(etd)[3] && b[28] == le64(etd)[4] && b[29] == le64(etd)[5]
        && b[30] == le64(etd)[6] && b[31] == le64(etd)[7]);
    crate::le::lemma_r64_le64(s, i + 24, etd);
    let et = z.total_number_of_entries_in_the_central_directory;
    assert(b[32] == le64(et)[0] && b[33] == le64(et)[1] && b[34] == le64(et)[2]
        && b[35] == le64(et)[3] && b[36] == le64(et)[4] && b[37] == le64(et)[5]
        && b[38] == le64(et)[6] && b[39] == le64(et)[7]);
    crate::le::lemma_r64_le64(s, i + 32, et);
    let cs = z.size_of_the_central_directory;
    assert(b[40] == le64(cs)[0] && b[41] == le64(cs)[1] && b[42] == le64(cs)[2]
        && b[43] == le64(cs)[3] && b[44] == le64(cs)[4] && b[45] == le64(cs)[5]
        && b[46] == le64(cs)[6] && b[47] == le64(cs)[7]);
    crate::le::lemma_r64_le64(s, i + 40, cs);
    let co = z.offset_of_start_of_central_directory_with_respect_to_the_starting_disk_number;
    assert(b[48] == le64(co)[0] && b[49] == le64(co)[1] && b[50] == le64(co)[2]
        && b[51] == le64(co)[3] && b[52] == le64(co)[4] && b[53] == le64(co)[5]
        && b[54] == le64(co)[6] && b[55] == le64(co)[7]);
    crate::le::lemma_r64_le64(s, i + 48, co);
    assert(spec_ext_blocks_bytes(z.zip64_extensible_data_sector@)
        =~= s.subrange(i + 56, i + 56));
}


/// The exact byte image of the central directory digital signature
/// record.
pub open spec fn spec_cdsig_bytes(c: CentralDirectorySignature) -> Seq<u8> {
    le32(CENTRAL_DIRECTORY_SIGNATURE_SIGNATURE) + le16((c.signature_data@.len()) as u16)
        + c.signature_data@
}

/// A central directory digital signature record decodes successfully at
/// `i`: the fixed part fits, the signature matches, and the declared data
/// fits.
pub open spec fn spec_cdsig_parses(s: Seq<u8>, i: int) -> bool {
    &&& 0 <= i
    &&& i + 6 <= s.len()
    &&& r32(s, i) == CENTRAL_DIRECTORY_SIGNATURE_SIGNATURE
    &&& i + 6 + r16(s, i + 4) <= s.len()
}

/// Decodes the central directory digital signature record at `pos`.  It
/// succeeds exactly when [`spec_cdsig_parses`] holds there.
pub fn parse_central_directory_signature(buf: &Vec<u8>, pos: usize) -> (r: Result<
    (CentralDirectorySignature, usize),
    ZipError,
>)
    ensures
        match r {
            Ok((c, end)) => {
                &&& spec_cdsig_parses(buf@, pos as int)
                &&& c.size_of_data == r16(buf@, pos as int + 4)
                &&& c.signature_data@ == buf@.subrange(pos + 6, pos + 6 + r16(buf@,
                    pos as int + 4))
                &&& end == pos + 6 + r16(buf@, pos as int + 4)
            },
            Err(e) => {
                &&& !spec_cdsig_parses(buf@, pos as int)
                &&& if pos + 4 <= buf@.len() && r32(buf@, pos as int)
                    != CENTRAL_DIRECTORY_SIGNATURE_SIGNATURE {
                    e == (ZipError::SignatureMismatch { offset: pos })
                } else {
                    e matches ZipError::Truncated { .. }
                }
            },
        },
{
    let sig = match read_u32(buf, pos) {
        Ok(v) => v,
        Err(e) => { return Err(e); },
    };
    if sig != CENTRAL_DIRECTORY_SIGNATURE_SIGNATURE {
        return Err(ZipError::SignatureMismatch { offset: pos });
    }
    if buf.len() - pos < 6 {
        return Err(ZipError::Truncated { offset: pos });
    }
    let size_of_data = match read_u16(buf, pos + 4) {
        Ok(v) => v,
        Err(e) => { return Err(e); },
    };
    let signature_data = match read_bytes(buf, pos + 6, size_of_data as usize) {
        Ok(v) => v,
        Err(e) => { return Err(e); },
    };
    Ok((CentralDirectorySignature { size_of_data, signature_data }, pos + 6
        + size_of_data as usize))
}

/// Encodes the central directory digital signature record, appending
/// exactly its byte image.
pub fn encode_central_directory_signature(c: &CentralDirectorySignature, out: &mut Vec<u8>)
    requires
        c.signature_data@.len() == c.size_of_data,
    ensures
        final(out)@ == old(out)@ + spec_cdsig_bytes(*c),
{
    write_u32(out, CENTRAL_DIRECTORY_SIGNATURE_SIGNATURE);
    write_u16(out, c.size_of_data);
    write_bytes(out, &c.signature_data);
    assert(out@ =~= old(out)@ + spec_cdsig_bytes(*c));
}

/// The exact byte image of an archive extra data record.
pub open spec fn spec_aed_bytes(a: ArchiveExtraDataRecord) -> Seq<u8> {
    le32(ARCHIVE_EXTRA_DATA_SIGNATURE) + le32((a.extra_field_data@.len()) as u32)
        + a.extra_field_data@
}

/// An archive extra data record decodes successfully at `i`: the fixed
/// part fits, the signature matches, and the declared data fits.
pub open spec fn spec_aed_parses(s: Seq<u8>, i: int) -> bool {
    &&& 0 <= i
    &&& i + 8 <= s.len()
    &&& r32(s, i) == ARCHIVE_EXTRA_DATA_SIGNATURE
    &&& i + 8 + r32(s, i + 4) <= s.len()
}

/// Decodes the archive extra data record at `pos`.  It succeeds exactly
/// when [`spec_aed_parses`] holds there.
pub fn parse_archive_extra_data(buf: &Vec<u8>, pos: usize) -> (r: Result<
    (ArchiveExtraDataRecord, usize),
    ZipError,
>)
    ensures
        match r {
            Ok((a, end)) => {
                &&& spec_aed_parses(buf@, pos as int)
                &&& a.extra_field_length == r32(buf@, pos as int + 4)
                &&& a.extra_field_data@ == buf@.subrange(pos + 8, pos + 8 + r32(buf@,
                    pos as int + 4))
                &&& end == pos + 8 + r32(buf@, pos as int + 4)
            },
            Err(e) => {
                &&& !spec_aed_parses(buf@, pos as int)
                &&& if pos + 4 <= buf@.len() && r32(buf@, pos as int) != ARCHIVE_EXTRA_DATA_SIGNATURE {
                    e == (ZipError::SignatureMismatch { offset: pos })
                } else {
                    e matches ZipError::Truncated { .. }
                }
            },
        },
{
    let sig = match read_u32(buf, pos) {
        Ok(v) => v,
        Err(e) => { return Err(e); },
    };
    if sig != ARCHIVE_EXTRA_DATA_SIGNATURE {
        return Err(ZipError::SignatureMismatch { offset: pos });
    }
    if buf.len() - pos < 8 {
        return Err(ZipError::Truncated { offset: pos });
    }
    let extra_field_length = match read_u32(buf, pos + 4) {
        Ok(v) => v,
        Err(e) => { return Err(e); },
    };
    if extra_field_length as u64 > usize::MAX as u64 {
        return Err(ZipError::Truncated { offset: pos + 4 });
    }
    let extra_field_data = match read_bytes(buf, pos + 8, extra_field_length as usize) {
        Ok(v) => v,
        Err(e) => { return Err(e); },
    };
    Ok((ArchiveExtraDataRecord { extra_field_length, extra_field_data }, pos + 8
        + extra_field_length as usize))
}

/// Encodes an archive extra data record, appending exactly its byte
/// image.
pub fn encode_archive_extra_data(a: &ArchiveExtraDataRecord, out: &mut Vec<u8>)
    requires
        a.extra_field_data@.len() == a.extra_field_length,
    ensures
        final(out)@ == old(out)@ + spec_aed_bytes(*a),
{
    write_u32(out, ARCHIVE_EXTRA_DATA_SIGNATURE);
    write_u32(out, a.extra_field_length);
    write_bytes(out, &a.extra_field_data);
    assert(out@ =~= old(out)@ + spec_aed_bytes(*a));
}

} // verus!
