//! Laws relating the writer's byte images to the reader's parsing
//! predicates: what is written is read back exactly.

use vstd::prelude::*;

use crate::codec::{
    cdh_wf, eocd_wf, lfh_wf, spec_cdh_bytes, spec_cdh_len, spec_dd64_bytes, spec_dd_bytes,
    spec_dd_fields_at, spec_eocd_bytes, spec_eocd_matches, spec_eocd_parses, spec_lfh_bytes,
    spec_lfh_len, spec_lfh_parses, lemma_cdh_round_trip, lemma_eocd_round_trip,
    lemma_lfh_round_trip,
};
use crate::archive::{spec_cd_chain, spec_eocd_needs_zip64};
use crate::crc::spec_crc32;
use crate::le::{le32, le64, r32, r64};
use crate::records::{
    CentralDirectoryHeader, DATA_DESCRIPTOR_SIGNATURE, DataDescriptor,
    EndOfCentralDirectoryRecord, LocalFileHeader, SENTINEL16, SENTINEL32,
};
use crate::zip64::spec_z64_needed_len;

verus! {

/// A written 32-bit data descriptor is read back exactly, whether or not
/// its optional signature was written.  Without the signature, a CRC
/// value equal to the signature constant is indistinguishable from a
/// signature prefix, so that one value is excluded.
pub proof fn lemma_dd_round_trip(s: Seq<u8>, i: int, d: DataDescriptor, with_signature: bool)
    requires
        0 <= i,
        i + spec_dd_bytes(d, with_signature).len() <= s.len(),
        s.subrange(i, i + spec_dd_bytes(d, with_signature).len()) == spec_dd_bytes(d,
            with_signature),
        !with_signature ==> d.crc32 != DATA_DESCRIPTOR_SIGNATURE,
    ensures
        spec_dd_fields_at(s, i) == i + (if with_signature { 4int } else { 0int }),
        spec_dd_fields_at(s, i) + 12 <= s.len(),
        r32(s, spec_dd_fields_at(s, i)) == d.crc32,
        r32(s, spec_dd_fields_at(s, i) + 4) == d.compressed_size,
        r32(s, spec_dd_fields_at(s, i) + 8) == d.uncompressed_size,
{
    let b = spec_dd_bytes(d, with_signature);
    assert forall|k: int| 0 <= k < b.len() implies s[i + k] == #[trigger] b[k] by {
        assert(s.subrange(i, i + b.len())[k] == s[i + k]);
    }
    assert(s[i] == b[0]) by {
        assert(s.subrange(i, i + b.len())[0] == s[i]);
    }
    if with_signature {
        assert(b[0] == le32(DATA_DESCRIPTOR_SIGNATURE)[0]
            && b[1] == le32(DATA_DESCRIPTOR_SIGNATURE)[1]
            && b[2] == le32(DATA_DESCRIPTOR_SIGNATURE)[2]
            && b[3] == le32(DATA_DESCRIPTOR_SIGNATURE)[3]);
        crate::le::lemma_r32_le32(s, i, DATA_DESCRIPTOR_SIGNATURE);
        assert(b[4] == le32(d.crc32)[0] && b[5] == le32(d.crc32)[1] && b[6] == le32(d.crc32)[2]
            && b[7] == le32(d.crc32)[3]);
        crate::le::lemma_r32_le32(s, i + 4, d.crc32);
        assert(b[8] == le32(d.compressed_size)[0] && b[9] == le32(d.compressed_size)[1]
            && b[10] == le32(d.compressed_size)[2] && b[11] == le32(d.compressed_size)[3]);
        crate::le::lemma_r32_le32(s, i + 8, d.compressed_size);
        assert(b[12] == le32(d.uncompressed_size)[0] && b[13] == le32(d.uncompressed_size)[1]
            && b[14] == le32(d.uncompressed_size)[2] && b[15] == le32(d.uncompressed_size)[3]);
        crate::le::lemma_r32_le32(s, i + 12, d.uncompressed_size);
    } else {
        assert(b[0] == le32(d.crc32)[0] && b[1] == le32(d.crc32)[1] && b[2] == le32(d.crc32)[2]
            && b[3] == le32(d.crc32)[3]);
        crate::le::lemma_r32_le32(s, i, d.crc32);
        assert(b[4] == le32(d.compressed_size)[0] && b[5] == le32(d.compressed_size)[1]
            && b[6] == le32(d.compressed_size)[2] && b[7] == le32(d.compressed_size)[3]);
        crate::le::lemma_r32_le32(s, i + 4, d.compressed_size);
        assert(b[8] == le32(d.uncompressed_size)[0] && b[9] == le32(d.uncompressed_size)[1]
            && b[10] == le32(d.uncompressed_size)[2] && b[11] == le32(d.uncompressed_size)[3]);
        crate::le::lemma_r32_le32(s, i + 8, d.uncompressed_size);
    }
}

/// A written ZIP64 data descriptor (8-byte sizes) is read back exactly,
/// whether or not its optional signature was written.
pub proof fn lemma_dd64_round_trip(s: Seq<u8>, i: int, crc: u32, csize: u64, usz: u64,
    with_signature: bool)
    requires
        0 <= i,
        i + spec_dd64_bytes(crc, csize, usz, with_signature).len() <= s.len(),
        s.subrange(i, i + spec_dd64_bytes(crc, csize, usz, with_signature).len())
            == spec_dd64_bytes(crc, csize, usz, with_signature),
        !with_signature ==> crc != DATA_DESCRIPTOR_SIGNATURE,
    ensures
        spec_dd_fields_at(s, i) == i + (if with_signature { 4int } else { 0int }),
        spec_dd_fields_at(s, i) + 20 <= s.len(),
        r32(s, spec_dd_fields_at(s, i)) == crc,
        r64(s, spec_dd_fields_at(s, i) + 4) == csize,
        r64(s, spec_dd_fields_at(s, i) + 12) == usz,
{
    let b = spec_dd64_bytes(crc, csize, usz, with_signature);
    assert forall|k: int| 0 <= k < b.len() implies s[i + k] == #[trigger] b[k] by {
        assert(s.subrange(i, i + b.len())[k] == s[i + k]);
    }
    assert(s[i] == b[0]) by {
        assert(s.subrange(i, i + b.len())[0] == s[i]);
    }
    let base = if with_signature { 4int } else { 0int };
    if with_signature {
        assert(b[0] == le32(DATA_DESCRIPTOR_SIGNATURE)[0]
            && b[1] == le32(DATA_DESCRIPTOR_SIGNATURE)[1]
            && b[2] == le32(DATA_DESCRIPTOR_SIGNATURE)[2]
            && b[3] == le32(DATA_DESCRIPTOR_SIGNATURE)[3]);
        crate::le::lemma_r32_le32(s, i, DATA_DESCRIPTOR_SIGNATURE);
    }
    assert(b[base] == le32(crc)[0] && b[base + 1] == le32(crc)[1] && b[base + 2] == le32(crc)[2]
        && b[base + 3] == le32(crc)[3]);
    crate::le::lemma_r32_le32(s, i + base, crc);
    assert(b[base + 4] == le64(csize)[0] && b[base + 5] == le64(csize)[1]
        && b[base + 6] == le64(csize)[2] && b[base + 7] == le64(csize)[3]
        && b[base + 8] == le64(csize)[4] && b[base + 9] == le64(csize)[5]
        && b[base + 10] == le64(csize)[6] && b[base + 11] == le64(csize)[7]);
    crate::le::lemma_r64_le64(s, i + base + 4, csize);
    assert(b[base + 12] == le64(usz)[0] && b[base + 13] == le64(usz)[1]
        && b[base + 14] == le64(usz)[2] && b[base + 15] == le64(usz)[3]
        && b[base + 16] == le64(usz)[4] && b[base + 17] == le64(usz)[5]
        && b[base + 18] == le64(usz)[6] && b[base + 19] == le64(usz)[7]);
    crate::le::lemma_r64_le64(s, i + base + 12, usz);
}

/// Round-trip law for an archive holding one entry written with its sizes
/// known up front: in the written image, the end-of-central-directory
/// record is the only valid match of the backward scan and decodes back
/// to `e`; the central directory decodes to exactly the written header
/// `c` with no ZIP64 overrides pending; the local file header decodes
/// back to `l`; and the payload bytes behind it are exactly `data`, whose
/// CRC-32 matches the recorded value.
#[verifier::rlimit(100)]
#[verifier::spinoff_prover]
pub proof fn lemma_single_entry_archive_round_trip(s: Seq<u8>, l: LocalFileHeader,
    data: Seq<u8>, c: CentralDirectoryHeader, e: EndOfCentralDirectoryRecord)
    requires
        lfh_wf(l),
        cdh_wf(c),
        eocd_wf(e),
        s == spec_lfh_bytes(l) + data + spec_cdh_bytes(c) + spec_eocd_bytes(e),
        e.zip_file_comment@.len() == 0,
        c.relative_offset_of_local_header == 0,
        c.compressed_size == data.len(),
        c.compressed_size < SENTINEL32,
        c.uncompressed_size < SENTINEL32,
        c.disk_number_start != SENTINEL16,
        c.crc32 == spec_crc32(data),
        e.total_number_of_entries_in_the_central_directory == 1,
        e.total_number_of_entries_in_the_central_directory_on_this_disk == 1,
        e.total_number_of_entries_in_the_central_directory_on_this_disk != SENTINEL16,
        e.size_of_the_central_directory == spec_cdh_bytes(c).len(),
        e.size_of_the_central_directory != SENTINEL32,
        e.offset_of_start_of_central_directory_with_respect_to_the_starting_disk_number
            == spec_lfh_bytes(l).len() + data.len(),
        e.offset_of_start_of_central_directory_with_respect_to_the_starting_disk_number
            != SENTINEL32,
    ensures
        s.len() == spec_lfh_bytes(l).len() + data.len() + spec_cdh_bytes(c).len() + 22,
        spec_eocd_parses(s, s.len() - 22),
        spec_eocd_matches(s, s.len() - 22, e),
        !spec_eocd_needs_zip64(e),
        spec_cd_chain(s,
            e.offset_of_start_of_central_directory_with_respect_to_the_starting_disk_number
                as int, seq![c]),
        spec_z64_needed_len(c) == 0,
        spec_lfh_parses(s, 0),
        spec_lfh_len(s, 0) == spec_lfh_bytes(l).len(),
        s.subrange(spec_lfh_bytes(l).len() as int,
            spec_lfh_bytes(l).len() + data.len() as int) == data,
        spec_crc32(s.subrange(spec_lfh_bytes(l).len() as int,
            spec_lfh_bytes(l).len() + data.len() as int)) == c.crc32,
    {
    let lb = spec_lfh_bytes(l);
    let cb = spec_cdh_bytes(c);
    let eb = spec_eocd_bytes(e);
    let dl = data.len() as int;
    let ll = lb.len() as int;
    let cl = cb.len() as int;
    assert(eb.len() == 22);
    assert(s.len() == ll + dl + cl + 22);
    let cd_off = ll + dl;
    let eocd_off = cd_off + cl;
    assert(s.subrange(0, ll) =~= lb) by {
        assert forall|k: int| 0 <= k < ll implies s.subrange(0, ll)[k] == lb[k] by {
            assert(s[k] == lb[k]);
        }
    }
    lemma_lfh_round_trip(s, 0, l);
    assert(s.subrange(ll, ll + dl) =~= data) by {
        assert forall|k: int| 0 <= k < dl implies s.subrange(ll, ll + dl)[k] == data[k] by {
            assert(s[ll + k] == data[k]);
        }
    }
    assert(s.subrange(cd_off, cd_off + cl) =~= cb) by {
        assert forall|k: int| 0 <= k < cl implies s.subrange(cd_off, cd_off + cl)[k] == cb[k]
            by {
            assert(s[cd_off + k] == cb[k]);
        }
    }
    lemma_cdh_round_trip(s, cd_off, c);
    assert(s.subrange(eocd_off, eocd_off + 22) =~= eb) by {
        assert forall|k: int| 0 <= k < 22 implies s.subrange(eocd_off, eocd_off + 22)[k]
            == eb[k] by {
            assert(s[eocd_off + k] == eb[k]);
        }
    }
    lemma_eocd_round_trip(s, eocd_off, e);
    assert(spec_cd_chain(s, cd_off, seq![c])) by {
        assert(seq![c][0] == c);
        assert(seq![c].drop_first() =~= Seq::<CentralDirectoryHeader>::empty());
        assert(spec_cd_chain(s, cd_off + spec_cdh_len(s, cd_off),
            Seq::<CentralDirectoryHeader>::empty()));
    }
}

} // verus!
