//! Archive writer: local file headers, payload bytes, data descriptors,
//! and on finalize the central directory with its end records.
//!
//! Per entry the writer moves through header-written and payload-written
//! states.  If CRC and sizes are known before the payload, the local
//! header carries the real values and bit 3 is clear; otherwise the
//! header holds zeros with bit 3 set and a data descriptor follows the
//! payload.  On finalize, any field exceeding its 16/32-bit capacity is
//! written as the sentinel, with the true value carried by a ZIP64 extra
//! field or end-of-central-directory record.

use vstd::prelude::*;

use crate::codec::{
    cdh_wf, encode_central_directory_header, encode_data_descriptor, encode_data_descriptor64,
    encode_end_of_central_directory, encode_local_file_header, encode_zip64_eocd,
    encode_zip64_locator, eocd_wf, spec_cdh_bytes, spec_dd64_bytes, spec_dd_bytes,
    spec_eocd_bytes, spec_lfh_bytes_parts, spec_z64_bytes, spec_z64_locator_bytes, z64_wf,
};
use crate::le::le16;
use crate::records::{
    AttributeCompatibility, CentralDirectoryHeader, DataDescriptor,
    EndOfCentralDirectoryRecord, FLAG_DATA_DESCRIPTOR, LocalFileHeader, SENTINEL32,
    VersionMadeBy, Zip64EndOfCentralDirectoryLocator, Zip64EndOfCentralDirectoryRecord,
    ZipSpecificationVersion, ZIP64_EXTRA_FIELD_ID,
};
use crate::zip64::{build_zip64_extra, spec_z64_extra_payload};

verus! {

/// A 64-bit value squeezed into 16 bits: the sentinel when it cannot fit.
pub open spec fn spec_clamp16(v: u64) -> u16 {
    if v >= 0xffff {
        0xffffu16
    } else {
        v as u16
    }
}

/// A 64-bit value squeezed into 32 bits: the sentinel when it cannot fit.
pub open spec fn spec_clamp32(v: u64) -> u32 {
    if v >= 0xffffffff {
        0xffffffffu32
    } else {
        v as u32
    }
}

/// Squeezes a count into a 16-bit field, yielding the sentinel on
/// overflow.
pub fn clamp16(v: u64) -> (r: u16)
    ensures
        r == spec_clamp16(v),
{
    if v >= 0xffff {
        0xffff
    } else {
        v as u16
    }
}

/// Squeezes a value into a 32-bit field, yielding the sentinel on
/// overflow.
pub fn clamp32(v: u64) -> (r: u32)
    ensures
        r == spec_clamp32(v),
{
    if v >= 0xffffffff {
        0xffffffff
    } else {
        v as u32
    }
}

/// The concatenated byte images of a run of central directory headers.
pub open spec fn spec_cdhs_bytes(hs: Seq<CentralDirectoryHeader>) -> Seq<u8>
    decreases hs.len(),
{
    if hs.len() == 0 {
        Seq::empty()
    } else {
        spec_cdh_bytes(hs[0]) + spec_cdhs_bytes(hs.drop_first())
    }
}

/// Appending a header appends its byte image.
pub proof fn lemma_cdhs_bytes_push(hs: Seq<CentralDirectoryHeader>, h: CentralDirectoryHeader)
    ensures
        spec_cdhs_bytes(hs.push(h)) == spec_cdhs_bytes(hs) + spec_cdh_bytes(h),
    decreases hs.len(),
{
    if hs.len() == 0 {
        assert(hs.push(h)[0] == h);
        assert(hs.push(h).drop_first() =~= Seq::<CentralDirectoryHeader>::empty());
        assert(spec_cdhs_bytes(hs.push(h)) == spec_cdh_bytes(h)
            + spec_cdhs_bytes(Seq::<CentralDirectoryHeader>::empty()));
        assert(spec_cdhs_bytes(Seq::<CentralDirectoryHeader>::empty()) == Seq::<u8>::empty());
        assert(spec_cdhs_bytes(hs) == Seq::<u8>::empty());
        assert(spec_cdhs_bytes(hs.push(h)) =~= spec_cdhs_bytes(hs) + spec_cdh_bytes(h));
    } else {
        assert(hs.push(h).drop_first() =~= hs.drop_first().push(h));
        lemma_cdhs_bytes_push(hs.drop_first(), h);
        assert(hs.push(h)[0] == hs[0]);
        assert(spec_cdhs_bytes(hs.push(h)) == spec_cdh_bytes(hs[0])
            + spec_cdhs_bytes(hs.drop_first().push(h)));
        assert(spec_cdhs_bytes(hs) == spec_cdh_bytes(hs[0])
            + spec_cdhs_bytes(hs.drop_first()));
        assert(spec_cdhs_bytes(hs.push(h)) =~= spec_cdhs_bytes(hs) + spec_cdh_bytes(h));
    }
}

/// Copies a byte vector.
fn copy_bytes(v: &Vec<u8>) -> (r: Vec<u8>)
    ensures
        r@ == v@,
{
    let mut r: Vec<u8> = Vec::new();
    crate::le::write_bytes(&mut r, v);
    assert(r@ =~= v@);
    r
}

/// Single-writer, strictly sequential archive writer.  It owns the output
/// buffer exclusively from creation until `finish`.
pub struct ArchiveWriter {
    /// Bytes emitted so far.
    pub out: Vec<u8>,
    /// Central directory headers buffered for the finalize step.
    pub directory: Vec<CentralDirectoryHeader>,
    /// An entry's local header has been written and its payload and
    /// directory header are still owed.
    pub entry_open: bool,
    pub entry_name: Vec<u8>,
    pub entry_flags: u16,
    pub entry_method: u16,
    pub entry_time: u16,
    pub entry_date: u16,
    /// Offset of the open entry's local file header.
    pub entry_offset: u64,
    /// `finish` has run; nothing more may be written.
    pub finalized: bool,
    /// The end-of-central-directory record emitted by `finish`.
    pub end_record: Option<EndOfCentralDirectoryRecord>,
    /// The ZIP64 end-of-central-directory record, when escalation occurred.
    pub zip64_record: Option<Zip64EndOfCentralDirectoryRecord>,
    /// The ZIP64 locator, when escalation occurred.
    pub zip64_locator: Option<Zip64EndOfCentralDirectoryLocator>,
}

impl ArchiveWriter {
    /// Every buffered directory header is well formed, and an open entry's
    /// name fits its 16-bit length field.
    pub open spec fn wf(self) -> bool {
        &&& forall|k: int| 0 <= k < self.directory@.len()
            ==> cdh_wf(#[trigger] self.directory@[k])
        &&& self.entry_open ==> self.entry_name@.len() <= 0xffff
    }

    /// A fresh writer with an empty output stream.
    pub fn new() -> (w: ArchiveWriter)
        ensures
            w.wf(),
            w.out@.len() == 0,
            w.directory@.len() == 0,
            !w.entry_open,
            !w.finalized,
            w.end_record is None,
            w.zip64_record is None,
            w.zip64_locator is None,
    {
        ArchiveWriter {
            out: Vec::new(),
            directory: Vec::new(),
            entry_open: false,
            entry_name: Vec::new(),
            entry_flags: 0,
            entry_method: 0,
            entry_time: 0,
            entry_date: 0,
            entry_offset: 0,
            finalized: false,
            end_record: None,
            zip64_record: None,
            zip64_locator: None,
        }
    }

    /// Starts an entry whose CRC and sizes are known up front: the local
    /// header carries the real values and bit 3 is clear.  A size that
    /// cannot fit 32 bits is written as the sentinel, with the true value
    /// in a ZIP64 extra field on the local header itself, and the
    /// extraction version raised to the ZIP64 feature's minimum.
    pub fn begin_entry_known(&mut self, name: Vec<u8>, method: u16, time: u16, date: u16,
        crc32: u32, compressed_size: u64, uncompressed_size: u64)
        requires
            old(self).wf(),
            !old(self).finalized,
            !old(self).entry_open,
            name@.len() <= 0xffff,
        ensures
            final(self).wf(),
            final(self).out@ == old(self).out@ + spec_lfh_bytes_parts(
                (if compressed_size >= SENTINEL32 || uncompressed_size >= SENTINEL32 { 45u16 }
                    else { 20u16 }),
                0, method, time, date, crc32, spec_clamp32(compressed_size),
                spec_clamp32(uncompressed_size), name@,
                (if compressed_size >= SENTINEL32 || uncompressed_size >= SENTINEL32 {
                    le16(ZIP64_EXTRA_FIELD_ID)
                        + le16((spec_z64_extra_payload(uncompressed_size, compressed_size, 0, 0,
                            uncompressed_size >= SENTINEL32, compressed_size >= SENTINEL32,
                            false, false).len()) as u16)
                        + spec_z64_extra_payload(uncompressed_size, compressed_size, 0, 0,
                            uncompressed_size >= SENTINEL32, compressed_size >= SENTINEL32,
                            false, false)
                } else {
                    Seq::<u8>::empty()
                })),
            final(self).entry_open,
            !final(self).finalized,
            final(self).entry_name@ == name@,
            final(self).entry_flags == 0,
            final(self).entry_method == method,
            final(self).entry_time == time,
            final(self).entry_date == date,
            final(self).entry_offset == old(self).out@.len(),
            final(self).directory@ == old(self).directory@,
            final(self).end_record == old(self).end_record,
    {
        self.entry_offset = self.out.len() as u64;
        self.entry_name = copy_bytes(&name);
        self.entry_flags = 0;
        self.entry_method = method;
        self.entry_time = time;
        self.entry_date = date;
        self.entry_open = true;
        let needs_u = uncompressed_size >= SENTINEL32 as u64;
        let needs_c = compressed_size >= SENTINEL32 as u64;
        let extra: Vec<u8> = if needs_u || needs_c {
            build_zip64_extra(uncompressed_size, compressed_size, 0, 0, needs_u, needs_c,
                false, false)
        } else {
            Vec::new()
        };
        let extraction_version: u16 = if needs_u || needs_c {
            crate::records::Features::ZIP64Format.minimum_supported_version()
        } else {
            20
        };
        let lfh = LocalFileHeader {
            extraction_version,
            general_purpose_bit_flag: 0,
            compression_method: method,
            mod_file_time: time,
            mod_file_date: date,
            crc32,
            compressed_size: clamp32(compressed_size),
            uncompressed_size: clamp32(uncompressed_size),
            file_name_length: name.len() as u16,
            extra_field_length: extra.len() as u16,
            file_name: name,
            extra_field: extra,
        };
        encode_local_file_header(&lfh, &mut self.out);
    }

    /// Starts an entry whose sizes are unknown at write time (streaming
    /// mode): the local header holds zero CRC and sizes with bit 3 set,
    /// and a data descriptor will follow the payload.
    pub fn begin_entry_streamed(&mut self, name: Vec<u8>, method: u16, time: u16, date: u16)
        requires
            old(self).wf(),
            !old(self).finalized,
            !old(self).entry_open,
            name@.len() <= 0xffff,
        ensures
            final(self).wf(),
            final(self).out@ == old(self).out@ + spec_lfh_bytes_parts(20,
                FLAG_DATA_DESCRIPTOR, method, time, date, 0, 0, 0, name@, Seq::<u8>::empty()),
            final(self).entry_open,
            !final(self).finalized,
            final(self).entry_name@ == name@,
            final(self).entry_flags == FLAG_DATA_DESCRIPTOR,
            final(self).entry_method == method,
            final(self).entry_time == time,
            final(self).entry_date == date,
            final(self).entry_offset == old(self).out@.len(),
            final(self).directory@ == old(self).directory@,
            final(self).end_record == old(self).end_record,
    {
        self.entry_offset = self.out.len() as u64;
        self.entry_name = copy_bytes(&name);
        self.entry_flags = FLAG_DATA_DESCRIPTOR;
        self.entry_method = method;
        self.entry_time = time;
        self.entry_date = date;
        self.entry_open = true;
        let lfh = LocalFileHeader {
            extraction_version: 20,
            general_purpose_bit_flag: FLAG_DATA_DESCRIPTOR,
            compression_method: method,
            mod_file_time: time,
            mod_file_date: date,
            crc32: 0,
            compressed_size: 0,
            uncompressed_size: 0,
            file_name_length: name.len() as u16,
            extra_field_length: 0,
            file_name: name,
            extra_field: Vec::new(),
        };
        encode_local_file_header(&lfh, &mut self.out);
    }

    /// Appends caller-supplied encoded payload bytes for the open entry.
    pub fn append_payload(&mut self, data: &Vec<u8>)
        requires
            old(self).wf(),
            old(self).entry_open,
        ensures
            final(self).wf(),
            final(self).out@ == old(self).out@ + data@,
            final(self).directory@ == old(self).directory@,
            final(self).entry_open == old(self).entry_open,
            final(self).entry_name@ == old(self).entry_name@,
            final(self).entry_flags == old(self).entry_flags,
            final(self).entry_method == old(self).entry_method,
            final(self).entry_time == old(self).entry_time,
            final(self).entry_date == old(self).entry_date,
            final(self).entry_offset == old(self).entry_offset,
            final(self).finalized == old(self).finalized,
            final(self).end_record == old(self).end_record,
    {
        crate::le::write_bytes(&mut self.out, data);
    }

    /// Closes the open entry with its final CRC and size triple: writes
    /// the trailing data descriptor when bit 3 is set (8-byte sizes when
    /// a size overflows 32 bits), and buffers the entry's central
    /// directory header, sentinel-promoted with a ZIP64 extra field where
    /// a value cannot fit.
    pub fn end_entry(&mut self, crc32: u32, compressed_size: u64, uncompressed_size: u64)
        requires
            old(self).wf(),
            old(self).entry_open,
        ensures
            final(self).wf(),
            !final(self).entry_open,
            final(self).finalized == old(self).finalized,
            final(self).end_record == old(self).end_record,
            final(self).directory@.len() == old(self).directory@.len() + 1,
            final(self).directory@.subrange(0, old(self).directory@.len() as int)
                == old(self).directory@,
            ({
                let c = final(self).directory@.last();
                &&& cdh_wf(c)
                &&& c.crc32 == crc32
                &&& c.compressed_size == spec_clamp32(compressed_size)
                &&& c.uncompressed_size == spec_clamp32(uncompressed_size)
                &&& c.relative_offset_of_local_header == spec_clamp32(old(self).entry_offset)
                &&& c.disk_number_start == 0
                &&& c.general_purpose_bit_flag == old(self).entry_flags
                &&& c.compression_method == old(self).entry_method
                &&& c.last_mod_file_time == old(self).entry_time
                &&& c.last_mod_file_date == old(self).entry_date
                &&& c.file_name@ == old(self).entry_name@
                &&& c.file_comment@.len() == 0
                &&& c.version_needed_to_extract == (if compressed_size >= SENTINEL32
                    || uncompressed_size >= SENTINEL32 || old(self).entry_offset >= SENTINEL32 {
                    45u16
                } else {
                    20u16
                })
                &&& (compressed_size < SENTINEL32 && uncompressed_size < SENTINEL32
                    && old(self).entry_offset < SENTINEL32 ==> c.extra_field@.len() == 0)
                &&& (compressed_size >= SENTINEL32 || uncompressed_size >= SENTINEL32
                    || old(self).entry_offset >= SENTINEL32 ==> c.extra_field@
                    == le16(ZIP64_EXTRA_FIELD_ID)
                        + le16((spec_z64_extra_payload(uncompressed_size, compressed_size,
                            old(self).entry_offset, 0, uncompressed_size >= SENTINEL32,
                            compressed_size >= SENTINEL32, old(self).entry_offset >= SENTINEL32,
                            false).len()) as u16)
                        + spec_z64_extra_payload(uncompressed_size, compressed_size,
                            old(self).entry_offset, 0, uncompressed_size >= SENTINEL32,
                            compressed_size >= SENTINEL32, old(self).entry_offset >= SENTINEL32,
                            false))
            }),
            final(self).out@ == old(self).out@ + (if old(self).entry_flags
                & FLAG_DATA_DESCRIPTOR != 0 {
                if compressed_size >= SENTINEL32 || uncompressed_size >= SENTINEL32 {
                    spec_dd64_bytes(crc32, compressed_size, uncompressed_size, true)
                } else {
                    spec_dd_bytes((DataDescriptor {
                        crc32,
                        compressed_size: compressed_size as u32,
                        uncompressed_size: uncompressed_size as u32,
                    }), true)
                }
            } else {
                Seq::<u8>::empty()
            }),
    {
        if self.entry_flags & FLAG_DATA_DESCRIPTOR != 0 {
            if compressed_size >= SENTINEL32 as u64 || uncompressed_size >= SENTINEL32 as u64 {
                encode_data_descriptor64(crc32, compressed_size, uncompressed_size, true,
                    &mut self.out);
            } else {
                let d = DataDescriptor {
                    crc32,
                    compressed_size: compressed_size as u32,
                    uncompressed_size: uncompressed_size as u32,
                };
                encode_data_descriptor(&d, true, &mut self.out);
            }
        }
        let needs_u = uncompressed_size >= SENTINEL32 as u64;
        let needs_c = compressed_size >= SENTINEL32 as u64;
        let needs_o = self.entry_offset >= SENTINEL32 as u64;
        let extra: Vec<u8> = if needs_u || needs_c || needs_o {
            build_zip64_extra(uncompressed_size, compressed_size, self.entry_offset, 0,
                needs_u, needs_c, needs_o, false)
        } else {
            Vec::new()
        };
        let name = copy_bytes(&self.entry_name);
        let version_needed_to_extract: u16 = if needs_u || needs_c || needs_o {
            crate::records::Features::ZIP64Format.minimum_supported_version()
        } else {
            20
        };
        let header = CentralDirectoryHeader {
            version_made_by: VersionMadeBy {
                attribute_compatibility: AttributeCompatibility::MSDOS,
                zip_specification_version: ZipSpecificationVersion { major: 2, minor: 0 },
            },
            version_needed_to_extract,
            general_purpose_bit_flag: self.entry_flags,
            compression_method: self.entry_method,
            last_mod_file_time: self.entry_time,
            last_mod_file_date: self.entry_date,
            crc32,
            compressed_size: clamp32(compressed_size),
            uncompressed_size: clamp32(uncompressed_size),
            file_name_length: name.len() as u16,
            extra_field_length: extra.len() as u16,
            file_comment_length: 0,
            disk_number_start: 0,
            internal_file_attributes: 0,
            external_file_attributes: 0,
            relative_offset_of_local_header: clamp32(self.entry_offset),
            file_name: name,
            extra_field: extra,
            file_comment: Vec::new(),
        };
        self.directory.push(header);
        self.entry_open = false;
        proof {
            assert(final(self).directory@.subrange(0, old(self).directory@.len() as int)
                =~= old(self).directory@);
        }
    }

    /// Emits the central directory, the ZIP64 end records if any directory
    /// field overflowed, and the end-of-central-directory record, and
    /// returns the finished archive bytes.
    pub fn finish(&mut self) -> (r: Vec<u8>)
        requires
            old(self).wf(),
            !old(self).finalized,
            !old(self).entry_open,
        ensures
            final(self).finalized,
            final(self).directory@ == old(self).directory@,
            ({
                let n = old(self).directory@.len() as u64;
                let cd_offset = old(self).out@.len() as u64;
                let cd_size = spec_cdhs_bytes(old(self).directory@).len() as u64;
                let needed = n >= 0xffff || cd_size >= 0xffffffff || cd_offset >= 0xffffffff;
                &&& final(self).end_record matches Some(e) && {
                    &&& eocd_wf(e)
                    &&& e.number_of_this_disk == 0
                    &&& e.number_of_the_disk_with_the_start_of_the_central_directory == 0
                    &&& e.total_number_of_entries_in_the_central_directory_on_this_disk
                        == spec_clamp16(n)
                    &&& e.total_number_of_entries_in_the_central_directory == spec_clamp16(n)
                    &&& e.size_of_the_central_directory == spec_clamp32(cd_size)
                    &&& e.offset_of_start_of_central_directory_with_respect_to_the_starting_disk_number
                        == spec_clamp32(cd_offset)
                    &&& e.zip_file_comment@.len() == 0
                }
                &&& (needed <==> final(self).zip64_record is Some)
                &&& (needed <==> final(self).zip64_locator is Some)
                &&& (needed ==> {
                    let z = final(self).zip64_record->0;
                    let l = final(self).zip64_locator->0;
                    &&& z64_wf(z)
                    &&& z.zip64_extensible_data_sector@.len() == 0
                    &&& z.total_number_of_entries_in_the_central_directory_on_this_disk == n
                    &&& z.total_number_of_entries_in_the_central_directory == n
                    &&& z.size_of_the_central_directory == cd_size
                    &&& z.offset_of_start_of_central_directory_with_respect_to_the_starting_disk_number
                        == cd_offset
                    &&& l.relative_offset_of_the_zip64_end_of_central_directory_record
                        == cd_offset + cd_size
                    &&& l.number_of_the_disk_with_the_start_of_the_zip64_end_of_central_directory
                        == 0
                    &&& l.total_number_of_disks == 1
                })
                &&& r@ == old(self).out@ + spec_cdhs_bytes(old(self).directory@) + (if needed {
                    spec_z64_bytes(final(self).zip64_record->0)
                        + spec_z64_locator_bytes(final(self).zip64_locator->0)
                } else {
                    Seq::<u8>::empty()
                }) + spec_eocd_bytes(final(self).end_record->0)
            }),
    {
        let ghost start_bytes: Seq<u8> = self.out@;
        let cd_offset_u64 = self.out.len() as u64;
        let cd_start = self.out.len();
        let mut k: usize = 0;
        while k < self.directory.len()
            invariant
                k <= self.directory@.len(),
                self.wf(),
                self.directory@ == old(self).directory@,
                self.entry_name@ == old(self).entry_name@,
                self.entry_open == old(self).entry_open,
                self.finalized == old(self).finalized,
                self.end_record == old(self).end_record,
                self.zip64_record == old(self).zip64_record,
                self.zip64_locator == old(self).zip64_locator,
                self.out@ == start_bytes + spec_cdhs_bytes(self.directory@.take(k as int)),
            decreases self.directory@.len() - k,
        {
            proof {
                lemma_cdhs_bytes_push(self.directory@.take(k as int),
                    self.directory@[k as int]);
                assert(self.directory@.take(k + 1)
                    =~= self.directory@.take(k as int).push(self.directory@[k as int]));
            }
            let h = &self.directory[k];
            encode_central_directory_header(h, &mut self.out);
            k = k + 1;
        }
        proof {
            assert(self.directory@.take(self.directory@.len() as int) =~= self.directory@);
        }
        let cd_size_u64 = (self.out.len() - cd_start) as u64;
        let n = self.directory.len() as u64;
        let needed = n >= 0xffff || cd_size_u64 >= SENTINEL32 as u64
            || cd_offset_u64 >= SENTINEL32 as u64;
        if needed {
            let z64_offset = self.out.len() as u64;
            let z = Zip64EndOfCentralDirectoryRecord {
                size_of_end_of_central_directory_record: 44,
                version_made_by: VersionMadeBy {
                    attribute_compatibility: AttributeCompatibility::MSDOS,
                    zip_specification_version: ZipSpecificationVersion { major: 4, minor: 5 },
                },
                version_needed_to_extract: 45,
                number_of_this_disk: 0,
                number_of_the_disk_with_the_start_of_the_central_directory: 0,
                total_number_of_entries_in_the_central_directory_on_this_disk: n,
                total_number_of_entries_in_the_central_directory: n,
                size_of_the_central_directory: cd_size_u64,
                offset_of_start_of_central_directory_with_respect_to_the_starting_disk_number:
                    cd_offset_u64,
                zip64_extensible_data_sector: Vec::new(),
            };
            encode_zip64_eocd(&z, &mut self.out);
            let l = Zip64EndOfCentralDirectoryLocator {
                number_of_the_disk_with_the_start_of_the_zip64_end_of_central_directory: 0,
                relative_offset_of_the_zip64_end_of_central_directory_record: z64_offset,
                total_number_of_disks: 1,
            };
            encode_zip64_locator(&l, &mut self.out);
            self.zip64_record = Some(z);
            self.zip64_locator = Some(l);
        } else {
            self.zip64_record = None;
            self.zip64_locator = None;
        }
        let e = EndOfCentralDirectoryRecord {
            number_of_this_disk: 0,
            number_of_the_disk_with_the_start_of_the_central_directory: 0,
            total_number_of_entries_in_the_central_directory_on_this_disk: clamp16(n),
            total_number_of_entries_in_the_central_directory: clamp16(n),
            size_of_the_central_directory: clamp32(cd_size_u64),
            offset_of_start_of_central_directory_with_respect_to_the_starting_disk_number:
                clamp32(cd_offset_u64),
            zip_file_comment_length: 0,
            zip_file_comment: Vec::new(),
        };
        encode_end_of_central_directory(&e, &mut self.out);
        self.end_record = Some(e);
        self.finalized = true;
        proof {
            if needed {
                assert(self.out@ =~= old(self).out@ + spec_cdhs_bytes(old(self).directory@)
                    + (spec_z64_bytes(self.zip64_record->0)
                        + spec_z64_locator_bytes(self.zip64_locator->0))
                    + spec_eocd_bytes(self.end_record->0));
            } else {
                assert(self.out@ =~= old(self).out@ + spec_cdhs_bytes(old(self).directory@)
                    + Seq::<u8>::empty() + spec_eocd_bytes(self.end_record->0));
            }
        }
        copy_bytes(&self.out)
    }
}

} // verus!
