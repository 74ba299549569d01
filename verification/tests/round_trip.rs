use zipstruct::archive::open;
use zipstruct::codec::{encode_end_of_central_directory, parse_local_file_header};
use zipstruct::crc::crc32;
use zipstruct::extract::{extract_stored, read_trailing_descriptor};
use zipstruct::records::{EndOfCentralDirectoryRecord, FLAG_DATA_DESCRIPTOR};
use zipstruct::writer::ArchiveWriter;
use zipstruct::ZipError;

// Round trip: entries written with sizes known up front re-open and
// extract to the original bytes, with every CRC-32 check passing.
#[test]
fn round_trip_two_stored_entries() {
    let data1 = b"hello world".to_vec();
    let data2 = b"the second file, somewhat longer than the first".to_vec();
    let crc1 = crc32(&data1);
    let crc2 = crc32(&data2);
    let mut w = ArchiveWriter::new();
    w.begin_entry_known(b"a.txt".to_vec(), 0, 0x6000, 0x5021, crc1, data1.len() as u64,
        data1.len() as u64);
    w.append_payload(&data1);
    w.end_entry(crc1, data1.len() as u64, data1.len() as u64);
    w.begin_entry_known(b"b.txt".to_vec(), 0, 0x6000, 0x5021, crc2, data2.len() as u64,
        data2.len() as u64);
    w.append_payload(&data2);
    w.end_entry(crc2, data2.len() as u64, data2.len() as u64);
    let bytes = w.finish();

    let archive = open(&bytes).unwrap();
    assert_eq!(archive.total_entries, 2);
    let h1 = &archive.directory.headers[0];
    let h2 = &archive.directory.headers[1];
    assert_eq!(h1.file_name, b"a.txt".to_vec());
    assert_eq!(h2.file_name, b"b.txt".to_vec());
    assert_eq!(h1.crc32, crc1);
    assert_eq!(h2.crc32, crc2);
    assert_eq!(extract_stored(&bytes, h1).unwrap(), data1);
    assert_eq!(extract_stored(&bytes, h2).unwrap(), data2);
}

// Scenario: archive with a single empty file named "empty", uncompressed
// size 0, compression method store (0) - extraction yields zero bytes and
// CRC-32 0x00000000 matches the recorded value.
#[test]
fn empty_stored_entry_extracts_to_nothing() {
    let empty: Vec<u8> = Vec::new();
    let crc = crc32(&empty);
    assert_eq!(crc, 0x00000000);
    let mut w = ArchiveWriter::new();
    w.begin_entry_known(b"empty".to_vec(), 0, 0, 0, crc, 0, 0);
    w.append_payload(&empty);
    w.end_entry(crc, 0, 0);
    let bytes = w.finish();
    let archive = open(&bytes).unwrap();
    assert_eq!(archive.total_entries, 1);
    let h = &archive.directory.headers[0];
    assert_eq!(h.file_name, b"empty".to_vec());
    assert_eq!(h.uncompressed_size, 0);
    assert_eq!(h.compression_method, 0);
    assert_eq!(h.crc32, 0x00000000);
    let out = extract_stored(&bytes, h).unwrap();
    assert_eq!(out.len(), 0);
}

// Scenario: one entry compressed via deflate whose compressed size is
// unknown at write time - after finalize, bit 3 is set on the local
// header, a data descriptor follows the payload, and the central
// directory header carries the correct final sizes and CRC.
#[test]
fn streamed_deflate_entry_uses_data_descriptor() {
    // Stands in for deflate output handed over by an external codec.
    let compressed = vec![0x4b, 0x4c, 0x4a, 0x06, 0x00];
    let uncompressed_len: u64 = 3;
    let crc: u32 = 0x352441c2;
    let mut w = ArchiveWriter::new();
    w.begin_entry_streamed(b"abc.txt".to_vec(), 8, 0, 0);
    w.append_payload(&compressed);
    w.end_entry(crc, compressed.len() as u64, uncompressed_len);
    let bytes = w.finish();

    let archive = open(&bytes).unwrap();
    assert_eq!(archive.total_entries, 1);
    let h = &archive.directory.headers[0];
    assert_eq!(h.general_purpose_bit_flag & FLAG_DATA_DESCRIPTOR, FLAG_DATA_DESCRIPTOR);
    assert_eq!(h.compression_method, 8);
    assert_eq!(h.crc32, crc);
    assert_eq!(h.compressed_size as u64, compressed.len() as u64);
    assert_eq!(h.uncompressed_size as u64, uncompressed_len);

    // The local header holds zeros with bit 3 set.
    let (lfh, lfh_end) = parse_local_file_header(&bytes, 0).unwrap();
    assert_eq!(lfh.general_purpose_bit_flag & FLAG_DATA_DESCRIPTOR, FLAG_DATA_DESCRIPTOR);
    assert_eq!(lfh.crc32, 0);
    assert_eq!(lfh.compressed_size, 0);
    assert_eq!(lfh.uncompressed_size, 0);

    // The trailing data descriptor recovers the true values.
    let payload_end = lfh_end + compressed.len();
    let (dcrc, dcsize, dusz) = read_trailing_descriptor(&bytes, payload_end, false).unwrap();
    assert_eq!(dcrc, crc);
    assert_eq!(dcsize, compressed.len() as u64);
    assert_eq!(dusz, uncompressed_len);
}

// Backward scanning returns the last valid signature match even when the
// archive comment itself contains the 4-byte signature pattern.
#[test]
fn eocd_scan_ignores_signature_inside_comment() {
    let data = b"payload".to_vec();
    let crc = crc32(&data);
    let mut w = ArchiveWriter::new();
    w.begin_entry_known(b"f".to_vec(), 0, 0, 0, crc, data.len() as u64, data.len() as u64);
    w.append_payload(&data);
    w.end_entry(crc, data.len() as u64, data.len() as u64);
    let bytes = w.finish();

    // Rebuild the end record with a comment whose first four bytes are the
    // end-of-central-directory signature pattern.
    let plain_eocd_at = bytes.len() - 22;
    let mut tail = vec![0x50u8, 0x4b, 0x05, 0x06];
    tail.extend(std::iter::repeat(0u8).take(26));
    let mut doctored: Vec<u8> = bytes[..plain_eocd_at].to_vec();
    let eocd = EndOfCentralDirectoryRecord {
        number_of_this_disk: 0,
        number_of_the_disk_with_the_start_of_the_central_directory: 0,
        total_number_of_entries_in_the_central_directory_on_this_disk: 1,
        total_number_of_entries_in_the_central_directory: 1,
        size_of_the_central_directory: 46 + 1,
        offset_of_start_of_central_directory_with_respect_to_the_starting_disk_number:
            (30 + 1 + data.len()) as u32,
        zip_file_comment_length: tail.len() as u16,
        zip_file_comment: tail,
    };
    encode_end_of_central_directory(&eocd, &mut doctored);

    let archive = open(&doctored).unwrap();
    assert_eq!(archive.eocd_offset, plain_eocd_at);
    assert_eq!(archive.total_entries, 1);
    assert_eq!(extract_stored(&doctored, &archive.directory.headers[0]).unwrap(), data);
}

// Opening an archive truncated mid-central-directory fails with
// TruncatedDirectory and yields no partial archive.
#[test]
fn truncated_directory_is_rejected() {
    let data = b"some bytes".to_vec();
    let crc = crc32(&data);
    let mut w = ArchiveWriter::new();
    w.begin_entry_known(b"cut.bin".to_vec(), 0, 0, 0, crc, data.len() as u64,
        data.len() as u64);
    w.append_payload(&data);
    w.end_entry(crc, data.len() as u64, data.len() as u64);
    let bytes = w.finish();

    let cd_offset = 30 + b"cut.bin".len() + data.len();
    // Keep only ten bytes of the central directory, then a fresh end
    // record still claiming one entry.
    let mut truncated: Vec<u8> = bytes[..cd_offset + 10].to_vec();
    let eocd = EndOfCentralDirectoryRecord {
        number_of_this_disk: 0,
        number_of_the_disk_with_the_start_of_the_central_directory: 0,
        total_number_of_entries_in_the_central_directory_on_this_disk: 1,
        total_number_of_entries_in_the_central_directory: 1,
        size_of_the_central_directory: 46 + 7,
        offset_of_start_of_central_directory_with_respect_to_the_starting_disk_number:
            cd_offset as u32,
        zip_file_comment_length: 0,
        zip_file_comment: Vec::new(),
    };
    encode_end_of_central_directory(&eocd, &mut truncated);

    match open(&truncated) {
        Err(ZipError::TruncatedDirectory { .. }) => {},
        other => panic!("expected TruncatedDirectory, got {:?}", other),
    }
}

// A corrupted payload byte is caught by the CRC-32 check.
#[test]
fn corrupted_payload_fails_crc_check() {
    let data = b"important data".to_vec();
    let crc = crc32(&data);
    let mut w = ArchiveWriter::new();
    w.begin_entry_known(b"x".to_vec(), 0, 0, 0, crc, data.len() as u64, data.len() as u64);
    w.append_payload(&data);
    w.end_entry(crc, data.len() as u64, data.len() as u64);
    let mut bytes = w.finish();
    // Flip one payload byte; the payload starts right after the 31-byte
    // local header.
    bytes[31] ^= 0xff;
    let archive = open(&bytes).unwrap();
    match extract_stored(&bytes, &archive.directory.headers[0]) {
        Err(ZipError::CrcMismatch { recorded, computed, .. }) => {
            assert_eq!(recorded, crc);
            assert_ne!(computed, crc);
        },
        other => panic!("expected CrcMismatch, got {:?}", other),
    }
}

// A stream without any end-of-central-directory signature cannot be
// opened.
#[test]
fn missing_end_record_is_reported() {
    let junk = vec![0u8; 64];
    match open(&junk) {
        Err(ZipError::EndRecordNotFound { .. }) => {},
        other => panic!("expected EndRecordNotFound, got {:?}", other),
    }
}

// The explicitly-invoked fallback recovers the entry list from local
// file headers alone, even with the end record destroyed.
#[test]
fn local_header_fallback_scan_recovers_entries() {
    let data = b"fallback payload".to_vec();
    let crc = zipstruct::crc::crc32(&data);
    let mut w = ArchiveWriter::new();
    w.begin_entry_known(b"one".to_vec(), 0, 0, 0, crc, data.len() as u64, data.len() as u64);
    w.append_payload(&data);
    w.end_entry(crc, data.len() as u64, data.len() as u64);
    w.begin_entry_known(b"two".to_vec(), 0, 0, 0, crc, data.len() as u64, data.len() as u64);
    w.append_payload(&data);
    w.end_entry(crc, data.len() as u64, data.len() as u64);
    let bytes = w.finish();

    // Destroy the end record: open must fail, the fallback still works.
    let damaged: Vec<u8> = bytes[..bytes.len() - 22].to_vec();
    assert!(open(&damaged).is_err());
    let found = zipstruct::archive::scan_local_headers(&damaged);
    assert_eq!(found.len(), 2);
    assert_eq!(found[0].0, 0);
    assert_eq!(found[0].1.file_name, b"one".to_vec());
    assert_eq!(found[1].1.file_name, b"two".to_vec());
    assert_eq!(found[1].0, 30 + 3 + data.len());
}

// A known-size entry too large for 32-bit fields gets sentinel values in
// its local header, the true sizes in a ZIP64 extra field on that header,
// and the ZIP64 feature's minimum extraction version.
#[test]
fn oversized_known_entry_escalates_local_header() {
    let big: u64 = 0x1_0000_0040;
    let mut w = ArchiveWriter::new();
    w.begin_entry_known(b"huge".to_vec(), 0, 0, 0, 0x1234, big, big + 5);
    // No payload bytes are appended here: only the header layout matters.
    w.end_entry(0x1234, big, big + 5);
    let bytes = w.finish();

    let (lfh, _) = parse_local_file_header(&bytes, 0).unwrap();
    assert_eq!(lfh.compressed_size, 0xffffffff);
    assert_eq!(lfh.uncompressed_size, 0xffffffff);
    assert_eq!(lfh.extraction_version, 45);
    let block = zipstruct::zip64::find_zip64_block(&lfh.extra_field).unwrap();
    // Canonical order: uncompressed size first, then compressed size.
    assert_eq!(block.len(), 16);
    assert_eq!(u64::from_le_bytes(block[0..8].try_into().unwrap()), big + 5);
    assert_eq!(u64::from_le_bytes(block[8..16].try_into().unwrap()), big);

    let archive = open(&bytes).unwrap();
    let h = &archive.directory.headers[0];
    assert_eq!(h.version_needed_to_extract, 45);
    let f = zipstruct::zip64::resolve_entry_fields(h, 0).unwrap();
    assert_eq!(f.compressed_size, big);
    assert_eq!(f.uncompressed_size, big + 5);
}

// An entry whose method only an external codec can decode is refused by
// the store path.
#[test]
fn non_store_entry_is_refused_with_codec_error() {
    let payload = vec![1u8, 2, 3];
    let mut w = ArchiveWriter::new();
    w.begin_entry_known(b"d".to_vec(), 8, 0, 0, 0x9999, payload.len() as u64,
        payload.len() as u64);
    w.append_payload(&payload);
    w.end_entry(0x9999, payload.len() as u64, payload.len() as u64);
    let bytes = w.finish();
    let archive = open(&bytes).unwrap();
    match extract_stored(&bytes, &archive.directory.headers[0]) {
        Err(ZipError::CodecError { method, .. }) => assert_eq!(method, 8),
        other => panic!("expected CodecError, got {:?}", other),
    }
}

// Sentinel fields in the end record without a preceding ZIP64 locator
// cannot be resolved.
#[test]
fn sentinel_without_locator_is_missing_zip64() {
    let mut bytes: Vec<u8> = Vec::new();
    let eocd = EndOfCentralDirectoryRecord {
        number_of_this_disk: 0,
        number_of_the_disk_with_the_start_of_the_central_directory: 0,
        total_number_of_entries_in_the_central_directory_on_this_disk: 0xffff,
        total_number_of_entries_in_the_central_directory: 0xffff,
        size_of_the_central_directory: 0,
        offset_of_start_of_central_directory_with_respect_to_the_starting_disk_number: 0,
        zip_file_comment_length: 0,
        zip_file_comment: Vec::new(),
    };
    encode_end_of_central_directory(&eocd, &mut bytes);
    match open(&bytes) {
        Err(ZipError::Zip64LocatorMissing { .. }) => {},
        other => panic!("expected Zip64LocatorMissing, got {:?}", other),
    }
}

// A header cut short is truncated; wrong leading bytes are a signature
// mismatch.
#[test]
fn short_or_missigned_local_header_is_rejected() {
    let short = vec![0x50u8, 0x4b, 0x03, 0x04, 0x14, 0x00];
    match parse_local_file_header(&short, 0) {
        Err(ZipError::Truncated { .. }) => {},
        other => panic!("expected Truncated, got {:?}", other),
    }
    let wrong = vec![0u8; 64];
    match parse_local_file_header(&wrong, 0) {
        Err(ZipError::SignatureMismatch { offset }) => assert_eq!(offset, 0),
        other => panic!("expected SignatureMismatch, got {:?}", other),
    }
}
