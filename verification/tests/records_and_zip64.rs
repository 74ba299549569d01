use zipstruct::codec::{
    encode_data_descriptor, encode_data_descriptor64, encode_zip64_eocd, encode_zip64_locator,
    parse_data_descriptor, parse_data_descriptor64, parse_zip64_eocd, parse_zip64_locator,
};
use zipstruct::crc::crc32;
use zipstruct::records::{
    AttributeCompatibility, CentralDirectoryHeader, DataDescriptor, Features, VersionMadeBy,
    Zip64EndOfCentralDirectoryLocator, Zip64EndOfCentralDirectoryRecord,
    ZipSpecificationVersion, SENTINEL16, SENTINEL32,
};
use zipstruct::zip64::{build_zip64_extra, resolve_entry_fields};
use zipstruct::ZipError;

fn plain_header() -> CentralDirectoryHeader {
    CentralDirectoryHeader {
        version_made_by: VersionMadeBy {
            attribute_compatibility: AttributeCompatibility::Unix,
            zip_specification_version: ZipSpecificationVersion { major: 2, minor: 0 },
        },
        version_needed_to_extract: 20,
        general_purpose_bit_flag: 0,
        compression_method: 0,
        last_mod_file_time: 0,
        last_mod_file_date: 0,
        crc32: 0,
        compressed_size: 100,
        uncompressed_size: 100,
        file_name_length: 1,
        extra_field_length: 0,
        file_comment_length: 0,
        disk_number_start: 0,
        internal_file_attributes: 0,
        external_file_attributes: 0,
        relative_offset_of_local_header: 0,
        file_name: vec![b'f'],
        extra_field: Vec::new(),
        file_comment: Vec::new(),
    }
}

#[test]
fn features_minimum_versions() {
    assert_eq!(Features::Minimum.minimum_supported_version(), 10);
    assert_eq!(Features::Directories.minimum_supported_version(), 20);
    assert_eq!(Features::ZIP64Format.minimum_supported_version(), 45);
    assert_eq!(Features::BZip2Compression.minimum_supported_version(), 46);
    assert_eq!(Features::TwofishEncryption.minimum_supported_version(), 63);
}

#[test]
fn version_made_by_decomposes_and_reencodes() {
    // Low byte 45 -> version 4.5; high byte 3 -> Unix.
    let v = VersionMadeBy::from_raw(0x032d);
    assert_eq!(v.attribute_compatibility, AttributeCompatibility::Unix);
    assert_eq!(v.zip_specification_version.major, 4);
    assert_eq!(v.zip_specification_version.minor, 5);
    assert_eq!(v.to_raw(), 0x032d);
    // Codes without an assigned platform fold into Unknown.
    assert_eq!(AttributeCompatibility::from_code(20), AttributeCompatibility::Unknown);
    assert_eq!(AttributeCompatibility::from_code(255), AttributeCompatibility::Unknown);
    assert_eq!(AttributeCompatibility::from_code(19), AttributeCompatibility::OSXDarwin);
    let z = ZipSpecificationVersion::from_byte(63);
    assert_eq!((z.major, z.minor), (6, 3));
}

#[test]
fn crc32_known_values() {
    assert_eq!(crc32(&Vec::new()), 0x00000000);
    assert_eq!(crc32(&b"123456789".to_vec()), 0xcbf43926);
    assert_eq!(crc32(&b"hello world".to_vec()), 0x0d4a1185);
}

// The data descriptor is recovered whether or not its optional signature
// was written.
#[test]
fn data_descriptor_with_and_without_signature() {
    let d = DataDescriptor { crc32: 0x11223344, compressed_size: 7, uncompressed_size: 9 };
    let mut with_sig: Vec<u8> = Vec::new();
    encode_data_descriptor(&d, true, &mut with_sig);
    assert_eq!(with_sig.len(), 16);
    let (parsed, end) = parse_data_descriptor(&with_sig, 0).unwrap();
    assert_eq!(parsed, d);
    assert_eq!(end, 16);

    let mut without_sig: Vec<u8> = Vec::new();
    encode_data_descriptor(&d, false, &mut without_sig);
    assert_eq!(without_sig.len(), 12);
    let (parsed2, end2) = parse_data_descriptor(&without_sig, 0).unwrap();
    assert_eq!(parsed2, d);
    assert_eq!(end2, 12);
}

#[test]
fn zip64_data_descriptor_with_and_without_signature() {
    let big: u64 = 0x1_2345_6789;
    let mut with_sig: Vec<u8> = Vec::new();
    encode_data_descriptor64(0xdeadbeef, big, big + 1, true, &mut with_sig);
    let (crc, csize, usz, end) = parse_data_descriptor64(&with_sig, 0).unwrap();
    assert_eq!((crc, csize, usz, end), (0xdeadbeef, big, big + 1, 24));

    let mut without_sig: Vec<u8> = Vec::new();
    encode_data_descriptor64(0xdeadbeef, big, big + 1, false, &mut without_sig);
    let (crc2, csize2, usz2, end2) = parse_data_descriptor64(&without_sig, 0).unwrap();
    assert_eq!((crc2, csize2, usz2, end2), (0xdeadbeef, big, big + 1, 20));
}

// Each sentinel-promoted entry field is recovered from the ZIP64 extra
// field independently.
#[test]
fn zip64_override_uncompressed_size() {
    let mut h = plain_header();
    let big: u64 = 0x1_0000_0001;
    h.uncompressed_size = SENTINEL32;
    h.extra_field = build_zip64_extra(big, 0, 0, 0, true, false, false, false);
    h.extra_field_length = h.extra_field.len() as u16;
    let f = resolve_entry_fields(&h, 0).unwrap();
    assert_eq!(f.uncompressed_size, big);
    assert_eq!(f.compressed_size, 100);
    assert_eq!(f.local_header_offset, 0);
}

#[test]
fn zip64_override_compressed_size() {
    let mut h = plain_header();
    let big: u64 = 0x2_0000_0002;
    h.compressed_size = SENTINEL32;
    h.extra_field = build_zip64_extra(0, big, 0, 0, false, true, false, false);
    h.extra_field_length = h.extra_field.len() as u16;
    let f = resolve_entry_fields(&h, 0).unwrap();
    assert_eq!(f.compressed_size, big);
    assert_eq!(f.uncompressed_size, 100);
}

#[test]
fn zip64_override_local_header_offset() {
    let mut h = plain_header();
    let big: u64 = 0x3_0000_0003;
    h.relative_offset_of_local_header = SENTINEL32;
    h.extra_field = build_zip64_extra(0, 0, big, 0, false, false, true, false);
    h.extra_field_length = h.extra_field.len() as u16;
    let f = resolve_entry_fields(&h, 0).unwrap();
    assert_eq!(f.local_header_offset, big);
}

#[test]
fn zip64_override_disk_number() {
    let mut h = plain_header();
    h.disk_number_start = SENTINEL16;
    h.extra_field = build_zip64_extra(0, 0, 0, 77, false, false, false, true);
    h.extra_field_length = h.extra_field.len() as u16;
    let f = resolve_entry_fields(&h, 0).unwrap();
    assert_eq!(f.disk_number_start, 77);
}

#[test]
fn zip64_overrides_in_canonical_order_together() {
    let mut h = plain_header();
    let u: u64 = 0x1_0000_0010;
    let c: u64 = 0x1_0000_0020;
    let o: u64 = 0x1_0000_0030;
    h.uncompressed_size = SENTINEL32;
    h.compressed_size = SENTINEL32;
    h.relative_offset_of_local_header = SENTINEL32;
    h.extra_field = build_zip64_extra(u, c, o, 0, true, true, true, false);
    h.extra_field_length = h.extra_field.len() as u16;
    let f = resolve_entry_fields(&h, 0).unwrap();
    assert_eq!(f.uncompressed_size, u);
    assert_eq!(f.compressed_size, c);
    assert_eq!(f.local_header_offset, o);
}

// A sentinel that demands an override which the extra field does not
// carry is an inconsistent entry.
#[test]
fn missing_zip64_override_is_inconsistent() {
    let mut h = plain_header();
    h.uncompressed_size = SENTINEL32;
    match resolve_entry_fields(&h, 9) {
        Err(ZipError::InconsistentEntry { offset }) => assert_eq!(offset, 9),
        other => panic!("expected InconsistentEntry, got {:?}", other),
    }
}

// The ZIP64 end-of-central-directory record and locator decode back to
// the written values.
#[test]
fn zip64_end_records_round_trip() {
    let z = Zip64EndOfCentralDirectoryRecord {
        size_of_end_of_central_directory_record: 44,
        version_made_by: VersionMadeBy {
            attribute_compatibility: AttributeCompatibility::MSDOS,
            zip_specification_version: ZipSpecificationVersion { major: 4, minor: 5 },
        },
        version_needed_to_extract: 45,
        number_of_this_disk: 0,
        number_of_the_disk_with_the_start_of_the_central_directory: 0,
        total_number_of_entries_in_the_central_directory_on_this_disk: 0x1_0000,
        total_number_of_entries_in_the_central_directory: 0x1_0000,
        size_of_the_central_directory: 0x1_0000_0000,
        offset_of_start_of_central_directory_with_respect_to_the_starting_disk_number:
            0x2_0000_0000,
        zip64_extensible_data_sector: Vec::new(),
    };
    let mut bytes: Vec<u8> = Vec::new();
    encode_zip64_eocd(&z, &mut bytes);
    assert_eq!(bytes.len(), 56);
    let (parsed, end) = parse_zip64_eocd(&bytes, 0).unwrap();
    assert_eq!(end, 56);
    assert_eq!(parsed.total_number_of_entries_in_the_central_directory, 0x1_0000);
    assert_eq!(parsed.size_of_the_central_directory, 0x1_0000_0000);
    assert_eq!(
        parsed.offset_of_start_of_central_directory_with_respect_to_the_starting_disk_number,
        0x2_0000_0000
    );
    assert_eq!(parsed.zip64_extensible_data_sector.len(), 0);

    let l = Zip64EndOfCentralDirectoryLocator {
        number_of_the_disk_with_the_start_of_the_zip64_end_of_central_directory: 0,
        relative_offset_of_the_zip64_end_of_central_directory_record: 0x1234_5678_9abc,
        total_number_of_disks: 1,
    };
    let mut lb: Vec<u8> = Vec::new();
    encode_zip64_locator(&l, &mut lb);
    assert_eq!(lb.len(), 20);
    let (lp, lend) = parse_zip64_locator(&lb, 0).unwrap();
    assert_eq!(lend, 20);
    assert_eq!(lp, l);
}

// The central directory digital signature record and the archive extra
// data record decode back to the written values.
#[test]
fn auxiliary_records_round_trip() {
    let sig = zipstruct::records::CentralDirectorySignature {
        size_of_data: 4,
        signature_data: vec![1, 2, 3, 4],
    };
    let mut sb: Vec<u8> = Vec::new();
    zipstruct::codec::encode_central_directory_signature(&sig, &mut sb);
    let (sp, send) = zipstruct::codec::parse_central_directory_signature(&sb, 0).unwrap();
    assert_eq!(send, 10);
    assert_eq!(sp.size_of_data, 4);
    assert_eq!(sp.signature_data, vec![1, 2, 3, 4]);

    let aed = zipstruct::records::ArchiveExtraDataRecord {
        extra_field_length: 3,
        extra_field_data: vec![9, 8, 7],
    };
    let mut ab: Vec<u8> = Vec::new();
    zipstruct::codec::encode_archive_extra_data(&aed, &mut ab);
    let (ap, aend) = zipstruct::codec::parse_archive_extra_data(&ab, 0).unwrap();
    assert_eq!(aend, 11);
    assert_eq!(ap.extra_field_length, 3);
    assert_eq!(ap.extra_field_data, vec![9, 8, 7]);
}
