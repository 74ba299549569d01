//! The metadata records of the archive format.
//!
//! All multi-byte integers are stored little-endian.  String fields are not
//! null terminated: lengths are explicit.  Entries in the central directory
//! do not have to match the order of the files.  When a field of the
//! end-of-central-directory record is too small, it is set to `0xffff` or
//! `0xffffffff` and the ZIP64 records carry the true value.

use vstd::prelude::*;

verus! {

/// Signature prefixing an archive extra data record.
pub const ARCHIVE_EXTRA_DATA_SIGNATURE: u32 = 0x08064b50;

/// Commonly adopted signature for the data descriptor record.  It is
/// optional: archives occur with and without it.
pub const DATA_DESCRIPTOR_SIGNATURE: u32 = 0x08074b50;

/// Signature of every local file header.
pub const LOCAL_FILE_HEADER_SIGNATURE: u32 = 0x04034b50;

/// Signature of every central directory header.
pub const CENTRAL_DIRECTORY_HEADER_SIGNATURE: u32 = 0x02014b50;

/// Signature of the central directory digital signature record.
pub const CENTRAL_DIRECTORY_SIGNATURE_SIGNATURE: u32 = 0x05054b50;

/// Signature of the end-of-central-directory record.
pub const END_OF_CENTRAL_DIRECTORY_SIGNATURE: u32 = 0x06054b50;

/// Signature of the ZIP64 end-of-central-directory record.
pub const ZIP64_END_OF_CENTRAL_DIRECTORY_SIGNATURE: u32 = 0x06064b50;

/// Signature of the ZIP64 end-of-central-directory locator.
pub const ZIP64_LOCATOR_SIGNATURE: u32 = 0x07064b50;

/// Header id of the ZIP64 extended-information extra field block.
pub const ZIP64_EXTRA_FIELD_ID: u16 = 0x0001;

/// Sentinel marking an overflowed 16-bit field.
pub const SENTINEL16: u16 = 0xffff;

/// Sentinel marking an overflowed 32-bit field.
pub const SENTINEL32: u32 = 0xffffffff;

/// General-purpose flag bit 0: the entry is encrypted.
pub const FLAG_ENCRYPTED: u16 = 0x0001;

/// General-purpose flag bit 3: sizes and CRC were unknown when the local
/// header was written and live in a trailing data descriptor.
pub const FLAG_DATA_DESCRIPTOR: u16 = 0x0008;

/// Placeholder for the per-archive decryption header.  It has the exact
/// same format as [`EncryptionHeader`] and is opaque to this crate: an
/// external decryptor consumes it.
pub struct ArchiveDecryptionHeader;

/// Archive extra data record, always prefixed with
/// [`ARCHIVE_EXTRA_DATA_SIGNATURE`].
pub struct ArchiveExtraDataRecord {
    pub extra_field_length: u32,
    pub extra_field_data: Vec<u8>,
}

/// Feature sets of the format, each with the minimum version of the
/// specification that an extractor must implement to handle it.
#[derive(Clone, Copy, Debug, PartialEq, Eq, Structural)]
pub enum Features {
    /// The minimum feature set required to be implemented.
    Minimum,
    VolumeLabel,
    Directories,
    DeflateCompression,
    PKWareEncryption,
    Deflate64Compression,
    PKWareDCLImplode,
    PatchDataSet,
    ZIP64Format,
    BZip2Compression,
    DESEncryption,
    ThreeDESEncryption,
    RC2Encryption,
    RC4Encryption,
    AESEncryption,
    CorrectedRC2Encryption,
    CorrectedRC264Encryption,
    NonOAEPKeyWrapping,
    CentralDirectoryEncryption,
    LZMACompression,
    PPMdCompression,
    BlowfishEncryption,
    TwofishEncryption,
}

/// The minimum specification version required for a feature, as tens of the
/// major version plus the minor version.
pub open spec fn spec_minimum_supported_version(f: Features) -> u16 {
    match f {
        Features::Minimum => 10,
        Features::VolumeLabel => 11,
        Features::Directories => 20,
        Features::DeflateCompression => 20,
        Features::PKWareEncryption => 20,
        Features::Deflate64Compression => 21,
        Features::PKWareDCLImplode => 25,
        Features::PatchDataSet => 27,
        Features::ZIP64Format => 45,
        Features::BZip2Compression => 46,
        Features::DESEncryption => 50,
        Features::ThreeDESEncryption => 50,
        Features::RC2Encryption => 50,
        Features::RC4Encryption => 50,
        Features::AESEncryption => 51,
        Features::CorrectedRC2Encryption => 51,
        Features::CorrectedRC264Encryption => 52,
        Features::NonOAEPKeyWrapping => 61,
        Features::CentralDirectoryEncryption => 62,
        Features::LZMACompression => 63,
        Features::PPMdCompression => 63,
        Features::BlowfishEncryption => 63,
        Features::TwofishEncryption => 63,
    }
}

impl Features {
    /// The minimum specification version an extractor needs for this
    /// feature.
    pub fn minimum_supported_version(&self) -> (r: u16)
        ensures
            r == spec_minimum_supported_version(*self),
    {
        match *self {
            Features::Minimum => 10,
            Features::VolumeLabel => 11,
            Features::Directories => 20,
            Features::DeflateCompression => 20,
            Features::PKWareEncryption => 20,
            Features::Deflate64Compression => 21,
            Features::PKWareDCLImplode => 25,
            Features::PatchDataSet => 27,
            Features::ZIP64Format => 45,
            Features::BZip2Compression => 46,
            Features::DESEncryption => 50,
            Features::ThreeDESEncryption => 50,
            Features::RC2Encryption => 50,
            Features::RC4Encryption => 50,
            Features::AESEncryption => 51,
            Features::CorrectedRC2Encryption => 51,
            Features::CorrectedRC264Encryption => 52,
            Features::NonOAEPKeyWrapping => 61,
            Features::CentralDirectoryEncryption => 62,
            Features::LZMACompression => 63,
            Features::PPMdCompression => 63,
            Features::BlowfishEncryption => 63,
            Features::TwofishEncryption => 63,
        }
    }
}

/// The platform whose conventions the external file attributes follow.
/// All codes without an assigned platform fold into `Unknown`.
#[derive(Clone, Copy, Debug, PartialEq, Eq, Structural)]
pub enum AttributeCompatibility {
    /// MS-DOS and OS/2 (FAT / VFAT / FAT32 file systems).
    MSDOS,
    Amiga,
    OpenVMS,
    Unix,
    VMCMS,
    AtariST,
    OS2HPFS,
    Macintosh,
    ZSystem,
    CPM,
    WindowsNTFS,
    MVS,
    VSE,
    AcornRisc,
    VFAT,
    AlternateMVS,
    BeOS,
    Tandem,
    OS400,
    OSXDarwin,
    /// Any code without an assigned platform.
    Unknown,
}

/// The platform denoted by a code byte.
pub open spec fn spec_compatibility_of_code(code: u8) -> AttributeCompatibility {
    if code == 0 { AttributeCompatibility::MSDOS }
    else if code == 1 { AttributeCompatibility::Amiga }
    else if code == 2 { AttributeCompatibility::OpenVMS }
    else if code == 3 { AttributeCompatibility::Unix }
    else if code == 4 { AttributeCompatibility::VMCMS }
    else if code == 5 { AttributeCompatibility::AtariST }
    else if code == 6 { AttributeCompatibility::OS2HPFS }
    else if code == 7 { AttributeCompatibility::Macintosh }
    else if code == 8 { AttributeCompatibility::ZSystem }
    else if code == 9 { AttributeCompatibility::CPM }
    else if code == 10 { AttributeCompatibility::WindowsNTFS }
    else if code == 11 { AttributeCompatibility::MVS }
    else if code == 12 { AttributeCompatibility::VSE }
    else if code == 13 { AttributeCompatibility::AcornRisc }
    else if code == 14 { AttributeCompatibility::VFAT }
    else if code == 15 { AttributeCompatibility::AlternateMVS }
    else if code == 16 { AttributeCompatibility::BeOS }
    else if code == 17 { AttributeCompatibility::Tandem }
    else if code == 18 { AttributeCompatibility::OS400 }
    else if code == 19 { AttributeCompatibility::OSXDarwin }
    else { AttributeCompatibility::Unknown }
}

/// The code byte written for a platform; `Unknown` is written as 255.
pub open spec fn spec_compatibility_code(c: AttributeCompatibility) -> u8 {
    match c {
        AttributeCompatibility::MSDOS => 0,
        AttributeCompatibility::Amiga => 1,
        AttributeCompatibility::OpenVMS => 2,
        AttributeCompatibility::Unix => 3,
        AttributeCompatibility::VMCMS => 4,
        AttributeCompatibility::AtariST => 5,
        AttributeCompatibility::OS2HPFS => 6,
        AttributeCompatibility::Macintosh => 7,
        AttributeCompatibility::ZSystem => 8,
        AttributeCompatibility::CPM => 9,
        AttributeCompatibility::WindowsNTFS => 10,
        AttributeCompatibility::MVS => 11,
        AttributeCompatibility::VSE => 12,
        AttributeCompatibility::AcornRisc => 13,
        AttributeCompatibility::VFAT => 14,
        AttributeCompatibility::AlternateMVS => 15,
        AttributeCompatibility::BeOS => 16,
        AttributeCompatibility::Tandem => 17,
        AttributeCompatibility::OS400 => 18,
        AttributeCompatibility::OSXDarwin => 19,
        AttributeCompatibility::Unknown => 255,
    }
}

impl AttributeCompatibility {
    /// Decodes a platform code byte.
    pub fn from_code(code: u8) -> (r: AttributeCompatibility)
        ensures
            r == spec_compatibility_of_code(code),
    {
        if code == 0 { AttributeCompatibility::MSDOS }
        else if code == 1 { AttributeCompatibility::Amiga }
        else if code == 2 { AttributeCompatibility::OpenVMS }
        else if code == 3 { AttributeCompatibility::Unix }
        else if code == 4 { AttributeCompatibility::VMCMS }
        else if code == 5 { AttributeCompatibility::AtariST }
        else if code == 6 { AttributeCompatibility::OS2HPFS }
        else if code == 7 { AttributeCompatibility::Macintosh }
        else if code == 8 { AttributeCompatibility::ZSystem }
        else if code == 9 { AttributeCompatibility::CPM }
        else if code == 10 { AttributeCompatibility::WindowsNTFS }
        else if code == 11 { AttributeCompatibility::MVS }
        else if code == 12 { AttributeCompatibility::VSE }
        else if code == 13 { AttributeCompatibility::AcornRisc }
        else if code == 14 { AttributeCompatibility::VFAT }
        else if code == 15 { AttributeCompatibility::AlternateMVS }
        else if code == 16 { AttributeCompatibility::BeOS }
        else if code == 17 { AttributeCompatibility::Tandem }
        else if code == 18 { AttributeCompatibility::OS400 }
        else if code == 19 { AttributeCompatibility::OSXDarwin }
        else { AttributeCompatibility::Unknown }
    }

    /// Encodes the platform as its code byte.
    pub fn to_code(&self) -> (r: u8)
        ensures
            r == spec_compatibility_code(*self),
    {
        match *self {
            AttributeCompatibility::MSDOS => 0,
            AttributeCompatibility::Amiga => 1,
            AttributeCompatibility::OpenVMS => 2,
            AttributeCompatibility::Unix => 3,
            AttributeCompatibility::VMCMS => 4,
            AttributeCompatibility::AtariST => 5,
            AttributeCompatibility::OS2HPFS => 6,
            AttributeCompatibility::Macintosh => 7,
            AttributeCompatibility::ZSystem => 8,
            AttributeCompatibility::CPM => 9,
            AttributeCompatibility::WindowsNTFS => 10,
            AttributeCompatibility::MVS => 11,
            AttributeCompatibility::VSE => 12,
            AttributeCompatibility::AcornRisc => 13,
            AttributeCompatibility::VFAT => 14,
            AttributeCompatibility::AlternateMVS => 15,
            AttributeCompatibility::BeOS => 16,
            AttributeCompatibility::Tandem => 17,
            AttributeCompatibility::OS400 => 18,
            AttributeCompatibility::OSXDarwin => 19,
            AttributeCompatibility::Unknown => 255,
        }
    }
}

/// Decoding the code written for a platform yields the platform back.
pub proof fn lemma_compatibility_round_trip(c: AttributeCompatibility)
    ensures
        spec_compatibility_of_code(spec_compatibility_code(c)) == c,
{
}

/// Version of the format specification, decomposed from the byte value as
/// `major = value / 10`, `minor = value % 10`.
#[derive(Clone, Copy, Debug, PartialEq, Eq, Structural)]
pub struct ZipSpecificationVersion {
    pub major: u8,
    pub minor: u8,
}

impl ZipSpecificationVersion {
    /// A decomposed version is well formed when it re-encodes into a byte.
    pub open spec fn wf(self) -> bool {
        self.minor < 10 && self.major * 10 + self.minor <= 255
    }

    /// Decomposes the version byte.
    pub fn from_byte(value: u8) -> (r: ZipSpecificationVersion)
        ensures
            r.major == value / 10,
            r.minor == value % 10,
            r.wf(),
    {
        ZipSpecificationVersion { major: value / 10, minor: value % 10 }
    }

    /// Re-encodes the version as its byte value.
    pub fn to_byte(&self) -> (r: u8)
        requires
            self.wf(),
        ensures
            r == self.major * 10 + self.minor,
            r / 10 == self.major,
            r % 10 == self.minor,
    {
        self.major * 10 + self.minor
    }
}

/// The byte pair recording who wrote an entry: an attribute-compatibility
/// platform tag and a specification version, orthogonal to each other.
#[derive(Clone, Copy, Debug, PartialEq, Eq, Structural)]
pub struct VersionMadeBy {
    pub attribute_compatibility: AttributeCompatibility,
    pub zip_specification_version: ZipSpecificationVersion,
}

/// The 16-bit raw form: the low byte is the specification version, the high
/// byte is the platform code.
pub open spec fn spec_version_made_by_raw(v: VersionMadeBy) -> u16 {
    (v.zip_specification_version.major * 10 + v.zip_specification_version.minor
        + spec_compatibility_code(v.attribute_compatibility) * 256) as u16
}

/// The byte pair denoted by a raw 16-bit field: the low byte decomposes
/// into the specification version, the high byte is the platform code.
pub open spec fn spec_version_made_by_of_raw(value: u16) -> VersionMadeBy {
    VersionMadeBy {
        attribute_compatibility: spec_compatibility_of_code((value / 256) as u8),
        zip_specification_version: ZipSpecificationVersion {
            major: ((value % 256) / 10) as u8,
            minor: ((value % 256) % 10) as u8,
        },
    }
}

/// Decoding the raw form of a well-formed byte pair yields the pair back.
pub proof fn lemma_version_made_by_round_trip(v: VersionMadeBy)
    requires
        v.wf(),
    ensures
        spec_version_made_by_of_raw(spec_version_made_by_raw(v)) == v,
{
    let a = (v.zip_specification_version.major * 10 + v.zip_specification_version.minor) as u16;
    let c = spec_compatibility_code(v.attribute_compatibility) as u16;
    let raw = spec_version_made_by_raw(v);
    assert(raw == (a + c * 256) as u16) by (bit_vector)
        requires
            a <= 255,
            c <= 255,
            raw == ((a + c * 256) as u16),
    ;
    assert(raw % 256 == a && raw / 256 == c) by (bit_vector)
        requires
            a <= 255,
            c <= 255,
            raw == ((a + c * 256) as u16),
    ;
    lemma_compatibility_round_trip(v.attribute_compatibility);
}

impl VersionMadeBy {
    /// Both halves of the byte pair are well formed.
    pub open spec fn wf(self) -> bool {
        self.zip_specification_version.wf()
    }

    /// Decodes the raw 16-bit field: low byte version, high byte platform.
    pub fn from_raw(value: u16) -> (r: VersionMadeBy)
        ensures
            r == spec_version_made_by_of_raw(value),
            r.wf(),
    {
        assert(value & 0xff == value % 256 && value >> 8 == value / 256) by (bit_vector);
        let version_byte = (value % 256) as u8;
        let platform_byte = (value / 256) as u8;
        VersionMadeBy {
            attribute_compatibility: AttributeCompatibility::from_code(platform_byte),
            zip_specification_version: ZipSpecificationVersion::from_byte(version_byte),
        }
    }

    /// Re-encodes the byte pair as the raw 16-bit field.
    pub fn to_raw(&self) -> (r: u16)
        requires
            self.wf(),
        ensures
            r == spec_version_made_by_raw(*self),
    {
        let version_byte = self.zip_specification_version.to_byte();
        let platform_byte = self.attribute_compatibility.to_code();
        version_byte as u16 + (platform_byte as u16) * 256
    }
}

/// The in-memory image of the central directory: its headers in directory
/// order plus the optional trailing digital signature record.
#[derive(Debug)]
pub struct CentralDirectory {
    pub headers: Vec<CentralDirectoryHeader>,
    pub signature: Option<CentralDirectorySignature>,
}

/// Central directory digital signature record, prefixed with
/// [`CENTRAL_DIRECTORY_SIGNATURE_SIGNATURE`].
#[derive(Debug)]
pub struct CentralDirectorySignature {
    pub size_of_data: u16,
    pub signature_data: Vec<u8>,
}

/// One entry of the central directory: the authoritative description of a
/// stored file.
#[derive(Clone, Debug)]
pub struct CentralDirectoryHeader {
    pub version_made_by: VersionMadeBy,
    pub version_needed_to_extract: u16,
    pub general_purpose_bit_flag: u16,
    pub compression_method: u16,
    pub last_mod_file_time: u16,
    pub last_mod_file_date: u16,
    pub crc32: u32,
    pub compressed_size: u32,
    pub uncompressed_size: u32,
    pub file_name_length: u16,
    pub extra_field_length: u16,
    pub file_comment_length: u16,
    pub disk_number_start: u16,
    pub internal_file_attributes: u16,
    pub external_file_attributes: u32,
    pub relative_offset_of_local_header: u32,
    pub file_name: Vec<u8>,
    pub extra_field: Vec<u8>,
    pub file_comment: Vec<u8>,
}

/// Trailing record carrying CRC and sizes when they were unknown at the time
/// the local header was written (general-purpose bit 3).  It is byte aligned
/// after the last byte of compressed data, and may or may not be prefixed
/// with [`DATA_DESCRIPTOR_SIGNATURE`].  For ZIP64-escalated entries the two
/// size fields are 8 bytes wide instead of 4.
#[derive(Clone, Copy, Debug, PartialEq, Eq, Structural)]
pub struct DataDescriptor {
    pub crc32: u32,
    pub compressed_size: u32,
    pub uncompressed_size: u32,
}

/// Placeholder for the per-entry encryption header that precedes encrypted
/// payload bytes; an external decryptor consumes it.
pub struct EncryptionHeader;

/// End-of-central-directory record, located by scanning backward from the
/// end of the stream for [`END_OF_CENTRAL_DIRECTORY_SIGNATURE`].
#[derive(Clone, Debug)]
pub struct EndOfCentralDirectoryRecord {
    pub number_of_this_disk: u16,
    pub number_of_the_disk_with_the_start_of_the_central_directory: u16,
    pub total_number_of_entries_in_the_central_directory_on_this_disk: u16,
    pub total_number_of_entries_in_the_central_directory: u16,
    pub size_of_the_central_directory: u32,
    pub offset_of_start_of_central_directory_with_respect_to_the_starting_disk_number: u32,
    pub zip_file_comment_length: u16,
    pub zip_file_comment: Vec<u8>,
}

/// Placeholder for payload bytes: the core hands byte ranges to an external
/// codec and never interprets them itself.
pub struct FileData;

/// Per-entry header immediately preceding that entry's payload bytes.
#[derive(Clone, Debug)]
pub struct LocalFileHeader {
    pub extraction_version: u16,
    pub general_purpose_bit_flag: u16,
    pub compression_method: u16,
    pub mod_file_time: u16,
    pub mod_file_date: u16,
    pub crc32: u32,
    pub compressed_size: u32,
    pub uncompressed_size: u32,
    pub file_name_length: u16,
    pub extra_field_length: u16,
    pub file_name: Vec<u8>,
    pub extra_field: Vec<u8>,
}

/// ZIP64 end-of-central-directory locator, sitting immediately before the
/// end-of-central-directory record when ZIP64 escalation occurred.
#[derive(Clone, Copy, Debug, PartialEq, Eq, Structural)]
pub struct Zip64EndOfCentralDirectoryLocator {
    pub number_of_the_disk_with_the_start_of_the_zip64_end_of_central_directory: u32,
    pub relative_offset_of_the_zip64_end_of_central_directory_record: u64,
    pub total_number_of_disks: u32,
}

/// ZIP64 end-of-central-directory record: 64-bit versions of the directory
/// metadata, superseding any sentinel-valued 32/16-bit field.
#[derive(Clone, Debug)]
pub struct Zip64EndOfCentralDirectoryRecord {
    /// Size of the record counted from after this field; 44 when the
    /// extensible data sector is empty.
    pub size_of_end_of_central_directory_record: u64,
    pub version_made_by: VersionMadeBy,
    pub version_needed_to_extract: u16,
    pub number_of_this_disk: u32,
    pub number_of_the_disk_with_the_start_of_the_central_directory: u32,
    pub total_number_of_entries_in_the_central_directory_on_this_disk: u64,
    pub total_number_of_entries_in_the_central_directory: u64,
    pub size_of_the_central_directory: u64,
    pub offset_of_start_of_central_directory_with_respect_to_the_starting_disk_number: u64,
    pub zip64_extensible_data_sector: Vec<Zip64ExtensibleDataSector>,
}

/// One block of the ZIP64 extensible data sector.
#[derive(Clone, Debug)]
pub struct Zip64ExtensibleDataSector {
    pub header_id: u16,
    pub data_size: u32,
    pub data: Vec<u8>,
}

} // verus!
