//! FileHeader serialization: the 256-byte uncompressed block that opens an HWP file.
//!
//! Layout:
//! - 0..17: the signature `HWP Document File`, then zero padding up to 32
//! - 32..36: version bytes (revision, build, minor, major)
//! - 36..40: property flags, little-endian `u32`
//! - 40..256: zero padding

use crate::serializer::byte_writer::le32;
use vstd::prelude::*;

verus! {

/// Size of the file header block.
pub const FILE_HEADER_SIZE: usize = 256;

/// Document format version, `major.minor.build.revision`.
#[derive(Clone, Copy, Debug, PartialEq, Eq)]
pub struct HwpVersion {
    pub major: u8,
    pub minor: u8,
    pub build: u8,
    pub revision: u8,
}

/// The file header of an HWP document.
pub struct FileHeader {
    pub version: HwpVersion,
    pub flags: u32,
    /// The header block as read, kept for an exact round trip.
    pub raw_data: Option<Vec<u8>>,
}

/// The signature bytes `HWP Document File`.
pub open spec fn hwp_signature() -> Seq<u8> {
    seq![0x48u8, 0x57, 0x50, 0x20, 0x44, 0x6F, 0x63, 0x75, 0x6D, 0x65, 0x6E, 0x74, 0x20, 0x46, 0x69, 0x6C, 0x65]
}

/// The 256-byte header block built from the version and flags.
pub open spec fn header_block(version: HwpVersion, flags: u32) -> Seq<u8> {
    Seq::new(
        256,
        |i: int|
            if i < 17 {
                hwp_signature()[i]
            } else if i == 32 {
                version.revision
            } else if i == 33 {
                version.build
            } else if i == 34 {
                version.minor
            } else if i == 35 {
                version.major
            } else if 36 <= i < 40 {
                le32(flags)[i - 36]
            } else {
                0u8
            },
    )
}

/// The bytes that `serialize_file_header` produces for a header.
pub open spec fn file_header_bytes(header: &FileHeader) -> Seq<u8> {
    match header.raw_data {
        Some(raw) => raw@,
        None => header_block(header.version, header.flags),
    }
}

fn signature_bytes() -> (v: Vec<u8>)
    ensures
        v@ == hwp_signature(),
{
    let v: Vec<u8> = vec![0x48u8, 0x57, 0x50, 0x20, 0x44, 0x6F, 0x63, 0x75, 0x6D, 0x65, 0x6E, 0x74, 0x20, 0x46, 0x69, 0x6C, 0x65];
    assert(v@ =~= hwp_signature());
    v
}

/// Serializes a FileHeader into its 256-byte block; a header that kept its
/// original bytes gives them back unchanged.
pub fn serialize_file_header(header: &FileHeader) -> (data: Vec<u8>)
    ensures
        data@ == file_header_bytes(header),
{
    if let Some(raw) = &header.raw_data {
        return raw.clone();
    }
    let sig = signature_bytes();
    let flags = header.flags;
    let mut data: Vec<u8> = Vec::new();
    let mut i: usize = 0;
    while i < FILE_HEADER_SIZE
        invariant
            i <= 256,
            sig@ == hwp_signature(),
            flags == header.flags,
            data@.len() == i,
            forall|j: int| 0 <= j < i ==> data@[j] == header_block(header.version, flags)[j],
        decreases 256 - i,
    {
        let b: u8 = if i < 17 {
            sig[i]
        } else if i == 32 {
            header.version.revision
        } else if i == 33 {
            header.version.build
        } else if i == 34 {
            header.version.minor
        } else if i == 35 {
            header.version.major
        } else if i == 36 {
            (flags % 256) as u8
        } else if i == 37 {
            ((flags / 256) % 256) as u8
        } else if i == 38 {
            ((flags / 65536) % 256) as u8
        } else if i == 39 {
            (flags / 16777216) as u8
        } else {
            0u8
        };
        data.push(b);
        i += 1;
    }
    assert(data@ =~= header_block(header.version, flags));
    data
}

} // verus!
