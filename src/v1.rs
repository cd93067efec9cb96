use vstd::prelude::*;
use vstd::arithmetic::power2::pow2;

use crate::bytes::{
    be_u32, be_u64, in_bounds, read_string_at, read_u32_at, read_u64_at, read_u8_at,
};
use crate::error::ParseError;
use crate::header::{backing_name, crypt_of, EncryptionMethod, QCOW_MAGIC};
use crate::levels::shl_one;

verus! {

/// Header of a version 1 (legacy) image.
#[derive(Debug)]
pub struct Qcow1Header {
    /// Format version, 1.
    pub version: u32,
    /// Name of the backing file, if any.
    pub backing_file: Option<String>,
    /// Modification time of the image.
    pub mtime: u32,
    /// Size of the virtual disk in bytes.
    pub size: u64,
    /// Bits of a guest offset that address a byte within a cluster.
    pub cluster_bits: u8,
    /// Bits of a guest offset that index an L2 table.
    pub l2_bits: u8,
    /// Encryption method of the clusters.
    pub crypt_method: EncryptionMethod,
    /// Offset of the L1 table in the image.
    pub l1_table_offset: u64,
}

impl Qcow1Header {
    /// Size of a cluster in bytes.
    pub fn cluster_size(&self) -> (r: u64)
        requires
            self.cluster_bits < 64,
        ensures
            r == pow2(self.cluster_bits as nat),
    {
        shl_one(self.cluster_bits as u32)
    }
}

/// The first check of a version 1 header that `image` fails, if any.
pub open spec fn v1_header_error(image: Seq<u8>) -> Option<ParseError> {
    let bfo = be_u64(image, 8);
    if !in_bounds(image, 0, 4) {
        Some(ParseError::Truncated)
    } else if be_u32(image, 0) != QCOW_MAGIC {
        Some(ParseError::BadMagic)
    } else if !in_bounds(image, 0, 8) {
        Some(ParseError::Truncated)
    } else if be_u32(image, 4) != 1 {
        Some(ParseError::UnsupportedVersion(be_u32(image, 4)))
    } else if !in_bounds(image, 0, 48) {
        Some(ParseError::Truncated)
    } else if crypt_of(be_u32(image, 36)) is None {
        Some(ParseError::UnknownEncryptionMethod(be_u32(image, 36)))
    } else if bfo != 0 && !in_bounds(image, bfo as int, be_u32(image, 16) as int) {
        Some(ParseError::Truncated)
    } else {
        None
    }
}

/// Whether the fields of `h` are those of the version 1 header in `image`.
pub open spec fn v1_header_fields(h: &Qcow1Header, image: Seq<u8>) -> bool {
    &&& h.version == 1
    &&& match h.backing_file {
        Some(s) => backing_name(image, be_u64(image, 8), be_u32(image, 16)) == Some(s@),
        None => backing_name(image, be_u64(image, 8), be_u32(image, 16)) is None,
    }
    &&& h.mtime == be_u32(image, 20)
    &&& h.size == be_u64(image, 24)
    &&& h.cluster_bits == image[32]
    &&& h.l2_bits == image[33]
    &&& crypt_of(be_u32(image, 36)) == Some(h.crypt_method)
    &&& h.l1_table_offset == be_u64(image, 40)
}

/// Parses the header of a version 1 image.
pub fn parse_v1_header(image: &[u8]) -> (r: Result<Qcow1Header, ParseError>)
    ensures
        match r {
            Ok(h) => v1_header_error(image@) is None && v1_header_fields(&h, image@),
            Err(e) => v1_header_error(image@) == Some(e),
        },
{
    let magic = read_u32_at(image, 0)?;
    if magic != QCOW_MAGIC {
        return Err(ParseError::BadMagic);
    }
    let version = read_u32_at(image, 4)?;
    if version != 1 {
        return Err(ParseError::UnsupportedVersion(version));
    }
    if (image.len() as u64) < 48 {
        return Err(ParseError::Truncated);
    }
    let backing_file_offset = read_u64_at(image, 8)?;
    let backing_file_size = read_u32_at(image, 16)?;
    let mtime = read_u32_at(image, 20)?;
    let size = read_u64_at(image, 24)?;
    let cluster_bits = read_u8_at(image, 32)?;
    let l2_bits = read_u8_at(image, 33)?;
    let crypt = read_u32_at(image, 36)?;
    let crypt_method = if crypt == 0 {
        EncryptionMethod::Unencrypted
    } else if crypt == 1 {
        EncryptionMethod::Aes
    } else if crypt == 2 {
        EncryptionMethod::Luks
    } else {
        return Err(ParseError::UnknownEncryptionMethod(crypt));
    };
    let l1_table_offset = read_u64_at(image, 40)?;
    let backing_file = if backing_file_offset != 0 {
        Some(read_string_at(image, backing_file_offset, backing_file_size as u64)?)
    } else {
        None
    };
    Ok(
        Qcow1Header {
            version,
            backing_file,
            mtime,
            size,
            cluster_bits,
            l2_bits,
            crypt_method,
            l1_table_offset,
        },
    )
}

} // verus!
