use vstd::prelude::*;

use crate::bytes::{
    be_u32, be_u64, in_bounds, read_string_at, read_u32_at, read_u64_at, read_u8_at, trim_nuls,
    utf8_lossy,
};
use crate::error::ParseError;
use crate::features::{
    has_bit, AutoClearFeatures, CompatibleFeatures, IncompatibleFeatures, HAS_COMPRESSION_TYPE,
    KNOWN_INCOMPATIBLE,
};
use crate::header_ext::{ext_area_rejects, ext_matches, ext_records, parse_extensions, HeaderExt};
use crate::levels::{shl_one, valid_cluster_bits, MAX_CLUSTER_BITS, MIN_CLUSTER_BITS};
use vstd::arithmetic::power2::pow2;

verus! {

/// Encryption method of the image's clusters.
#[derive(Debug, Clone, Copy, PartialEq, Eq, Structural)]
pub enum EncryptionMethod {
    /// Clusters are stored in the clear.
    Unencrypted,
    /// Clusters are AES encrypted.
    Aes,
    /// Clusters are encrypted with LUKS.
    Luks,
}

/// Compression used for compressed clusters.
#[derive(Debug, Clone, Copy, PartialEq, Eq, Structural)]
pub enum CompressionType {
    /// zlib (deflate) streams.
    Zlib,
    /// Zstandard frames.
    Zstd,
}

impl Default for CompressionType {
    fn default() -> (r: Self)
        ensures
            r == CompressionType::Zlib,
    {
        CompressionType::Zlib
    }
}

/// Part of the header present only in version 3 images.
#[derive(Debug, Clone, Copy)]
pub struct Version3Header {
    /// Features an implementation must understand to open the image.
    pub incompatible_features: IncompatibleFeatures,
    /// Features that may be ignored.
    pub compatible_features: CompatibleFeatures,
    /// Features that a writer must clear when it does not know them.
    pub autoclear_features: AutoClearFeatures,
    /// Width of a refcount entry: `1 << refcount_order` bits.
    pub refcount_order: u32,
    /// Length of the header in bytes.
    pub header_len: u32,
    /// Compression used for compressed clusters.
    pub compression_type: CompressionType,
}

/// Top-level header of a version 2 or 3 image.
#[derive(Debug)]
pub struct QcowHeader {
    /// Format version, 2 or 3.
    pub version: u32,
    /// Name of the backing file, if any.
    pub backing_file: Option<String>,
    /// Bits of a guest offset that address a byte within a cluster.
    pub cluster_bits: u32,
    /// Size of the virtual disk in bytes.
    pub size: u64,
    /// Encryption method of the clusters.
    pub crypt_method: EncryptionMethod,
    /// Number of entries in the active L1 table.
    pub l1_size: u32,
    /// Offset of the active L1 table in the image.
    pub l1_table_offset: u64,
    /// Offset of the refcount table in the image.
    pub refcount_table_offset: u64,
    /// Number of clusters the refcount table occupies.
    pub refcount_table_clusters: u32,
    /// Number of snapshots in the image.
    pub nb_snapshots: u32,
    /// Offset of the snapshot table in the image.
    pub snapshots_offset: u64,
    /// Version 3 fields, `None` for version 2.
    pub v3_header: Option<Version3Header>,
    /// Header extensions, in order, without the end marker.
    pub extensions: Vec<HeaderExt>,
}

/// Compression type in effect for an image with this header.
pub open spec fn compression_of(h: &QcowHeader) -> CompressionType {
    match h.v3_header {
        Some(v3) => v3.compression_type,
        None => CompressionType::Zlib,
    }
}

impl QcowHeader {
    /// Size of a cluster in bytes.
    pub fn cluster_size(&self) -> (r: u64)
        requires
            self.cluster_bits < 64,
        ensures
            r == pow2(self.cluster_bits as nat),
    {
        shl_one(self.cluster_bits)
    }

    /// Compression type in effect for compressed clusters.
    pub fn compression_type(&self) -> (r: CompressionType)
        ensures
            r == compression_of(self),
    {
        match &self.v3_header {
            Some(v3) => v3.compression_type,
            None => CompressionType::Zlib,
        }
    }
}

/// The first four bytes of every image, `QFI\xfb`, read big-endian.
pub const QCOW_MAGIC: u32 = 0x5146_49fb;

/// Encryption method that the on-disk value `v` denotes.
pub open spec fn crypt_of(v: u32) -> Option<EncryptionMethod> {
    if v == 0 {
        Some(EncryptionMethod::Unencrypted)
    } else if v == 1 {
        Some(EncryptionMethod::Aes)
    } else if v == 2 {
        Some(EncryptionMethod::Luks)
    } else {
        None
    }
}

/// Compression type that the on-disk byte `b` denotes.
pub open spec fn compression_of_byte(b: u8) -> Option<CompressionType> {
    if b == 0 {
        Some(CompressionType::Zlib)
    } else if b == 1 {
        Some(CompressionType::Zstd)
    } else {
        None
    }
}

/// Whether the image starts with the magic and the version field can be read.
pub open spec fn has_magic(image: Seq<u8>) -> bool {
    in_bounds(image, 0, 4) && be_u32(image, 0) == QCOW_MAGIC
}

/// Whether a version 3 header carries the compression type byte at offset 104.
pub open spec fn has_compression_field(image: Seq<u8>) -> bool {
    be_u32(image, 100) > 104 && has_bit(be_u64(image, 72), HAS_COMPRESSION_TYPE)
}

/// Offset at which the header extensions start.
pub open spec fn ext_start(image: Seq<u8>) -> int {
    if be_u32(image, 4) != 3 {
        72
    } else if has_compression_field(image) {
        112
    } else {
        104
    }
}

/// The backing file name: `backing_file_size` bytes at `backing_file_offset`, without trailing
/// NULs, decoded as lossy UTF-8; none when the offset is 0.
pub open spec fn backing_name(image: Seq<u8>, offset: u64, size: u32) -> Option<Seq<char>> {
    if offset == 0 {
        None
    } else {
        Some(utf8_lossy(trim_nuls(image.subrange(offset as int, offset + size))))
    }
}

/// The first check of the fixed part of a version 2 or 3 header that `image` fails, if any.
pub open spec fn fixed_header_error(image: Seq<u8>) -> Option<ParseError> {
    let version = be_u32(image, 4);
    let v3 = version == 3;
    let bfo = be_u64(image, 8);
    if !in_bounds(image, 0, 4) {
        Some(ParseError::Truncated)
    } else if be_u32(image, 0) != QCOW_MAGIC {
        Some(ParseError::BadMagic)
    } else if !in_bounds(image, 0, 8) {
        Some(ParseError::Truncated)
    } else if version != 2 && version != 3 {
        Some(ParseError::UnsupportedVersion(version))
    } else if !in_bounds(image, 0, 72) {
        Some(ParseError::Truncated)
    } else if !valid_cluster_bits(be_u32(image, 20)) {
        Some(ParseError::InvalidClusterBits(be_u32(image, 20)))
    } else if crypt_of(be_u32(image, 32)) is None {
        Some(ParseError::UnknownEncryptionMethod(be_u32(image, 32)))
    } else if v3 && !in_bounds(image, 0, 104) {
        Some(ParseError::Truncated)
    } else if v3 && be_u64(image, 72) & !KNOWN_INCOMPATIBLE != 0 {
        Some(ParseError::UnknownIncompatibleFeatures(be_u64(image, 72) & !KNOWN_INCOMPATIBLE))
    } else if v3 && has_compression_field(image) && !in_bounds(image, 0, 105) {
        Some(ParseError::Truncated)
    } else if v3 && has_compression_field(image) && compression_of_byte(image[104]) is None {
        Some(ParseError::UnknownCompressionType(image[104]))
    } else if bfo != 0 && !in_bounds(image, bfo as int, be_u32(image, 16) as int) {
        Some(ParseError::Truncated)
    } else {
        None
    }
}

/// Whether the fields of `h` are those stored in the fixed part of the header in `image`.
pub open spec fn header_fields(h: &QcowHeader, image: Seq<u8>) -> bool {
    &&& h.version == be_u32(image, 4)
    &&& match h.backing_file {
        Some(s) => backing_name(image, be_u64(image, 8), be_u32(image, 16)) == Some(s@),
        None => backing_name(image, be_u64(image, 8), be_u32(image, 16)) is None,
    }
    &&& h.cluster_bits == be_u32(image, 20)
    &&& h.size == be_u64(image, 24)
    &&& crypt_of(be_u32(image, 32)) == Some(h.crypt_method)
    &&& h.l1_size == be_u32(image, 36)
    &&& h.l1_table_offset == be_u64(image, 40)
    &&& h.refcount_table_offset == be_u64(image, 48)
    &&& h.refcount_table_clusters == be_u32(image, 56)
    &&& h.nb_snapshots == be_u32(image, 60)
    &&& h.snapshots_offset == be_u64(image, 64)
    &&& match h.v3_header {
        None => h.version == 2,
        Some(v3) => {
            &&& h.version == 3
            &&& v3.incompatible_features@ == be_u64(image, 72)
            &&& v3.compatible_features@ == be_u64(image, 80)
            &&& v3.autoclear_features@ == be_u64(image, 88)
            &&& v3.refcount_order == be_u32(image, 96)
            &&& v3.header_len == be_u32(image, 100)
            &&& v3.compression_type == if has_compression_field(image) {
                compression_of_byte(image[104])->Some_0
            } else {
                CompressionType::Zlib
            }
        },
    }
}

/// Whether `h` is the header, with its extensions, stored in `image`.
pub open spec fn header_accepts(h: &QcowHeader, image: Seq<u8>) -> bool {
    &&& fixed_header_error(image) is None
    &&& header_fields(h, image)
    &&& ext_records(image, ext_start(image)) matches Some(recs)
    &&& h.extensions@.len() == recs.len()
    &&& forall|i: int|
        0 <= i < recs.len() ==> ext_matches(&#[trigger] h.extensions@[i], recs[i].0, recs[i].1)
}

/// Whether parsing the header stored in `image` fails with `e`.
pub open spec fn header_rejects(image: Seq<u8>, e: ParseError) -> bool {
    ||| fixed_header_error(image) == Some(e)
    ||| {
        &&& fixed_header_error(image) is None
        &&& {
            ||| ext_area_rejects(image, ext_start(image), e)
            ||| ext_records(image, ext_start(image)) is None && e == ParseError::Truncated
        }
    }
}

/// Reads the eight bytes at `at` as an array.
fn read_array8_at(data: &[u8], at: u64) -> (r: Result<[u8; 8], ParseError>)
    ensures
        match r {
            Ok(a) => in_bounds(data@, at as int, 8) && be_u64(a@, 0) == be_u64(data@, at as int),
            Err(e) => !in_bounds(data@, at as int, 8) && e == ParseError::Truncated,
        },
{
    let len = data.len() as u64;
    if len < 8 || at > len - 8 {
        return Err(ParseError::Truncated);
    }
    let i = at as usize;
    Ok(
        [
            data[i],
            data[i + 1],
            data[i + 2],
            data[i + 3],
            data[i + 4],
            data[i + 5],
            data[i + 6],
            data[i + 7],
        ],
    )
}

/// Parses the header of a version 2 or 3 image, with its backing file name and extensions.
pub fn parse_header(image: &[u8]) -> (r: Result<QcowHeader, ParseError>)
    requires
        image@.len() <= isize::MAX,
    ensures
        match r {
            Ok(h) => header_accepts(&h, image@),
            Err(e) => header_rejects(image@, e),
        },
{
    let magic = read_u32_at(image, 0)?;
    if magic != QCOW_MAGIC {
        return Err(ParseError::BadMagic);
    }
    let version = read_u32_at(image, 4)?;
    if version != 2 && version != 3 {
        return Err(ParseError::UnsupportedVersion(version));
    }
    if (image.len() as u64) < 72 {
        return Err(ParseError::Truncated);
    }
    let backing_file_offset = read_u64_at(image, 8)?;
    let backing_file_size = read_u32_at(image, 16)?;
    let cluster_bits = read_u32_at(image, 20)?;
    if cluster_bits < MIN_CLUSTER_BITS || cluster_bits > MAX_CLUSTER_BITS {
        return Err(ParseError::InvalidClusterBits(cluster_bits));
    }
    let size = read_u64_at(image, 24)?;
    let crypt = read_u32_at(image, 32)?;
    let crypt_method = if crypt == 0 {
        EncryptionMethod::Unencrypted
    } else if crypt == 1 {
        EncryptionMethod::Aes
    } else if crypt == 2 {
        EncryptionMethod::Luks
    } else {
        return Err(ParseError::UnknownEncryptionMethod(crypt));
    };
    let l1_size = read_u32_at(image, 36)?;
    let l1_table_offset = read_u64_at(image, 40)?;
    let refcount_table_offset = read_u64_at(image, 48)?;
    let refcount_table_clusters = read_u32_at(image, 56)?;
    let nb_snapshots = read_u32_at(image, 60)?;
    let snapshots_offset = read_u64_at(image, 64)?;
    let mut ext_pos: u64 = 72;
    let v3_header = if version == 3 {
        if (image.len() as u64) < 104 {
            return Err(ParseError::Truncated);
        }
        let incompatible_features = IncompatibleFeatures::from_bytes(read_array8_at(image, 72)?);
        let unknown = incompatible_features.unknown_bits();
        if unknown != 0 {
            return Err(ParseError::UnknownIncompatibleFeatures(unknown));
        }
        let compatible_features = CompatibleFeatures::from_bytes(read_array8_at(image, 80)?);
        let autoclear_features = AutoClearFeatures::from_bytes(read_array8_at(image, 88)?);
        let refcount_order = read_u32_at(image, 96)?;
        let header_len = read_u32_at(image, 100)?;
        let compression_type = if header_len > 104 && incompatible_features.has_compression_type() {
            let b = read_u8_at(image, 104)?;
            ext_pos = 112;
            if b == 0 {
                CompressionType::Zlib
            } else if b == 1 {
                CompressionType::Zstd
            } else {
                return Err(ParseError::UnknownCompressionType(b));
            }
        } else {
            ext_pos = 104;
            CompressionType::Zlib
        };
        Some(
            Version3Header {
                incompatible_features,
                compatible_features,
                autoclear_features,
                refcount_order,
                header_len,
                compression_type,
            },
        )
    } else {
        None
    };
    let backing_file = if backing_file_offset != 0 {
        Some(read_string_at(image, backing_file_offset, backing_file_size as u64)?)
    } else {
        None
    };
    assert(ext_pos == ext_start(image@));
    let extensions = parse_extensions(image, ext_pos)?;
    Ok(
        QcowHeader {
            version,
            backing_file,
            cluster_bits,
            size,
            crypt_method,
            l1_size,
            l1_table_offset,
            refcount_table_offset,
            refcount_table_clusters,
            nb_snapshots,
            snapshots_offset,
            v3_header,
            extensions,
        },
    )
}

} // verus!
