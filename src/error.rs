use vstd::prelude::*;

verus! {

/// Host I/O error type, carried through opaquely when opening an image fails.
#[verifier::external_type_specification]
#[verifier::external_body]
pub struct ExIoError(std::io::Error);

/// Reason why an image could not be parsed or a guest range could not be read.
#[derive(Debug, Clone, Copy, PartialEq, Eq, Structural)]
pub enum ParseError {
    /// The image does not start with `QFI\xfb`.
    BadMagic,
    /// The header carries a version this parser does not handle.
    UnsupportedVersion(u32),
    /// A structure extends past the end of the image.
    Truncated,
    /// `cluster_bits` is outside the supported range.
    InvalidClusterBits(u32),
    /// The incompatible feature mask has bits this implementation does not know.
    UnknownIncompatibleFeatures(u64),
    /// The encryption method field holds an unknown value.
    UnknownEncryptionMethod(u32),
    /// The compression type field holds an unknown value.
    UnknownCompressionType(u8),
    /// A feature name table entry has an unknown feature kind.
    UnknownFeatureKind(u8),
    /// An allocated cluster of an encrypted image was read.
    EncryptedCluster,
    /// The image uses an external data file or extended L2 entries.
    UnsupportedLayout,
    /// A compressed cluster did not decompress to a full cluster.
    DecompressionFailed,
    /// A seek would move to a negative or unrepresentable position.
    InvalidSeek,
}

/// Error returned by the library.
#[derive(Debug)]
pub enum Error {
    /// The image file could not be opened.
    FileNotFound(std::io::Error),
    /// The image could not be parsed, or a read through it failed.
    ParseError(ParseError),
}

} // verus!
