use vstd::prelude::*;

use crate::bytes::be_u64;

verus! {

/// Incompatible feature bit 0: refcounts may be inconsistent.
pub const DIRTY: u64 = 0x1;
/// Incompatible feature bit 1: any structure may be corrupt.
pub const CORRUPT: u64 = 0x2;
/// Incompatible feature bit 2: guest clusters live in an external data file.
pub const EXTERNAL_DATA_FILE: u64 = 0x4;
/// Incompatible feature bit 3: the header carries a compression type.
pub const HAS_COMPRESSION_TYPE: u64 = 0x8;
/// Incompatible feature bit 4: L2 entries use the extended (subcluster) format.
pub const EXTENDED_L2: u64 = 0x10;
/// All incompatible feature bits this implementation knows.
pub const KNOWN_INCOMPATIBLE: u64 = 0x1f;
/// Compatible feature bit 0: lazy refcount updates.
pub const LAZY_REFCOUNT: u64 = 0x1;
/// Auto-clear feature bit 0: the bitmaps extension is consistent.
pub const BITMAP_EXTENSION: u64 = 0x1;
/// Auto-clear feature bit 1: the external data file is a consistent raw image.
pub const RAW_EXTERNAL_DATA: u64 = 0x2;

/// Whether any bit of `mask` is set in `bits`.
pub open spec fn has_bit(bits: u64, mask: u64) -> bool {
    bits & mask != 0
}

/// Reverses the order of eight bytes.
pub fn reverse(bytes: [u8; 8]) -> (r: [u8; 8])
    ensures
        forall|i: int| 0 <= i < 8 ==> r@[i] == bytes@[7 - i],
{
    [bytes[7], bytes[6], bytes[5], bytes[4], bytes[3], bytes[2], bytes[1], bytes[0]]
}

/// Value of a feature field stored on disk as `bytes`: the bytes are reversed and read least
/// significant first, so bit `n` of the result is feature bit `n`.
pub fn feature_bits(bytes: [u8; 8]) -> (r: u64)
    ensures
        r == be_u64(bytes@, 0),
{
    let b = reverse(bytes);
    (b[0] as u64) + (b[1] as u64) * 0x100 + (b[2] as u64) * 0x1_0000 + (b[3] as u64)
        * 0x100_0000 + (b[4] as u64) * 0x1_0000_0000 + (b[5] as u64) * 0x100_0000_0000 + (
    b[6] as u64) * 0x1_0000_0000_0000 + (b[7] as u64) * 0x100_0000_0000_0000
}

/// Bitmask of incompatible features: an image with an unknown bit set must not be opened.
#[derive(Debug, Clone, Copy, PartialEq, Eq, Structural)]
pub struct IncompatibleFeatures {
    bits: u64,
}

impl View for IncompatibleFeatures {
    type V = u64;

    closed spec fn view(&self) -> u64 {
        self.bits
    }
}

impl IncompatibleFeatures {
    /// Mask with the given bits.
    pub fn from_bits(bits: u64) -> (r: Self)
        ensures
            r@ == bits,
    {
        IncompatibleFeatures { bits }
    }

    /// Mask stored on disk as `bytes`.
    pub fn from_bytes(bytes: [u8; 8]) -> (r: Self)
        ensures
            r@ == be_u64(bytes@, 0),
    {
        IncompatibleFeatures { bits: feature_bits(bytes) }
    }

    /// All bits of the mask.
    pub fn bits(&self) -> (r: u64)
        ensures
            r == self@,
    {
        self.bits
    }

    /// Dirty bit (bit 0).
    pub fn dirty(&self) -> (r: bool)
        ensures
            r == has_bit(self@, DIRTY),
    {
        self.bits & DIRTY != 0
    }

    /// Corrupt bit (bit 1).
    pub fn corrupt(&self) -> (r: bool)
        ensures
            r == has_bit(self@, CORRUPT),
    {
        self.bits & CORRUPT != 0
    }

    /// External data file bit (bit 2).
    pub fn external_data_file(&self) -> (r: bool)
        ensures
            r == has_bit(self@, EXTERNAL_DATA_FILE),
    {
        self.bits & EXTERNAL_DATA_FILE != 0
    }

    /// Compression type bit (bit 3).
    pub fn has_compression_type(&self) -> (r: bool)
        ensures
            r == has_bit(self@, HAS_COMPRESSION_TYPE),
    {
        self.bits & HAS_COMPRESSION_TYPE != 0
    }

    /// Extended L2 entries bit (bit 4).
    pub fn extended_l2(&self) -> (r: bool)
        ensures
            r == has_bit(self@, EXTENDED_L2),
    {
        self.bits & EXTENDED_L2 != 0
    }

    /// The set bits that have no meaning known to this implementation.
    pub fn unknown_bits(&self) -> (r: u64)
        ensures
            r == self@ & !KNOWN_INCOMPATIBLE,
    {
        self.bits & !KNOWN_INCOMPATIBLE
    }
}

/// Bitmask of compatible features: unknown bits may be ignored.
#[derive(Debug, Clone, Copy, PartialEq, Eq, Structural)]
pub struct CompatibleFeatures {
    bits: u64,
}

impl View for CompatibleFeatures {
    type V = u64;

    closed spec fn view(&self) -> u64 {
        self.bits
    }
}

impl CompatibleFeatures {
    /// Mask with the given bits.
    pub fn from_bits(bits: u64) -> (r: Self)
        ensures
            r@ == bits,
    {
        CompatibleFeatures { bits }
    }

    /// Mask stored on disk as `bytes`.
    pub fn from_bytes(bytes: [u8; 8]) -> (r: Self)
        ensures
            r@ == be_u64(bytes@, 0),
    {
        CompatibleFeatures { bits: feature_bits(bytes) }
    }

    /// All bits of the mask.
    pub fn bits(&self) -> (r: u64)
        ensures
            r == self@,
    {
        self.bits
    }

    /// Lazy refcounts bit (bit 0).
    pub fn lazy_refcount(&self) -> (r: bool)
        ensures
            r == has_bit(self@, LAZY_REFCOUNT),
    {
        self.bits & LAZY_REFCOUNT != 0
    }

    /// The set bits that have no meaning known to this implementation.
    pub fn unknown_bits(&self) -> (r: u64)
        ensures
            r == self@ & !LAZY_REFCOUNT,
    {
        self.bits & !LAZY_REFCOUNT
    }
}

/// Bitmask of auto-clear features.
#[derive(Debug, Clone, Copy, PartialEq, Eq, Structural)]
pub struct AutoClearFeatures {
    bits: u64,
}

impl View for AutoClearFeatures {
    type V = u64;

    closed spec fn view(&self) -> u64 {
        self.bits
    }
}

impl AutoClearFeatures {
    /// Mask with the given bits.
    pub fn from_bits(bits: u64) -> (r: Self)
        ensures
            r@ == bits,
    {
        AutoClearFeatures { bits }
    }

    /// Mask stored on disk as `bytes`.
    pub fn from_bytes(bytes: [u8; 8]) -> (r: Self)
        ensures
            r@ == be_u64(bytes@, 0),
    {
        AutoClearFeatures { bits: feature_bits(bytes) }
    }

    /// All bits of the mask.
    pub fn bits(&self) -> (r: u64)
        ensures
            r == self@,
    {
        self.bits
    }

    /// Bitmaps extension bit (bit 0).
    pub fn bitmap_extension(&self) -> (r: bool)
        ensures
            r == has_bit(self@, BITMAP_EXTENSION),
    {
        self.bits & BITMAP_EXTENSION != 0
    }

    /// Raw external data bit (bit 1).
    pub fn raw_external_data(&self) -> (r: bool)
        ensures
            r == has_bit(self@, RAW_EXTERNAL_DATA),
    {
        self.bits & RAW_EXTERNAL_DATA != 0
    }

    /// The set bits that have no meaning known to this implementation.
    pub fn unknown_bits(&self) -> (r: u64)
        ensures
            r == self@ & !(BITMAP_EXTENSION | RAW_EXTERNAL_DATA),
    {
        self.bits & !(BITMAP_EXTENSION | RAW_EXTERNAL_DATA)
    }
}

} // verus!
