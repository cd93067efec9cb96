use vstd::prelude::*;
use vstd::arithmetic::power2::pow2;
use vstd::bits::{lemma_u64_pow2_no_overflow, lemma_u64_shl_is_mul};

use crate::bytes::{be_u64, read_u64_at};
use crate::error::ParseError;

verus! {

/// Smallest supported `cluster_bits` (512-byte clusters).
pub const MIN_CLUSTER_BITS: u32 = 9;
/// Largest supported `cluster_bits` (2 GiB clusters).
pub const MAX_CLUSTER_BITS: u32 = 31;

/// Entry bit 63: the cluster is used exactly once.
pub const COPIED: u64 = 0x8000_0000_0000_0000;
/// L2 entry bit 62: the cluster is compressed.
pub const COMPRESSED: u64 = 0x4000_0000_0000_0000;
/// Standard L2 entry bit 0: the cluster reads as zeros.
pub const ZERO: u64 = 0x1;
/// Bits 9 to 55: offset of an L2 table or of a standard cluster.
pub const OFFSET_MASK: u64 = 0x00ff_ffff_ffff_fe00;
/// Bits 0 to 61: the descriptor of a compressed cluster.
pub const DESCRIPTOR_MASK: u64 = 0x3fff_ffff_ffff_ffff;

/// Whether `cluster_bits` lies in the supported range.
pub open spec fn valid_cluster_bits(cluster_bits: u32) -> bool {
    MIN_CLUSTER_BITS <= cluster_bits <= MAX_CLUSTER_BITS
}

/// Bytes in a cluster: `1 << cluster_bits`.
pub open spec fn cluster_len(cluster_bits: u32) -> nat {
    pow2(cluster_bits as nat)
}

/// Entries in an L2 table, which fills one cluster with 8-byte entries.
pub open spec fn l2_len(cluster_bits: u32) -> nat {
    cluster_len(cluster_bits) / 8
}

/// Computes `1 << bits`.
pub fn shl_one(bits: u32) -> (r: u64)
    requires
        bits < 64,
    ensures
        r == pow2(bits as nat),
{
    proof {
        lemma_u64_pow2_no_overflow(bits as nat);
        lemma_u64_shl_is_mul(1, bits as u64);
    }
    1u64 << (bits as u64)
}

/// Facts about the cluster size for supported `cluster_bits`.
pub proof fn lemma_cluster_len(cluster_bits: u32)
    requires
        valid_cluster_bits(cluster_bits),
    ensures
        512 <= cluster_len(cluster_bits) <= 0x8000_0000,
        cluster_len(cluster_bits) % 8 == 0,
        l2_len(cluster_bits) * 8 == cluster_len(cluster_bits),
        l2_len(cluster_bits) >= 64,
{
    let c = cluster_bits as nat;
    vstd::arithmetic::power2::lemma_pow2_adds(3, (c - 3) as nat);
    vstd::arithmetic::power2::lemma_pow2_strictly_increases(c, 32);
    vstd::arithmetic::power2::lemma_pow2_pos((c - 3) as nat);
    if c > 9 {
        vstd::arithmetic::power2::lemma_pow2_strictly_increases(6, (c - 3) as nat);
    }
    vstd::arithmetic::power2::lemma2_to64();
}

/// An entry of the L1 table, locating one L2 table.
#[derive(Debug, Clone, Copy, PartialEq, Eq, Structural)]
pub struct L1Entry(pub u64);

/// Offset of the L2 table that an L1 entry refers to (0: none).
pub open spec fn l2_offset_of(raw: u64) -> u64 {
    raw & OFFSET_MASK
}

/// The L2 table at `offset` as a sequence of raw entries, if the image holds it whole.
pub open spec fn l2_table_at(image: Seq<u8>, offset: u64, cluster_bits: u32) -> Option<Seq<u64>> {
    if offset + cluster_len(cluster_bits) <= image.len() {
        Some(Seq::new(l2_len(cluster_bits), |i: int| be_u64(image, offset + 8 * i)))
    } else {
        None
    }
}

impl L1Entry {
    /// Whether the COPIED bit is set.
    pub fn copied(&self) -> (r: bool)
        ensures
            r == (self.0 & COPIED != 0),
    {
        self.0 & COPIED != 0
    }

    /// Offset of the referenced L2 table; 0 when the range is unallocated.
    pub fn l2_offset(&self) -> (r: u64)
        ensures
            r == l2_offset_of(self.0),
    {
        self.0 & OFFSET_MASK
    }

    /// Loads the referenced L2 table from `image`: `None` when the entry refers to no table.
    pub fn read_l2(&self, image: &[u8], cluster_bits: u32) -> (r: Result<
        Option<Vec<L2Entry>>,
        ParseError,
    >)
        requires
            valid_cluster_bits(cluster_bits),
        ensures
            l2_offset_of(self.0) == 0 ==> r == Ok::<Option<Vec<L2Entry>>, ParseError>(None),
            l2_offset_of(self.0) != 0 ==> match r {
                Ok(Some(t)) => l2_table_at(image@, l2_offset_of(self.0), cluster_bits) == Some(
                    t@.map_values(|e: L2Entry| e.0),
                ),
                Ok(None) => false,
                Err(e) => l2_table_at(image@, l2_offset_of(self.0), cluster_bits).is_none() && e
                    == ParseError::Truncated,
            },
    {
        let offset = self.l2_offset();
        if offset == 0 {
            return Ok(None);
        }
        let raw = read_l2_table(image, offset, cluster_bits)?;
        let mut t: Vec<L2Entry> = Vec::new();
        let mut i: usize = 0;
        while i < raw.len()
            invariant
                i <= raw@.len(),
                t@.len() == i,
                forall|k: int| 0 <= k < i ==> t@[k].0 == raw@[k],
            decreases raw@.len() - i,
        {
            t.push(L2Entry(raw[i]));
            i = i + 1;
        }
        assert(t@.map_values(|e: L2Entry| e.0) =~= raw@);
        Ok(Some(t))
    }
}

/// Loads the raw entries of the L2 table at `offset`.
pub fn read_l2_table(image: &[u8], offset: u64, cluster_bits: u32) -> (r: Result<
    Vec<u64>,
    ParseError,
>)
    requires
        valid_cluster_bits(cluster_bits),
    ensures
        match r {
            Ok(t) => l2_table_at(image@, offset, cluster_bits) == Some(t@),
            Err(e) => l2_table_at(image@, offset, cluster_bits).is_none() && e
                == ParseError::Truncated,
        },
{
    proof {
        lemma_cluster_len(cluster_bits);
    }
    let c = shl_one(cluster_bits);
    let len = image.len() as u64;
    if c > len || offset > len - c {
        return Err(ParseError::Truncated);
    }
    let n = c / 8;
    let mut t: Vec<u64> = Vec::new();
    let mut i: u64 = 0;
    while i < n
        invariant
            n == l2_len(cluster_bits),
            n * 8 == c,
            offset + c <= image@.len(),
            len == image@.len(),
            i <= n,
            t@.len() == i,
            forall|k: int| 0 <= k < i ==> t@[k] == be_u64(image@, offset + 8 * k),
        decreases n - i,
    {
        let v = read_u64_at(image, offset + 8 * i)?;
        t.push(v);
        i = i + 1;
    }
    assert(t@ =~= Seq::new(l2_len(cluster_bits), |k: int| be_u64(image@, offset + 8 * k)));
    Ok(t)
}

/// An entry of an L2 table, describing one guest cluster.
#[derive(Debug, Clone, Copy, PartialEq, Eq, Structural)]
pub struct L2Entry(pub u64);

/// Whether the entry describes a compressed cluster.
pub open spec fn is_compressed_entry(raw: u64) -> bool {
    raw & COMPRESSED != 0
}

/// Whether a standard entry has its ZERO bit set.
pub open spec fn is_zero_entry(raw: u64) -> bool {
    raw & ZERO != 0
}

/// Host offset of a standard cluster (0: unallocated).
pub open spec fn standard_offset_of(raw: u64) -> u64 {
    raw & OFFSET_MASK
}

/// Number of low descriptor bits that count the extra sectors of a compressed cluster.
pub open spec fn sector_count_bits(cluster_bits: u32) -> u64 {
    (cluster_bits - 8) as u64
}

/// Sectors beyond the first that a compressed cluster's payload spans.
pub open spec fn extra_sectors_of(raw: u64, cluster_bits: u32) -> u64 {
    raw & ((pow2(sector_count_bits(cluster_bits) as nat) - 1) as u64)
}

/// Host byte offset at which a compressed cluster's payload starts.
pub open spec fn compressed_offset_of(raw: u64, cluster_bits: u32) -> u64 {
    (raw & DESCRIPTOR_MASK) >> sector_count_bits(cluster_bits)
}

/// Length in bytes of a compressed cluster's payload: up to the end of its last sector.
pub open spec fn compressed_len_of(raw: u64, cluster_bits: u32) -> int {
    512 * (extra_sectors_of(raw, cluster_bits) + 1) - compressed_offset_of(raw, cluster_bits) % 512
}

impl L2Entry {
    /// Whether the COPIED bit is set.
    pub fn copied(&self) -> (r: bool)
        ensures
            r == (self.0 & COPIED != 0),
    {
        self.0 & COPIED != 0
    }

    /// Whether the cluster is compressed.
    pub fn is_compressed(&self) -> (r: bool)
        ensures
            r == is_compressed_entry(self.0),
    {
        self.0 & COMPRESSED != 0
    }

    /// Whether a standard cluster reads as zeros because of its ZERO bit.
    pub fn is_zero(&self) -> (r: bool)
        ensures
            r == is_zero_entry(self.0),
    {
        self.0 & ZERO != 0
    }

    /// Host offset of a standard cluster.
    pub fn host_offset(&self) -> (r: u64)
        ensures
            r == standard_offset_of(self.0),
    {
        self.0 & OFFSET_MASK
    }

    /// Host offset and payload length of a compressed cluster.
    pub fn compressed_range(&self, cluster_bits: u32) -> (r: (u64, u64))
        requires
            valid_cluster_bits(cluster_bits),
        ensures
            r.0 == compressed_offset_of(self.0, cluster_bits),
            r.1 == compressed_len_of(self.0, cluster_bits),
    {
        let x: u64 = (cluster_bits - 8) as u64;
        let raw = self.0;
        let p = shl_one(cluster_bits - 8);
        proof {
            vstd::arithmetic::power2::lemma2_to64();
            if x < 23 {
                vstd::arithmetic::power2::lemma_pow2_strictly_increases(x as nat, 23);
            }
        }
        let mask = p - 1;
        let extra = raw & mask;
        assert(raw & mask <= mask) by (bit_vector);
        let offset = (raw & DESCRIPTOR_MASK) >> x;
        (offset, 512 * (extra + 1) - offset % 512)
    }
}

} // verus!
