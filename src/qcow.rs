use vstd::prelude::*;

use crate::bytes::{be_u32, be_u64, in_bounds, read_u32_at, read_u64_at};
use crate::error::{Error, ParseError};
use crate::header::{fixed_header_error, header_accepts, header_rejects, parse_header, QcowHeader};
use crate::levels::{valid_cluster_bits, L1Entry};
use crate::snapshot::{parse_snapshots, snapshot_matches, snapshot_positions, Snapshot};
use crate::v1::{parse_v1_header, v1_header_error, v1_header_fields, Qcow1Header};
use vstd::arithmetic::power2::pow2;

verus! {

/// A parsed version 2 or 3 image.
#[derive(Debug)]
pub struct Qcow2 {
    /// Header of the image.
    pub header: QcowHeader,
    /// Snapshots of the image, in table order.
    pub snapshots: Vec<Snapshot>,
    /// The active L1 table.
    pub l1_table: Vec<L1Entry>,
}

/// A parsed version 1 image.
#[derive(Debug)]
pub struct Qcow1 {
    /// Header of the image.
    pub header: Qcow1Header,
}

impl Qcow2 {
    /// The container is consistent with its header.
    pub open spec fn wf(&self) -> bool {
        &&& valid_cluster_bits(self.header.cluster_bits)
        &&& self.l1_table@.len() == self.header.l1_size
        &&& self.snapshots@.len() == self.header.nb_snapshots
    }

    /// Size of a cluster in bytes.
    pub fn cluster_size(&self) -> (r: u64)
        requires
            self.header.cluster_bits < 64,
        ensures
            r == pow2(self.header.cluster_bits as nat),
    {
        self.header.cluster_size()
    }
}

impl Qcow1 {
    /// Size of a cluster in bytes.
    pub fn cluster_size(&self) -> (r: u64)
        requires
            self.header.cluster_bits < 64,
        ensures
            r == pow2(self.header.cluster_bits as nat),
    {
        self.header.cluster_size()
    }
}

/// Whether `t` is the table of `n` L1 entries stored at `offset`.
pub open spec fn l1_table_matches(t: Seq<L1Entry>, image: Seq<u8>, offset: u64, n: u32) -> bool {
    &&& t.len() == n
    &&& forall|i: int| 0 <= i < n ==> (#[trigger] t[i]).0 == be_u64(image, offset + 8 * i)
}

/// Parses the L1 table of `n` entries at `offset`.
pub fn parse_l1_table(image: &[u8], offset: u64, n: u32) -> (r: Result<Vec<L1Entry>, ParseError>)
    ensures
        match r {
            Ok(t) => in_bounds(image@, offset as int, 8 * n) && l1_table_matches(
                t@,
                image@,
                offset,
                n,
            ),
            Err(e) => !in_bounds(image@, offset as int, 8 * n) && e == ParseError::Truncated,
        },
{
    let len = image.len() as u64;
    let bytes = 8 * (n as u64);
    if bytes > len || offset > len - bytes {
        return Err(ParseError::Truncated);
    }
    let mut t: Vec<L1Entry> = Vec::new();
    let mut i: u32 = 0;
    while i < n
        invariant
            offset + bytes <= image@.len(),
            bytes == 8 * n,
            len == image@.len(),
            i <= n,
            t@.len() == i,
            forall|k: int| 0 <= k < i ==> (#[trigger] t@[k]).0 == be_u64(image@, offset + 8 * k),
        decreases n - i,
    {
        let v = read_u64_at(image, offset + 8 * (i as u64))?;
        t.push(L1Entry(v));
        i = i + 1;
    }
    Ok(t)
}

/// Whether `q` is the version 2 or 3 image stored in `image`.
pub open spec fn qcow2_accepts(q: &Qcow2, image: Seq<u8>) -> bool {
    &&& header_accepts(&q.header, image)
    &&& snapshot_positions(
        image,
        q.header.snapshots_offset as int,
        q.header.nb_snapshots as nat,
    ) matches Some(ps)
    &&& q.snapshots@.len() == q.header.nb_snapshots
    &&& forall|i: int|
        0 <= i < q.snapshots@.len() ==> snapshot_matches(&#[trigger] q.snapshots@[i], image, ps[i])
    &&& l1_table_matches(q.l1_table@, image, q.header.l1_table_offset, q.header.l1_size)
}

/// Whether parsing `image` as a version 2 or 3 image fails with `e`.
pub open spec fn qcow2_rejects(image: Seq<u8>, e: ParseError) -> bool {
    ||| header_rejects(image, e)
    ||| {
        &&& fixed_header_error(image) is None
        &&& e == ParseError::Truncated
        &&& {
            ||| snapshot_positions(image, be_u64(image, 64) as int, be_u32(image, 60) as nat) is None
            ||| !in_bounds(image, be_u64(image, 40) as int, 8 * be_u32(image, 36))
        }
    }
}

/// Parses a version 2 or 3 image: header, snapshot table and active L1 table.
pub fn parse_qcow2(image: &[u8]) -> (r: Result<Qcow2, ParseError>)
    requires
        image@.len() <= isize::MAX,
    ensures
        match r {
            Ok(q) => q.wf() && qcow2_accepts(&q, image@),
            Err(e) => qcow2_rejects(image@, e),
        },
{
    let header = parse_header(image)?;
    let snapshots = parse_snapshots(image, header.snapshots_offset, header.nb_snapshots)?;
    let l1_table = parse_l1_table(image, header.l1_table_offset, header.l1_size)?;
    Ok(Qcow2 { header, snapshots, l1_table })
}

/// The characters of an optional name.
pub open spec fn name_view(s: Option<String>) -> Option<Seq<char>> {
    match s {
        Some(s) => Some(s@),
        None => None,
    }
}

/// An image of any version.
#[derive(Debug)]
pub enum DynamicQcow {
    /// A version 1 image.
    Qcow1(Qcow1),
    /// A version 2 or 3 image.
    Qcow2(Qcow2),
}

impl DynamicQcow {
    /// The snapshots of the image: none for version 1.
    pub fn snapshots(&self) -> (r: &[Snapshot])
        ensures
            match self {
                DynamicQcow::Qcow2(q) => r@ == q.snapshots@,
                DynamicQcow::Qcow1(_) => r@.len() == 0,
            },
    {
        match self {
            DynamicQcow::Qcow2(q) => q.snapshots.as_slice(),
            DynamicQcow::Qcow1(_) => &[],
        }
    }

    /// Format version of the image.
    pub fn version(&self) -> (r: u32)
        ensures
            match self {
                DynamicQcow::Qcow2(q) => r == q.header.version,
                DynamicQcow::Qcow1(_) => r == 1,
            },
    {
        match self {
            DynamicQcow::Qcow2(q) => q.header.version,
            DynamicQcow::Qcow1(_) => 1,
        }
    }

    /// Size of a cluster in bytes.
    pub fn cluster_size(&self) -> (r: u64)
        requires
            match self {
                DynamicQcow::Qcow2(q) => q.header.cluster_bits < 64,
                DynamicQcow::Qcow1(q) => q.header.cluster_bits < 64,
            },
        ensures
            match self {
                DynamicQcow::Qcow2(q) => r == pow2(q.header.cluster_bits as nat),
                DynamicQcow::Qcow1(q) => r == pow2(q.header.cluster_bits as nat),
            },
    {
        match self {
            DynamicQcow::Qcow2(q) => q.cluster_size(),
            DynamicQcow::Qcow1(q) => q.cluster_size(),
        }
    }

    /// Name of the backing file, if any.
    pub fn backing_file(&self) -> (r: Option<String>)
        ensures
            match self {
                DynamicQcow::Qcow2(q) => name_view(r) == name_view(q.header.backing_file),
                DynamicQcow::Qcow1(q) => name_view(r) == name_view(q.header.backing_file),
            },
    {
        let name = match self {
            DynamicQcow::Qcow2(q) => &q.header.backing_file,
            DynamicQcow::Qcow1(q) => &q.header.backing_file,
        };
        match name {
            Some(s) => Some(s.clone()),
            None => None,
        }
    }

    /// The version 1 image.
    pub fn unwrap_qcow1(self) -> (r: Qcow1)
        requires
            self is Qcow1,
        ensures
            self == DynamicQcow::Qcow1(r),
    {
        match self {
            DynamicQcow::Qcow1(q) => q,
            DynamicQcow::Qcow2(_) => unreached(),
        }
    }

    /// The version 2 or 3 image.
    pub fn unwrap_qcow2(self) -> (r: Qcow2)
        requires
            self is Qcow2,
        ensures
            self == DynamicQcow::Qcow2(r),
    {
        match self {
            DynamicQcow::Qcow2(q) => q,
            DynamicQcow::Qcow1(_) => unreached(),
        }
    }
}

/// Whether `image` starts with the magic and the version 1 number.
pub open spec fn is_v1_image(image: Seq<u8>) -> bool {
    in_bounds(image, 0, 8) && be_u32(image, 0) == crate::header::QCOW_MAGIC && be_u32(image, 4)
        == 1
}

/// Parses an image held in memory, dispatching on its version field.
pub fn load_from_memory(bytes: &[u8]) -> (r: Result<DynamicQcow, Error>)
    requires
        bytes@.len() <= isize::MAX,
    ensures
        is_v1_image(bytes@) ==> match r {
            Ok(d) => d matches DynamicQcow::Qcow1(q) && v1_header_error(bytes@) is None
                && v1_header_fields(&q.header, bytes@),
            Err(e) => e matches Error::ParseError(pe) && v1_header_error(bytes@) == Some(pe),
        },
        !is_v1_image(bytes@) ==> match r {
            Ok(d) => d matches DynamicQcow::Qcow2(q) && q.wf() && qcow2_accepts(&q, bytes@),
            Err(e) => e matches Error::ParseError(pe) && qcow2_rejects(bytes@, pe),
        },
{
    let is_v1 = match (read_u32_at(bytes, 0), read_u32_at(bytes, 4)) {
        (Ok(magic), Ok(version)) => magic == crate::header::QCOW_MAGIC && version == 1,
        _ => false,
    };
    if is_v1 {
        match parse_v1_header(bytes) {
            Ok(header) => Ok(DynamicQcow::Qcow1(Qcow1 { header })),
            Err(e) => Err(Error::ParseError(e)),
        }
    } else {
        match parse_qcow2(bytes) {
            Ok(q) => Ok(DynamicQcow::Qcow2(q)),
            Err(e) => Err(Error::ParseError(e)),
        }
    }
}

} // verus!
