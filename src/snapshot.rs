use vstd::prelude::*;

use crate::bytes::{
    align8, be_u16, be_u32, be_u64, in_bounds, read_exact_at, read_string_at, read_u16_at,
    read_u32_at, read_u64_at, trim_nuls, utf8_lossy,
};
use crate::error::ParseError;

verus! {

/// An entry of the snapshot table.
#[derive(Debug)]
pub struct Snapshot {
    /// Offset of the snapshot's L1 table in the image.
    pub l1_table_offset: u64,
    /// Number of entries in the snapshot's L1 table.
    pub l1_size: u32,
    /// Unique identifier of the snapshot.
    pub unique_id: String,
    /// Display name of the snapshot.
    pub name: String,
    /// Time the snapshot was taken: seconds since the epoch.
    pub date_seconds: u32,
    /// Time the snapshot was taken: nanoseconds within the second.
    pub date_nanoseconds: u32,
    /// Guest clock when the snapshot was taken, in nanoseconds.
    pub vm_clock_nanoseconds: u64,
    /// Size of the saved VM state in bytes.
    pub vm_state_size: u32,
    /// Extra data of the entry.
    pub extra_data: Vec<u8>,
}

/// Offset just past the snapshot table entry at `pos`, before its padding.
pub open spec fn snapshot_end(image: Seq<u8>, pos: int) -> int {
    pos + 40 + be_u32(image, pos + 36) + be_u16(image, pos + 12) + be_u16(image, pos + 14)
}

/// Whether the snapshot table entry at `pos` lies inside the image.
pub open spec fn snapshot_fits(image: Seq<u8>, pos: int) -> bool {
    in_bounds(image, pos, 40) && snapshot_end(image, pos) <= image.len()
}

/// Offsets of the `n` consecutive snapshot table entries from `pos` on, each entry starting
/// at the multiple of 8 that follows the previous one; `None` when one runs past the image.
pub open spec fn snapshot_positions(image: Seq<u8>, pos: int, n: nat) -> Option<Seq<int>>
    decreases n,
{
    if n == 0 {
        Some(Seq::empty())
    } else if !snapshot_fits(image, pos) {
        None
    } else {
        match snapshot_positions(image, align8(snapshot_end(image, pos)), (n - 1) as nat) {
            Some(rest) => Some(seq![pos] + rest),
            None => None,
        }
    }
}

/// Whether `s` is the snapshot table entry stored at `pos`.
pub open spec fn snapshot_matches(s: &Snapshot, image: Seq<u8>, pos: int) -> bool {
    let extra = be_u32(image, pos + 36) as int;
    let id_len = be_u16(image, pos + 12) as int;
    let name_len = be_u16(image, pos + 14) as int;
    let id_at = pos + 40 + extra;
    let name_at = id_at + id_len;
    &&& s.l1_table_offset == be_u64(image, pos)
    &&& s.l1_size == be_u32(image, pos + 8)
    &&& s.date_seconds == be_u32(image, pos + 16)
    &&& s.date_nanoseconds == be_u32(image, pos + 20)
    &&& s.vm_clock_nanoseconds == be_u64(image, pos + 24)
    &&& s.vm_state_size == be_u32(image, pos + 32)
    &&& s.extra_data@ == image.subrange(pos + 40, id_at)
    &&& s.unique_id@ == utf8_lossy(trim_nuls(image.subrange(id_at, name_at)))
    &&& s.name@ == utf8_lossy(trim_nuls(image.subrange(name_at, name_at + name_len)))
}

/// Parses the snapshot table entry at `pos`.
fn parse_snapshot(image: &[u8], pos: u64) -> (r: Result<Snapshot, ParseError>)
    ensures
        match r {
            Ok(s) => snapshot_fits(image@, pos as int) && snapshot_matches(&s, image@, pos as int),
            Err(e) => !snapshot_fits(image@, pos as int) && e == ParseError::Truncated,
        },
{
    let len = image.len() as u64;
    if len < 40 || pos > len - 40 {
        return Err(ParseError::Truncated);
    }
    let l1_table_offset = read_u64_at(image, pos)?;
    let l1_size = read_u32_at(image, pos + 8)?;
    let id_len = read_u16_at(image, pos + 12)?;
    let name_len = read_u16_at(image, pos + 14)?;
    let date_seconds = read_u32_at(image, pos + 16)?;
    let date_nanoseconds = read_u32_at(image, pos + 20)?;
    let vm_clock_nanoseconds = read_u64_at(image, pos + 24)?;
    let vm_state_size = read_u32_at(image, pos + 32)?;
    let extra_len = read_u32_at(image, pos + 36)?;
    let rest = (extra_len as u64) + (id_len as u64) + (name_len as u64);
    if rest > len - pos - 40 {
        return Err(ParseError::Truncated);
    }
    let extra_data = read_exact_at(image, pos + 40, extra_len as u64)?;
    let id_at = pos + 40 + extra_len as u64;
    let unique_id = read_string_at(image, id_at, id_len as u64)?;
    let name = read_string_at(image, id_at + id_len as u64, name_len as u64)?;
    Ok(
        Snapshot {
            l1_table_offset,
            l1_size,
            unique_id,
            name,
            date_seconds,
            date_nanoseconds,
            vm_clock_nanoseconds,
            vm_state_size,
            extra_data,
        },
    )
}

/// Parses the `count` entries of the snapshot table at `offset`.
pub fn parse_snapshots(image: &[u8], offset: u64, count: u32) -> (r: Result<
    Vec<Snapshot>,
    ParseError,
>)
    requires
        image@.len() <= isize::MAX,
    ensures
        match r {
            Ok(v) => snapshot_positions(image@, offset as int, count as nat) matches Some(ps)
                && v@.len() == count && forall|i: int|
                0 <= i < count ==> snapshot_matches(&#[trigger] v@[i], image@, ps[i]),
            Err(e) => snapshot_positions(image@, offset as int, count as nat) is None && e
                == ParseError::Truncated,
        },
{
    let ghost img = image@;
    let len = image.len() as u64;
    let mut v: Vec<Snapshot> = Vec::new();
    let ghost mut done: Seq<int> = Seq::empty();
    let mut pos = offset;
    let mut i: u32 = 0;
    while i < count
        invariant
            img == image@,
            len == image@.len(),
            len <= isize::MAX,
            i <= count,
            v@.len() == i,
            done.len() == i,
            forall|k: int| 0 <= k < i ==> snapshot_matches(&#[trigger] v@[k], img, done[k]),
            snapshot_positions(img, offset as int, count as nat) == match snapshot_positions(
                img,
                pos as int,
                (count - i) as nat,
            ) {
                Some(rest) => Some(done + rest),
                None => None::<Seq<int>>,
            },
        decreases count - i,
    {
        let s = parse_snapshot(image, pos)?;
        let end = pos + 40 + s.extra_data.len() as u64 + (read_u16_at(image, pos + 12)? as u64)
            + (read_u16_at(image, pos + 14)? as u64);
        let next = if end % 8 == 0 {
            end
        } else {
            end + (8 - end % 8)
        };
        proof {
            let ghost_rest = snapshot_positions(img, next as int, (count - i - 1) as nat);
            if ghost_rest is Some {
                let rest = ghost_rest->Some_0;
                assert(done + (seq![pos as int] + rest) =~= (done + seq![pos as int]) + rest);
            }
            done = done + seq![pos as int];
        }
        v.push(s);
        pos = next;
        i = i + 1;
    }
    assert(done + Seq::<int>::empty() =~= done);
    Ok(v)
}

} // verus!
