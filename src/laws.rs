//! Properties that hold of every image and every read.
use vstd::prelude::*;

use crate::bytes::{be_u32, be_u64, in_bounds};
use crate::decompress::decoded;
use crate::error::ParseError;
use crate::features::KNOWN_INCOMPATIBLE;
use crate::header::{CompressionType, EncryptionMethod};
use crate::levels::{
    cluster_len, is_compressed_entry, is_zero_entry, l2_len, l2_offset_of, l2_table_at,
    standard_offset_of,
};
use crate::qcow::{is_v1_image, qcow2_accepts, Qcow2};
use crate::reader::{guest_byte, read_len, unsupported_layout};

verus! {

/// Index of the L1 entry that covers guest offset `g`.
pub open spec fn l1_index_of(q: &Qcow2, g: int) -> int {
    (g / cluster_len(q.header.cluster_bits) as int) / l2_len(q.header.cluster_bits) as int
}

/// Index, within its L2 table, of the entry that covers guest offset `g`.
pub open spec fn l2_index_of(q: &Qcow2, g: int) -> int {
    (g / cluster_len(q.header.cluster_bits) as int) % l2_len(q.header.cluster_bits) as int
}

/// The L2 entry that covers guest offset `g`, when its L1 entry refers to a table the image
/// holds.
pub open spec fn covering_entry(q: &Qcow2, image: Seq<u8>, g: int) -> Option<u64> {
    let i = l1_index_of(q, g);
    if 0 <= i < q.l1_table@.len() && l2_offset_of(q.l1_table@[i].0) != 0 {
        match l2_table_at(image, l2_offset_of(q.l1_table@[i].0), q.header.cluster_bits) {
            Some(t) => Some(t[l2_index_of(q, g)]),
            None => None,
        }
    } else {
        None
    }
}

/// A parsed image holds exactly as many L1 entries and snapshots as its header announces.
pub proof fn lemma_tables_match_header(q: &Qcow2, image: Seq<u8>)
    requires
        qcow2_accepts(q, image),
    ensures
        q.l1_table@.len() == q.header.l1_size,
        q.snapshots@.len() == q.header.nb_snapshots,
{
}

/// Every byte of a cluster whose L2 entry has neither the ZERO nor the COMPRESSED bit and
/// host offset 0 reads as zero.
pub proof fn lemma_unallocated_cluster_reads_zero(q: &Qcow2, image: Seq<u8>, g: int)
    requires
        q.wf(),
        0 <= g,
        !unsupported_layout(&q.header),
        covering_entry(q, image, g) matches Some(raw) && !is_zero_entry(raw)
            && !is_compressed_entry(raw) && standard_offset_of(raw) == 0,
    ensures
        guest_byte(q, image, g) == Ok::<u8, ParseError>(0),
{
}

/// Two reads of the same guest range of the same image return the same bytes: what a read
/// returns depends on the position and the image alone, not on earlier reads, seeks or the
/// reader's caches.
pub proof fn lemma_reads_agree(q: &Qcow2, image: Seq<u8>, p: int, a: Seq<u8>, b: Seq<u8>, n: int)
    requires
        0 <= n <= a.len(),
        n <= b.len(),
        forall|i: int| 0 <= i < n ==> guest_byte(q, image, p + i) == Ok::<u8, ParseError>(a[i]),
        forall|i: int| 0 <= i < n ==> guest_byte(q, image, p + i) == Ok::<u8, ParseError>(b[i]),
    ensures
        a.subrange(0, n) == b.subrange(0, n),
{
    assert forall|i: int| 0 <= i < n implies a[i] == b[i] by {
        assert(guest_byte(q, image, p + i) == Ok::<u8, ParseError>(a[i]));
    }
    assert(a.subrange(0, n) =~= b.subrange(0, n));
}

/// A read of `n` bytes at `p` returns as many bytes as a read of `k` bytes at `p` followed by
/// a read of `n - k` bytes at `p + k`.
pub proof fn lemma_read_len_splits(size: u64, p: u64, n: int, k: int)
    requires
        0 <= k <= n,
        p + k <= u64::MAX,
    ensures
        read_len(size, p, n) == read_len(size, p, k) + read_len(size, (p + k) as u64, n - k),
{
}

/// The bytes of one read of `s.len()` bytes at `p` are the bytes of a read of `s1.len()` bytes
/// at `p` followed by those of a read of `s2.len()` bytes where the first one ended.
pub proof fn lemma_read_splits(
    q: &Qcow2,
    image: Seq<u8>,
    p: int,
    s: Seq<u8>,
    s1: Seq<u8>,
    s2: Seq<u8>,
)
    requires
        s.len() == s1.len() + s2.len(),
        forall|i: int|
            0 <= i < s.len() ==> guest_byte(q, image, p + i) == Ok::<u8, ParseError>(s[i]),
        forall|i: int|
            0 <= i < s1.len() ==> guest_byte(q, image, p + i) == Ok::<u8, ParseError>(s1[i]),
        forall|i: int|
            0 <= i < s2.len() ==> guest_byte(q, image, p + s1.len() + i) == Ok::<u8, ParseError>(
                s2[i],
            ),
    ensures
        s == s1 + s2,
{
    assert forall|i: int| 0 <= i < s.len() implies s[i] == (s1 + s2)[i] by {
        assert(guest_byte(q, image, p + i) == Ok::<u8, ParseError>(s[i]));
        if i >= s1.len() {
            let j = i - s1.len();
            assert(guest_byte(q, image, p + s1.len() + j) == Ok::<u8, ParseError>(s2[j]));
            assert(p + s1.len() + j == p + i);
        }
    }
    assert(s =~= s1 + s2);
}

/// Decompressing the same payload twice gives the same bytes.
pub proof fn lemma_decompression_repeatable(
    ct: CompressionType,
    data: Seq<u8>,
    n: nat,
    a: Seq<u8>,
    b: Seq<u8>,
)
    requires
        decoded(ct, data, n) == Some(a),
        decoded(ct, data, n) == Some(b),
    ensures
        a == b,
{
}

/// A read at the end of the disk returns no bytes.
pub proof fn lemma_read_at_end(size: u64, n: int)
    ensures
        read_len(size, size, n) == 0,
{
}

/// A read that crosses the end of the disk returns the bytes up to the end, and the next read
/// returns none.
pub proof fn lemma_read_across_end(size: u64, p: u64, n: int)
    requires
        p < size,
        n > size - p,
    ensures
        read_len(size, p, n) == size - p,
        read_len(size, (p + read_len(size, p, n)) as u64, n) == 0,
{
}

/// A version 3 image with an incompatible feature bit unknown to this implementation does not
/// parse.
pub proof fn lemma_unknown_incompatible_rejected(q: &Qcow2, image: Seq<u8>)
    requires
        in_bounds(image, 0, 104),
        be_u32(image, 4) == 3,
        be_u64(image, 72) & !KNOWN_INCOMPATIBLE != 0,
    ensures
        !qcow2_accepts(q, image),
        !is_v1_image(image),
{
}

/// On an encrypted image, reading an allocated cluster fails.
pub proof fn lemma_encrypted_cluster_fails(q: &Qcow2, image: Seq<u8>, g: int)
    requires
        q.wf(),
        0 <= g,
        q.header.crypt_method != EncryptionMethod::Unencrypted,
        !unsupported_layout(&q.header),
        covering_entry(q, image, g) matches Some(raw) && (is_compressed_entry(raw) || (
        !is_zero_entry(raw) && standard_offset_of(raw) != 0)),
    ensures
        guest_byte(q, image, g) == Err::<u8, ParseError>(ParseError::EncryptedCluster),
{
}

} // verus!
