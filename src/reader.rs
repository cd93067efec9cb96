use vstd::prelude::*;
use vstd::arithmetic::div_mod::{lemma_fundamental_div_mod, lemma_fundamental_div_mod_converse};

use crate::decompress::{decoded, decompress};
use crate::error::{Error, ParseError};
use crate::features::{has_bit, EXTENDED_L2, EXTERNAL_DATA_FILE};
use crate::header::{compression_of, EncryptionMethod, QcowHeader};
use crate::levels::{
    cluster_len, compressed_len_of, compressed_offset_of, is_compressed_entry, is_zero_entry,
    l2_len, l2_offset_of, l2_table_at, lemma_cluster_len, read_l2_table, shl_one,
    standard_offset_of, L2Entry,
};
use crate::qcow::Qcow2;

verus! {

/// Whether the header asks for a cluster layout that reads do not support: an external data
/// file or extended L2 entries.
pub open spec fn unsupported_layout(h: &QcowHeader) -> bool {
    match h.v3_header {
        Some(v3) => has_bit(v3.incompatible_features@, EXTERNAL_DATA_FILE) || has_bit(
            v3.incompatible_features@,
            EXTENDED_L2,
        ),
        None => false,
    }
}

/// The bytes of a compressed payload of `len` bytes at `offset`, cut at the end of the image.
pub open spec fn payload_at(image: Seq<u8>, offset: int, len: int) -> Seq<u8> {
    if offset + len <= image.len() {
        image.subrange(offset, offset + len)
    } else {
        image.subrange(offset, image.len() as int)
    }
}

/// Byte `intra` of the guest cluster that the L2 entry `raw` describes.
pub open spec fn entry_byte(h: &QcowHeader, image: Seq<u8>, raw: u64, intra: int) -> Result<
    u8,
    ParseError,
> {
    let cb = h.cluster_bits;
    if is_compressed_entry(raw) {
        let offset = compressed_offset_of(raw, cb) as int;
        if h.crypt_method != EncryptionMethod::Unencrypted {
            Err(ParseError::EncryptedCluster)
        } else if offset >= image.len() {
            Err(ParseError::Truncated)
        } else {
            match decoded(
                compression_of(h),
                payload_at(image, offset, compressed_len_of(raw, cb)),
                cluster_len(cb),
            ) {
                Some(d) => Ok(d[intra]),
                None => Err(ParseError::DecompressionFailed),
            }
        }
    } else if is_zero_entry(raw) || standard_offset_of(raw) == 0 {
        Ok(0)
    } else if h.crypt_method != EncryptionMethod::Unencrypted {
        Err(ParseError::EncryptedCluster)
    } else if standard_offset_of(raw) + intra < image.len() {
        Ok(image[standard_offset_of(raw) + intra])
    } else {
        Err(ParseError::Truncated)
    }
}

/// The guest byte at offset `g` of the virtual disk of `q`, whose image bytes are `image`:
/// the cluster `g / C` is found through L1 entry `(g / C) / E` and entry `(g / C) % E` of
/// that L2 table (`C` bytes per cluster, `E` entries per L2 table), and `g % C` is the offset
/// within it.
pub open spec fn guest_byte(q: &Qcow2, image: Seq<u8>, g: int) -> Result<u8, ParseError> {
    let cb = q.header.cluster_bits;
    let c = cluster_len(cb) as int;
    let e = l2_len(cb) as int;
    let cluster = g / c;
    let l1_index = cluster / e;
    let l2_index = cluster % e;
    let intra = g % c;
    if l1_index >= q.l1_table@.len() || l2_offset_of(q.l1_table@[l1_index].0) == 0 {
        Ok(0)
    } else if unsupported_layout(&q.header) {
        Err(ParseError::UnsupportedLayout)
    } else {
        match l2_table_at(image, l2_offset_of(q.l1_table@[l1_index].0), cb) {
            Some(t) => entry_byte(&q.header, image, t[l2_index], intra),
            None => Err(ParseError::Truncated),
        }
    }
}

/// Number of bytes a read of `n` bytes at guest offset `pos` returns on a disk of `size` bytes.
pub open spec fn read_len(size: u64, pos: u64, n: int) -> int {
    if pos >= size {
        0
    } else if n <= size - pos {
        n
    } else {
        size - pos
    }
}

/// Where a seek moves the position.
#[derive(Debug, Clone, Copy, PartialEq, Eq, Structural)]
pub enum SeekFrom {
    /// To the given offset.
    Start(u64),
    /// To the size of the virtual disk plus the given amount.
    End(i64),
    /// To the current position plus the given amount.
    Current(i64),
}

/// Offset a seek aims at from position `cur` on a disk of `size` bytes.
pub open spec fn seek_target(from: SeekFrom, cur: u64, size: u64) -> int {
    match from {
        SeekFrom::Start(n) => n as int,
        SeekFrom::End(d) => size + d,
        SeekFrom::Current(d) => cur + d,
    }
}

/// Offsets within one cluster share its index.
proof fn lemma_within_cluster(g: int, j: int, c: int)
    requires
        c > 0,
        g >= 0,
        0 <= j,
        g % c + j < c,
    ensures
        (g + j) / c == g / c,
        (g + j) % c == g % c + j,
{
    lemma_fundamental_div_mod(g, c);
    vstd::arithmetic::div_mod::lemma_mod_bound(g, c);
    vstd::arithmetic::mul::lemma_mul_is_commutative(c, g / c);
    lemma_fundamental_div_mod_converse(g + j, c, g / c, g % c + j);
}

/// Sequential reader of the virtual disk of a `Qcow2` whose image bytes it reads.
pub struct Reader<'a> {
    qcow: &'a Qcow2,
    image: &'a [u8],
    pos: u64,
    l2_cache: Option<(u64, Vec<u64>)>,
    cluster_cache: Option<(u64, u64, Vec<u8>)>,
}

impl<'a> Reader<'a> {
    /// The container whose disk is read.
    pub closed spec fn container(&self) -> &'a Qcow2 {
        self.qcow
    }

    /// The image bytes reads go to.
    pub closed spec fn source(&self) -> Seq<u8> {
        self.image@
    }

    /// The current guest position.
    pub closed spec fn pos(&self) -> u64 {
        self.pos
    }

    /// The caches agree with the image.
    pub closed spec fn wf(&self) -> bool {
        let q = self.qcow;
        let cb = q.header.cluster_bits;
        &&& q.wf()
        &&& match self.l2_cache {
            Some((i, t)) => {
                &&& i < q.l1_table@.len()
                &&& l2_offset_of(q.l1_table@[i as int].0) != 0
                &&& l2_table_at(self.image@, l2_offset_of(q.l1_table@[i as int].0), cb) == Some(
                    t@,
                )
            },
            None => true,
        }
        &&& match self.cluster_cache {
            Some((off, len, d)) => {
                &&& off < self.image@.len()
                &&& decoded(
                    compression_of(&q.header),
                    payload_at(self.image@, off as int, len as int),
                    cluster_len(cb),
                ) == Some(d@)
                &&& d@.len() == cluster_len(cb)
            },
            None => true,
        }
    }

    /// A reader at guest position 0 of the disk of `qcow`, whose image bytes are `image`.
    pub fn new(qcow: &'a Qcow2, image: &'a [u8]) -> (r: Self)
        requires
            qcow.wf(),
        ensures
            r.wf(),
            r.container() == qcow,
            r.source() == image@,
            r.pos() == 0,
    {
        Reader { qcow, image, pos: 0, l2_cache: None, cluster_cache: None }
    }

    /// The current guest position.
    pub fn position(&self) -> (r: u64)
        ensures
            r == self.pos(),
    {
        self.pos
    }

    /// Moves the guest position; positions past the end of the disk are allowed.
    pub fn seek(&mut self, from: SeekFrom) -> (r: Result<u64, Error>)
        requires
            old(self).wf(),
        ensures
            final(self).wf(),
            final(self).container() == old(self).container(),
            final(self).source() == old(self).source(),
            match r {
                Ok(p) => p == seek_target(from, old(self).pos(), old(self).container().header.size)
                    && final(self).pos() == p,
                Err(e) => {
                    let t = seek_target(from, old(self).pos(), old(self).container().header.size);
                    &&& t < 0 || t > u64::MAX
                    &&& e matches Error::ParseError(pe) && pe == ParseError::InvalidSeek
                    &&& final(self).pos() == old(self).pos()
                },
            },
    {
        let target: i128 = match from {
            SeekFrom::Start(n) => n as i128,
            SeekFrom::End(d) => self.qcow.header.size as i128 + d as i128,
            SeekFrom::Current(d) => self.pos as i128 + d as i128,
        };
        if target < 0 || target > u64::MAX as i128 {
            return Err(Error::ParseError(ParseError::InvalidSeek));
        }
        self.pos = target as u64;
        Ok(self.pos)
    }

    /// Raw entry `l2_index` of the L2 table that L1 entry `l1_index` refers to, through the
    /// one-table cache.
    fn l2_entry(&mut self, l1_index: u64, l2_index: u64) -> (r: Result<u64, ParseError>)
        requires
            old(self).wf(),
            l1_index < old(self).qcow.l1_table@.len(),
            l2_offset_of(old(self).qcow.l1_table@[l1_index as int].0) != 0,
            l2_index < l2_len(old(self).qcow.header.cluster_bits),
        ensures
            final(self).wf(),
            final(self).qcow == old(self).qcow,
            final(self).image == old(self).image,
            final(self).pos == old(self).pos,
            ({
                let q = old(self).qcow;
                let t = l2_table_at(
                    old(self).image@,
                    l2_offset_of(q.l1_table@[l1_index as int].0),
                    q.header.cluster_bits,
                );
                match r {
                    Ok(v) => t matches Some(t) && t[l2_index as int] == v,
                    Err(e) => t is None && e == ParseError::Truncated,
                }
            }),
    {
        let cb = self.qcow.header.cluster_bits;
        proof {
            lemma_cluster_len(cb);
        }
        if let Some((i, t)) = &self.l2_cache {
            if *i == l1_index {
                return Ok(t[l2_index as usize]);
            }
        }
        let offset = self.qcow.l1_table[l1_index as usize].l2_offset();
        let t = read_l2_table(self.image, offset, cb)?;
        let v = t[l2_index as usize];
        self.l2_cache = Some((l1_index, t));
        Ok(v)
    }

    /// Makes the cluster cache hold the decompressed cluster whose payload is `len` bytes
    /// at `offset`.
    fn load_compressed(&mut self, offset: u64, len: u64) -> (r: Result<(), ParseError>)
        requires
            old(self).wf(),
            offset < old(self).image@.len(),
        ensures
            final(self).wf(),
            final(self).qcow == old(self).qcow,
            final(self).image == old(self).image,
            final(self).pos == old(self).pos,
            final(self).l2_cache == old(self).l2_cache,
            ({
                let q = old(self).qcow;
                let d = decoded(
                    compression_of(&q.header),
                    payload_at(old(self).image@, offset as int, len as int),
                    cluster_len(q.header.cluster_bits),
                );
                match r {
                    Ok(_) => final(self).cluster_cache matches Some((o, l, _)) && o == offset && l
                        == len,
                    Err(e) => d is None && e == ParseError::DecompressionFailed,
                }
            }),
    {
        if let Some((o, l, _)) = &self.cluster_cache {
            if *o == offset && *l == len {
                return Ok(());
            }
        }
        let cb = self.qcow.header.cluster_bits;
        proof {
            lemma_cluster_len(cb);
        }
        let c = shl_one(cb);
        let image_len = self.image.len() as u64;
        let end = if len <= image_len - offset {
            offset + len
        } else {
            image_len
        };
        let payload = vstd::slice::slice_subrange(self.image, offset as usize, end as usize);
        assert(payload@ =~= payload_at(self.image@, offset as int, len as int));
        let d = decompress(self.qcow.header.compression_type(), payload, c as usize)?;
        self.cluster_cache = Some((offset, len, d));
        Ok(())
    }

    /// Fills `buf[start..start + len]` with the guest bytes at `g..g + len`, which lie in one
    /// cluster.
    fn fill(&mut self, g: u64, buf: &mut [u8], start: usize, len: usize) -> (r: Result<
        (),
        ParseError,
    >)
        requires
            old(self).wf(),
            len >= 1,
            start + len <= old(buf)@.len(),
            g as int % cluster_len(old(self).qcow.header.cluster_bits) as int + len <= cluster_len(
                old(self).qcow.header.cluster_bits,
            ),
        ensures
            final(self).wf(),
            final(self).qcow == old(self).qcow,
            final(self).image == old(self).image,
            final(self).pos == old(self).pos,
            final(buf)@.len() == old(buf)@.len(),
            forall|i: int|
                0 <= i < old(buf)@.len() && !(start <= i < start + len) ==> final(buf)@[i] == old(
                    buf,
                )@[i],
            match r {
                Ok(_) => forall|i: int|
                    start <= i < start + len ==> guest_byte(
                        old(self).qcow,
                        old(self).image@,
                        g + (i - start),
                    ) == Ok::<u8, ParseError>(final(buf)@[i]),
                Err(e) => exists|j: int|
                    0 <= j < len && #[trigger] guest_byte(old(self).qcow, old(self).image@, g + j)
                        == Err::<u8, ParseError>(e),
            },
    {
        let ghost q = self.qcow;
        let ghost img = self.image@;
        let cb = self.qcow.header.cluster_bits;
        proof {
            lemma_cluster_len(cb);
        }
        let c = shl_one(cb);
        let e = c / 8;
        let cluster = g / c;
        let l1_index = cluster / e;
        let l2_index = cluster % e;
        let intra = g % c;
        assert forall|j: int| 0 <= j < len implies #[trigger] ((g + j) / (c as int)) == cluster && (g + j) % (
        c as int) == intra + j by {
            lemma_within_cluster(g as int, j, c as int);
        }
        if l1_index >= self.qcow.l1_table.len() as u64
            || self.qcow.l1_table[l1_index as usize].l2_offset() == 0 {
            zero_fill(buf, start, len);
            return Ok(());
        }
        if let Some(v3) = &self.qcow.header.v3_header {
            if v3.incompatible_features.external_data_file()
                || v3.incompatible_features.extended_l2() {
                assert(guest_byte(q, img, g + 0) == Err::<u8, ParseError>(
                    ParseError::UnsupportedLayout,
                ));
                return Err(ParseError::UnsupportedLayout);
            }
        }
        let raw = match self.l2_entry(l1_index, l2_index) {
            Ok(raw) => raw,
            Err(err) => {
                assert(guest_byte(q, img, g + 0) == Err::<u8, ParseError>(err));
                return Err(err);
            },
        };
        let entry = L2Entry(raw);
        let encrypted = !matches!(self.qcow.header.crypt_method, EncryptionMethod::Unencrypted);
        if entry.is_compressed() {
            if encrypted {
                assert(guest_byte(q, img, g + 0) == Err::<u8, ParseError>(
                    ParseError::EncryptedCluster,
                ));
                return Err(ParseError::EncryptedCluster);
            }
            let (offset, clen) = entry.compressed_range(cb);
            if offset >= self.image.len() as u64 {
                assert(guest_byte(q, img, g + 0) == Err::<u8, ParseError>(
                    ParseError::Truncated,
                ));
                return Err(ParseError::Truncated);
            }
            match self.load_compressed(offset, clen) {
                Ok(()) => {},
                Err(err) => {
                    assert(guest_byte(q, img, g + 0) == Err::<u8, ParseError>(err));
                    return Err(err);
                },
            }
            if let Some((_, _, d)) = &self.cluster_cache {
                let ghost dd = d@;
                let blen = buf.len();
                let mut j: usize = 0;
                while j < len
                    invariant
                        j <= len,
                        blen == buf@.len(),
                        intra < c,
                        c <= 0x8000_0000,
                        start + len <= buf@.len(),
                        buf@.len() == old(buf)@.len(),
                        intra + len <= c,
                        c == cluster_len(cb),
                        dd.len() == c,
                        dd == d@,
                        forall|i: int|
                            0 <= i < old(buf)@.len() && !(start <= i < start + j) ==> buf@[i]
                                == old(buf)@[i],
                        forall|i: int| start <= i < start + j ==> buf@[i] == dd[intra + (i - start)],
                    decreases len - j,
                {
                    buf[start + j] = d[(intra as usize) + j];
                    j = j + 1;
                }
                assert forall|i: int| start <= i < start + len implies guest_byte(q, img, g + (i - start)) == Ok::<
                    u8,
                    ParseError,
                >(buf@[i]) by {
                    assert((g + (i - start)) / (c as int) == cluster);
                }
            }
            return Ok(());
        }
        if entry.is_zero() || entry.host_offset() == 0 {
            zero_fill(buf, start, len);
            return Ok(());
        }
        if encrypted {
            assert(guest_byte(q, img, g + 0) == Err::<u8, ParseError>(
                ParseError::EncryptedCluster,
            ));
            return Err(ParseError::EncryptedCluster);
        }
        assert(raw & 0x00ff_ffff_ffff_fe00u64 <= 0x00ff_ffff_ffff_fe00u64) by (bit_vector);
        let host = entry.host_offset() + intra;
        if host + (len as u64) > self.image.len() as u64 {
            assert(guest_byte(q, img, g + (len - 1)) == Err::<u8, ParseError>(
                ParseError::Truncated,
            ));
            return Err(ParseError::Truncated);
        }
        let blen = buf.len();
        let ilen = self.image.len();
        let mut j: usize = 0;
        while j < len
            invariant
                j <= len,
                blen == buf@.len(),
                ilen == self.image@.len(),
                start + len <= buf@.len(),
                buf@.len() == old(buf)@.len(),
                host + len <= self.image@.len(),
                forall|i: int|
                    0 <= i < old(buf)@.len() && !(start <= i < start + j) ==> buf@[i] == old(
                        buf,
                    )@[i],
                forall|i: int| start <= i < start + j ==> buf@[i] == self.image@[host + (i - start)],
            decreases len - j,
        {
            buf[start + j] = self.image[(host as usize) + j];
            j = j + 1;
        }
        Ok(())
    }

    /// Reads from the current guest position into `buf` and advances the position by the
    /// number of bytes read, which is less than `buf.len()` only at the end of the disk. On
    /// failure the position is left unchanged.
    pub fn read(&mut self, buf: &mut [u8]) -> (r: Result<usize, Error>)
        requires
            old(self).wf(),
        ensures
            final(self).wf(),
            final(self).container() == old(self).container(),
            final(self).source() == old(self).source(),
            final(buf)@.len() == old(buf)@.len(),
            match r {
                Ok(n) => {
                    &&& n == read_len(
                        old(self).container().header.size,
                        old(self).pos(),
                        old(buf)@.len() as int,
                    )
                    &&& final(self).pos() == old(self).pos() + n
                    &&& forall|i: int|
                        0 <= i < n ==> guest_byte(
                            old(self).container(),
                            old(self).source(),
                            old(self).pos() + i,
                        ) == Ok::<u8, ParseError>(#[trigger] final(buf)@[i])
                    &&& forall|i: int| n <= i < old(buf)@.len() ==> final(buf)@[i] == old(buf)@[i]
                },
                Err(e) => {
                    &&& final(self).pos() == old(self).pos()
                    &&& e matches Error::ParseError(pe) && exists|i: int|
                        0 <= i < read_len(
                            old(self).container().header.size,
                            old(self).pos(),
                            old(buf)@.len() as int,
                        ) && #[trigger] guest_byte(old(self).container(), old(self).source(), old(self).pos() + i)
                            == Err::<u8, ParseError>(pe)
                },
            },
    {
        let size = self.qcow.header.size;
        let total: usize = if self.pos >= size {
            0
        } else if buf.len() as u64 <= size - self.pos {
            buf.len()
        } else {
            (size - self.pos) as usize
        };
        let cb = self.qcow.header.cluster_bits;
        proof {
            lemma_cluster_len(cb);
        }
        let c = shl_one(cb);
        let ghost q = self.qcow;
        let ghost img = self.image@;
        let ghost p = self.pos;
        let mut done: usize = 0;
        while done < total
            invariant
                self.wf(),
                q == old(self).qcow,
                img == old(self).image@,
                p == old(self).pos,
                self.qcow == q,
                self.image@ == img,
                self.pos == p,
                c == cluster_len(cb),
                512 <= c <= 0x8000_0000,
                cb == q.header.cluster_bits,
                total == read_len(q.header.size, p, old(buf)@.len() as int),
                done <= total,
                buf@.len() == old(buf)@.len(),
                forall|i: int| 0 <= i < done ==> guest_byte(q, img, p + i) == Ok::<u8, ParseError>(#[trigger] buf@[i]),
                forall|i: int| total <= i < old(buf)@.len() ==> buf@[i] == old(buf)@[i],
            decreases total - done,
        {
            let g = self.pos + done as u64;
            let intra = g % c;
            let rest = (total - done) as u64;
            let chunk: usize = if rest <= c - intra {
                rest as usize
            } else {
                (c - intra) as usize
            };
            match self.fill(g, buf, done, chunk) {
                Ok(()) => {},
                Err(e) => {
                    proof {
                        let j = choose|j: int|
                            0 <= j < chunk && #[trigger] guest_byte(q, img, g + j) == Err::<
                                u8,
                                ParseError,
                            >(e);
                        assert(guest_byte(q, img, p + (done + j)) == Err::<u8, ParseError>(e));
                    }
                    return Err(Error::ParseError(e));
                },
            }
            done = done + chunk;
        }
        self.pos = self.pos + total as u64;
        Ok(total)
    }
}

/// Sets `buf[start..start + len]` to zero.
fn zero_fill(buf: &mut [u8], start: usize, len: usize)
    requires
        start + len <= old(buf)@.len(),
    ensures
        final(buf)@.len() == old(buf)@.len(),
        forall|i: int|
            0 <= i < old(buf)@.len() && !(start <= i < start + len) ==> final(buf)@[i] == old(
                buf,
            )@[i],
        forall|i: int| start <= i < start + len ==> final(buf)@[i] == 0,
{
    let blen = buf.len();
    let mut j: usize = 0;
    while j < len
        invariant
            j <= len,
            blen == buf@.len(),
            start + len <= buf@.len(),
            buf@.len() == old(buf)@.len(),
            forall|i: int|
                0 <= i < old(buf)@.len() && !(start <= i < start + j) ==> buf@[i] == old(buf)@[i],
            forall|i: int| start <= i < start + j ==> buf@[i] == 0,
        decreases len - j,
    {
        buf[start + j] = 0;
        j = j + 1;
    }
}

impl Qcow2 {
    /// A reader of this container's virtual disk, whose image bytes are `image`.
    pub fn reader<'a>(&'a self, image: &'a [u8]) -> (r: Reader<'a>)
        requires
            self.wf(),
        ensures
            r.wf(),
            r.container() == self,
            r.source() == image@,
            r.pos() == 0,
    {
        Reader::new(self, image)
    }
}

} // verus!
