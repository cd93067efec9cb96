use vstd::prelude::*;

use crate::bytes::{
    align8, be_u32, in_bounds, read_string_at, read_u32_at, read_u8_at, trim_nuls, utf8_lossy,
};
use crate::error::ParseError;

verus! {

/// Bytes in one entry of the feature name table.
pub const FEATURE_NAME_ENTRY_LEN: u64 = 48;
/// Bytes of the name within a feature name table entry.
pub const FEATURE_NAME_LEN: u64 = 46;

/// Which feature bitmask a named feature belongs to.
#[derive(Debug, Clone, Copy, PartialEq, Eq, Structural)]
pub enum FeatureKind {
    /// The incompatible feature mask.
    IncompatibleFeature,
    /// The compatible feature mask.
    CompatibleFeatures,
    /// The auto-clear feature mask.
    AutoClearFeatures,
}

/// A name given to one feature bit by the feature name table.
#[derive(Debug)]
pub struct FeatureName {
    /// Mask the bit belongs to.
    pub kind: FeatureKind,
    /// Bit number within the mask, 0 being the least significant.
    pub bit_number: u8,
    /// Name of the feature.
    pub feature_name: String,
}

/// Type of a header extension record.
#[derive(Debug, Clone, Copy, PartialEq, Eq, Structural)]
pub enum HeaderExtKind {
    /// End of the header extension area.
    End,
    /// Feature name table.
    FeatureNameTable,
    /// Name of the backing file format.
    BackingFileFormat,
    /// Bitmaps extension.
    BitmapsExtension,
    /// Pointer to the full disk encryption header.
    FullDiskEncryption,
    /// Name of the external data file.
    ExternalDataPath,
    /// A type this implementation does not know.
    Other(u32),
}

/// Record type marking the end of the extension area.
pub const EXT_END: u32 = 0x0000_0000;
/// Record type of the backing file format name.
pub const EXT_BACKING_FILE_FORMAT: u32 = 0xe279_2aca;
/// Record type of the feature name table.
pub const EXT_FEATURE_NAME_TABLE: u32 = 0x6803_f857;
/// Record type of the bitmaps extension.
pub const EXT_BITMAPS: u32 = 0x2385_2875;
/// Record type of the full disk encryption header pointer.
pub const EXT_FULL_DISK_ENCRYPTION: u32 = 0x0537_be77;
/// Record type of the external data file name.
pub const EXT_EXTERNAL_DATA_PATH: u32 = 0x4441_5441;

/// The kind that a record type number denotes.
pub open spec fn kind_of(tag: u32) -> HeaderExtKind {
    if tag == EXT_END {
        HeaderExtKind::End
    } else if tag == EXT_BACKING_FILE_FORMAT {
        HeaderExtKind::BackingFileFormat
    } else if tag == EXT_FEATURE_NAME_TABLE {
        HeaderExtKind::FeatureNameTable
    } else if tag == EXT_BITMAPS {
        HeaderExtKind::BitmapsExtension
    } else if tag == EXT_FULL_DISK_ENCRYPTION {
        HeaderExtKind::FullDiskEncryption
    } else if tag == EXT_EXTERNAL_DATA_PATH {
        HeaderExtKind::ExternalDataPath
    } else {
        HeaderExtKind::Other(tag)
    }
}

impl HeaderExtKind {
    /// The kind that the record type number `tag` denotes.
    pub fn from_tag(tag: u32) -> (r: Self)
        ensures
            r == kind_of(tag),
    {
        if tag == EXT_END {
            HeaderExtKind::End
        } else if tag == EXT_BACKING_FILE_FORMAT {
            HeaderExtKind::BackingFileFormat
        } else if tag == EXT_FEATURE_NAME_TABLE {
            HeaderExtKind::FeatureNameTable
        } else if tag == EXT_BITMAPS {
            HeaderExtKind::BitmapsExtension
        } else if tag == EXT_FULL_DISK_ENCRYPTION {
            HeaderExtKind::FullDiskEncryption
        } else if tag == EXT_EXTERNAL_DATA_PATH {
            HeaderExtKind::ExternalDataPath
        } else {
            HeaderExtKind::Other(tag)
        }
    }
}

/// A header extension record.
#[derive(Debug)]
pub enum HeaderExt {
    /// End of the header extension area.
    End,
    /// Names of feature bits.
    FeatureNameTable(Vec<FeatureName>),
    /// Name of the backing file format.
    BackingFileFormat(String),
    /// Name of the external data file.
    ExternalDataPath(String),
    /// A record kept as raw data.
    Unparsed {
        /// Type of the record.
        kind: HeaderExtKind,
        /// Data of the record.
        data: Vec<u8>,
    },
}

impl HeaderExt {
    /// Whether this record marks the end of the extension area.
    pub fn is_end(&self) -> (r: bool)
        ensures
            r == (self is End),
    {
        matches!(self, HeaderExt::End)
    }
}

/// Feature kind that the byte `b` denotes.
pub open spec fn feature_kind_of(b: u8) -> Option<FeatureKind> {
    if b == 0 {
        Some(FeatureKind::IncompatibleFeature)
    } else if b == 1 {
        Some(FeatureKind::CompatibleFeatures)
    } else if b == 2 {
        Some(FeatureKind::AutoClearFeatures)
    } else {
        None
    }
}

/// The raw records of the extension area from `pos` up to its end marker, as (type, data)
/// pairs; `None` when a record or the marker runs past the end of the image.
pub open spec fn ext_records(image: Seq<u8>, pos: int) -> Option<Seq<(u32, Seq<u8>)>>
    decreases image.len() + 8 - pos,
{
    if !in_bounds(image, pos, 4) {
        None
    } else if be_u32(image, pos) == EXT_END {
        Some(Seq::empty())
    } else if !in_bounds(image, pos, 8) || !in_bounds(image, pos + 8, be_u32(image, pos + 4) as int) {
        None
    } else {
        let len = be_u32(image, pos + 4) as int;
        let next = align8(pos + 8 + len);
        if next <= pos {
            None
        } else {
            match ext_records(image, next) {
                Some(rest) => Some(seq![(be_u32(image, pos), image.subrange(pos + 8, pos + 8 + len))]
                    + rest),
                None => None,
            }
        }
    }
}

/// Whether a record of the extension area from `pos` on, before its end marker, is rejected
/// with error `e`.
pub open spec fn ext_area_rejects(image: Seq<u8>, pos: int, e: ParseError) -> bool
    decreases image.len() + 8 - pos,
{
    if !in_bounds(image, pos, 4) || be_u32(image, pos) == EXT_END || !in_bounds(image, pos, 8)
        || !in_bounds(image, pos + 8, be_u32(image, pos + 4) as int) {
        false
    } else {
        let len = be_u32(image, pos + 4) as int;
        let next = align8(pos + 8 + len);
        if next <= pos {
            false
        } else {
            ext_record_error(be_u32(image, pos), image.subrange(pos + 8, pos + 8 + len), e)
                || ext_area_rejects(image, next, e)
        }
    }
}

/// Whether `f` is the feature name table entry held in the 48 bytes `b`.
pub open spec fn feature_name_matches(f: &FeatureName, b: Seq<u8>) -> bool {
    &&& feature_kind_of(b[0]) == Some(f.kind)
    &&& f.bit_number == b[1]
    &&& f.feature_name@ == utf8_lossy(trim_nuls(b.subrange(2, 48)))
}

/// Whether the record with type `tag` and data `data` is rejected, with error `e`.
pub open spec fn ext_record_error(tag: u32, data: Seq<u8>, e: ParseError) -> bool {
    &&& tag == EXT_FEATURE_NAME_TABLE
    &&& exists|i: int|
        0 <= i < data.len() / 48 && feature_kind_of(#[trigger] data[48 * i]).is_none() && e
            == ParseError::UnknownFeatureKind(data[48 * i])
}

/// Whether `e` is the extension that the record with type `tag` and data `data` decodes to.
pub open spec fn ext_matches(e: &HeaderExt, tag: u32, data: Seq<u8>) -> bool {
    match e {
        HeaderExt::End => false,
        HeaderExt::FeatureNameTable(v) => {
            &&& tag == EXT_FEATURE_NAME_TABLE
            &&& v@.len() == data.len() / 48
            &&& forall|i: int|
                0 <= i < v@.len() ==> feature_name_matches(
                    &#[trigger] v@[i],
                    data.subrange(48 * i, 48 * i + 48),
                )
        },
        HeaderExt::BackingFileFormat(s) => tag == EXT_BACKING_FILE_FORMAT && s@ == utf8_lossy(
            trim_nuls(data),
        ),
        HeaderExt::ExternalDataPath(s) => tag == EXT_EXTERNAL_DATA_PATH && s@ == utf8_lossy(
            trim_nuls(data),
        ),
        HeaderExt::Unparsed { kind, data: d } => {
            &&& tag != EXT_FEATURE_NAME_TABLE
            &&& tag != EXT_BACKING_FILE_FORMAT
            &&& tag != EXT_EXTERNAL_DATA_PATH
            &&& *kind == kind_of(tag)
            &&& d@ == data
        },
    }
}

/// Parses the feature name table of `len` bytes at `at`: one entry per full 48 bytes.
fn parse_feature_names(image: &[u8], at: u64, len: u32) -> (r: Result<
    Vec<FeatureName>,
    ParseError,
>)
    requires
        in_bounds(image@, at as int, len as int),
    ensures
        match r {
            Ok(v) => ext_matches(
                &HeaderExt::FeatureNameTable(v),
                EXT_FEATURE_NAME_TABLE,
                image@.subrange(at as int, at + len),
            ),
            Err(e) => ext_record_error(
                EXT_FEATURE_NAME_TABLE,
                image@.subrange(at as int, at + len),
                e,
            ),
        },
{
    let ghost data = image@.subrange(at as int, at + len);
    let count = (len as u64) / FEATURE_NAME_ENTRY_LEN;
    let mut v: Vec<FeatureName> = Vec::new();
    let ilen = image.len() as u64;
    let mut i: u64 = 0;
    while i < count
        invariant
            in_bounds(image@, at as int, len as int),
            ilen == image@.len(),
            data == image@.subrange(at as int, at + len),
            count == data.len() / 48,
            i <= count,
            v@.len() == i,
            forall|k: int|
                0 <= k < i ==> feature_name_matches(
                    &#[trigger] v@[k],
                    data.subrange(48 * k, 48 * k + 48),
                ),
        decreases count - i,
    {
        proof {
            vstd::arithmetic::div_mod::lemma_fundamental_div_mod(len as int, 48);
            assert(48 * i + 48 <= 48 * count) by (nonlinear_arith)
                requires
                    i < count,
            ;
        }
        let base = at + i * FEATURE_NAME_ENTRY_LEN;
        let ghost entry = data.subrange(48 * i, 48 * i + 48);
        assert(entry[0] == image@[base as int]);
        assert(entry[1] == image@[base + 1]);
        let kind_byte = read_u8_at(image, base)?;
        let kind = if kind_byte == 0 {
            FeatureKind::IncompatibleFeature
        } else if kind_byte == 1 {
            FeatureKind::CompatibleFeatures
        } else if kind_byte == 2 {
            FeatureKind::AutoClearFeatures
        } else {
            assert(data[48 * i] == kind_byte);
            return Err(ParseError::UnknownFeatureKind(kind_byte));
        };
        let bit_number = read_u8_at(image, base + 1)?;
        let feature_name = read_string_at(image, base + 2, FEATURE_NAME_LEN)?;
        assert(entry.subrange(2, 48) =~= image@.subrange(base + 2, base + 48));
        v.push(FeatureName { kind, bit_number, feature_name });
        i = i + 1;
    }
    Ok(v)
}

/// Decodes the record with type `tag` whose `len` data bytes start at `at`.
fn parse_ext_record(image: &[u8], tag: u32, at: u64, len: u32) -> (r: Result<
    HeaderExt,
    ParseError,
>)
    requires
        in_bounds(image@, at as int, len as int),
        tag != EXT_END,
    ensures
        match r {
            Ok(e) => ext_matches(&e, tag, image@.subrange(at as int, at + len)),
            Err(e) => ext_record_error(tag, image@.subrange(at as int, at + len), e),
        },
{
    if tag == EXT_FEATURE_NAME_TABLE {
        let names = parse_feature_names(image, at, len)?;
        Ok(HeaderExt::FeatureNameTable(names))
    } else if tag == EXT_BACKING_FILE_FORMAT {
        let s = read_string_at(image, at, len as u64)?;
        Ok(HeaderExt::BackingFileFormat(s))
    } else if tag == EXT_EXTERNAL_DATA_PATH {
        let s = read_string_at(image, at, len as u64)?;
        Ok(HeaderExt::ExternalDataPath(s))
    } else {
        let data = crate::bytes::read_exact_at(image, at, len as u64)?;
        Ok(HeaderExt::Unparsed { kind: HeaderExtKind::from_tag(tag), data })
    }
}

/// Parses the extension area starting at `pos`, up to and without its end marker. After each
/// record's data the position moves on to the next multiple of 8.
pub fn parse_extensions(image: &[u8], pos: u64) -> (r: Result<Vec<HeaderExt>, ParseError>)
    requires
        image@.len() <= isize::MAX,
    ensures
        match r {
            Ok(v) => ext_records(image@, pos as int) matches Some(recs) && v@.len() == recs.len()
                && forall|i: int|
                0 <= i < recs.len() ==> ext_matches(&#[trigger] v@[i], recs[i].0, recs[i].1),
            Err(e) => ext_area_rejects(image@, pos as int, e) || (ext_records(
                image@,
                pos as int,
            ) is None && e == ParseError::Truncated),
        },
{
    let ghost img = image@;
    let len = image.len() as u64;
    let mut v: Vec<HeaderExt> = Vec::new();
    let ghost mut done: Seq<(u32, Seq<u8>)> = Seq::empty();
    let mut cur = pos;
    loop
        invariant
            len == image@.len(),
            len <= isize::MAX,
            img == image@,
            forall|e: ParseError|
                ext_area_rejects(img, cur as int, e) ==> #[trigger] ext_area_rejects(
                    img,
                    pos as int,
                    e,
                ),
            v@.len() == done.len(),
            forall|i: int|
                0 <= i < done.len() ==> ext_matches(&#[trigger] v@[i], done[i].0, done[i].1),
            ext_records(img, pos as int) == match ext_records(img, cur as int) {
                Some(rest) => Some(done + rest),
                None => None::<Seq<(u32, Seq<u8>)>>,
            },
        decreases len + 8 - cur,
    {
        let tag = read_u32_at(image, cur)?;
        if tag == EXT_END {
            assert(done + Seq::<(u32, Seq<u8>)>::empty() =~= done);
            return Ok(v);
        }
        let data_len = read_u32_at(image, cur + 4)?;
        let start = cur + 8;
        if data_len as u64 > len || start > len - data_len as u64 {
            return Err(ParseError::Truncated);
        }
        let end = start + data_len as u64;
        let next = if end % 8 == 0 {
            end
        } else {
            end + (8 - end % 8)
        };
        let ghost rec = (tag, img.subrange(start as int, end as int));
        match parse_ext_record(image, tag, start, data_len) {
            Ok(ext) => {
                v.push(ext);
            },
            Err(e) => {
                assert(ext_area_rejects(img, cur as int, e));
                return Err(e);
            },
        }
        proof {
            if ext_records(img, next as int) is Some {
                let rest = ext_records(img, next as int)->Some_0;
                assert(done + (seq![rec] + rest) =~= (done + seq![rec]) + rest);
            }
            done = done + seq![rec];
        }
        cur = next;
    }
}

} // verus!
