use vstd::prelude::*;

use crate::error::ParseError;
use crate::header::CompressionType;

verus! {

/// Name for the first `out_len` bytes that a zlib stream decodes to (`None`: the stream does
/// not decode to that many bytes).
pub uninterp spec fn zlib_decoded(data: Seq<u8>, out_len: nat) -> Option<Seq<u8>>;

/// Name for the first `out_len` bytes that a Zstandard frame decodes to (`None`: the frame does
/// not decode to that many bytes).
pub uninterp spec fn zstd_decoded(data: Seq<u8>, out_len: nat) -> Option<Seq<u8>>;

/// Relies on `flate2::read::ZlibDecoder` driven by `Read::read_exact`: decoding depends on the
/// input alone, and a success fills the whole output buffer.
#[verifier::external_body]
fn zlib_decode(data: &[u8], out_len: usize) -> (r: Option<Vec<u8>>)
    ensures
        match r {
            Some(v) => zlib_decoded(data@, out_len as nat) == Some(v@) && v@.len() == out_len,
            None => zlib_decoded(data@, out_len as nat).is_none(),
        },
{
    let mut out = vec![0u8; out_len];
    match std::io::Read::read_exact(&mut flate2::read::ZlibDecoder::new(data), &mut out) {
        Ok(()) => Some(out),
        Err(_) => None,
    }
}

/// Relies on `zstd::stream::read::Decoder` driven by `Read::read_exact`: decoding depends on
/// the input alone, and a success fills the whole output buffer.
#[verifier::external_body]
fn zstd_decode(data: &[u8], out_len: usize) -> (r: Option<Vec<u8>>)
    ensures
        match r {
            Some(v) => zstd_decoded(data@, out_len as nat) == Some(v@) && v@.len() == out_len,
            None => zstd_decoded(data@, out_len as nat).is_none(),
        },
{
    let mut out = vec![0u8; out_len];
    match zstd::stream::read::Decoder::with_buffer(data) {
        Ok(mut d) => match std::io::Read::read_exact(&mut d, &mut out) {
            Ok(()) => Some(out),
            Err(_) => None,
        },
        Err(_) => None,
    }
}

/// The first `out_len` bytes that `data` decodes to under compression `ct`.
pub open spec fn decoded(ct: CompressionType, data: Seq<u8>, out_len: nat) -> Option<Seq<u8>> {
    match ct {
        CompressionType::Zlib => zlib_decoded(data, out_len),
        CompressionType::Zstd => zstd_decoded(data, out_len),
    }
}

/// Decompresses `data` under compression `ct` into exactly `out_len` bytes; trailing input
/// beyond what those bytes need is ignored.
pub fn decompress(ct: CompressionType, data: &[u8], out_len: usize) -> (r: Result<
    Vec<u8>,
    ParseError,
>)
    ensures
        match r {
            Ok(v) => decoded(ct, data@, out_len as nat) == Some(v@) && v@.len() == out_len,
            Err(e) => decoded(ct, data@, out_len as nat).is_none() && e
                == ParseError::DecompressionFailed,
        },
{
    let out = match ct {
        CompressionType::Zlib => zlib_decode(data, out_len),
        CompressionType::Zstd => zstd_decode(data, out_len),
    };
    match out {
        Some(v) => Ok(v),
        None => Err(ParseError::DecompressionFailed),
    }
}

} // verus!
