use vstd::prelude::*;

use crate::error::ParseError;

verus! {

/// Big-endian 16-bit value of the two bytes at `at`.
pub open spec fn be_u16(s: Seq<u8>, at: int) -> u16 {
    (s[at] as int * 0x100 + s[at + 1] as int) as u16
}

/// Big-endian 32-bit value of the four bytes at `at`.
pub open spec fn be_u32(s: Seq<u8>, at: int) -> u32 {
    (s[at] as int * 0x1000000 + s[at + 1] as int * 0x10000 + s[at + 2] as int * 0x100
        + s[at + 3] as int) as u32
}

/// Big-endian 64-bit value of the eight bytes at `at`.
pub open spec fn be_u64(s: Seq<u8>, at: int) -> u64 {
    (be_u32(s, at) as int * 0x1_0000_0000 + be_u32(s, at + 4) as int) as u64
}

/// Whether `n` bytes starting at `at` lie inside `s`.
pub open spec fn in_bounds(s: Seq<u8>, at: int, n: int) -> bool {
    0 <= at && at + n <= s.len()
}

/// Next multiple of 8 at or after `p`.
pub open spec fn align8(p: int) -> int {
    if p % 8 == 0 { p } else { p + (8 - p % 8) }
}

/// The bytes of `s` without its trailing NUL bytes.
pub open spec fn trim_nuls(s: Seq<u8>) -> Seq<u8>
    decreases s.len(),
{
    if s.len() > 0 && s.last() == 0 {
        trim_nuls(s.drop_last())
    } else {
        s
    }
}

/// Name for the characters that lossy UTF-8 decoding makes of a byte sequence.
pub uninterp spec fn utf8_lossy(b: Seq<u8>) -> Seq<char>;

/// Relies on `String::from_utf8_lossy`: decoding depends on the bytes alone, and no bytes
/// decode to no characters.
#[verifier::external_body]
pub(crate) fn lossy_string(b: &[u8]) -> (r: String)
    ensures
        r@ == utf8_lossy(b@),
        b@.len() == 0 ==> r@.len() == 0,
{
    String::from_utf8_lossy(b).into_owned()
}

/// Reads the byte at `at`.
pub fn read_u8_at(data: &[u8], at: u64) -> (r: Result<u8, ParseError>)
    ensures
        match r {
            Ok(v) => in_bounds(data@, at as int, 1) && v == data@[at as int],
            Err(e) => !in_bounds(data@, at as int, 1) && e == ParseError::Truncated,
        },
{
    if at >= data.len() as u64 {
        return Err(ParseError::Truncated);
    }
    Ok(data[at as usize])
}

/// Reads a big-endian `u16` at `at`.
pub fn read_u16_at(data: &[u8], at: u64) -> (r: Result<u16, ParseError>)
    ensures
        match r {
            Ok(v) => in_bounds(data@, at as int, 2) && v == be_u16(data@, at as int),
            Err(e) => !in_bounds(data@, at as int, 2) && e == ParseError::Truncated,
        },
{
    let len = data.len() as u64;
    if len < 2 || at > len - 2 {
        return Err(ParseError::Truncated);
    }
    let i = at as usize;
    Ok((data[i] as u16) * 0x100 + data[i + 1] as u16)
}

/// Reads a big-endian `u32` at `at`.
pub fn read_u32_at(data: &[u8], at: u64) -> (r: Result<u32, ParseError>)
    ensures
        match r {
            Ok(v) => in_bounds(data@, at as int, 4) && v == be_u32(data@, at as int),
            Err(e) => !in_bounds(data@, at as int, 4) && e == ParseError::Truncated,
        },
{
    let len = data.len() as u64;
    if len < 4 || at > len - 4 {
        return Err(ParseError::Truncated);
    }
    let i = at as usize;
    Ok((data[i] as u32) * 0x1000000 + (data[i + 1] as u32) * 0x10000 + (data[i + 2] as u32)
        * 0x100 + data[i + 3] as u32)
}

/// Reads a big-endian `u64` at `at`.
pub fn read_u64_at(data: &[u8], at: u64) -> (r: Result<u64, ParseError>)
    ensures
        match r {
            Ok(v) => in_bounds(data@, at as int, 8) && v == be_u64(data@, at as int),
            Err(e) => !in_bounds(data@, at as int, 8) && e == ParseError::Truncated,
        },
{
    let len = data.len() as u64;
    if len < 8 || at > len - 8 {
        return Err(ParseError::Truncated);
    }
    let hi = read_u32_at(data, at)?;
    let lo = read_u32_at(data, at + 4)?;
    Ok((hi as u64) * 0x1_0000_0000 + lo as u64)
}

/// Copies the `n` bytes at `at` into a new vector.
pub fn read_exact_at(data: &[u8], at: u64, n: u64) -> (r: Result<Vec<u8>, ParseError>)
    ensures
        match r {
            Ok(v) => in_bounds(data@, at as int, n as int) && v@ == data@.subrange(
                at as int,
                at + n,
            ),
            Err(e) => !in_bounds(data@, at as int, n as int) && e == ParseError::Truncated,
        },
{
    let len = data.len() as u64;
    if n > len || at > len - n {
        return Err(ParseError::Truncated);
    }
    let mut v: Vec<u8> = Vec::new();
    let mut i: u64 = 0;
    while i < n
        invariant
            at + n <= data@.len(),
            len == data@.len(),
            len <= usize::MAX,
            i <= n,
            v@ == data@.subrange(at as int, at + i),
        decreases n - i,
    {
        v.push(data[(at + i) as usize]);
        i = i + 1;
        assert(v@ =~= data@.subrange(at as int, at + i));
    }
    Ok(v)
}

/// Drops the trailing NUL bytes of `v`.
pub fn strip_trailing_nuls(v: &mut Vec<u8>)
    ensures
        final(v)@ == trim_nuls(old(v)@),
{
    while v.len() > 0 && v[v.len() - 1] == 0
        invariant
            trim_nuls(v@) == trim_nuls(old(v)@),
        decreases v@.len(),
    {
        let ghost prev = v@;
        v.pop();
        assert(v@ =~= prev.drop_last());
    }
}

/// Reads `len` bytes at `offset` and decodes them, without their trailing NUL bytes, as
/// lossy UTF-8.
pub fn read_string_at(data: &[u8], offset: u64, len: u64) -> (r: Result<String, ParseError>)
    ensures
        match r {
            Ok(s) => in_bounds(data@, offset as int, len as int) && s@ == utf8_lossy(
                trim_nuls(data@.subrange(offset as int, offset + len)),
            ),
            Err(e) => !in_bounds(data@, offset as int, len as int) && e == ParseError::Truncated,
        },
{
    let mut bytes = read_exact_at(data, offset, len)?;
    strip_trailing_nuls(&mut bytes);
    Ok(lossy_string(bytes.as_slice()))
}

} // verus!
