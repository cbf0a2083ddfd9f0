//! Byte-reader utilities: little-endian integer decoding, UTF-16LE and ASCII
//! string decoding, and uppercase hex formatting.

use vstd::prelude::*;
use vstd::slice::slice_index_get;
use vstd::slice::slice_subrange;
use crate::errors::RegError;
use encoding::Encoding;

verus! {

/// The little-endian 16-bit integer stored at byte offset `i` of `b`.
pub open spec fn le_u16_spec(b: Seq<u8>, i: int) -> u16
    recommends
        0 <= i,
        i + 2 <= b.len(),
{
    (b[i] + b[i + 1] * 0x100) as u16
}

/// The little-endian 32-bit integer stored at byte offset `i` of `b`.
pub open spec fn le_u32_spec(b: Seq<u8>, i: int) -> u32
    recommends
        0 <= i,
        i + 4 <= b.len(),
{
    (b[i] + b[i + 1] * 0x100 + b[i + 2] * 0x10000 + b[i + 3] * 0x1000000) as u32
}

/// The big-endian 32-bit integer stored at byte offset `i` of `b`.
pub open spec fn be_u32_spec(b: Seq<u8>, i: int) -> u32
    recommends
        0 <= i,
        i + 4 <= b.len(),
{
    (b[i] * 0x1000000 + b[i + 1] * 0x10000 + b[i + 2] * 0x100 + b[i + 3]) as u32
}

/// The little-endian 64-bit integer stored at byte offset `i` of `b`.
pub open spec fn le_u64_spec(b: Seq<u8>, i: int) -> u64
    recommends
        0 <= i,
        i + 8 <= b.len(),
{
    (le_u32_spec(b, i) + le_u32_spec(b, i + 4) * 0x100000000) as u64
}

/// The signed interpretation (two's complement) of a 32-bit value.
pub open spec fn i32_of_u32_spec(u: u32) -> i32 {
    if u < 0x80000000 {
        u as i32
    } else {
        (u - 0x100000000) as i32
    }
}

pub fn read_u16_le(b: &[u8], off: usize) -> (r: u16)
    requires
        off + 2 <= b@.len(),
    ensures
        r == le_u16_spec(b@, off as int),
{
    let n: usize = b.len();
    let b0 = *slice_index_get(b, off);
    let b1 = *slice_index_get(b, off + 1);
    b0 as u16 + b1 as u16 * 0x100
}

pub fn read_u32_le(b: &[u8], off: usize) -> (r: u32)
    requires
        off + 4 <= b@.len(),
    ensures
        r == le_u32_spec(b@, off as int),
{
    let n: usize = b.len();
    let b0 = *slice_index_get(b, off);
    let b1 = *slice_index_get(b, off + 1);
    let b2 = *slice_index_get(b, off + 2);
    let b3 = *slice_index_get(b, off + 3);
    b0 as u32 + b1 as u32 * 0x100 + b2 as u32 * 0x10000 + b3 as u32 * 0x1000000
}

pub fn read_u32_be(b: &[u8], off: usize) -> (r: u32)
    requires
        off + 4 <= b@.len(),
    ensures
        r == be_u32_spec(b@, off as int),
{
    let n: usize = b.len();
    let b0 = *slice_index_get(b, off);
    let b1 = *slice_index_get(b, off + 1);
    let b2 = *slice_index_get(b, off + 2);
    let b3 = *slice_index_get(b, off + 3);
    b0 as u32 * 0x1000000 + b1 as u32 * 0x10000 + b2 as u32 * 0x100 + b3 as u32
}

pub fn read_u64_le(b: &[u8], off: usize) -> (r: u64)
    requires
        off + 8 <= b@.len(),
    ensures
        r == le_u64_spec(b@, off as int),
{
    let n: usize = b.len();
    let lo = read_u32_le(b, off);
    let hi = read_u32_le(b, off + 4);
    lo as u64 + hi as u64 * 0x100000000
}

pub fn i32_of_u32(u: u32) -> (r: i32)
    ensures
        r == i32_of_u32_spec(u),
{
    if u < 0x80000000 {
        u as i32
    } else {
        ((u as i64) - 0x100000000i64) as i32
    }
}

pub fn read_i32_le(b: &[u8], off: usize) -> (r: i32)
    requires
        off + 4 <= b@.len(),
    ensures
        r == i32_of_u32_spec(le_u32_spec(b@, off as int)),
{
    i32_of_u32(read_u32_le(b, off))
}

/// Copy the byte range `[start, end)` of `b` into an owned vector.
pub fn copy_range(b: &[u8], start: usize, end: usize) -> (v: Vec<u8>)
    requires
        start <= end,
        end <= b@.len(),
    ensures
        v@ == b@.subrange(start as int, end as int),
{
    vstd::slice::slice_to_vec(slice_subrange(b, start, end))
}

/// What the UTF-16LE decoder returns for `s` when malformed code units are
/// skipped. Named, not spelled out: surrogate-pair handling takes pages.
pub uninterp spec fn utf16le_lossy(s: Seq<u8>) -> Seq<char>;

/// What the ASCII decoder returns for `s` when non-ASCII bytes are skipped:
/// each byte below 0x80 becomes the character with that code.
pub open spec fn ascii_lossy(s: Seq<u8>) -> Seq<char> {
    s.filter(|b: u8| b < 128).map_values(|b: u8| b as char)
}

/// `s` shorn of one trailing 16-bit null terminator, if it ends in one.
pub open spec fn strip_null_u16(s: Seq<u8>) -> Seq<u8> {
    if s.len() >= 2 && s[s.len() - 1] == 0 && s[s.len() - 2] == 0 {
        s.take(s.len() - 2)
    } else {
        s
    }
}

/// `s` shorn of one trailing null byte, if it ends in one.
pub open spec fn strip_null_u8(s: Seq<u8>) -> Seq<u8> {
    if s.len() >= 1 && s[s.len() - 1] == 0 {
        s.take(s.len() - 1)
    } else {
        s
    }
}

/// The even byte offset at which a paired-null terminator starts in `s`,
/// scanning 16-bit units from `i`; the scan stops at the end of `s`.
pub open spec fn null_pair_scan(s: Seq<u8>, i: int) -> int
    recommends
        0 <= i,
    decreases s.len() - i,
{
    if i < 0 || i + 1 >= s.len() {
        i
    } else if s[i] == 0 && s[i + 1] == 0 {
        i
    } else {
        null_pair_scan(s, i + 2)
    }
}

/// Relies on encoding's UTF_16LE decoder with the ignore trap: the result is
/// a function of the input bytes alone, and the ignore trap never fails.
#[verifier::external_body]
fn decode_utf16le_lossy(buffer: &[u8]) -> (r: String)
    ensures
        r@ == utf16le_lossy(buffer@),
        buffer@.len() == 0 ==> r@.len() == 0,
{
    encoding::all::UTF_16LE
        .decode(buffer, encoding::DecoderTrap::Ignore)
        .unwrap_or_default()
}

/// Relies on encoding's ASCII decoder with the ignore trap: bytes below 0x80
/// are kept as the matching characters and all other bytes are skipped.
#[verifier::external_body]
fn decode_ascii_lossy(buffer: &[u8]) -> (r: String)
    ensures
        r@ == ascii_lossy(buffer@),
{
    encoding::all::ASCII
        .decode(buffer, encoding::DecoderTrap::Ignore)
        .unwrap_or_default()
}

/// Decode `buffer` as ASCII, dropping one trailing null byte first.
/// Non-ASCII bytes are skipped rather than failing.
pub fn read_ascii(buffer: &[u8]) -> (r: Result<String, RegError>)
    ensures
        r is Ok,
        r matches Ok(s) ==> s@ == ascii_lossy(strip_null_u8(buffer@)),
{
    let len: usize = buffer.len();
    let end_index = if len >= 1 && *slice_index_get(buffer, len - 1) == 0 {
        len - 1
    } else {
        len
    };
    let stripped = slice_subrange(buffer, 0, end_index);
    proof {
        assert(stripped@ =~= strip_null_u8(buffer@));
    }
    Ok(decode_ascii_lossy(stripped))
}

/// Decode `buffer` as UTF-16LE, dropping one trailing paired-null terminator
/// first. Malformed code units are skipped rather than failing.
pub fn read_utf16(buffer: &[u8]) -> (r: Result<String, RegError>)
    ensures
        r is Ok,
        r matches Ok(s) ==> s@ == utf16le_lossy(strip_null_u16(buffer@)),
{
    let len: usize = buffer.len();
    let end_index = if len >= 2 && *slice_index_get(buffer, len - 1) == 0 && *slice_index_get(
        buffer,
        len - 2,
    ) == 0 {
        len - 2
    } else {
        len
    };
    let stripped = slice_subrange(buffer, 0, end_index);
    proof {
        assert(stripped@ =~= strip_null_u16(buffer@));
    }
    Ok(decode_utf16le_lossy(stripped))
}

/// Decode `buffer` as UTF-16LE up to (not including) the first paired-null
/// terminator, scanning 16-bit units from the start.
pub fn read_string_u16_till_null(buffer: &[u8]) -> (r: Result<String, RegError>)
    ensures
        r is Ok,
        r matches Ok(s) ==> s@ == utf16le_lossy(buffer@.take(null_pair_scan(buffer@, 0))),
{
    let len: usize = buffer.len();
    let mut i: usize = 0;
    while i < len && i + 1 < len && !(*slice_index_get(buffer, i) == 0 && *slice_index_get(
        buffer,
        i + 1,
    ) == 0)
        invariant
            len == buffer@.len(),
            0 <= i <= len,
            null_pair_scan(buffer@, 0) == null_pair_scan(buffer@, i as int),
        decreases len - i,
    {
        i += 2;
    }
    proof {
        assert(null_pair_scan(buffer@, i as int) == i);
    }
    let prefix = slice_subrange(buffer, 0, i);
    Ok(decode_utf16le_lossy(prefix))
}

/// The hex character (uppercase) for a value below 16.
pub open spec fn hex_digit(n: int) -> char
    recommends
        0 <= n < 16,
{
    if n < 10 {
        ((48 + n) as u8) as char
    } else {
        ((55 + n) as u8) as char
    }
}

/// `bytes` rendered as uppercase hex, two digits per byte.
pub open spec fn hex_of_bytes(s: Seq<u8>) -> Seq<char>
    decreases s.len(),
{
    if s.len() == 0 {
        Seq::empty()
    } else {
        hex_of_bytes(s.drop_last()) + seq![
            hex_digit(s.last() as int / 16),
            hex_digit(s.last() as int % 16),
        ]
    }
}

/// The lowercase hex character for a value below 16.
pub open spec fn hex_digit_lower(n: int) -> char
    recommends
        0 <= n < 16,
{
    if n < 10 {
        ((48 + n) as u8) as char
    } else {
        ((87 + n) as u8) as char
    }
}

/// `v` rendered as four lowercase hex digits, most significant first.
pub open spec fn hex_u16_lower(v: u16) -> Seq<char> {
    seq![
        hex_digit_lower(v as int / 0x1000 % 16),
        hex_digit_lower(v as int / 0x100 % 16),
        hex_digit_lower(v as int / 0x10 % 16),
        hex_digit_lower(v as int % 16),
    ]
}

/// `v` rendered as eight uppercase hex digits, most significant first.
pub open spec fn hex_u32_upper(v: u32) -> Seq<char> {
    seq![
        hex_digit(v as int / 0x10000000 % 16),
        hex_digit(v as int / 0x1000000 % 16),
        hex_digit(v as int / 0x100000 % 16),
        hex_digit(v as int / 0x10000 % 16),
        hex_digit(v as int / 0x1000 % 16),
        hex_digit(v as int / 0x100 % 16),
        hex_digit(v as int / 0x10 % 16),
        hex_digit(v as int % 16),
    ]
}

/// Relies on std's String::push: appends one character.
pub assume_specification[ std::string::String::push ](s: &mut String, c: char)
    ensures
        final(s)@ == old(s)@.push(c),
;

fn push_hex_digit(out: &mut String, n: u8)
    requires
        n < 16,
    ensures
        final(out)@ == old(out)@.push(hex_digit(n as int)),
{
    if n < 10 {
        out.push((48 + n) as char);
    } else {
        out.push((55 + n) as char);
    }
}

fn push_hex_digit_lower(out: &mut String, n: u8)
    requires
        n < 16,
    ensures
        final(out)@ == old(out)@.push(hex_digit_lower(n as int)),
{
    if n < 10 {
        out.push((48 + n) as char);
    } else {
        out.push((87 + n) as char);
    }
}

/// Append `v` to `out` as four lowercase hex digits.
pub fn push_hex_u16_lower(out: &mut String, v: u16)
    ensures
        final(out)@ == old(out)@ + hex_u16_lower(v),
{
    push_hex_digit_lower(out, (v / 0x1000 % 16) as u8);
    push_hex_digit_lower(out, (v / 0x100 % 16) as u8);
    push_hex_digit_lower(out, (v / 0x10 % 16) as u8);
    push_hex_digit_lower(out, (v % 16) as u8);
    proof {
        assert(out@ =~= old(out)@ + hex_u16_lower(v));
    }
}

/// Append `v` to `out` as eight uppercase hex digits.
pub fn push_hex_u32_upper(out: &mut String, v: u32)
    ensures
        final(out)@ == old(out)@ + hex_u32_upper(v),
{
    push_hex_digit(out, (v / 0x10000000 % 16) as u8);
    push_hex_digit(out, (v / 0x1000000 % 16) as u8);
    push_hex_digit(out, (v / 0x100000 % 16) as u8);
    push_hex_digit(out, (v / 0x10000 % 16) as u8);
    push_hex_digit(out, (v / 0x1000 % 16) as u8);
    push_hex_digit(out, (v / 0x100 % 16) as u8);
    push_hex_digit(out, (v / 0x10 % 16) as u8);
    push_hex_digit(out, (v % 16) as u8);
    proof {
        assert(out@ =~= old(out)@ + hex_u32_upper(v));
    }
}

/// Render `bytes` as an uppercase hex string, two digits per byte.
pub fn to_hex_string(bytes: &[u8]) -> (r: String)
    ensures
        r@ == hex_of_bytes(bytes@),
{
    let mut out = String::new();
    let len: usize = bytes.len();
    let mut i: usize = 0;
    while i < len
        invariant
            len == bytes@.len(),
            0 <= i <= len,
            out@ == hex_of_bytes(bytes@.take(i as int)),
        decreases len - i,
    {
        let b = *slice_index_get(bytes, i);
        push_hex_digit(&mut out, b / 16);
        push_hex_digit(&mut out, b % 16);
        i += 1;
        proof {
            let pre = bytes@.take(i as int);
            assert(pre.drop_last() =~= bytes@.take(i - 1));
            assert(out@ =~= hex_of_bytes(bytes@.take(i as int)));
        }
    }
    proof {
        assert(bytes@.take(len as int) =~= bytes@);
    }
    out
}

} // verus!
