//! The Borsh wire format the programs use for instruction data and account
//! state: little-endian integers, `0`/`1` booleans, 32-byte keys copied as they
//! are, and strings and vectors prefixed by a little-endian `u32` length.
//!
//! Every reader works on a byte buffer and a position, and every one of them is
//! proved equal to a spec parser of the same name without the `read_` prefix.
//! Writers append to a `Vec<u8>` and are proved equal to the `*_bytes` encoders.
use vstd::prelude::*;
use vstd::utf8::*;

use crate::address::Address;

verus! {

broadcast use vstd::seq_lib::group_seq_properties;

/// Why decoding or encoding failed; each kind is one of the I/O errors the
/// Borsh format reports.
#[derive(Debug, Clone, Copy, PartialEq, Eq, Structural)]
pub enum WireError {
    /// The input ended before the value did ("Unexpected length of input").
    UnexpectedLength,
    /// Bytes were left over after the value ("Not all bytes read").
    NotAllBytesRead,
    /// A boolean byte other than 0 or 1.
    InvalidBool(u8),
    /// An option tag other than 0 or 1.
    InvalidOption(u8),
    /// An enum variant index that names no variant.
    InvalidVariant(u8),
    /// String bytes that are not valid UTF-8.
    InvalidUtf8,
    /// A string or vector too long for its `u32` length prefix.
    LengthOverflow,
    /// The destination buffer is too short ("failed to write whole buffer").
    WriteZero,
}

/// An executable decode result `r` agrees with the spec result `s`: the same
/// error, or the same value (by view) at the same end position.
pub open spec fn agrees<T: View>(
    r: Result<(T, usize), WireError>,
    s: Result<(T::V, int), WireError>,
) -> bool {
    match r {
        Ok((v, q)) => s == Ok::<(T::V, int), WireError>((v@, q as int)),
        Err(e) => s == Err::<(T::V, int), WireError>(e),
    }
}

/// `b[p..]` holds at least `n` more bytes.
pub open spec fn has(b: Seq<u8>, p: int, n: int) -> bool {
    0 <= p && p + n <= b.len()
}

// ----- little-endian integers ------------------------------------------------

pub open spec fn u32_from_le(b0: u8, b1: u8, b2: u8, b3: u8) -> u32 {
    (b0 as u32) | ((b1 as u32) << 8u32) | ((b2 as u32) << 16u32) | ((b3 as u32) << 24u32)
}

pub open spec fn u32_bytes(v: u32) -> Seq<u8> {
    seq![
        (v & 0xff) as u8,
        ((v >> 8u32) & 0xff) as u8,
        ((v >> 16u32) & 0xff) as u8,
        ((v >> 24u32) & 0xff) as u8,
    ]
}

pub open spec fn u64_from_le(b: Seq<u8>, p: int) -> u64 {
    (b[p] as u64) | ((b[p + 1] as u64) << 8u64) | ((b[p + 2] as u64) << 16u64) | ((b[p
        + 3] as u64) << 24u64) | ((b[p + 4] as u64) << 32u64) | ((b[p + 5] as u64) << 40u64) | ((b[p
        + 6] as u64) << 48u64) | ((b[p + 7] as u64) << 56u64)
}

pub open spec fn u64_bytes(v: u64) -> Seq<u8> {
    seq![
        (v & 0xff) as u8,
        ((v >> 8u64) & 0xff) as u8,
        ((v >> 16u64) & 0xff) as u8,
        ((v >> 24u64) & 0xff) as u8,
        ((v >> 32u64) & 0xff) as u8,
        ((v >> 40u64) & 0xff) as u8,
        ((v >> 48u64) & 0xff) as u8,
        ((v >> 56u64) & 0xff) as u8,
    ]
}

pub open spec fn i64_bytes(v: i64) -> Seq<u8> {
    u64_bytes(v as u64)
}

pub open spec fn bool_bytes(v: bool) -> Seq<u8> {
    if v {
        seq![1u8]
    } else {
        seq![0u8]
    }
}

// ----- spec parsers ----------------------------------------------------------

pub open spec fn parse_u8(b: Seq<u8>, p: int) -> Result<(u8, int), WireError> {
    if has(b, p, 1) {
        Ok((b[p], p + 1))
    } else {
        Err(WireError::UnexpectedLength)
    }
}

pub open spec fn parse_bool(b: Seq<u8>, p: int) -> Result<(bool, int), WireError> {
    match parse_u8(b, p) {
        Err(e) => Err(e),
        Ok((x, q)) => if x == 0 {
            Ok((false, q))
        } else if x == 1 {
            Ok((true, q))
        } else {
            Err(WireError::InvalidBool(x))
        },
    }
}

pub open spec fn parse_u32(b: Seq<u8>, p: int) -> Result<(u32, int), WireError> {
    if has(b, p, 4) {
        Ok((u32_from_le(b[p], b[p + 1], b[p + 2], b[p + 3]), p + 4))
    } else {
        Err(WireError::UnexpectedLength)
    }
}

pub open spec fn parse_u64(b: Seq<u8>, p: int) -> Result<(u64, int), WireError> {
    if has(b, p, 8) {
        Ok((u64_from_le(b, p), p + 8))
    } else {
        Err(WireError::UnexpectedLength)
    }
}

pub open spec fn parse_i64(b: Seq<u8>, p: int) -> Result<(i64, int), WireError> {
    match parse_u64(b, p) {
        Err(e) => Err(e),
        Ok((x, q)) => Ok((x as i64, q)),
    }
}

/// Thirty-two bytes taken as they are (a key, or a `[u8; 32]` field).
pub open spec fn parse_bytes(b: Seq<u8>, p: int, n: int) -> Result<(Seq<u8>, int), WireError> {
    if has(b, p, n) {
        Ok((b.subrange(p, p + n), p + n))
    } else {
        Err(WireError::UnexpectedLength)
    }
}

/// A string: a `u32` byte count, then that many bytes of UTF-8.
pub open spec fn parse_string(b: Seq<u8>, p: int) -> Result<(Seq<char>, int), WireError> {
    match parse_u32(b, p) {
        Err(e) => Err(e),
        Ok((n, q)) => if has(b, q, n as int) {
            if valid_utf8(b.subrange(q, q + n)) {
                Ok((decode_utf8(b.subrange(q, q + n)), q + n))
            } else {
                Err(WireError::InvalidUtf8)
            }
        } else {
            Err(WireError::UnexpectedLength)
        },
    }
}

/// A string's encoding fits the format: its UTF-8 length fits in a `u32`.
pub open spec fn string_encodable(s: Seq<char>) -> bool {
    encode_utf8(s).len() <= u32::MAX
}

pub open spec fn string_bytes(s: Seq<char>) -> Seq<u8> {
    u32_bytes(encode_utf8(s).len() as u32) + encode_utf8(s)
}

/// An option tag: `0` for none, `1` for some.
pub open spec fn parse_option_tag(b: Seq<u8>, p: int) -> Result<(bool, int), WireError> {
    match parse_u8(b, p) {
        Err(e) => Err(e),
        Ok((x, q)) => if x == 0 {
            Ok((false, q))
        } else if x == 1 {
            Ok((true, q))
        } else {
            Err(WireError::InvalidOption(x))
        },
    }
}

pub open spec fn parse_option_u8(b: Seq<u8>, p: int) -> Result<(Option<u8>, int), WireError> {
    match parse_option_tag(b, p) {
        Err(e) => Err(e),
        Ok((some, q)) => if some {
            match parse_u8(b, q) {
                Err(e) => Err(e),
                Ok((v, r)) => Ok((Some(v), r)),
            }
        } else {
            Ok((None, q))
        },
    }
}

pub open spec fn parse_option_string(b: Seq<u8>, p: int) -> Result<
    (Option<Seq<char>>, int),
    WireError,
> {
    match parse_option_tag(b, p) {
        Err(e) => Err(e),
        Ok((some, q)) => if some {
            match parse_string(b, q) {
                Err(e) => Err(e),
                Ok((v, r)) => Ok((Some(v), r)),
            }
        } else {
            Ok((None, q))
        },
    }
}

pub open spec fn option_u8_bytes(v: Option<u8>) -> Seq<u8> {
    match v {
        None => seq![0u8],
        Some(x) => seq![1u8, x],
    }
}

pub open spec fn option_string_bytes(v: Option<Seq<char>>) -> Seq<u8> {
    match v {
        None => seq![0u8],
        Some(s) => seq![1u8] + string_bytes(s),
    }
}

pub open spec fn option_string_encodable(v: Option<Seq<char>>) -> bool {
    match v {
        None => true,
        Some(s) => string_encodable(s),
    }
}

/// A whole buffer holds exactly one value: parse from 0 and require the end.
pub open spec fn exactly<T>(r: Result<(T, int), WireError>, len: int) -> Result<T, WireError> {
    match r {
        Err(e) => Err(e),
        Ok((v, q)) => if q == len {
            Ok(v)
        } else {
            Err(WireError::NotAllBytesRead)
        },
    }
}

/// What a buffer holds after an encoding is written over its front, or the
/// error when it does not fit.
pub open spec fn store(data: Seq<u8>, enc: Seq<u8>) -> Result<Seq<u8>, WireError> {
    if enc.len() <= data.len() {
        Ok(enc + data.skip(enc.len() as int))
    } else {
        Err(WireError::WriteZero)
    }
}

// ----- byte-level lemmas -----------------------------------------------------

pub proof fn lemma_u32_value(v: u32)
    ensures
        u32_bytes(v).len() == 4,
        u32_from_le(u32_bytes(v)[0], u32_bytes(v)[1], u32_bytes(v)[2], u32_bytes(v)[3]) == v,
{
    let b0 = (v & 0xff) as u8;
    let b1 = ((v >> 8u32) & 0xff) as u8;
    let b2 = ((v >> 16u32) & 0xff) as u8;
    let b3 = ((v >> 24u32) & 0xff) as u8;
    assert(u32_from_le(b0, b1, b2, b3) == v) by (bit_vector)
        requires
            b0 == (v & 0xff) as u8,
            b1 == ((v >> 8u32) & 0xff) as u8,
            b2 == ((v >> 16u32) & 0xff) as u8,
            b3 == ((v >> 24u32) & 0xff) as u8,
    ;
}

pub proof fn lemma_u64_value(v: u64)
    ensures
        u64_bytes(v).len() == 8,
        u64_from_le(u64_bytes(v), 0) == v,
{
    let s = u64_bytes(v);
    let b0 = s[0];
    let b1 = s[1];
    let b2 = s[2];
    let b3 = s[3];
    let b4 = s[4];
    let b5 = s[5];
    let b6 = s[6];
    let b7 = s[7];
    assert((b0 as u64) | ((b1 as u64) << 8u64) | ((b2 as u64) << 16u64) | ((b3 as u64) << 24u64)
        | ((b4 as u64) << 32u64) | ((b5 as u64) << 40u64) | ((b6 as u64) << 48u64) | ((b7 as u64)
        << 56u64) == v) by (bit_vector)
        requires
            b0 == (v & 0xff) as u8,
            b1 == ((v >> 8u64) & 0xff) as u8,
            b2 == ((v >> 16u64) & 0xff) as u8,
            b3 == ((v >> 24u64) & 0xff) as u8,
            b4 == ((v >> 32u64) & 0xff) as u8,
            b5 == ((v >> 40u64) & 0xff) as u8,
            b6 == ((v >> 48u64) & 0xff) as u8,
            b7 == ((v >> 56u64) & 0xff) as u8,
    ;
}

pub proof fn lemma_u64_bytes(b: Seq<u8>, p: int)
    requires
        has(b, p, 8),
    ensures
        u64_bytes(u64_from_le(b, p)) == b.subrange(p, p + 8),
{
    let v = u64_from_le(b, p);
    let b0 = b[p];
    let b1 = b[p + 1];
    let b2 = b[p + 2];
    let b3 = b[p + 3];
    let b4 = b[p + 4];
    let b5 = b[p + 5];
    let b6 = b[p + 6];
    let b7 = b[p + 7];
    assert(b0 == (v & 0xff) as u8 && b1 == ((v >> 8u64) & 0xff) as u8 && b2 == ((v >> 16u64)
        & 0xff) as u8 && b3 == ((v >> 24u64) & 0xff) as u8 && b4 == ((v >> 32u64) & 0xff) as u8
        && b5 == ((v >> 40u64) & 0xff) as u8 && b6 == ((v >> 48u64) & 0xff) as u8 && b7 == ((v
        >> 56u64) & 0xff) as u8) by (bit_vector)
        requires
            v == (b0 as u64) | ((b1 as u64) << 8u64) | ((b2 as u64) << 16u64) | ((b3 as u64)
                << 24u64) | ((b4 as u64) << 32u64) | ((b5 as u64) << 40u64) | ((b6 as u64)
                << 48u64) | ((b7 as u64) << 56u64),
    ;
    assert(u64_bytes(v) =~= b.subrange(p, p + 8));
}

pub proof fn lemma_i64_cast(v: i64)
    ensures
        (v as u64) as i64 == v,
{
    assert((v as u64) as i64 == v) by (bit_vector);
}

// ----- roundtrip lemmas at a position ---------------------------------------
//
// Each lemma: when the bytes at `p` are the encoding of `v`, the parser at `p`
// returns `v` and ends right after the encoding.

pub proof fn lemma_parse_u8_at(b: Seq<u8>, p: int, v: u8)
    requires
        has(b, p, 1),
        b[p] == v,
    ensures
        parse_u8(b, p) == Ok::<(u8, int), WireError>((v, p + 1)),
{
}

pub proof fn lemma_parse_bool_at(b: Seq<u8>, p: int, v: bool)
    requires
        has(b, p, 1),
        b.subrange(p, p + 1) == bool_bytes(v),
    ensures
        parse_bool(b, p) == Ok::<(bool, int), WireError>((v, p + 1)),
{
    assert(b[p] == b.subrange(p, p + 1)[0]);
}

pub proof fn lemma_parse_u32_at(b: Seq<u8>, p: int, v: u32)
    requires
        has(b, p, 4),
        b.subrange(p, p + 4) == u32_bytes(v),
    ensures
        parse_u32(b, p) == Ok::<(u32, int), WireError>((v, p + 4)),
{
    lemma_u32_value(v);
    assert(b[p] == b.subrange(p, p + 4)[0]);
    assert(b[p + 1] == b.subrange(p, p + 4)[1]);
    assert(b[p + 2] == b.subrange(p, p + 4)[2]);
    assert(b[p + 3] == b.subrange(p, p + 4)[3]);
}

pub proof fn lemma_parse_u64_at(b: Seq<u8>, p: int, v: u64)
    requires
        has(b, p, 8),
        b.subrange(p, p + 8) == u64_bytes(v),
    ensures
        parse_u64(b, p) == Ok::<(u64, int), WireError>((v, p + 8)),
{
    lemma_u64_value(v);
    let s = u64_bytes(v);
    assert forall|i: int| 0 <= i < 8 implies b[p + i] == s[i] by {
        assert(b[p + i] == b.subrange(p, p + 8)[i]);
    }
}

pub proof fn lemma_parse_i64_at(b: Seq<u8>, p: int, v: i64)
    requires
        has(b, p, 8),
        b.subrange(p, p + 8) == i64_bytes(v),
    ensures
        parse_i64(b, p) == Ok::<(i64, int), WireError>((v, p + 8)),
{
    lemma_parse_u64_at(b, p, v as u64);
    lemma_i64_cast(v);
}

pub proof fn lemma_parse_bytes_at(b: Seq<u8>, p: int, v: Seq<u8>)
    requires
        has(b, p, v.len() as int),
        b.subrange(p, p + v.len()) == v,
    ensures
        parse_bytes(b, p, v.len() as int) == Ok::<(Seq<u8>, int), WireError>((v, p + v.len())),
{
}

pub proof fn lemma_string_bytes_len(s: Seq<char>)
    requires
        string_encodable(s),
    ensures
        string_bytes(s).len() == 4 + encode_utf8(s).len(),
{
}

pub proof fn lemma_parse_string_at(b: Seq<u8>, p: int, s: Seq<char>)
    requires
        string_encodable(s),
        has(b, p, string_bytes(s).len() as int),
        b.subrange(p, p + string_bytes(s).len()) == string_bytes(s),
    ensures
        parse_string(b, p) == Ok::<(Seq<char>, int), WireError>((s, p + string_bytes(s).len())),
{
    let e = encode_utf8(s);
    let n = e.len();
    let whole = b.subrange(p, p + string_bytes(s).len());
    assert(b.subrange(p, p + 4) == whole.subrange(0, 4));
    assert(whole.subrange(0, 4) == u32_bytes(n as u32));
    lemma_parse_u32_at(b, p, n as u32);
    assert(b.subrange(p + 4, p + 4 + n) == whole.subrange(4, 4 + n as int));
    assert(whole.subrange(4, 4 + n as int) =~= e);
    encode_utf8_valid_utf8(s);
    encode_utf8_decode_utf8(s);
}

pub proof fn lemma_parse_option_u8_at(b: Seq<u8>, p: int, v: Option<u8>)
    requires
        has(b, p, option_u8_bytes(v).len() as int),
        b.subrange(p, p + option_u8_bytes(v).len()) == option_u8_bytes(v),
    ensures
        parse_option_u8(b, p) == Ok::<(Option<u8>, int), WireError>(
            (v, p + option_u8_bytes(v).len()),
        ),
{
    let w = option_u8_bytes(v);
    assert(b[p] == b.subrange(p, p + w.len())[0]);
    if v is Some {
        assert(b[p + 1] == b.subrange(p, p + w.len())[1]);
    }
}

pub proof fn lemma_parse_option_string_at(b: Seq<u8>, p: int, v: Option<Seq<char>>)
    requires
        option_string_encodable(v),
        has(b, p, option_string_bytes(v).len() as int),
        b.subrange(p, p + option_string_bytes(v).len()) == option_string_bytes(v),
    ensures
        parse_option_string(b, p) == Ok::<(Option<Seq<char>>, int), WireError>(
            (v, p + option_string_bytes(v).len()),
        ),
{
    let w = option_string_bytes(v);
    assert(b[p] == b.subrange(p, p + w.len())[0]);
    match v {
        None => {},
        Some(s) => {
            let sb = string_bytes(s);
            assert(b.subrange(p + 1, p + 1 + sb.len()) == w.subrange(1, 1 + sb.len() as int));
            assert(w.subrange(1, 1 + sb.len() as int) =~= sb);
            lemma_parse_string_at(b, p + 1, s);
        },
    }
}

/// A string read from bytes fits the format again.
pub proof fn lemma_parse_string_encodable(b: Seq<u8>, p: int)
    requires
        parse_string(b, p) is Ok,
    ensures
        string_encodable(parse_string(b, p)->Ok_0.0),
{
    let n = parse_u32(b, p)->Ok_0.0;
    let bytes = b.subrange(p + 4, p + 4 + n);
    decode_utf8_encode_utf8(bytes);
}

// ----- readers ---------------------------------------------------------------

pub fn read_u8(buf: &[u8], pos: usize) -> (r: Result<(u8, usize), WireError>)
    ensures
        agrees(r, parse_u8(buf@, pos as int)),
{
    if pos < buf.len() {
        Ok((buf[pos], pos + 1))
    } else {
        Err(WireError::UnexpectedLength)
    }
}

pub fn read_bool(buf: &[u8], pos: usize) -> (r: Result<(bool, usize), WireError>)
    ensures
        agrees(r, parse_bool(buf@, pos as int)),
{
    let (x, q) = read_u8(buf, pos)?;
    if x == 0 {
        Ok((false, q))
    } else if x == 1 {
        Ok((true, q))
    } else {
        Err(WireError::InvalidBool(x))
    }
}

pub fn read_u32(buf: &[u8], pos: usize) -> (r: Result<(u32, usize), WireError>)
    ensures
        agrees(r, parse_u32(buf@, pos as int)),
{
    if pos <= buf.len() && buf.len() - pos >= 4 {
        let v = (buf[pos] as u32) | ((buf[pos + 1] as u32) << 8u32) | ((buf[pos + 2] as u32)
            << 16u32) | ((buf[pos + 3] as u32) << 24u32);
        Ok((v, pos + 4))
    } else {
        Err(WireError::UnexpectedLength)
    }
}

pub fn read_u64(buf: &[u8], pos: usize) -> (r: Result<(u64, usize), WireError>)
    ensures
        agrees(r, parse_u64(buf@, pos as int)),
{
    if pos <= buf.len() && buf.len() - pos >= 8 {
        let v = (buf[pos] as u64) | ((buf[pos + 1] as u64) << 8u64) | ((buf[pos + 2] as u64)
            << 16u64) | ((buf[pos + 3] as u64) << 24u64) | ((buf[pos + 4] as u64) << 32u64) | ((
        buf[pos + 5] as u64) << 40u64) | ((buf[pos + 6] as u64) << 48u64) | ((buf[pos + 7] as u64)
            << 56u64);
        Ok((v, pos + 8))
    } else {
        Err(WireError::UnexpectedLength)
    }
}

pub fn read_i64(buf: &[u8], pos: usize) -> (r: Result<(i64, usize), WireError>)
    ensures
        agrees(r, parse_i64(buf@, pos as int)),
{
    let (x, q) = read_u64(buf, pos)?;
    Ok((x as i64, q))
}

/// Reads a 32-byte key.
pub fn read_address(buf: &[u8], pos: usize) -> (r: Result<(Address, usize), WireError>)
    ensures
        agrees(r, parse_bytes(buf@, pos as int, 32)),
{
    if pos <= buf.len() && buf.len() - pos >= 32 {
        Ok((Address::from_slice(buf, pos), pos + 32))
    } else {
        Err(WireError::UnexpectedLength)
    }
}

/// Copies `n` bytes starting at `pos`.
pub fn read_byte_vec(buf: &[u8], pos: usize, n: usize) -> (r: Result<(Vec<u8>, usize), WireError>)
    ensures
        agrees(r, parse_bytes(buf@, pos as int, n as int)),
{
    if pos <= buf.len() && buf.len() - pos >= n {
        let mut out: Vec<u8> = Vec::new();
        let len = buf.len();
        let mut i: usize = 0;
        while i < n
            invariant
                i <= n,
                len == buf@.len(),
                pos + n <= buf@.len(),
                out@ == buf@.subrange(pos as int, pos + i),
            decreases n - i,
        {
            out.push(buf[pos + i]);
            i = i + 1;
            assert(out@ =~= buf@.subrange(pos as int, pos + i));
        }
        Ok((out, pos + n))
    } else {
        Err(WireError::UnexpectedLength)
    }
}

pub fn read_string(buf: &[u8], pos: usize) -> (r: Result<(String, usize), WireError>)
    ensures
        agrees(r, parse_string(buf@, pos as int)),
{
    let (n, q) = read_u32(buf, pos)?;
    let (bytes, end) = read_byte_vec(buf, q, n as usize)?;
    match string_from_utf8(bytes) {
        Some(s) => Ok((s, end)),
        None => Err(WireError::InvalidUtf8),
    }
}

pub fn read_option_tag(buf: &[u8], pos: usize) -> (r: Result<(bool, usize), WireError>)
    ensures
        agrees(r, parse_option_tag(buf@, pos as int)),
{
    let (x, q) = read_u8(buf, pos)?;
    if x == 0 {
        Ok((false, q))
    } else if x == 1 {
        Ok((true, q))
    } else {
        Err(WireError::InvalidOption(x))
    }
}

pub fn read_option_u8(buf: &[u8], pos: usize) -> (r: Result<(Option<u8>, usize), WireError>)
    ensures
        agrees(r, parse_option_u8(buf@, pos as int)),
{
    let (some, q) = read_option_tag(buf, pos)?;
    if some {
        let (v, end) = read_u8(buf, q)?;
        Ok((Some(v), end))
    } else {
        Ok((None, q))
    }
}

pub fn read_option_string(buf: &[u8], pos: usize) -> (r: Result<
    (Option<String>, usize),
    WireError,
>)
    ensures
        match r {
            Ok((v, q)) => parse_option_string(buf@, pos as int) == Ok::<
                (Option<Seq<char>>, int),
                WireError,
            >((opt_string_view(v), q as int)),
            Err(e) => parse_option_string(buf@, pos as int) == Err::<
                (Option<Seq<char>>, int),
                WireError,
            >(e),
        },
{
    let (some, q) = read_option_tag(buf, pos)?;
    if some {
        let (v, end) = read_string(buf, q)?;
        Ok((Some(v), end))
    } else {
        Ok((None, q))
    }
}

/// The characters of an optional string.
pub open spec fn opt_string_view(v: Option<String>) -> Option<Seq<char>> {
    match v {
        None => None,
        Some(s) => Some(s@),
    }
}

// ----- writers ---------------------------------------------------------------

pub fn write_u8(out: &mut Vec<u8>, v: u8)
    ensures
        final(out)@ == old(out)@ + seq![v],
{
    out.push(v);
}

pub fn write_bool(out: &mut Vec<u8>, v: bool)
    ensures
        final(out)@ == old(out)@ + bool_bytes(v),
{
    if v {
        out.push(1u8);
    } else {
        out.push(0u8);
    }
}

pub fn write_u32(out: &mut Vec<u8>, v: u32)
    ensures
        final(out)@ == old(out)@ + u32_bytes(v),
{
    out.push((v & 0xff) as u8);
    out.push(((v >> 8u32) & 0xff) as u8);
    out.push(((v >> 16u32) & 0xff) as u8);
    out.push(((v >> 24u32) & 0xff) as u8);
    assert(out@ =~= old(out)@ + u32_bytes(v));
}

pub fn write_u64(out: &mut Vec<u8>, v: u64)
    ensures
        final(out)@ == old(out)@ + u64_bytes(v),
{
    out.push((v & 0xff) as u8);
    out.push(((v >> 8u64) & 0xff) as u8);
    out.push(((v >> 16u64) & 0xff) as u8);
    out.push(((v >> 24u64) & 0xff) as u8);
    out.push(((v >> 32u64) & 0xff) as u8);
    out.push(((v >> 40u64) & 0xff) as u8);
    out.push(((v >> 48u64) & 0xff) as u8);
    out.push(((v >> 56u64) & 0xff) as u8);
    assert(out@ =~= old(out)@ + u64_bytes(v));
}

pub fn write_i64(out: &mut Vec<u8>, v: i64)
    ensures
        final(out)@ == old(out)@ + i64_bytes(v),
{
    write_u64(out, v as u64);
}

pub fn write_bytes(out: &mut Vec<u8>, bytes: &[u8])
    ensures
        final(out)@ == old(out)@ + bytes@,
{
    let mut i: usize = 0;
    while i < bytes.len()
        invariant
            i <= bytes@.len(),
            out@ == old(out)@ + bytes@.subrange(0, i as int),
        decreases bytes@.len() - i,
    {
        out.push(bytes[i]);
        i = i + 1;
        assert(out@ =~= old(out)@ + bytes@.subrange(0, i as int));
    }
    assert(bytes@.subrange(0, bytes@.len() as int) =~= bytes@);
}

pub fn write_address(out: &mut Vec<u8>, a: &Address)
    ensures
        final(out)@ == old(out)@ + a@,
{
    write_bytes(out, a.bytes.as_slice());
}

/// Appends a string, or fails (appending nothing) when its length does not fit
/// the `u32` prefix.
pub fn write_string(out: &mut Vec<u8>, s: &String) -> (r: Result<(), WireError>)
    ensures
        r is Ok <==> string_encodable(s@),
        r is Ok ==> final(out)@ == old(out)@ + string_bytes(s@),
        r is Err ==> r == Err::<(), WireError>(WireError::LengthOverflow) && final(out)@ == old(
            out,
        )@,
{
    let bytes = s.as_str().as_bytes();
    if bytes.len() > 0xffff_ffffusize {
        return Err(WireError::LengthOverflow);
    }
    write_u32(out, bytes.len() as u32);
    write_bytes(out, bytes);
    assert(out@ =~= old(out)@ + string_bytes(s@));
    Ok(())
}

pub fn write_option_u8(out: &mut Vec<u8>, v: Option<u8>)
    ensures
        final(out)@ == old(out)@ + option_u8_bytes(v),
{
    match v {
        None => out.push(0u8),
        Some(x) => {
            out.push(1u8);
            out.push(x);
        },
    }
    assert(out@ =~= old(out)@ + option_u8_bytes(v));
}

pub fn write_option_string(out: &mut Vec<u8>, v: &Option<String>) -> (r: Result<(), WireError>)
    ensures
        r is Ok <==> option_string_encodable(opt_string_view(*v)),
        r is Ok ==> final(out)@ == old(out)@ + option_string_bytes(opt_string_view(*v)),
        r is Err ==> r == Err::<(), WireError>(WireError::LengthOverflow),
{
    match v {
        None => {
            out.push(0u8);
            Ok(())
        },
        Some(s) => {
            out.push(1u8);
            let r = write_string(out, s);
            assert(r is Ok ==> out@ =~= old(out)@ + option_string_bytes(opt_string_view(*v)));
            r
        },
    }
}

/// Writes `enc` over the front of `data`, as serializing into an account's
/// data does; fails, leaving `data` as it was, when `enc` does not fit.
pub fn store_into(data: &mut Vec<u8>, enc: &Vec<u8>) -> (r: Result<(), WireError>)
    ensures
        match store(old(data)@, enc@) {
            Ok(d) => r is Ok && final(data)@ == d,
            Err(e) => r == Err::<(), WireError>(e) && final(data)@ == old(data)@,
        },
{
    if enc.len() > data.len() {
        return Err(WireError::WriteZero);
    }
    let mut i: usize = 0;
    while i < enc.len()
        invariant
            i <= enc@.len(),
            enc@.len() <= old(data)@.len(),
            data@.len() == old(data)@.len(),
            forall|j: int| 0 <= j < i ==> data@[j] == enc@[j],
            forall|j: int| i <= j < data@.len() ==> data@[j] == old(data)@[j],
        decreases enc@.len() - i,
    {
        data.set(i, enc[i]);
        i = i + 1;
    }
    assert(data@ =~= enc@ + old(data)@.skip(enc@.len() as int));
    Ok(())
}

// ----- UTF-8 through std -----------------------------------------------------

/// Calls `String::from_utf8`. Trusted: it accepts exactly the byte strings
/// that are valid UTF-8 (as `vstd::utf8::valid_utf8` defines it) and then holds
/// the characters they decode to.
#[verifier::external_body]
pub fn string_from_utf8(bytes: Vec<u8>) -> (r: Option<String>)
    ensures
        r is Some <==> valid_utf8(bytes@),
        r matches Some(s) ==> s@ == decode_utf8(bytes@),
{
    match String::from_utf8(bytes) {
        Ok(s) => Some(s),
        Err(_) => None,
    }
}

/// The characters `String::from_utf8_lossy` makes of a byte string.
pub uninterp spec fn utf8_lossy(bytes: Seq<u8>) -> Seq<char>;

/// Calls `String::from_utf8_lossy` and takes the owned string. Trusted: the
/// result is a function of the bytes alone (named `utf8_lossy`), and on valid
/// UTF-8 it is the decoded string, as the documentation says. What it makes of
/// invalid sequences (U+FFFD replacements) is left unsaid.
#[verifier::external_body]
pub fn string_from_utf8_lossy(bytes: &[u8]) -> (r: String)
    ensures
        r@ == utf8_lossy(bytes@),
        valid_utf8(bytes@) ==> r@ == decode_utf8(bytes@),
{
    String::from_utf8_lossy(bytes).into_owned()
}

} // verus!
