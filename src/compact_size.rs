//! CompactSize: the variable-width unsigned integer that prefixes
//! variable-length fields, and the length-prefixed strings built on it.

use vstd::prelude::*;
use vstd::utf8::{decode_utf8, encode_utf8, encode_utf8_decode_utf8, encode_utf8_valid_utf8, valid_utf8};
use crate::bytes::{
    DecodeError, copy_range, get_u16_le, get_u32_le, get_u64_le, get_u8, le_u16, le_u32, le_u64, put_bytes, put_u16_le,
    put_u32_le, put_u64_le, put_u8, u16_at_le, u32_at_le, u64_at_le, lemma_le_u16, lemma_le_u32,
    lemma_le_u64,
};

verus! {

/// Lifts a decoder's result, whose position is a `usize`, to the
/// mathematical form used by the specification parsers.
pub open spec fn lift<T>(r: Result<(T, usize), DecodeError>) -> Result<(T, int), DecodeError> {
    match r {
        Ok((v, p)) => Ok((v, p as int)),
        Err(e) => Err(e),
    }
}

/// The minimal CompactSize encoding of `n`.
pub open spec fn compact_size(n: u64) -> Seq<u8> {
    if n <= 0xfc {
        seq![n as u8]
    } else if n <= 0xffff {
        seq![0xfdu8] + le_u16(n as u16)
    } else if n <= 0xffff_ffff {
        seq![0xfeu8] + le_u32(n as u32)
    } else {
        seq![0xffu8] + le_u64(n)
    }
}

/// Reads a CompactSize at `pos`: the marker byte selects one of the four
/// shapes; the result is the value and the position after it.
pub open spec fn parse_compact_size(s: Seq<u8>, pos: int) -> Result<(u64, int), DecodeError> {
    if pos < 0 || pos >= s.len() {
        Err(DecodeError::Truncated)
    } else if s[pos] <= 0xfc {
        Ok((s[pos] as u64, pos + 1))
    } else if s[pos] == 0xfd {
        if pos + 3 <= s.len() {
            Ok((u16_at_le(s, pos + 1) as u64, pos + 3))
        } else {
            Err(DecodeError::Truncated)
        }
    } else if s[pos] == 0xfe {
        if pos + 5 <= s.len() {
            Ok((u32_at_le(s, pos + 1) as u64, pos + 5))
        } else {
            Err(DecodeError::Truncated)
        }
    } else {
        if pos + 9 <= s.len() {
            Ok((u64_at_le(s, pos + 1), pos + 9))
        } else {
            Err(DecodeError::Truncated)
        }
    }
}

/// The encoding of `n` takes 1, 3, 5 or 9 bytes, by the tier `n` falls in.
pub proof fn lemma_compact_size_width(n: u64)
    ensures
        n <= 0xfc ==> compact_size(n).len() == 1,
        0xfc < n <= 0xffff ==> compact_size(n).len() == 3,
        0xffff < n <= 0xffff_ffff ==> compact_size(n).len() == 5,
        0xffff_ffff < n ==> compact_size(n).len() == 9,
{
}

/// Decoding a CompactSize that stands anywhere in a stream gives back the
/// value and moves past exactly its bytes.
pub proof fn lemma_compact_size_round_trip(pre: Seq<u8>, n: u64, post: Seq<u8>)
    ensures
        parse_compact_size(pre + compact_size(n) + post, pre.len() as int) == Ok::<
            (u64, int),
            DecodeError,
        >((n, (pre.len() + compact_size(n).len()) as int)),
{
    let e = compact_size(n);
    let s = pre + e + post;
    let p = pre.len() as int;
    assert forall|k: int| 0 <= k < e.len() implies s[p + k] == e[k] by {}
    if n <= 0xfc {
    } else if n <= 0xffff {
        lemma_le_u16(n as u16);
        assert(u16_at_le(s, p + 1) == u16_at_le(le_u16(n as u16), 0));
    } else if n <= 0xffff_ffff {
        lemma_le_u32(n as u32);
        assert(u32_at_le(s, p + 1) == u32_at_le(le_u32(n as u32), 0));
    } else {
        lemma_le_u64(n);
        assert(u64_at_le(s, p + 1) == u64_at_le(le_u64(n), 0));
    }
}

/// Appends the minimal CompactSize encoding of `n`.
pub fn write_compact_size(buf: &mut Vec<u8>, n: u64) -> (written: usize)
    ensures
        final(buf)@ == old(buf)@ + compact_size(n),
        written == compact_size(n).len(),
{
    if n <= 0xfc {
        put_u8(buf, n as u8);
        1
    } else if n <= 0xffff {
        put_u8(buf, 0xfd);
        put_u16_le(buf, n as u16);
        assert(buf@ =~= old(buf)@ + compact_size(n));
        3
    } else if n <= 0xffff_ffff {
        put_u8(buf, 0xfe);
        put_u32_le(buf, n as u32);
        assert(buf@ =~= old(buf)@ + compact_size(n));
        5
    } else {
        put_u8(buf, 0xff);
        put_u64_le(buf, n);
        assert(buf@ =~= old(buf)@ + compact_size(n));
        9
    }
}

/// Reads the CompactSize at `pos`.
pub fn read_compact_size(s: &[u8], pos: usize) -> (r: Result<(u64, usize), DecodeError>)
    ensures
        lift(r) == parse_compact_size(s@, pos as int),
{
    let len = s.len();
    let marker = get_u8(s, pos)?;
    if marker <= 0xfc {
        Ok((marker as u64, pos + 1))
    } else if marker == 0xfd {
        let v = get_u16_le(s, pos + 1)?;
        Ok((v as u64, pos + 3))
    } else if marker == 0xfe {
        let v = get_u32_le(s, pos + 1)?;
        Ok((v as u64, pos + 5))
    } else {
        let v = get_u64_le(s, pos + 1)?;
        Ok((v, pos + 9))
    }
}

/// A string on the wire: its UTF-8 length as a CompactSize, then the bytes.
pub open spec fn string_bytes(c: Seq<char>) -> Seq<u8> {
    compact_size(encode_utf8(c).len() as u64) + encode_utf8(c)
}

/// Reads a length-prefixed string at `pos`: the characters and the position
/// after the string.
pub open spec fn parse_string(s: Seq<u8>, pos: int) -> Result<(Seq<char>, int), DecodeError> {
    match parse_compact_size(s, pos) {
        Err(e) => Err(e),
        Ok((n, p)) => {
            if p + n > s.len() {
                Err(DecodeError::Truncated)
            } else if !valid_utf8(s.subrange(p, p + n)) {
                Err(DecodeError::InvalidUtf8)
            } else {
                Ok((decode_utf8(s.subrange(p, p + n)), p + n))
            }
        },
    }
}

/// Decoding a string that stands anywhere in a stream gives back its
/// characters and moves past exactly its bytes.
pub proof fn lemma_string_round_trip(pre: Seq<u8>, c: Seq<char>, post: Seq<u8>)
    requires
        encode_utf8(c).len() <= u64::MAX,
    ensures
        parse_string(pre + string_bytes(c) + post, pre.len() as int) == Ok::<
            (Seq<char>, int),
            DecodeError,
        >((c, (pre.len() + string_bytes(c).len()) as int)),
{
    let b = encode_utf8(c);
    let n = b.len() as u64;
    let cs = compact_size(n);
    let s = pre + string_bytes(c) + post;
    assert(s == pre + cs + (b + post));
    lemma_compact_size_round_trip(pre, n, b + post);
    let p = (pre.len() + cs.len()) as int;
    assert(s.subrange(p, p + n) =~= b);
    encode_utf8_valid_utf8(c);
    encode_utf8_decode_utf8(c);
}

/// Relies on `String::from_utf8`: it succeeds exactly on valid UTF-8, and
/// the string then holds the characters that the bytes encode.
#[verifier::external_body]
fn string_from_utf8(bytes: Vec<u8>) -> (r: Option<String>)
    ensures
        r.is_some() == valid_utf8(bytes@),
        r matches Some(t) ==> t@ == decode_utf8(bytes@),
{
    String::from_utf8(bytes).ok()
}

/// Appends `s` with its CompactSize length prefix; returns the number of
/// bytes written.
pub fn write_string(buf: &mut Vec<u8>, s: &str) -> (written: usize)
    requires
        encode_utf8(s@).len() + 9 <= usize::MAX,
    ensures
        final(buf)@ == old(buf)@ + string_bytes(s@),
        written == string_bytes(s@).len(),
{
    let b = s.as_bytes();
    let n = write_compact_size(buf, b.len() as u64);
    put_bytes(buf, b);
    assert(buf@ =~= old(buf)@ + string_bytes(s@));
    n + b.len()
}

/// Reads the length-prefixed string at `pos`.
pub fn read_string(s: &[u8], pos: usize) -> (r: Result<(String, usize), DecodeError>)
    ensures
        match r {
            Ok((t, p)) => parse_string(s@, pos as int) == Ok::<(Seq<char>, int), DecodeError>(
                (t@, p as int),
            ),
            Err(e) => parse_string(s@, pos as int) == Err::<(Seq<char>, int), DecodeError>(e),
        },
{
    let len = s.len();
    let (n, p) = read_compact_size(s, pos)?;
    if (n as u128) > ((len - p) as u128) {
        return Err(DecodeError::Truncated);
    }
    let end = p + n as usize;
    let bytes = copy_range(s, p, end);
    match string_from_utf8(bytes) {
        Some(t) => Ok((t, end)),
        None => Err(DecodeError::InvalidUtf8),
    }
}

/// The string round trip, for a string that fills the window of `s` at `p`.
pub proof fn lemma_string_window(s: Seq<u8>, p: int, c: Seq<char>)
    requires
        encode_utf8(c).len() <= u64::MAX,
        0 <= p,
        p + string_bytes(c).len() <= s.len(),
        s.subrange(p, p + string_bytes(c).len()) == string_bytes(c),
    ensures
        parse_string(s, p) == Ok::<(Seq<char>, int), DecodeError>(
            (c, p + string_bytes(c).len()),
        ),
{
    let pre = s.subrange(0, p);
    let post = s.subrange(p + string_bytes(c).len(), s.len() as int);
    assert(s =~= pre + string_bytes(c) + post);
    lemma_string_round_trip(pre, c, post);
}

} // verus!
