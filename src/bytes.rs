//! Fixed-width integers on the wire: little-endian by default, big-endian
//! for address ports.

use vstd::prelude::*;

verus! {

/// Why a byte stream could not be decoded.
#[derive(Debug, Clone, Copy, PartialEq, Eq, Structural)]
pub enum DecodeError {
    /// Fewer bytes are available than the encoding needs.
    Truncated,
    /// The four leading bytes are not the network's magic value.
    BadMagic,
    /// The header names a command this codec does not know.
    UnknownCommand,
    /// The body does not have exactly the length the header declares.
    LengthMismatch,
    /// A string field does not hold valid UTF-8.
    InvalidUtf8,
    /// The recomputed body checksum differs from the header's.
    ChecksumMismatch,
}

pub open spec fn le_u16(v: u16) -> Seq<u8> {
    seq![(v & 0xff) as u8, ((v >> 8u16) & 0xff) as u8]
}

pub open spec fn be_u16(v: u16) -> Seq<u8> {
    seq![((v >> 8u16) & 0xff) as u8, (v & 0xff) as u8]
}

pub open spec fn le_u32(v: u32) -> Seq<u8> {
    seq![
        (v & 0xff) as u8,
        ((v >> 8u32) & 0xff) as u8,
        ((v >> 16u32) & 0xff) as u8,
        ((v >> 24u32) & 0xff) as u8,
    ]
}

pub open spec fn le_u64(v: u64) -> Seq<u8> {
    seq![
        (v & 0xff) as u8,
        ((v >> 8u64) & 0xff) as u8,
        ((v >> 16u64) & 0xff) as u8,
        ((v >> 24u64) & 0xff) as u8,
        ((v >> 32u64) & 0xff) as u8,
        ((v >> 40u64) & 0xff) as u8,
        ((v >> 48u64) & 0xff) as u8,
        ((v >> 56u64) & 0xff) as u8,
    ]
}

/// The `u16` whose little-endian bytes start at `pos`.
pub open spec fn u16_at_le(s: Seq<u8>, pos: int) -> u16 {
    (s[pos] as u16) | ((s[pos + 1] as u16) << 8u16)
}

/// The `u16` whose big-endian bytes start at `pos`.
pub open spec fn u16_at_be(s: Seq<u8>, pos: int) -> u16 {
    ((s[pos] as u16) << 8u16) | (s[pos + 1] as u16)
}

pub open spec fn u32_at_le(s: Seq<u8>, pos: int) -> u32 {
    (s[pos] as u32) | ((s[pos + 1] as u32) << 8u32) | ((s[pos + 2] as u32) << 16u32) | ((
    s[pos + 3] as u32) << 24u32)
}

pub open spec fn u64_at_le(s: Seq<u8>, pos: int) -> u64 {
    (s[pos] as u64) | ((s[pos + 1] as u64) << 8u64) | ((s[pos + 2] as u64) << 16u64) | ((s[pos
        + 3] as u64) << 24u64) | ((s[pos + 4] as u64) << 32u64) | ((s[pos + 5] as u64) << 40u64)
        | ((s[pos + 6] as u64) << 48u64) | ((s[pos + 7] as u64) << 56u64)
}

/// Reading back what `le_u16` wrote gives the value.
pub proof fn lemma_le_u16(v: u16)
    ensures
        u16_at_le(le_u16(v), 0) == v,
{
    let s = le_u16(v);
    let b0 = s[0];
    let b1 = s[1];
    assert(b0 == (v & 0xff) as u8 && b1 == ((v >> 8u16) & 0xff) as u8);
    assert(((v & 0xff) as u8 as u16) | ((((v >> 8u16) & 0xff) as u8 as u16) << 8u16) == v)
        by (bit_vector);
}

pub proof fn lemma_be_u16(v: u16)
    ensures
        u16_at_be(be_u16(v), 0) == v,
{
    assert(((((v >> 8u16) & 0xff) as u8 as u16) << 8u16) | ((v & 0xff) as u8 as u16) == v)
        by (bit_vector);
}

pub proof fn lemma_le_u32(v: u32)
    ensures
        u32_at_le(le_u32(v), 0) == v,
{
    assert(((v & 0xff) as u8 as u32) | ((((v >> 8u32) & 0xff) as u8 as u32) << 8u32) | ((((v
        >> 16u32) & 0xff) as u8 as u32) << 16u32) | ((((v >> 24u32) & 0xff) as u8 as u32)
        << 24u32) == v) by (bit_vector);
}

pub proof fn lemma_le_u64(v: u64)
    ensures
        u64_at_le(le_u64(v), 0) == v,
{
    assert(((v & 0xff) as u8 as u64) | ((((v >> 8u64) & 0xff) as u8 as u64) << 8u64) | ((((v
        >> 16u64) & 0xff) as u8 as u64) << 16u64) | ((((v >> 24u64) & 0xff) as u8 as u64)
        << 24u64) | ((((v >> 32u64) & 0xff) as u8 as u64) << 32u64) | ((((v >> 40u64) & 0xff)
        as u8 as u64) << 40u64) | ((((v >> 48u64) & 0xff) as u8 as u64) << 48u64) | ((((v
        >> 56u64) & 0xff) as u8 as u64) << 56u64) == v) by (bit_vector);
}

pub fn put_u8(buf: &mut Vec<u8>, v: u8)
    ensures
        final(buf)@ == old(buf)@ + seq![v],
{
    buf.push(v);
    assert(buf@ =~= old(buf)@ + seq![v]);
}

pub fn put_u16_le(buf: &mut Vec<u8>, v: u16)
    ensures
        final(buf)@ == old(buf)@ + le_u16(v),
{
    buf.push((v & 0xff) as u8);
    buf.push(((v >> 8u16) & 0xff) as u8);
    assert(buf@ =~= old(buf)@ + le_u16(v));
}

pub fn put_u16_be(buf: &mut Vec<u8>, v: u16)
    ensures
        final(buf)@ == old(buf)@ + be_u16(v),
{
    buf.push(((v >> 8u16) & 0xff) as u8);
    buf.push((v & 0xff) as u8);
    assert(buf@ =~= old(buf)@ + be_u16(v));
}

pub fn put_u32_le(buf: &mut Vec<u8>, v: u32)
    ensures
        final(buf)@ == old(buf)@ + le_u32(v),
{
    buf.push((v & 0xff) as u8);
    buf.push(((v >> 8u32) & 0xff) as u8);
    buf.push(((v >> 16u32) & 0xff) as u8);
    buf.push(((v >> 24u32) & 0xff) as u8);
    assert(buf@ =~= old(buf)@ + le_u32(v));
}

pub fn put_u64_le(buf: &mut Vec<u8>, v: u64)
    ensures
        final(buf)@ == old(buf)@ + le_u64(v),
{
    buf.push((v & 0xff) as u8);
    buf.push(((v >> 8u64) & 0xff) as u8);
    buf.push(((v >> 16u64) & 0xff) as u8);
    buf.push(((v >> 24u64) & 0xff) as u8);
    buf.push(((v >> 32u64) & 0xff) as u8);
    buf.push(((v >> 40u64) & 0xff) as u8);
    buf.push(((v >> 48u64) & 0xff) as u8);
    buf.push(((v >> 56u64) & 0xff) as u8);
    assert(buf@ =~= old(buf)@ + le_u64(v));
}

/// Appends every byte of `bytes`.
pub fn put_bytes(buf: &mut Vec<u8>, bytes: &[u8])
    ensures
        final(buf)@ == old(buf)@ + bytes@,
{
    let mut i: usize = 0;
    while i < bytes.len()
        invariant
            i <= bytes@.len(),
            buf@ == old(buf)@ + bytes@.subrange(0, i as int),
        decreases bytes@.len() - i,
    {
        buf.push(bytes[i]);
        i = i + 1;
        assert(buf@ =~= old(buf)@ + bytes@.subrange(0, i as int));
    }
    assert(bytes@.subrange(0, i as int) =~= bytes@);
}

pub fn get_u8(s: &[u8], pos: usize) -> (r: Result<u8, DecodeError>)
    ensures
        pos < s@.len() ==> r == Ok::<u8, DecodeError>(s@[pos as int]),
        pos >= s@.len() ==> r == Err::<u8, DecodeError>(DecodeError::Truncated),
{
    if pos < s.len() {
        Ok(s[pos])
    } else {
        Err(DecodeError::Truncated)
    }
}

pub fn get_u16_le(s: &[u8], pos: usize) -> (r: Result<u16, DecodeError>)
    ensures
        pos + 2 <= s@.len() ==> r == Ok::<u16, DecodeError>(u16_at_le(s@, pos as int)),
        pos + 2 > s@.len() ==> r == Err::<u16, DecodeError>(DecodeError::Truncated),
{
    if pos > s.len() || s.len() - pos < 2 {
        return Err(DecodeError::Truncated);
    }
    Ok((s[pos] as u16) | ((s[pos + 1] as u16) << 8u16))
}

pub fn get_u16_be(s: &[u8], pos: usize) -> (r: Result<u16, DecodeError>)
    ensures
        pos + 2 <= s@.len() ==> r == Ok::<u16, DecodeError>(u16_at_be(s@, pos as int)),
        pos + 2 > s@.len() ==> r == Err::<u16, DecodeError>(DecodeError::Truncated),
{
    if pos > s.len() || s.len() - pos < 2 {
        return Err(DecodeError::Truncated);
    }
    Ok(((s[pos] as u16) << 8u16) | (s[pos + 1] as u16))
}

pub fn get_u32_le(s: &[u8], pos: usize) -> (r: Result<u32, DecodeError>)
    ensures
        pos + 4 <= s@.len() ==> r == Ok::<u32, DecodeError>(u32_at_le(s@, pos as int)),
        pos + 4 > s@.len() ==> r == Err::<u32, DecodeError>(DecodeError::Truncated),
{
    if pos > s.len() || s.len() - pos < 4 {
        return Err(DecodeError::Truncated);
    }
    Ok((s[pos] as u32) | ((s[pos + 1] as u32) << 8u32) | ((s[pos + 2] as u32) << 16u32) | ((s[pos
        + 3] as u32) << 24u32))
}

pub fn get_u64_le(s: &[u8], pos: usize) -> (r: Result<u64, DecodeError>)
    ensures
        pos + 8 <= s@.len() ==> r == Ok::<u64, DecodeError>(u64_at_le(s@, pos as int)),
        pos + 8 > s@.len() ==> r == Err::<u64, DecodeError>(DecodeError::Truncated),
{
    if pos > s.len() || s.len() - pos < 8 {
        return Err(DecodeError::Truncated);
    }
    Ok((s[pos] as u64) | ((s[pos + 1] as u64) << 8u64) | ((s[pos + 2] as u64) << 16u64) | ((s[pos
        + 3] as u64) << 24u64) | ((s[pos + 4] as u64) << 32u64) | ((s[pos + 5] as u64) << 40u64)
        | ((s[pos + 6] as u64) << 48u64) | ((s[pos + 7] as u64) << 56u64))
}

/// A copy of the bytes from `from` up to `to`.
pub fn copy_range(s: &[u8], from: usize, to: usize) -> (r: Vec<u8>)
    requires
        from <= to <= s@.len(),
    ensures
        r@ == s@.subrange(from as int, to as int),
{
    let mut r: Vec<u8> = Vec::new();
    let mut i: usize = from;
    while i < to
        invariant
            from <= i <= to <= s@.len(),
            r@ == s@.subrange(from as int, i as int),
        decreases to - i,
    {
        r.push(s[i]);
        i = i + 1;
        assert(r@ =~= s@.subrange(from as int, i as int));
    }
    r
}

/// A window of `s` that holds `x + y` holds `x`, then `y`.
pub proof fn lemma_split(s: Seq<u8>, p: int, x: Seq<u8>, y: Seq<u8>)
    requires
        0 <= p,
        p + x.len() + y.len() <= s.len(),
        s.subrange(p, p + x.len() + y.len()) == x + y,
    ensures
        s.subrange(p, p + x.len()) == x,
        s.subrange(p + x.len(), p + x.len() + y.len()) == y,
{
    let w = s.subrange(p, p + x.len() + y.len());
    assert forall|k: int| 0 <= k < x.len() implies s[p + k] == x[k] by {
        assert(w[k] == s[p + k]);
        assert(w[k] == (x + y)[k]);
    }
    assert forall|k: int| 0 <= k < y.len() implies s[p + x.len() + k] == y[k] by {
        assert(w[x.len() + k] == s[p + x.len() + k]);
        assert(w[x.len() + k] == (x + y)[x.len() + k]);
    }
    assert(s.subrange(p, p + x.len()) =~= x);
    assert(s.subrange(p + x.len(), p + x.len() + y.len()) =~= y);
}

pub proof fn lemma_u32_window(s: Seq<u8>, p: int, v: u32)
    requires
        0 <= p,
        p + 4 <= s.len(),
        s.subrange(p, p + 4) == le_u32(v),
    ensures
        u32_at_le(s, p) == v,
{
    assert forall|k: int| 0 <= k < 4 implies s[p + k] == le_u32(v)[k] by {
        assert(s.subrange(p, p + 4)[k] == s[p + k]);
    }
    lemma_le_u32(v);
}

pub proof fn lemma_u64_window(s: Seq<u8>, p: int, v: u64)
    requires
        0 <= p,
        p + 8 <= s.len(),
        s.subrange(p, p + 8) == le_u64(v),
    ensures
        u64_at_le(s, p) == v,
{
    assert forall|k: int| 0 <= k < 8 implies s[p + k] == le_u64(v)[k] by {
        assert(s.subrange(p, p + 8)[k] == s[p + k]);
    }
    lemma_le_u64(v);
}

} // verus!
