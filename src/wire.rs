//! Primitive readers over a reply buffer: single bytes, little-endian
//! integers and zero-terminated text, each with an exact contract.

use vstd::prelude::*;

verus! {

/// Why a reply could not be decoded. Every offset counts from the first byte
/// of the reply.
#[derive(Clone, Copy, Debug, PartialEq, Eq, Structural)]
pub enum DecodeError {
    /// The reply does not begin with `FF FF FF FF 49`.
    InvalidHeader,
    /// The field that starts at `offset` runs past the end of the reply.
    Truncated { offset: usize },
    /// The server-type byte at `offset` is none of `d`, `l`, `p`.
    UnknownServerType { offset: usize, byte: u8 },
    /// The OS byte at `offset` is none of `l`, `w`, `m`, `o`.
    UnknownOsType { offset: usize, byte: u8 },
    /// The visibility byte at `offset` is neither 0 nor 1.
    UnknownVisibility { offset: usize, byte: u8 },
    /// A field of the extra data block that starts at `offset` runs past the
    /// end of the reply.
    TruncatedExtraData { offset: usize },
}

impl DecodeError {
    /// True for the errors that come from the reply's fields, false for a
    /// reply that is not an `A2S_INFO` reply at all.
    pub fn is_malformed_field(&self) -> (r: bool)
        ensures
            r == !(*self is InvalidHeader),
    {
        !matches!(self, DecodeError::InvalidHeader)
    }
}

/// Index of the first zero byte of `s` at or after `i`, or `s.len()` when
/// there is none.
pub open spec fn text_end(s: Seq<u8>, i: int) -> int
    decreases s.len() - i,
{
    if i < 0 || i >= s.len() {
        s.len() as int
    } else if s[i] == 0 {
        i
    } else {
        text_end(s, i + 1)
    }
}

/// Text as the protocol carries it: each byte is one character.
pub open spec fn latin1(b: Seq<u8>) -> Seq<char> {
    b.map_values(|x: u8| x as char)
}

/// The little-endian value of the two bytes at `i`.
pub open spec fn le_u16(s: Seq<u8>, i: int) -> int {
    s[i] + 0x100 * s[i + 1]
}

/// The little-endian value of the four bytes at `i`.
pub open spec fn le_u32(s: Seq<u8>, i: int) -> int {
    s[i] + 0x100 * s[i + 1] + 0x1_0000 * s[i + 2] + 0x100_0000 * s[i + 3]
}

/// The little-endian value of the eight bytes at `i`.
pub open spec fn le_u64(s: Seq<u8>, i: int) -> int {
    le_u32(s, i) + 0x1_0000_0000 * le_u32(s, i + 4)
}

/// Relies on `String::push`: the character is appended at the end.
#[verifier::external_body]
fn push_char(s: &mut String, c: char)
    ensures
        final(s)@ == old(s)@.push(c),
{
    s.push(c);
}

/// The byte at `i`, or `Truncated` naming `i` when the buffer ends before it.
pub fn byte_at(buf: &[u8], i: usize) -> (r: Result<u8, DecodeError>)
    ensures
        i < buf@.len() ==> r == Ok::<u8, DecodeError>(buf@[i as int]),
        i >= buf@.len() ==> r == Err::<u8, DecodeError>(DecodeError::Truncated { offset: i }),
{
    if i < buf.len() {
        Ok(buf[i])
    } else {
        Err(DecodeError::Truncated { offset: i })
    }
}

/// The little-endian `u16` at `i`, if two bytes remain there.
pub fn read_u16(buf: &[u8], i: usize) -> (r: Option<u16>)
    ensures
        r is Some <==> i + 2 <= buf.len(),
        r matches Some(v) ==> v as int == le_u16(buf@, i as int),
{
    if i <= buf.len() && buf.len() - i >= 2 {
        Some((buf[i] as u16) + (buf[i + 1] as u16) * 0x100)
    } else {
        None
    }
}

/// The little-endian `u32` at `i`, if four bytes remain there.
pub fn read_u32(buf: &[u8], i: usize) -> (r: Option<u32>)
    ensures
        r is Some <==> i + 4 <= buf.len(),
        r matches Some(v) ==> v as int == le_u32(buf@, i as int),
{
    if i <= buf.len() && buf.len() - i >= 4 {
        Some((buf[i] as u32) + (buf[i + 1] as u32) * 0x100 + (buf[i + 2] as u32) * 0x1_0000 + (
        buf[i + 3] as u32) * 0x100_0000)
    } else {
        None
    }
}

/// The little-endian `u64` at `i`, if eight bytes remain there.
pub fn read_u64(buf: &[u8], i: usize) -> (r: Option<u64>)
    ensures
        r is Some <==> i + 8 <= buf.len(),
        r matches Some(v) ==> v as int == le_u64(buf@, i as int),
{
    if i <= buf.len() && buf.len() - i >= 8 {
        let lo = read_u32(buf, i).unwrap();
        let hi = read_u32(buf, i + 4).unwrap();
        Some((lo as u64) + (hi as u64) * 0x1_0000_0000)
    } else {
        None
    }
}

/// The zero-terminated text that starts at `start`, with the index of its
/// terminating zero; `None` when no zero byte follows `start`.
pub fn read_text(buf: &[u8], start: usize) -> (r: Option<(String, usize)>)
    ensures
        r is Some <==> text_end(buf@, start as int) < buf.len(),
        r matches Some((t, end)) ==> end == text_end(buf@, start as int) && t@ == latin1(
            buf@.subrange(start as int, end as int),
        ),
{
    if start >= buf.len() {
        return None;
    }
    let mut t = String::new();
    let mut i: usize = start;
    while i < buf.len()
        invariant
            start <= i <= buf@.len(),
            text_end(buf@, start as int) == text_end(buf@, i as int),
            t@ == latin1(buf@.subrange(start as int, i as int)),
        decreases buf@.len() - i,
    {
        let b = buf[i];
        if b == 0 {
            return Some((t, i));
        }
        push_char(&mut t, b as char);
        assert(latin1(buf@.subrange(start as int, i + 1)) =~= latin1(
            buf@.subrange(start as int, i as int),
        ).push(b as char));
        i = i + 1;
    }
    None
}

} // verus!
