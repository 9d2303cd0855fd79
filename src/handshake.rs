//! The two request datagrams of the challenge handshake.

use crate::wire::{le_u32, read_u32};
use vstd::prelude::*;

verus! {

/// `FF FF FF FF`, `T`, the text `Source Engine Query` and a zero byte.
pub open spec fn query_payload() -> Seq<u8> {
    seq![
        0xFFu8, 0xFF, 0xFF, 0xFF, 0x54,
        0x53, 0x6F, 0x75, 0x72, 0x63, 0x65, 0x20,
        0x45, 0x6E, 0x67, 0x69, 0x6E, 0x65, 0x20,
        0x51, 0x75, 0x65, 0x72, 0x79, 0x00,
    ]
}

/// The four little-endian bytes of `t`.
pub open spec fn le_bytes_u32(t: u32) -> Seq<u8> {
    seq![
        (t % 0x100) as u8,
        (t / 0x100 % 0x100) as u8,
        (t / 0x1_0000 % 0x100) as u8,
        (t / 0x100_0000) as u8,
    ]
}

/// The first request: the query payload alone.
pub fn info_request() -> (r: Vec<u8>)
    ensures
        r@ == query_payload(),
{
    let r: Vec<u8> = vec![
        0xFF, 0xFF, 0xFF, 0xFF, 0x54,
        0x53, 0x6F, 0x75, 0x72, 0x63, 0x65, 0x20,
        0x45, 0x6E, 0x67, 0x69, 0x6E, 0x65, 0x20,
        0x51, 0x75, 0x65, 0x72, 0x79, 0x00,
    ];
    assert(r@ =~= query_payload());
    r
}

/// The challenge token of a challenge reply: the little-endian `u32` after
/// the four-byte prefix and the one-byte marker; `None` when the reply is
/// shorter than nine bytes.
pub fn challenge_token(reply: &[u8]) -> (r: Option<u32>)
    ensures
        r is Some <==> reply@.len() >= 9,
        r matches Some(t) ==> t as int == le_u32(reply@, 5),
{
    read_u32(reply, 5)
}

/// The second request: the query payload followed by the token's four
/// little-endian bytes.
pub fn challenge_request(token: u32) -> (r: Vec<u8>)
    ensures
        r@ == query_payload() + le_bytes_u32(token),
{
    let mut r = info_request();
    r.push((token % 0x100) as u8);
    r.push((token / 0x100 % 0x100) as u8);
    r.push((token / 0x1_0000 % 0x100) as u8);
    r.push((token / 0x100_0000) as u8);
    assert(r@ =~= query_payload() + le_bytes_u32(token));
    r
}

/// Proof that writing a token out byte by byte gives back the four bytes it
/// was read from.
pub proof fn lemma_token_bytes(s: Seq<u8>, t: u32)
    requires
        s.len() >= 9,
        t as int == le_u32(s, 5),
    ensures
        le_bytes_u32(t) == s.subrange(5, 9),
{
    let (b0, b1, b2, b3) = (s[5] as u32, s[6] as u32, s[7] as u32, s[8] as u32);
    assert(t == b0 + 0x100 * b1 + 0x1_0000 * b2 + 0x100_0000 * b3);
    assert(b0 < 0x100 && b1 < 0x100 && b2 < 0x100 && b3 < 0x100);
    assert(t % 0x100 == b0 && t / 0x100 % 0x100 == b1 && t / 0x1_0000 % 0x100 == b2 && t
        / 0x100_0000 == b3) by (nonlinear_arith)
        requires
            t == b0 + 0x100 * b1 + 0x1_0000 * b2 + 0x100_0000 * b3,
            b0 < 0x100 && b1 < 0x100 && b2 < 0x100 && b3 < 0x100,
    ;
    assert(le_bytes_u32(t) =~= s.subrange(5, 9));
}

/// The request that answers a challenge reply: the query payload followed by
/// bytes 5 to 8 of the reply, or `None` when the reply is shorter than nine
/// bytes.
pub fn answer_challenge(reply: &[u8]) -> (r: Option<Vec<u8>>)
    ensures
        r is Some <==> reply@.len() >= 9,
        r matches Some(req) ==> req@ == query_payload() + reply@.subrange(5, 9),
{
    match challenge_token(reply) {
        Some(t) => {
            proof {
                lemma_token_bytes(reply@, t);
            }
            Some(challenge_request(t))
        },
        None => None,
    }
}

} // verus!
