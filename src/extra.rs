//! The optional block that trails an `A2S_INFO` reply: a flags byte selects
//! which fields follow, and they follow in a fixed order whatever the order of
//! the bits.

use crate::wire::{
    latin1, le_u16, le_u64, read_text, read_u16, read_u64, text_end, DecodeError,
};
use vstd::prelude::*;

verus! {

/// Flag bit: the game port follows.
pub const FLAG_PORT: u8 = 0x80;

/// Flag bit: the server's SteamID follows.
pub const FLAG_STEAM_ID: u8 = 0x10;

/// Flag bit: the SourceTV relay's port and name follow.
pub const FLAG_SOURCE_TV: u8 = 0x40;

/// Flag bit: the server's keywords follow.
pub const FLAG_KEYWORDS: u8 = 0x20;

/// Flag bit: the full 64-bit game id follows.
pub const FLAG_GAME_ID: u8 = 0x01;

/// One field of the extra data block.
#[derive(Clone, Debug, PartialEq, Eq)]
pub enum A2SExtraData {
    ServerPort(u16),
    SteamID(u64),
    STVPortAndName(u16, String),
    Keywords(String),
    GameID(u64),
}

/// The mathematical value of an extra data field.
pub enum ExtraField {
    ServerPort(u16),
    SteamID(u64),
    STVPortAndName(u16, Seq<char>),
    Keywords(Seq<char>),
    GameID(u64),
}

impl View for A2SExtraData {
    type V = ExtraField;

    open spec fn view(&self) -> ExtraField {
        match self {
            A2SExtraData::ServerPort(p) => ExtraField::ServerPort(*p),
            A2SExtraData::SteamID(id) => ExtraField::SteamID(*id),
            A2SExtraData::STVPortAndName(p, n) => ExtraField::STVPortAndName(*p, n@),
            A2SExtraData::Keywords(k) => ExtraField::Keywords(k@),
            A2SExtraData::GameID(id) => ExtraField::GameID(*id),
        }
    }
}

/// The values of a sequence of fields.
pub open spec fn fields_view(v: Seq<A2SExtraData>) -> Seq<ExtraField> {
    v.map_values(|e: A2SExtraData| e@)
}

/// Whether `flags` has `bit` set.
pub open spec fn flag_set(flags: u8, bit: u8) -> bool {
    flags & bit != 0
}

/// `x` alone when `present`, else nothing.
pub open spec fn opt(present: bool, x: ExtraField) -> Seq<ExtraField> {
    if present {
        seq![x]
    } else {
        seq![]
    }
}

/// Where the SteamID starts, for a block that starts at `p`.
pub open spec fn steam_offset(flags: u8, p: int) -> int {
    if flag_set(flags, FLAG_PORT) {
        p + 2
    } else {
        p
    }
}

/// Where the SourceTV port starts.
pub open spec fn stv_offset(flags: u8, p: int) -> int {
    let q = steam_offset(flags, p);
    if flag_set(flags, FLAG_STEAM_ID) {
        q + 8
    } else {
        q
    }
}

/// Where the keywords start.
pub open spec fn keywords_offset(s: Seq<u8>, flags: u8, p: int) -> int {
    let q = stv_offset(flags, p);
    if flag_set(flags, FLAG_SOURCE_TV) {
        text_end(s, q + 2) + 1
    } else {
        q
    }
}

/// Where the game id starts.
pub open spec fn game_id_offset(s: Seq<u8>, flags: u8, p: int) -> int {
    let q = keywords_offset(s, flags, p);
    if flag_set(flags, FLAG_KEYWORDS) {
        text_end(s, q) + 1
    } else {
        q
    }
}

/// The extra data block of `s` that starts at `p` under `flags`: the fields
/// that the set bits name, in protocol order, or the first field that runs
/// past the end of `s`.
pub open spec fn spec_extra(s: Seq<u8>, flags: u8, p: int) -> Result<Seq<ExtraField>, DecodeError> {
    let q1 = steam_offset(flags, p);
    let q2 = stv_offset(flags, p);
    let q3 = keywords_offset(s, flags, p);
    let q4 = game_id_offset(s, flags, p);
    if flag_set(flags, FLAG_PORT) && s.len() < p + 2 {
        Err(DecodeError::TruncatedExtraData { offset: p as usize })
    } else if flag_set(flags, FLAG_STEAM_ID) && s.len() < q1 + 8 {
        Err(DecodeError::TruncatedExtraData { offset: q1 as usize })
    } else if flag_set(flags, FLAG_SOURCE_TV) && s.len() < q2 + 2 {
        Err(DecodeError::TruncatedExtraData { offset: q2 as usize })
    } else if flag_set(flags, FLAG_SOURCE_TV) && text_end(s, q2 + 2) >= s.len() {
        Err(DecodeError::TruncatedExtraData { offset: (q2 + 2) as usize })
    } else if flag_set(flags, FLAG_KEYWORDS) && text_end(s, q3) >= s.len() {
        Err(DecodeError::TruncatedExtraData { offset: q3 as usize })
    } else if flag_set(flags, FLAG_GAME_ID) && s.len() < q4 + 8 {
        Err(DecodeError::TruncatedExtraData { offset: q4 as usize })
    } else {
        Ok(
            opt(flag_set(flags, FLAG_PORT), ExtraField::ServerPort(le_u16(s, p) as u16))
                + opt(flag_set(flags, FLAG_STEAM_ID), ExtraField::SteamID(le_u64(s, q1) as u64))
                + opt(
                flag_set(flags, FLAG_SOURCE_TV),
                ExtraField::STVPortAndName(
                    le_u16(s, q2) as u16,
                    latin1(s.subrange(q2 + 2, text_end(s, q2 + 2))),
                ),
            ) + opt(flag_set(flags, FLAG_KEYWORDS), ExtraField::Keywords(latin1(s.subrange(q3, text_end(s, q3)))))
                + opt(flag_set(flags, FLAG_GAME_ID), ExtraField::GameID(le_u64(s, q4) as u64)),
        )
    }
}

/// Whether a decode result matches its model.
pub open spec fn extra_result_matches(
    r: Result<Vec<A2SExtraData>, DecodeError>,
    m: Result<Seq<ExtraField>, DecodeError>,
) -> bool {
    match r {
        Ok(v) => m == Ok::<Seq<ExtraField>, DecodeError>(fields_view(v@)),
        Err(e) => m == Err::<Seq<ExtraField>, DecodeError>(e),
    }
}

fn push_field(data: &mut Vec<A2SExtraData>, f: A2SExtraData)
    ensures
        fields_view(final(data)@) == fields_view(old(data)@) + seq![f@],
{
    data.push(f);
    assert(fields_view(data@) =~= fields_view(old(data)@) + seq![f@]);
}

/// Decodes the block that starts at `start` in `buf`, under `flags`.
pub fn parse_extra(flags: u8, buf: &[u8], start: usize) -> (r: Result<Vec<A2SExtraData>, DecodeError>)
    requires
        start <= buf@.len(),
    ensures
        extra_result_matches(r, spec_extra(buf@, flags, start as int)),
{
    let ghost s = buf@;
    let ghost p = start as int;
    let mut data: Vec<A2SExtraData> = Vec::new();
    let mut cursor: usize = start;
    if flags & FLAG_PORT != 0 {
        match read_u16(buf, cursor) {
            Some(port) => {
                push_field(&mut data, A2SExtraData::ServerPort(port));
                cursor = cursor + 2;
            },
            None => return Err(DecodeError::TruncatedExtraData { offset: cursor }),
        }
    }
    assert(fields_view(data@) =~= opt(flag_set(flags, FLAG_PORT), ExtraField::ServerPort(le_u16(s, p) as u16)));
    assert(cursor == steam_offset(flags, p));
    if flags & FLAG_STEAM_ID != 0 {
        match read_u64(buf, cursor) {
            Some(id) => {
                push_field(&mut data, A2SExtraData::SteamID(id));
                cursor = cursor + 8;
            },
            None => return Err(DecodeError::TruncatedExtraData { offset: cursor }),
        }
    }
    let ghost acc2 = opt(flag_set(flags, FLAG_PORT), ExtraField::ServerPort(le_u16(s, p) as u16))
        + opt(flag_set(flags, FLAG_STEAM_ID), ExtraField::SteamID(le_u64(s, steam_offset(flags, p)) as u64));
    assert(fields_view(data@) =~= acc2);
    assert(cursor == stv_offset(flags, p));
    if flags & FLAG_SOURCE_TV != 0 {
        let port = match read_u16(buf, cursor) {
            Some(port) => port,
            None => return Err(DecodeError::TruncatedExtraData { offset: cursor }),
        };
        let name_start = cursor + 2;
        match read_text(buf, name_start) {
            Some((name, end)) => {
                push_field(&mut data, A2SExtraData::STVPortAndName(port, name));
                cursor = end + 1;
            },
            None => return Err(DecodeError::TruncatedExtraData { offset: name_start }),
        }
    }
    let ghost q2 = stv_offset(flags, p);
    let ghost acc3 = acc2 + opt(
        flag_set(flags, FLAG_SOURCE_TV),
        ExtraField::STVPortAndName(le_u16(s, q2) as u16, latin1(s.subrange(q2 + 2, text_end(s, q2 + 2)))),
    );
    assert(fields_view(data@) =~= acc3);
    assert(cursor == keywords_offset(s, flags, p));
    if flags & FLAG_KEYWORDS != 0 {
        match read_text(buf, cursor) {
            Some((keywords, end)) => {
                push_field(&mut data, A2SExtraData::Keywords(keywords));
                cursor = end + 1;
            },
            None => return Err(DecodeError::TruncatedExtraData { offset: cursor }),
        }
    }
    let ghost q3 = keywords_offset(s, flags, p);
    let ghost acc4 = acc3 + opt(flag_set(flags, FLAG_KEYWORDS), ExtraField::Keywords(latin1(s.subrange(q3, text_end(s, q3)))));
    assert(fields_view(data@) =~= acc4);
    assert(cursor == game_id_offset(s, flags, p));
    if flags & FLAG_GAME_ID != 0 {
        match read_u64(buf, cursor) {
            Some(id) => {
                push_field(&mut data, A2SExtraData::GameID(id));
            },
            None => return Err(DecodeError::TruncatedExtraData { offset: cursor }),
        }
    }
    Ok(data)
}

impl A2SExtraData {
    /// Decodes an extra data block under the flags byte `edf`; `buf` holds the
    /// bytes that follow the flags byte.
    pub fn from_bytes(edf: u8, buf: &[u8]) -> (r: Result<Vec<Self>, DecodeError>)
        ensures
            extra_result_matches(r, spec_extra(buf@, edf, 0)),
    {
        parse_extra(edf, buf, 0)
    }
}

} // verus!
