//! Laws of the decoder: how its result follows from the shape of the reply,
//! and a model of the reply a server writes for a record, which decodes back
//! to that record.

use crate::extra::{
    flag_set, game_id_offset, keywords_offset, opt, steam_offset, stv_offset, spec_extra, ExtraField, FLAG_GAME_ID, FLAG_KEYWORDS, FLAG_PORT,
    FLAG_SOURCE_TV, FLAG_STEAM_ID,
};
use crate::handshake::le_bytes_u32;
use crate::info::{
    app_offset, desc_offset, dir_offset, flags_offset, has_header, info_header, map_offset, name_offset,
    server_type_of, spec_decode, text_at, InfoView, OsType, ServerType, Visibility,
};
use crate::wire::{le_u16, le_u32, le_u64, text_end, DecodeError};
use vstd::prelude::*;

verus! {

/// A reply that does not begin with `FF FF FF FF 49` is rejected with
/// `InvalidHeader`, whatever follows.
pub proof fn lemma_bad_header(s: Seq<u8>)
    requires
        !has_header(s),
    ensures
        spec_decode(s) == Err::<crate::info::InfoView, DecodeError>(DecodeError::InvalidHeader),
{
}

/// A reply that is well formed up to its server-type byte, and whose
/// server-type byte is none of `d`, `l`, `p`, is rejected with
/// `UnknownServerType` naming that byte and its offset.
pub proof fn lemma_unknown_server_type(s: Seq<u8>)
    requires
        has_header(s),
        text_end(s, name_offset()) < s.len(),
        text_end(s, map_offset(s)) < s.len(),
        text_end(s, dir_offset(s)) < s.len(),
        text_end(s, desc_offset(s)) < s.len(),
        app_offset(s) + 6 <= s.len(),
        server_type_of(s[app_offset(s) + 5]) is None,
    ensures
        spec_decode(s) == Err::<crate::info::InfoView, DecodeError>(
            DecodeError::UnknownServerType {
                offset: (app_offset(s) + 5) as usize,
                byte: s[app_offset(s) + 5],
            },
        ),
{
}

/// The bits of the flags byte that announce a field.
pub open spec fn known_flags() -> u8 {
    FLAG_PORT | FLAG_STEAM_ID | FLAG_SOURCE_TV | FLAG_KEYWORDS | FLAG_GAME_ID
}

/// A flags byte with none of the known bits set yields no fields and reads
/// nothing past the flags byte, whatever follows it.
pub proof fn lemma_no_known_flags(s: Seq<u8>, flags: u8, p: int)
    requires
        flags & known_flags() == 0,
    ensures
        spec_extra(s, flags, p) == Ok::<Seq<ExtraField>, DecodeError>(seq![]),
        game_id_offset(s, flags, p) == p,
{
    assert(!flag_set(flags, FLAG_PORT) && !flag_set(flags, FLAG_STEAM_ID) && !flag_set(flags, FLAG_SOURCE_TV)
        && !flag_set(flags, FLAG_KEYWORDS) && !flag_set(flags, FLAG_GAME_ID)) by (bit_vector)
        requires
            flags & (0x80u8 | 0x10u8 | 0x40u8 | 0x20u8 | 0x01u8) == 0,
    ;
    assert(spec_extra(s, flags, p)->Ok_0 =~= seq![]);
}

/// A flags byte that announces the SteamID, followed by fewer than eight
/// bytes, is rejected as truncated extra data.
pub proof fn lemma_short_steam_id(s: Seq<u8>, flags: u8, p: int)
    requires
        0 <= p <= s.len(),
        flag_set(flags, FLAG_STEAM_ID),
        s.len() - p < 8,
    ensures
        spec_extra(s, flags, p) is Err,
        spec_extra(s, flags, p)->Err_0 is TruncatedExtraData,
{
}


/// Text that the wire can carry: each character is one nonzero byte.
pub open spec fn wire_text(t: Seq<char>) -> bool {
    forall|i: int| 0 <= i < t.len() ==> 0 < (#[trigger] t[i]) as u32 && (t[i] as u32) < 0x100
}

/// The bytes of wire text.
pub open spec fn text_bytes(t: Seq<char>) -> Seq<u8> {
    t.map_values(|c: char| (c as u32) as u8)
}

/// Wire text followed by its terminating zero.
pub open spec fn cstr(t: Seq<char>) -> Seq<u8> {
    text_bytes(t).push(0)
}

/// The two little-endian bytes of `v`.
pub open spec fn u16_bytes(v: u16) -> Seq<u8> {
    seq![(v % 0x100) as u8, (v / 0x100) as u8]
}

/// The eight little-endian bytes of `v`.
pub open spec fn u64_bytes(v: u64) -> Seq<u8> {
    le_bytes_u32((v % 0x1_0000_0000) as u32) + le_bytes_u32((v / 0x1_0000_0000) as u32)
}

/// The wire byte of a server type.
pub open spec fn server_type_byte(t: ServerType) -> u8 {
    match t {
        ServerType::Dedicated => 0x64,
        ServerType::Listen => 0x6c,
        ServerType::SourceTV => 0x70,
    }
}

/// The wire byte of an operating system.
pub open spec fn os_type_byte(t: OsType) -> u8 {
    match t {
        OsType::Linux => 0x6c,
        OsType::Windows => 0x77,
        OsType::Mac => 0x6d,
    }
}

/// The wire byte of a visibility.
pub open spec fn visibility_byte(v: Visibility) -> u8 {
    match v {
        Visibility::Public => 0,
        Visibility::Private => 1,
    }
}

/// The fields of an extra data block, each present or not.
pub struct ExtraParts {
    pub port: Option<u16>,
    pub steam_id: Option<u64>,
    pub source_tv: Option<(u16, Seq<char>)>,
    pub keywords: Option<Seq<char>>,
    pub game_id: Option<u64>,
}

/// `bit` when `present`, else zero.
pub open spec fn bit_if(present: bool, bit: u8) -> u8 {
    if present {
        bit
    } else {
        0
    }
}

/// `b` when `present`, else nothing.
pub open spec fn bytes_if(present: bool, b: Seq<u8>) -> Seq<u8> {
    if present {
        b
    } else {
        seq![]
    }
}

impl ExtraParts {
    /// Its texts are wire text.
    pub open spec fn wf(self) -> bool {
        (self.source_tv matches Some((_, n)) ==> wire_text(n)) && (self.keywords matches Some(k)
            ==> wire_text(k))
    }

    /// The flags byte that announces exactly the present fields.
    pub open spec fn flags(self) -> u8 {
        bit_if(self.port is Some, FLAG_PORT) | bit_if(self.steam_id is Some, FLAG_STEAM_ID)
            | bit_if(self.source_tv is Some, FLAG_SOURCE_TV) | bit_if(
            self.keywords is Some,
            FLAG_KEYWORDS,
        ) | bit_if(self.game_id is Some, FLAG_GAME_ID)
    }

    /// The present fields in protocol order.
    pub open spec fn fields(self) -> Seq<ExtraField> {
        opt(self.port is Some, ExtraField::ServerPort(self.port->Some_0)) + opt(
            self.steam_id is Some,
            ExtraField::SteamID(self.steam_id->Some_0),
        ) + opt(
            self.source_tv is Some,
            ExtraField::STVPortAndName(self.source_tv->Some_0.0, self.source_tv->Some_0.1),
        ) + opt(self.keywords is Some, ExtraField::Keywords(self.keywords->Some_0)) + opt(
            self.game_id is Some,
            ExtraField::GameID(self.game_id->Some_0),
        )
    }

    /// The bytes of the port, if present.
    pub open spec fn port_bytes(self) -> Seq<u8> {
        bytes_if(self.port is Some, u16_bytes(self.port->Some_0))
    }

    /// The bytes of the SteamID, if present.
    pub open spec fn steam_id_bytes(self) -> Seq<u8> {
        bytes_if(self.steam_id is Some, u64_bytes(self.steam_id->Some_0))
    }

    /// The bytes of the SourceTV port and name, if present.
    pub open spec fn source_tv_bytes(self) -> Seq<u8> {
        bytes_if(
            self.source_tv is Some,
            u16_bytes(self.source_tv->Some_0.0) + cstr(self.source_tv->Some_0.1),
        )
    }

    /// The bytes of the keywords, if present.
    pub open spec fn keywords_bytes(self) -> Seq<u8> {
        bytes_if(self.keywords is Some, cstr(self.keywords->Some_0))
    }

    /// The bytes of the game id, if present.
    pub open spec fn game_id_bytes(self) -> Seq<u8> {
        bytes_if(self.game_id is Some, u64_bytes(self.game_id->Some_0))
    }

    /// The bytes of the present fields in protocol order.
    pub open spec fn bytes(self) -> Seq<u8> {
        self.port_bytes() + self.steam_id_bytes() + self.source_tv_bytes() + self.keywords_bytes()
            + self.game_id_bytes()
    }
}

/// A record that a server can send: its texts are wire text and its extra
/// data is the one that `x` describes.
pub open spec fn encodable(v: InfoView, x: ExtraParts) -> bool {
    &&& wire_text(v.server_name)
    &&& wire_text(v.map_name)
    &&& wire_text(v.game_dir)
    &&& wire_text(v.game_name)
    &&& wire_text(v.game_version)
    &&& x.wf()
    &&& v.extra_data == x.fields()
}

/// The fixed-size fields between the game description and the game version.
pub open spec fn fixed_bytes(v: InfoView) -> Seq<u8> {
    u16_bytes(v.app_id) + seq![
        v.current_players,
        v.max_players,
        v.bots,
        server_type_byte(v.server_type),
        os_type_byte(v.os_type),
        visibility_byte(v.visibility),
        if v.vac_enabled { 1u8 } else { 0u8 },
    ]
}

/// The reply for `v` up to and including the extra data flags byte.
pub open spec fn info_prefix(v: InfoView, x: ExtraParts) -> Seq<u8> {
    info_header() + seq![v.protocol_ver] + cstr(v.server_name) + cstr(v.map_name) + cstr(
        v.game_dir,
    ) + cstr(v.game_name) + fixed_bytes(v) + cstr(v.game_version) + seq![x.flags()]
}

/// The `A2S_INFO` reply that a server sends for `v`, with the extra data
/// block that `x` describes.
pub open spec fn encode_info(v: InfoView, x: ExtraParts) -> Seq<u8> {
    info_prefix(v, x) + x.bytes()
}

proof fn lemma_text_end_from(s: Seq<u8>, j: int, end: int)
    requires
        0 <= j <= end < s.len(),
        s[end] == 0,
        forall|k: int| j <= k < end ==> s[k] != 0,
    ensures
        text_end(s, j) == end,
    decreases end - j,
{
    if j < end {
        lemma_text_end_from(s, j + 1, end);
    }
}

proof fn lemma_byte_char(c: char)
    requires
        (c as u32) < 0x100,
    ensures
        (((c as u32) as u8) as char) == c,
{
}

/// Wire text written at `i` and terminated reads back as itself.
proof fn lemma_text_at(s: Seq<u8>, i: int, t: Seq<char>)
    requires
        wire_text(t),
        0 <= i,
        i + t.len() < s.len(),
        s.subrange(i, i + t.len() + 1) == cstr(t),
    ensures
        text_end(s, i) == i + t.len(),
        text_at(s, i) == t,
{
    assert forall|k: int| i <= k < i + t.len() implies s[k] != 0 by {
        assert(s.subrange(i, i + t.len() + 1)[k - i] == s[k]);
        assert(cstr(t)[k - i] == (t[k - i] as u32) as u8);
    }
    assert(s.subrange(i, i + t.len() + 1)[t.len() as int] == s[i + t.len()]);
    lemma_text_end_from(s, i, i + t.len());
    assert(text_at(s, i) =~= t) by {
        assert forall|k: int| 0 <= k < t.len() implies text_at(s, i)[k] == t[k] by {
            assert(s.subrange(i, i + t.len() + 1)[k] == s[i + k]);
            assert(cstr(t)[k] == (t[k] as u32) as u8);
            assert(text_at(s, i)[k] == (s[i + k] as char));
            lemma_byte_char(t[k]);
        }
    }
}

/// The four bytes of `t` read back as `t`.
proof fn lemma_le_u32_bytes(s: Seq<u8>, i: int, t: u32)
    requires
        0 <= i,
        i + 4 <= s.len(),
        s.subrange(i, i + 4) == le_bytes_u32(t),
    ensures
        le_u32(s, i) == t,
{
    assert(s[i] == s.subrange(i, i + 4)[0]);
    assert(s[i + 1] == s.subrange(i, i + 4)[1]);
    assert(s[i + 2] == s.subrange(i, i + 4)[2]);
    assert(s[i + 3] == s.subrange(i, i + 4)[3]);
}


/// The two bytes of `v` read back as `v`.
proof fn lemma_le_u16_bytes(s: Seq<u8>, i: int, v: u16)
    requires
        0 <= i,
        i + 2 <= s.len(),
        s.subrange(i, i + 2) == u16_bytes(v),
    ensures
        le_u16(s, i) == v,
{
    assert(s[i] == s.subrange(i, i + 2)[0]);
    assert(s[i + 1] == s.subrange(i, i + 2)[1]);
}

/// The eight bytes of `v` read back as `v`.
proof fn lemma_le_u64_bytes(s: Seq<u8>, i: int, v: u64)
    requires
        0 <= i,
        i + 8 <= s.len(),
        s.subrange(i, i + 8) == u64_bytes(v),
    ensures
        le_u64(s, i) == v,
{
    let lo = (v % 0x1_0000_0000) as u32;
    let hi = (v / 0x1_0000_0000) as u32;
    assert(s.subrange(i, i + 4) =~= s.subrange(i, i + 8).subrange(0, 4));
    assert(s.subrange(i + 4, i + 8) =~= s.subrange(i, i + 8).subrange(4, 8));
    assert(u64_bytes(v).subrange(0, 4) =~= le_bytes_u32(lo));
    assert(u64_bytes(v).subrange(4, 8) =~= le_bytes_u32(hi));
    lemma_le_u32_bytes(s, i, lo);
    lemma_le_u32_bytes(s, i + 4, hi);
}

/// The flags byte of `x` has exactly the bits of its present fields.
proof fn lemma_flags_of(x: ExtraParts)
    ensures
        flag_set(x.flags(), FLAG_PORT) == x.port is Some,
        flag_set(x.flags(), FLAG_STEAM_ID) == x.steam_id is Some,
        flag_set(x.flags(), FLAG_SOURCE_TV) == x.source_tv is Some,
        flag_set(x.flags(), FLAG_KEYWORDS) == x.keywords is Some,
        flag_set(x.flags(), FLAG_GAME_ID) == x.game_id is Some,
{
    let a = bit_if(x.port is Some, FLAG_PORT);
    let b = bit_if(x.steam_id is Some, FLAG_STEAM_ID);
    let c = bit_if(x.source_tv is Some, FLAG_SOURCE_TV);
    let d = bit_if(x.keywords is Some, FLAG_KEYWORDS);
    let e = bit_if(x.game_id is Some, FLAG_GAME_ID);
    assert(((a | b | c | d | e) & 0x80 != 0) == (a != 0) && ((a | b | c | d | e) & 0x10 != 0) == (b
        != 0) && ((a | b | c | d | e) & 0x40 != 0) == (c != 0) && ((a | b | c | d | e) & 0x20 != 0)
        == (d != 0) && ((a | b | c | d | e) & 0x01 != 0) == (e != 0)) by (bit_vector)
        requires
            a == 0 || a == 0x80,
            b == 0 || b == 0x10,
            c == 0 || c == 0x40,
            d == 0 || d == 0x20,
            e == 0 || e == 1,
    ;
}

/// Where each part of a concatenation stands in it.
proof fn lemma_parts(
    pre: Seq<u8>,
    pb: Seq<u8>,
    sb: Seq<u8>,
    tb: Seq<u8>,
    kb: Seq<u8>,
    gb: Seq<u8>,
)
    ensures
        ({
            let s = pre + (pb + sb + tb + kb + gb);
            let e1 = (pre.len() + pb.len()) as int;
            let e2 = e1 + sb.len();
            let e3 = e2 + tb.len();
            let e4 = e3 + kb.len();
            &&& s.len() == e4 + gb.len()
            &&& s.subrange(pre.len() as int, e1) == pb
            &&& s.subrange(e1, e2) == sb
            &&& s.subrange(e2, e3) == tb
            &&& s.subrange(e3, e4) == kb
            &&& s.subrange(e4, s.len() as int) == gb
        }),
{
    let s = pre + (pb + sb + tb + kb + gb);
    let e1 = (pre.len() + pb.len()) as int;
    let e2 = e1 + sb.len();
    let e3 = e2 + tb.len();
    let e4 = e3 + kb.len();
    assert(s.subrange(pre.len() as int, e1) =~= pb);
    assert(s.subrange(e1, e2) =~= sb);
    assert(s.subrange(e2, e3) =~= tb);
    assert(s.subrange(e3, e4) =~= kb);
    assert(s.subrange(e4, s.len() as int) =~= gb);
}

/// The extra data block at `e0` reads as the fields of `x` when each present
/// field of `x` stands where the ones before it end.
proof fn lemma_extra_from_fields(s: Seq<u8>, x: ExtraParts, e0: int, e1: int, e2: int, e3: int, e4: int)
    requires
        0 <= e0,
        e1 == e0 + (if x.port is Some { 2int } else { 0int }),
        e2 == e1 + (if x.steam_id is Some { 8int } else { 0int }),
        x.source_tv is None ==> e3 == e2,
        x.keywords is None ==> e4 == e3,
        flag_set(x.flags(), FLAG_PORT) == x.port is Some,
        flag_set(x.flags(), FLAG_STEAM_ID) == x.steam_id is Some,
        flag_set(x.flags(), FLAG_SOURCE_TV) == x.source_tv is Some,
        flag_set(x.flags(), FLAG_KEYWORDS) == x.keywords is Some,
        flag_set(x.flags(), FLAG_GAME_ID) == x.game_id is Some,
        x.port matches Some(v) ==> e0 + 2 <= s.len() && le_u16(s, e0) == v,
        x.steam_id matches Some(v) ==> e1 + 8 <= s.len() && le_u64(s, e1) == v,
        x.source_tv matches Some((port, name)) ==> e2 + 2 <= s.len() && le_u16(s, e2) == port
            && text_end(s, e2 + 2) == e3 - 1 && e3 - 1 < s.len() && text_at(s, e2 + 2) == name,
        x.keywords matches Some(k) ==> text_end(s, e3) == e4 - 1 && e4 - 1 < s.len() && text_at(
            s,
            e3,
        ) == k,
        x.game_id matches Some(v) ==> e4 + 8 <= s.len() && le_u64(s, e4) == v,
    ensures
        spec_extra(s, x.flags(), e0) == Ok::<Seq<ExtraField>, DecodeError>(x.fields()),
{
    let f = x.flags();
    assert(steam_offset(f, e0) == e1);
    assert(stv_offset(f, e0) == e2);
    assert(keywords_offset(s, f, e0) == e3);
    assert(game_id_offset(s, f, e0) == e4);
    assert(spec_extra(s, f, e0)->Ok_0 =~= x.fields());
}

/// Where the SteamID of `x` starts when its block starts after `pre`.
pub open spec fn at_steam_id(pre: Seq<u8>, x: ExtraParts) -> int {
    (pre.len() + x.port_bytes().len()) as int
}

/// Where the SourceTV fields of `x` start.
pub open spec fn at_source_tv(pre: Seq<u8>, x: ExtraParts) -> int {
    at_steam_id(pre, x) + x.steam_id_bytes().len()
}

/// Where the keywords of `x` start.
pub open spec fn at_keywords(pre: Seq<u8>, x: ExtraParts) -> int {
    at_source_tv(pre, x) + x.source_tv_bytes().len()
}

/// Where the game id of `x` starts.
pub open spec fn at_game_id(pre: Seq<u8>, x: ExtraParts) -> int {
    at_keywords(pre, x) + x.keywords_bytes().len()
}

proof fn lemma_layout(pre: Seq<u8>, x: ExtraParts)
    ensures
        ({
            let s = pre + x.bytes();
            &&& s.len() == at_game_id(pre, x) + x.game_id_bytes().len()
            &&& s.subrange(pre.len() as int, at_steam_id(pre, x)) == x.port_bytes()
            &&& s.subrange(at_steam_id(pre, x), at_source_tv(pre, x)) == x.steam_id_bytes()
            &&& s.subrange(at_source_tv(pre, x), at_keywords(pre, x)) == x.source_tv_bytes()
            &&& s.subrange(at_keywords(pre, x), at_game_id(pre, x)) == x.keywords_bytes()
            &&& s.subrange(at_game_id(pre, x), s.len() as int) == x.game_id_bytes()
        }),
{
    lemma_parts(
        pre,
        x.port_bytes(),
        x.steam_id_bytes(),
        x.source_tv_bytes(),
        x.keywords_bytes(),
        x.game_id_bytes(),
    );
}

proof fn lemma_port_at(pre: Seq<u8>, x: ExtraParts)
    ensures
        x.port matches Some(v) ==> pre.len() + 2 <= (pre + x.bytes()).len() && le_u16(
            pre + x.bytes(),
            pre.len() as int,
        ) == v,
{
    lemma_layout(pre, x);
    if let Some(v) = x.port {
        lemma_le_u16_bytes(pre + x.bytes(), pre.len() as int, v);
    }
}

proof fn lemma_steam_id_at(pre: Seq<u8>, x: ExtraParts)
    ensures
        x.steam_id matches Some(v) ==> at_steam_id(pre, x) + 8 <= (pre + x.bytes()).len() && le_u64(
            pre + x.bytes(),
            at_steam_id(pre, x),
        ) == v,
{
    lemma_layout(pre, x);
    if let Some(v) = x.steam_id {
        lemma_le_u64_bytes(pre + x.bytes(), at_steam_id(pre, x), v);
    }
}

proof fn lemma_source_tv_at(pre: Seq<u8>, x: ExtraParts)
    requires
        x.wf(),
    ensures
        ({
            let s = pre + x.bytes();
            let e2 = at_source_tv(pre, x);
            let e3 = at_keywords(pre, x);
            x.source_tv matches Some((port, name)) ==> e2 + 2 <= s.len() && le_u16(s, e2) == port
                && text_end(s, e2 + 2) == e3 - 1 && e3 - 1 < s.len() && text_at(s, e2 + 2) == name
        }),
{
    let s = pre + x.bytes();
    let e2 = at_source_tv(pre, x);
    let e3 = at_keywords(pre, x);
    lemma_layout(pre, x);
    if let Some((port, name)) = x.source_tv {
        assert(s.subrange(e2, e2 + 2) =~= u16_bytes(port));
        lemma_le_u16_bytes(s, e2, port);
        assert(s.subrange(e2 + 2, e3) =~= cstr(name));
        lemma_text_at(s, e2 + 2, name);
    }
}

proof fn lemma_keywords_at(pre: Seq<u8>, x: ExtraParts)
    requires
        x.wf(),
    ensures
        ({
            let s = pre + x.bytes();
            let e3 = at_keywords(pre, x);
            let e4 = at_game_id(pre, x);
            x.keywords matches Some(k) ==> text_end(s, e3) == e4 - 1 && e4 - 1 < s.len() && text_at(
                s,
                e3,
            ) == k
        }),
{
    lemma_layout(pre, x);
    if let Some(k) = x.keywords {
        lemma_text_at(pre + x.bytes(), at_keywords(pre, x), k);
    }
}

proof fn lemma_game_id_at(pre: Seq<u8>, x: ExtraParts)
    ensures
        x.game_id matches Some(v) ==> at_game_id(pre, x) + 8 <= (pre + x.bytes()).len() && le_u64(
            pre + x.bytes(),
            at_game_id(pre, x),
        ) == v,
{
    lemma_layout(pre, x);
    if let Some(v) = x.game_id {
        lemma_le_u64_bytes(pre + x.bytes(), at_game_id(pre, x), v);
    }
}

/// An extra data block written after any prefix reads back as its fields.
proof fn lemma_extra_round_trip(pre: Seq<u8>, x: ExtraParts)
    requires
        x.wf(),
    ensures
        spec_extra(pre + x.bytes(), x.flags(), pre.len() as int) == Ok::<
            Seq<ExtraField>,
            DecodeError,
        >(x.fields()),
{
    lemma_flags_of(x);
    lemma_port_at(pre, x);
    lemma_steam_id_at(pre, x);
    lemma_source_tv_at(pre, x);
    lemma_keywords_at(pre, x);
    lemma_game_id_at(pre, x);
    lemma_extra_from_fields(
        pre + x.bytes(),
        x,
        pre.len() as int,
        at_steam_id(pre, x),
        at_source_tv(pre, x),
        at_keywords(pre, x),
        at_game_id(pre, x),
    );
}


/// Where the map name of `v` starts in its reply.
pub open spec fn at_map(v: InfoView) -> int {
    7 + v.server_name.len() as int
}

/// Where the game directory starts.
pub open spec fn at_dir(v: InfoView) -> int {
    at_map(v) + v.map_name.len() + 1
}

/// Where the game description starts.
pub open spec fn at_desc(v: InfoView) -> int {
    at_dir(v) + v.game_dir.len() + 1
}

/// Where the app id starts.
pub open spec fn at_app(v: InfoView) -> int {
    at_desc(v) + v.game_name.len() + 1
}

/// Where the flags byte stands.
pub open spec fn at_flags(v: InfoView) -> int {
    at_app(v) + 9 + v.game_version.len() + 1
}

proof fn lemma_info_layout(v: InfoView, x: ExtraParts)
    ensures
        ({
            let s = encode_info(v, x);
            &&& s.len() == at_flags(v) + 1 + x.bytes().len()
            &&& info_prefix(v, x).len() == at_flags(v) + 1
            &&& s.subrange(0, 5) == info_header()
            &&& s[5] == v.protocol_ver
            &&& s.subrange(6, at_map(v)) == cstr(v.server_name)
            &&& s.subrange(at_map(v), at_dir(v)) == cstr(v.map_name)
            &&& s.subrange(at_dir(v), at_desc(v)) == cstr(v.game_dir)
            &&& s.subrange(at_desc(v), at_app(v)) == cstr(v.game_name)
            &&& s.subrange(at_app(v), at_app(v) + 9) == fixed_bytes(v)
            &&& s.subrange(at_app(v) + 9, at_flags(v)) == cstr(v.game_version)
            &&& s[at_flags(v)] == x.flags()
        }),
{
    let s = encode_info(v, x);
    let p = info_prefix(v, x);
    assert(s.subrange(0, 5) =~= info_header());
    assert(s.subrange(6, at_map(v)) =~= cstr(v.server_name));
    assert(s.subrange(at_map(v), at_dir(v)) =~= cstr(v.map_name));
    assert(s.subrange(at_dir(v), at_desc(v)) =~= cstr(v.game_dir));
    assert(s.subrange(at_desc(v), at_app(v)) =~= cstr(v.game_name));
    assert(s.subrange(at_app(v), at_app(v) + 9) =~= fixed_bytes(v));
    assert(s.subrange(at_app(v) + 9, at_flags(v)) =~= cstr(v.game_version));
}


/// A reply whose fields stand where `v`'s reply has them decodes to `v`.
proof fn lemma_decode_from_fields(s: Seq<u8>, v: InfoView, x: ExtraParts)
    requires
        has_header(s),
        s[5] == v.protocol_ver,
        text_end(s, 6) == at_map(v) - 1,
        text_at(s, 6) == v.server_name,
        text_end(s, at_map(v)) == at_dir(v) - 1,
        text_at(s, at_map(v)) == v.map_name,
        text_end(s, at_dir(v)) == at_desc(v) - 1,
        text_at(s, at_dir(v)) == v.game_dir,
        text_end(s, at_desc(v)) == at_app(v) - 1,
        text_at(s, at_desc(v)) == v.game_name,
        le_u16(s, at_app(v)) == v.app_id,
        s[at_app(v) + 2] == v.current_players,
        s[at_app(v) + 3] == v.max_players,
        s[at_app(v) + 4] == v.bots,
        s[at_app(v) + 5] == server_type_byte(v.server_type),
        s[at_app(v) + 6] == os_type_byte(v.os_type),
        s[at_app(v) + 7] == visibility_byte(v.visibility),
        s[at_app(v) + 8] == (if v.vac_enabled { 1u8 } else { 0u8 }),
        text_end(s, at_app(v) + 9) == at_flags(v) - 1,
        text_at(s, at_app(v) + 9) == v.game_version,
        at_flags(v) < s.len(),
        s[at_flags(v)] == x.flags(),
        spec_extra(s, x.flags(), at_flags(v) + 1) == Ok::<Seq<ExtraField>, DecodeError>(
            v.extra_data,
        ),
    ensures
        spec_decode(s) == Ok::<InfoView, DecodeError>(v),
{
    assert(map_offset(s) == at_map(v));
    assert(dir_offset(s) == at_dir(v));
    assert(desc_offset(s) == at_desc(v));
    assert(app_offset(s) == at_app(v));
    assert(flags_offset(s) == at_flags(v));
}

proof fn lemma_texts_at(v: InfoView, x: ExtraParts)
    requires
        encodable(v, x),
    ensures
        ({
            let s = encode_info(v, x);
            &&& text_end(s, 6) == at_map(v) - 1
            &&& text_at(s, 6) == v.server_name
            &&& text_end(s, at_map(v)) == at_dir(v) - 1
            &&& text_at(s, at_map(v)) == v.map_name
            &&& text_end(s, at_dir(v)) == at_desc(v) - 1
            &&& text_at(s, at_dir(v)) == v.game_dir
            &&& text_end(s, at_desc(v)) == at_app(v) - 1
            &&& text_at(s, at_desc(v)) == v.game_name
            &&& text_end(s, at_app(v) + 9) == at_flags(v) - 1
            &&& text_at(s, at_app(v) + 9) == v.game_version
        }),
{
    let s = encode_info(v, x);
    lemma_info_layout(v, x);
    lemma_text_at(s, 6, v.server_name);
    lemma_text_at(s, at_map(v), v.map_name);
    lemma_text_at(s, at_dir(v), v.game_dir);
    lemma_text_at(s, at_desc(v), v.game_name);
    lemma_text_at(s, at_app(v) + 9, v.game_version);
}

proof fn lemma_fixed_at(v: InfoView, x: ExtraParts)
    ensures
        ({
            let s = encode_info(v, x);
            let a = at_app(v);
            &&& has_header(s)
            &&& s[5] == v.protocol_ver
            &&& le_u16(s, a) == v.app_id
            &&& s[a + 2] == v.current_players
            &&& s[a + 3] == v.max_players
            &&& s[a + 4] == v.bots
            &&& s[a + 5] == server_type_byte(v.server_type)
            &&& s[a + 6] == os_type_byte(v.os_type)
            &&& s[a + 7] == visibility_byte(v.visibility)
            &&& s[a + 8] == (if v.vac_enabled { 1u8 } else { 0u8 })
            &&& at_flags(v) < s.len()
            &&& s[at_flags(v)] == x.flags()
        }),
{
    let s = encode_info(v, x);
    let a = at_app(v);
    lemma_info_layout(v, x);
    assert(s.subrange(a, a + 2) =~= u16_bytes(v.app_id));
    lemma_le_u16_bytes(s, a, v.app_id);
    assert forall|k: int| 2 <= k < 9 implies s[a + k] == fixed_bytes(v)[k] by {
        assert(s.subrange(a, a + 9)[k] == s[a + k]);
    }
}

/// Every record that a server can send, written out as its reply, decodes
/// back to itself.
pub proof fn lemma_round_trip(v: InfoView, x: ExtraParts)
    requires
        encodable(v, x),
    ensures
        spec_decode(encode_info(v, x)) == Ok::<InfoView, DecodeError>(v),
{
    lemma_info_layout(v, x);
    lemma_texts_at(v, x);
    lemma_fixed_at(v, x);
    lemma_extra_round_trip(info_prefix(v, x), x);
    lemma_decode_from_fields(encode_info(v, x), v, x);
}

} // verus!
