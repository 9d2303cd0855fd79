//! The `A2S_INFO` reply: its record and its decoder.

use crate::extra::{fields_view, parse_extra, spec_extra, A2SExtraData, ExtraField};
use crate::wire::{byte_at, latin1, le_u16, read_text, read_u16, text_end, DecodeError};
use vstd::prelude::*;

verus! {

/// What kind of server answered.
#[derive(Clone, Copy, Debug, PartialEq, Eq, Structural)]
pub enum ServerType {
    Dedicated,
    Listen,
    SourceTV,
}

/// The operating system the server runs on.
#[derive(Clone, Copy, Debug, PartialEq, Eq, Structural)]
pub enum OsType {
    Linux,
    Windows,
    Mac,
}

/// Whether the server asks for a password.
#[derive(Clone, Copy, Debug, PartialEq, Eq, Structural)]
pub enum Visibility {
    Public,
    Private,
}

/// The server type that a wire byte names.
pub open spec fn server_type_of(b: u8) -> Option<ServerType> {
    if b == 0x64 {
        Some(ServerType::Dedicated)
    } else if b == 0x6c {
        Some(ServerType::Listen)
    } else if b == 0x70 {
        Some(ServerType::SourceTV)
    } else {
        None
    }
}

/// The operating system that a wire byte names.
pub open spec fn os_type_of(b: u8) -> Option<OsType> {
    if b == 0x6c {
        Some(OsType::Linux)
    } else if b == 0x77 {
        Some(OsType::Windows)
    } else if b == 0x6d || b == 0x6f {
        Some(OsType::Mac)
    } else {
        None
    }
}

/// The visibility that a wire byte names.
pub open spec fn visibility_of(b: u8) -> Option<Visibility> {
    if b == 0 {
        Some(Visibility::Public)
    } else if b == 1 {
        Some(Visibility::Private)
    } else {
        None
    }
}

impl ServerType {
    /// Maps `d`, `l`, `p` to their server types.
    pub fn from_byte(b: u8) -> (r: Option<ServerType>)
        ensures
            r == server_type_of(b),
    {
        match b {
            0x64 => Some(ServerType::Dedicated),
            0x6c => Some(ServerType::Listen),
            0x70 => Some(ServerType::SourceTV),
            _ => None,
        }
    }
}

impl OsType {
    /// Maps `l`, `w`, and `m` or `o`, to their operating systems.
    pub fn from_byte(b: u8) -> (r: Option<OsType>)
        ensures
            r == os_type_of(b),
    {
        match b {
            0x6c => Some(OsType::Linux),
            0x77 => Some(OsType::Windows),
            0x6d | 0x6f => Some(OsType::Mac),
            _ => None,
        }
    }
}

impl Visibility {
    /// Maps 0 to public and 1 to private.
    pub fn from_byte(b: u8) -> (r: Option<Visibility>)
        ensures
            r == visibility_of(b),
    {
        match b {
            0 => Some(Visibility::Public),
            1 => Some(Visibility::Private),
            _ => None,
        }
    }
}

/// A decoded `A2S_INFO` reply.
#[derive(Clone, Debug, PartialEq, Eq)]
pub struct A2SInfo {
    pub protocol_ver: u8,
    pub server_name: String,
    pub map_name: String,
    pub game_dir: String,
    pub game_name: String,
    pub app_id: u16,
    pub current_players: u8,
    pub max_players: u8,
    pub bots: u8,
    pub server_type: ServerType,
    pub os_type: OsType,
    pub visibility: Visibility,
    pub vac_enabled: bool,
    pub game_version: String,
    pub extra_data: Vec<A2SExtraData>,
}

/// The mathematical value of an `A2SInfo`.
pub struct InfoView {
    pub protocol_ver: u8,
    pub server_name: Seq<char>,
    pub map_name: Seq<char>,
    pub game_dir: Seq<char>,
    pub game_name: Seq<char>,
    pub app_id: u16,
    pub current_players: u8,
    pub max_players: u8,
    pub bots: u8,
    pub server_type: ServerType,
    pub os_type: OsType,
    pub visibility: Visibility,
    pub vac_enabled: bool,
    pub game_version: Seq<char>,
    pub extra_data: Seq<ExtraField>,
}

impl View for A2SInfo {
    type V = InfoView;

    open spec fn view(&self) -> InfoView {
        InfoView {
            protocol_ver: self.protocol_ver,
            server_name: self.server_name@,
            map_name: self.map_name@,
            game_dir: self.game_dir@,
            game_name: self.game_name@,
            app_id: self.app_id,
            current_players: self.current_players,
            max_players: self.max_players,
            bots: self.bots,
            server_type: self.server_type,
            os_type: self.os_type,
            visibility: self.visibility,
            vac_enabled: self.vac_enabled,
            game_version: self.game_version@,
            extra_data: fields_view(self.extra_data@),
        }
    }
}

/// The first five bytes of every `A2S_INFO` reply.
pub open spec fn info_header() -> Seq<u8> {
    seq![0xFFu8, 0xFF, 0xFF, 0xFF, 0x49]
}

/// Whether `s` begins with the `A2S_INFO` header.
pub open spec fn has_header(s: Seq<u8>) -> bool {
    s.len() >= 5 && s.subrange(0, 5) == info_header()
}

/// Where the server name starts.
pub open spec fn name_offset() -> int {
    6
}

/// Where the map name starts.
pub open spec fn map_offset(s: Seq<u8>) -> int {
    text_end(s, name_offset()) + 1
}

/// Where the game directory starts.
pub open spec fn dir_offset(s: Seq<u8>) -> int {
    text_end(s, map_offset(s)) + 1
}

/// Where the game description starts.
pub open spec fn desc_offset(s: Seq<u8>) -> int {
    text_end(s, dir_offset(s)) + 1
}

/// Where the app id starts; the player counts, server type, OS, visibility
/// and VAC bytes follow it in that order, one byte each.
pub open spec fn app_offset(s: Seq<u8>) -> int {
    text_end(s, desc_offset(s)) + 1
}

/// Where the game version starts.
pub open spec fn version_offset(s: Seq<u8>) -> int {
    app_offset(s) + 9
}

/// Where the extra data flags byte stands, if the reply goes on that far.
pub open spec fn flags_offset(s: Seq<u8>) -> int {
    text_end(s, version_offset(s)) + 1
}

/// The text of `s` from `i` up to its terminating zero.
pub open spec fn text_at(s: Seq<u8>, i: int) -> Seq<char> {
    latin1(s.subrange(i, text_end(s, i)))
}

/// The extra data of `s`: the block after the flags byte, or nothing when
/// the reply ends right after the game version.
pub open spec fn spec_extra_of(s: Seq<u8>) -> Result<Seq<ExtraField>, DecodeError> {
    let f = flags_offset(s);
    if f < s.len() {
        spec_extra(s, s[f], f + 1)
    } else {
        Ok(seq![])
    }
}

/// What the reply `s` decodes to: the record, or the first check that fails,
/// in reading order.
pub open spec fn spec_decode(s: Seq<u8>) -> Result<InfoView, DecodeError> {
    let a = app_offset(s);
    if !has_header(s) {
        Err(DecodeError::InvalidHeader)
    } else if s.len() < 6 {
        Err(DecodeError::Truncated { offset: 5 })
    } else if text_end(s, name_offset()) >= s.len() {
        Err(DecodeError::Truncated { offset: 6 })
    } else if text_end(s, map_offset(s)) >= s.len() {
        Err(DecodeError::Truncated { offset: map_offset(s) as usize })
    } else if text_end(s, dir_offset(s)) >= s.len() {
        Err(DecodeError::Truncated { offset: dir_offset(s) as usize })
    } else if text_end(s, desc_offset(s)) >= s.len() {
        Err(DecodeError::Truncated { offset: desc_offset(s) as usize })
    } else if s.len() < a + 2 {
        Err(DecodeError::Truncated { offset: a as usize })
    } else if s.len() < a + 3 {
        Err(DecodeError::Truncated { offset: (a + 2) as usize })
    } else if s.len() < a + 4 {
        Err(DecodeError::Truncated { offset: (a + 3) as usize })
    } else if s.len() < a + 5 {
        Err(DecodeError::Truncated { offset: (a + 4) as usize })
    } else if s.len() < a + 6 {
        Err(DecodeError::Truncated { offset: (a + 5) as usize })
    } else if server_type_of(s[a + 5]) is None {
        Err(DecodeError::UnknownServerType { offset: (a + 5) as usize, byte: s[a + 5] })
    } else if s.len() < a + 7 {
        Err(DecodeError::Truncated { offset: (a + 6) as usize })
    } else if os_type_of(s[a + 6]) is None {
        Err(DecodeError::UnknownOsType { offset: (a + 6) as usize, byte: s[a + 6] })
    } else if s.len() < a + 8 {
        Err(DecodeError::Truncated { offset: (a + 7) as usize })
    } else if visibility_of(s[a + 7]) is None {
        Err(DecodeError::UnknownVisibility { offset: (a + 7) as usize, byte: s[a + 7] })
    } else if s.len() < a + 9 {
        Err(DecodeError::Truncated { offset: (a + 8) as usize })
    } else if text_end(s, version_offset(s)) >= s.len() {
        Err(DecodeError::Truncated { offset: version_offset(s) as usize })
    } else {
        match spec_extra_of(s) {
            Err(e) => Err(e),
            Ok(extra) => Ok(
                InfoView {
                    protocol_ver: s[5],
                    server_name: text_at(s, name_offset()),
                    map_name: text_at(s, map_offset(s)),
                    game_dir: text_at(s, dir_offset(s)),
                    game_name: text_at(s, desc_offset(s)),
                    app_id: le_u16(s, a) as u16,
                    current_players: s[a + 2],
                    max_players: s[a + 3],
                    bots: s[a + 4],
                    server_type: server_type_of(s[a + 5])->Some_0,
                    os_type: os_type_of(s[a + 6])->Some_0,
                    visibility: visibility_of(s[a + 7])->Some_0,
                    vac_enabled: s[a + 8] == 1,
                    game_version: text_at(s, version_offset(s)),
                    extra_data: extra,
                },
            ),
        }
    }
}

/// Whether a decode result matches its model.
pub open spec fn info_result_matches(
    r: Result<A2SInfo, DecodeError>,
    m: Result<InfoView, DecodeError>,
) -> bool {
    match r {
        Ok(v) => m == Ok::<InfoView, DecodeError>(v@),
        Err(e) => m == Err::<InfoView, DecodeError>(e),
    }
}

/// Reads the zero-terminated text at `start`; on success also returns where
/// the next field starts.
fn text_field(buf: &[u8], start: usize) -> (r: Result<(String, usize), DecodeError>)
    ensures
        r is Ok <==> text_end(buf@, start as int) < buf@.len(),
        r matches Ok((t, next)) ==> t@ == text_at(buf@, start as int) && next == text_end(
            buf@,
            start as int,
        ) + 1,
        r matches Err(e) ==> e == (DecodeError::Truncated { offset: start }),
{
    match read_text(buf, start) {
        Some((t, end)) => Ok((t, end + 1)),
        None => Err(DecodeError::Truncated { offset: start }),
    }
}

impl A2SInfo {
    /// Decodes an `A2S_INFO` reply; see `spec_decode` for the layout and for
    /// which error comes first.
    pub fn from_bytes(buf: &[u8]) -> (r: Result<Self, DecodeError>)
        ensures
            info_result_matches(r, spec_decode(buf@)),
    {
        let ghost s = buf@;
        if buf.len() < 5 || buf[0] != 0xFF || buf[1] != 0xFF || buf[2] != 0xFF || buf[3] != 0xFF
            || buf[4] != 0x49 {
            assert(!has_header(s)) by {
                if s.len() >= 5 {
                    assert(s.subrange(0, 5)[0] == s[0]);
                    assert(s.subrange(0, 5)[1] == s[1]);
                    assert(s.subrange(0, 5)[2] == s[2]);
                    assert(s.subrange(0, 5)[3] == s[3]);
                    assert(s.subrange(0, 5)[4] == s[4]);
                }
            }
            return Err(DecodeError::InvalidHeader);
        }
        assert(s.subrange(0, 5) =~= info_header());
        let protocol_ver = match byte_at(buf, 5) {
            Ok(v) => v,
            Err(e) => return Err(e),
        };
        let (server_name, cursor) = match text_field(buf, 6) {
            Ok(v) => v,
            Err(e) => return Err(e),
        };
        let (map_name, cursor) = match text_field(buf, cursor) {
            Ok(v) => v,
            Err(e) => return Err(e),
        };
        let (game_dir, cursor) = match text_field(buf, cursor) {
            Ok(v) => v,
            Err(e) => return Err(e),
        };
        let (game_name, cursor) = match text_field(buf, cursor) {
            Ok(v) => v,
            Err(e) => return Err(e),
        };
        let app_id = match read_u16(buf, cursor) {
            Some(v) => v,
            None => return Err(DecodeError::Truncated { offset: cursor }),
        };
        let current_players = match byte_at(buf, cursor + 2) {
            Ok(v) => v,
            Err(e) => return Err(e),
        };
        let max_players = match byte_at(buf, cursor + 3) {
            Ok(v) => v,
            Err(e) => return Err(e),
        };
        let bots = match byte_at(buf, cursor + 4) {
            Ok(v) => v,
            Err(e) => return Err(e),
        };
        let type_byte = match byte_at(buf, cursor + 5) {
            Ok(v) => v,
            Err(e) => return Err(e),
        };
        let server_type = match ServerType::from_byte(type_byte) {
            Some(t) => t,
            None => return Err(DecodeError::UnknownServerType { offset: cursor + 5, byte: type_byte }),
        };
        let os_byte = match byte_at(buf, cursor + 6) {
            Ok(v) => v,
            Err(e) => return Err(e),
        };
        let os_type = match OsType::from_byte(os_byte) {
            Some(t) => t,
            None => return Err(DecodeError::UnknownOsType { offset: cursor + 6, byte: os_byte }),
        };
        let vis_byte = match byte_at(buf, cursor + 7) {
            Ok(v) => v,
            Err(e) => return Err(e),
        };
        let visibility = match Visibility::from_byte(vis_byte) {
            Some(v) => v,
            None => return Err(DecodeError::UnknownVisibility { offset: cursor + 7, byte: vis_byte }),
        };
        let vac_byte = match byte_at(buf, cursor + 8) {
            Ok(v) => v,
            Err(e) => return Err(e),
        };
        let vac_enabled = vac_byte == 1;
        let (game_version, cursor) = match text_field(buf, cursor + 9) {
            Ok(v) => v,
            Err(e) => return Err(e),
        };
        let extra_data = if cursor < buf.len() {
            match parse_extra(buf[cursor], buf, cursor + 1) {
                Ok(v) => v,
                Err(e) => return Err(e),
            }
        } else {
            let none: Vec<A2SExtraData> = Vec::new();
            assert(fields_view(none@) =~= seq![]);
            none
        };
        let info = A2SInfo {
            protocol_ver,
            server_name,
            map_name,
            game_dir,
            game_name,
            app_id,
            current_players,
            max_players,
            bots,
            server_type,
            os_type,
            visibility,
            vac_enabled,
            game_version,
            extra_data,
        };
        Ok(info)
    }
}

} // verus!
