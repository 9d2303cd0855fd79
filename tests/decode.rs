use a2squery::{A2SExtraData, A2SInfo, DecodeError, OsType, ServerType, Visibility};

fn core_reply() -> Vec<u8> {
    let mut b: Vec<u8> = vec![0xFF, 0xFF, 0xFF, 0xFF, 0x49, 11];
    b.extend_from_slice(b"Test\0de_dust\0cstrike\0CS\0");
    b.extend_from_slice(&240u16.to_le_bytes());
    b.extend_from_slice(&[5, 32, 0, b'd', b'l', 0, 1]);
    b.extend_from_slice(b"1.0\0");
    b
}

// offset of the app id in `core_reply`
const APP: usize = 6 + 5 + 8 + 8 + 3;

#[test]
fn decodes_minimal_reply_without_flags() {
    let info = A2SInfo::from_bytes(&core_reply()).unwrap();
    assert_eq!(info.protocol_ver, 11);
    assert_eq!(info.server_name, "Test");
    assert_eq!(info.map_name, "de_dust");
    assert_eq!(info.game_dir, "cstrike");
    assert_eq!(info.game_name, "CS");
    assert_eq!(info.app_id, 240);
    assert_eq!(info.current_players, 5);
    assert_eq!(info.max_players, 32);
    assert_eq!(info.bots, 0);
    assert_eq!(info.server_type, ServerType::Dedicated);
    assert_eq!(info.os_type, OsType::Linux);
    assert_eq!(info.visibility, Visibility::Public);
    assert!(info.vac_enabled);
    assert_eq!(info.game_version, "1.0");
    assert!(info.extra_data.is_empty());
}

#[test]
fn bad_header_is_rejected_whatever_follows() {
    let mut b = core_reply();
    b[4] = 0x41;
    assert_eq!(A2SInfo::from_bytes(&b), Err(DecodeError::InvalidHeader));
    let mut b = core_reply();
    b[0] = 0xFE;
    assert_eq!(A2SInfo::from_bytes(&b), Err(DecodeError::InvalidHeader));
    assert_eq!(A2SInfo::from_bytes(&[]), Err(DecodeError::InvalidHeader));
    assert_eq!(A2SInfo::from_bytes(&[0xFF, 0xFF, 0xFF, 0xFF]), Err(DecodeError::InvalidHeader));
    assert_eq!(A2SInfo::from_bytes(&[0x00; 40]), Err(DecodeError::InvalidHeader));
    assert!(!DecodeError::InvalidHeader.is_malformed_field());
}

#[test]
fn unknown_server_type_names_the_byte() {
    let mut b = core_reply();
    b[APP + 5] = b'x';
    let e = A2SInfo::from_bytes(&b).unwrap_err();
    assert_eq!(e, DecodeError::UnknownServerType { offset: APP + 5, byte: b'x' });
    assert!(e.is_malformed_field());
}

#[test]
fn server_types_map() {
    for (byte, t) in [(b'd', ServerType::Dedicated), (b'l', ServerType::Listen), (b'p', ServerType::SourceTV)] {
        let mut b = core_reply();
        b[APP + 5] = byte;
        assert_eq!(A2SInfo::from_bytes(&b).unwrap().server_type, t);
        assert_eq!(ServerType::from_byte(byte), Some(t));
    }
    assert_eq!(ServerType::from_byte(b'D'), None);
}

#[test]
fn os_types_map_and_unknown_is_rejected() {
    for (byte, t) in [(b'l', OsType::Linux), (b'w', OsType::Windows), (b'm', OsType::Mac), (b'o', OsType::Mac)] {
        let mut b = core_reply();
        b[APP + 6] = byte;
        assert_eq!(A2SInfo::from_bytes(&b).unwrap().os_type, t);
    }
    let mut b = core_reply();
    b[APP + 6] = b'z';
    assert_eq!(A2SInfo::from_bytes(&b), Err(DecodeError::UnknownOsType { offset: APP + 6, byte: b'z' }));
}

#[test]
fn visibility_maps_and_unknown_is_rejected() {
    let mut b = core_reply();
    b[APP + 7] = 1;
    assert_eq!(A2SInfo::from_bytes(&b).unwrap().visibility, Visibility::Private);
    b[APP + 7] = 2;
    assert_eq!(A2SInfo::from_bytes(&b), Err(DecodeError::UnknownVisibility { offset: APP + 7, byte: 2 }));
    assert_eq!(Visibility::from_byte(0), Some(Visibility::Public));
}

#[test]
fn vac_is_set_only_by_one() {
    let mut b = core_reply();
    b[APP + 8] = 0;
    assert!(!A2SInfo::from_bytes(&b).unwrap().vac_enabled);
    b[APP + 8] = 2;
    assert!(!A2SInfo::from_bytes(&b).unwrap().vac_enabled);
}

#[test]
fn truncated_fields_are_reported_at_their_start() {
    let b = core_reply();
    assert_eq!(A2SInfo::from_bytes(&b[..5]), Err(DecodeError::Truncated { offset: 5 }));
    assert_eq!(A2SInfo::from_bytes(&b[..8]), Err(DecodeError::Truncated { offset: 6 }));
    assert_eq!(A2SInfo::from_bytes(&b[..14]), Err(DecodeError::Truncated { offset: 11 }));
    assert_eq!(A2SInfo::from_bytes(&b[..APP + 1]), Err(DecodeError::Truncated { offset: APP }));
    assert_eq!(A2SInfo::from_bytes(&b[..APP + 4]), Err(DecodeError::Truncated { offset: APP + 4 }));
    assert_eq!(A2SInfo::from_bytes(&b[..APP + 8]), Err(DecodeError::Truncated { offset: APP + 8 }));
    assert_eq!(A2SInfo::from_bytes(&b[..b.len() - 1]), Err(DecodeError::Truncated { offset: APP + 9 }));
}

#[test]
fn text_bytes_become_characters_one_for_one() {
    let mut b: Vec<u8> = vec![0xFF, 0xFF, 0xFF, 0xFF, 0x49, 17];
    b.extend_from_slice(&[b'A', 0xE9, 0]);
    b.extend_from_slice(b"\0\0\0");
    b.extend_from_slice(&[0x34, 0x12, 1, 2, 3, b'p', b'w', 1, 0]);
    b.push(0);
    let info = A2SInfo::from_bytes(&b).unwrap();
    assert_eq!(info.server_name, "A\u{e9}");
    assert_eq!(info.map_name, "");
    assert_eq!(info.app_id, 0x1234);
    assert_eq!(info.game_version, "");
}

#[test]
fn flags_without_known_bits_give_no_fields() {
    let mut b = core_reply();
    b.push(0x00);
    assert!(A2SInfo::from_bytes(&b).unwrap().extra_data.is_empty());
    let mut b = core_reply();
    b.push(0x0E);
    b.extend_from_slice(&[1, 2, 3]);
    assert!(A2SInfo::from_bytes(&b).unwrap().extra_data.is_empty());
    assert_eq!(A2SExtraData::from_bytes(0x02, &[]), Ok(vec![]));
}

#[test]
fn all_extra_fields_come_in_protocol_order() {
    let mut b = core_reply();
    b.push(0xF1);
    b.extend_from_slice(&27015u16.to_le_bytes());
    b.extend_from_slice(&0x0110_0001_0203_0405u64.to_le_bytes());
    b.extend_from_slice(&27020u16.to_le_bytes());
    b.extend_from_slice(b"relay\0");
    b.extend_from_slice(b"secure,pvp\0");
    b.extend_from_slice(&730u64.to_le_bytes());
    let info = A2SInfo::from_bytes(&b).unwrap();
    assert_eq!(
        info.extra_data,
        vec![
            A2SExtraData::ServerPort(27015),
            A2SExtraData::SteamID(0x0110_0001_0203_0405),
            A2SExtraData::STVPortAndName(27020, "relay".to_string()),
            A2SExtraData::Keywords("secure,pvp".to_string()),
            A2SExtraData::GameID(730),
        ]
    );
}

#[test]
fn single_extra_fields() {
    assert_eq!(A2SExtraData::from_bytes(0x80, &[0x87, 0x69]), Ok(vec![A2SExtraData::ServerPort(0x6987)]));
    assert_eq!(
        A2SExtraData::from_bytes(0x20, b"a,b\0trailing"),
        Ok(vec![A2SExtraData::Keywords("a,b".to_string())])
    );
    assert_eq!(
        A2SExtraData::from_bytes(0x01, &[1, 0, 0, 0, 0, 0, 0, 0x80]),
        Ok(vec![A2SExtraData::GameID(0x8000_0000_0000_0001)])
    );
    assert_eq!(
        A2SExtraData::from_bytes(0x21, b"k\0\x02\0\0\0\0\0\0\0"),
        Ok(vec![A2SExtraData::Keywords("k".to_string()), A2SExtraData::GameID(2)])
    );
}

#[test]
fn short_steam_id_is_truncated_extra_data() {
    let mut b = core_reply();
    let flags_at = b.len();
    b.push(0x10);
    b.extend_from_slice(&[1, 2, 3, 4, 5, 6, 7]);
    assert_eq!(
        A2SInfo::from_bytes(&b),
        Err(DecodeError::TruncatedExtraData { offset: flags_at + 1 })
    );
    assert_eq!(
        A2SExtraData::from_bytes(0x10, &[1, 2, 3]),
        Err(DecodeError::TruncatedExtraData { offset: 0 })
    );
    assert_eq!(
        A2SExtraData::from_bytes(0x90, &[1, 2, 3, 4, 5]),
        Err(DecodeError::TruncatedExtraData { offset: 2 })
    );
}

#[test]
fn other_truncated_extra_fields() {
    assert_eq!(A2SExtraData::from_bytes(0x80, &[1]), Err(DecodeError::TruncatedExtraData { offset: 0 }));
    assert_eq!(A2SExtraData::from_bytes(0x40, &[1, 2]), Err(DecodeError::TruncatedExtraData { offset: 2 }));
    assert_eq!(A2SExtraData::from_bytes(0x40, b"\x01\x02tv"), Err(DecodeError::TruncatedExtraData { offset: 2 }));
    assert_eq!(A2SExtraData::from_bytes(0x20, b"no end"), Err(DecodeError::TruncatedExtraData { offset: 0 }));
    assert_eq!(A2SExtraData::from_bytes(0x01, &[0; 7]), Err(DecodeError::TruncatedExtraData { offset: 0 }));
}

#[test]
fn written_record_reads_back() {
    let mut b: Vec<u8> = vec![0xFF, 0xFF, 0xFF, 0xFF, 0x49, 48];
    b.extend_from_slice(b"My Server\0cs_office\0csgo\0Counter-Strike\0");
    b.extend_from_slice(&730u16.to_le_bytes());
    b.extend_from_slice(&[12, 24, 3, b'l', b'w', 1, 0]);
    b.extend_from_slice(b"1.38.2.2\0");
    b.push(0x80 | 0x20);
    b.extend_from_slice(&27015u16.to_le_bytes());
    b.extend_from_slice(b"tag\0");
    let expected = A2SInfo {
        protocol_ver: 48,
        server_name: "My Server".to_string(),
        map_name: "cs_office".to_string(),
        game_dir: "csgo".to_string(),
        game_name: "Counter-Strike".to_string(),
        app_id: 730,
        current_players: 12,
        max_players: 24,
        bots: 3,
        server_type: ServerType::Listen,
        os_type: OsType::Windows,
        visibility: Visibility::Private,
        vac_enabled: false,
        game_version: "1.38.2.2".to_string(),
        extra_data: vec![A2SExtraData::ServerPort(27015), A2SExtraData::Keywords("tag".to_string())],
    };
    assert_eq!(A2SInfo::from_bytes(&b), Ok(expected));
}
