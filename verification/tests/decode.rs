use source_query::error::DecodeError;
use source_query::info::{Response, ServerType, OS};
use source_query::ServerInfo;

fn text(out: &mut Vec<u8>, s: &str) {
    out.extend_from_slice(s.as_bytes());
    out.push(0);
}

/// The reply of the two scenarios below, up to and including the version,
/// with the application ID given as two bytes.
fn body(app_id: [u8; 2]) -> Vec<u8> {
    let mut b = vec![0x49, 0x11];
    text(&mut b, "Test");
    text(&mut b, "de_dust2");
    text(&mut b, "cstrike");
    text(&mut b, "Counter-Strike");
    b.extend_from_slice(&app_id);
    b.extend_from_slice(&[0x05, 0x10, 0x00, b'd', b'l', 0x00, 0x01]);
    text(&mut b, "1.0");
    b
}

fn bare(app_id: i16) -> Response {
    Response {
        protocol_version: 0x11,
        name: "Test".to_string(),
        map: "de_dust2".to_string(),
        folder: "cstrike".to_string(),
        game: "Counter-Strike".to_string(),
        steamapp_id: app_id,
        players: 5,
        max_players: 16,
        bots: 0,
        server_type: ServerType::Dedicated,
        os: OS::Linux,
        is_public: true,
        uses_vac: true,
        version: "1.0".to_string(),
        port: None,
        steam_id: None,
        spectator_port: None,
        spectator_name: None,
        keywords: None,
        game_id: None,
    }
}

#[test]
fn reply_without_optional_fields() {
    let mut b = body([0x10, 0x00]);
    b.push(0x00);
    let info = Response::from_bytes(&mut b).unwrap();
    assert_eq!(info, bare(16));
    assert_eq!(info.protocol_version, 0x11);
    assert_eq!(info.name, "Test");
    assert_eq!(info.map, "de_dust2");
    assert_eq!(info.folder, "cstrike");
    assert_eq!(info.game, "Counter-Strike");
    assert_eq!(info.players, 5);
    assert_eq!(info.max_players, 0x10);
    assert_eq!(info.bots, 0);
    assert_eq!(info.server_type, ServerType::Dedicated);
    assert_eq!(info.os, OS::Linux);
    assert!(info.is_public);
    assert!(info.uses_vac);
    assert_eq!(info.version, "1.0");
    assert_eq!(info.port, None);
    assert_eq!(info.steam_id, None);
    assert_eq!(info.spectator_port, None);
    assert_eq!(info.spectator_name, None);
    assert_eq!(info.keywords, None);
    assert_eq!(info.game_id, None);
}

#[test]
fn application_id_ten() {
    let mut b = body([0x0A, 0x00]);
    b.push(0x00);
    let info = Response::from_bytes(&mut b).unwrap();
    assert_eq!(info.steamapp_id, 10);
    assert_eq!(info, bare(10));
}

#[test]
fn reply_with_port_and_game_id() {
    let mut b = body([0x10, 0x00]);
    b.push(0x81);
    b.extend_from_slice(&[0x01, 0x6B]);
    b.extend_from_slice(&[0x2A, 0, 0, 0, 0, 0, 0, 0]);
    let info = Response::from_bytes(&mut b).unwrap();
    assert_eq!(info.port, Some(0x6B01));
    assert_eq!(info.port, Some(27393));
    assert_eq!(info.game_id, Some(42));
    assert_eq!(info.steam_id, None);
    assert_eq!(info.spectator_port, None);
    assert_eq!(info.spectator_name, None);
    assert_eq!(info.keywords, None);
    let mut expected = bare(16);
    expected.port = Some(27393);
    expected.game_id = Some(42);
    assert_eq!(info, expected);
}

#[test]
fn port_27905() {
    let mut b = body([0x10, 0x00]);
    b.push(0x81);
    b.extend_from_slice(&[0x01, 0x6D]);
    b.extend_from_slice(&[0x2A, 0, 0, 0, 0, 0, 0, 0]);
    let info = Response::from_bytes(&mut b).unwrap();
    assert_eq!(info.port, Some(27905));
    assert_eq!(info.game_id, Some(42));
}

#[test]
fn from_bytes_leaves_the_buffer() {
    let mut b = body([0x10, 0x00]);
    b.push(0x00);
    let before = b.clone();
    let _ = Response::from_bytes(&mut b);
    assert_eq!(b, before);
    let mut bad = vec![0x00, 0x01, 0x02];
    let _ = Response::from_bytes(&mut bad);
    assert_eq!(bad, vec![0x00, 0x01, 0x02]);
}

/// A field set and the bytes that stand for it on the wire.
fn sample(flags: u8) -> (Response, Vec<u8>) {
    let mut info = Response {
        protocol_version: 17,
        name: "A server".to_string(),
        map: "cp_badlands".to_string(),
        folder: "tf".to_string(),
        game: "Team Fortress".to_string(),
        steamapp_id: 440,
        players: 23,
        max_players: 24,
        bots: 1,
        server_type: ServerType::NonDedicated,
        os: OS::Windows,
        is_public: false,
        uses_vac: false,
        version: "1.2.3.4".to_string(),
        port: None,
        steam_id: None,
        spectator_port: None,
        spectator_name: None,
        keywords: None,
        game_id: None,
    };
    let mut b = vec![0x49, 17];
    text(&mut b, "A server");
    text(&mut b, "cp_badlands");
    text(&mut b, "tf");
    text(&mut b, "Team Fortress");
    b.extend_from_slice(&440i16.to_le_bytes());
    b.extend_from_slice(&[23, 24, 1, b'l', b'w', 1, 0]);
    text(&mut b, "1.2.3.4");
    b.push(flags);
    if flags & 0x80 != 0 {
        info.port = Some(-2);
        b.extend_from_slice(&(-2i16).to_le_bytes());
    }
    if flags & 0x10 != 0 {
        info.steam_id = Some(0x0102_0304_0506_0708);
        b.extend_from_slice(&0x0102_0304_0506_0708u64.to_le_bytes());
    }
    if flags & 0x40 != 0 {
        info.spectator_port = Some(27020);
        info.spectator_name = Some("SourceTV".to_string());
        b.extend_from_slice(&27020i16.to_le_bytes());
        text(&mut b, "SourceTV");
    }
    if flags & 0x20 != 0 {
        info.keywords = Some("alltalk,payload".to_string());
        text(&mut b, "alltalk,payload");
    }
    if flags & 0x01 != 0 {
        info.game_id = Some(u64::MAX);
        b.extend_from_slice(&u64::MAX.to_le_bytes());
    }
    (info, b)
}

fn combinations() -> Vec<u8> {
    let mut all = Vec::new();
    for n in 0u8..32 {
        let mut flags = 0u8;
        if n & 1 != 0 {
            flags |= 0x80;
        }
        if n & 2 != 0 {
            flags |= 0x40;
        }
        if n & 4 != 0 {
            flags |= 0x20;
        }
        if n & 8 != 0 {
            flags |= 0x10;
        }
        if n & 16 != 0 {
            flags |= 0x01;
        }
        all.push(flags);
    }
    all
}

#[test]
fn round_trip_of_every_field() {
    for flags in combinations() {
        let (expected, mut bytes) = sample(flags);
        let info = Response::from_bytes(&mut bytes).unwrap();
        assert_eq!(info.protocol_version, expected.protocol_version);
        assert_eq!(info.name, expected.name);
        assert_eq!(info.map, expected.map);
        assert_eq!(info.folder, expected.folder);
        assert_eq!(info.game, expected.game);
        assert_eq!(info.steamapp_id, expected.steamapp_id);
        assert_eq!(info.players, expected.players);
        assert_eq!(info.max_players, expected.max_players);
        assert_eq!(info.bots, expected.bots);
        assert_eq!(info.server_type, expected.server_type);
        assert_eq!(info.os, expected.os);
        assert_eq!(info.is_public, expected.is_public);
        assert_eq!(info.uses_vac, expected.uses_vac);
        assert_eq!(info.version, expected.version);
        assert_eq!(info.port, expected.port);
        assert_eq!(info.steam_id, expected.steam_id);
        assert_eq!(info.spectator_port, expected.spectator_port);
        assert_eq!(info.spectator_name, expected.spectator_name);
        assert_eq!(info.keywords, expected.keywords);
        assert_eq!(info.game_id, expected.game_id);
    }
}

#[test]
fn flags_decide_what_is_consumed() {
    let combos = combinations();
    assert_eq!(combos.len(), 32);
    let fixed = sample(0).1.len();
    for flags in combos {
        let (_, mut bytes) = sample(flags);
        let mut implied = fixed;
        if flags & 0x80 != 0 {
            implied += 2;
        }
        if flags & 0x10 != 0 {
            implied += 8;
        }
        if flags & 0x40 != 0 {
            implied += 2 + "SourceTV".len() + 1;
        }
        if flags & 0x20 != 0 {
            implied += "alltalk,payload".len() + 1;
        }
        if flags & 0x01 != 0 {
            implied += 8;
        }
        assert_eq!(bytes.len(), implied);
        bytes.extend_from_slice(&[0xAA, 0xBB, 0xCC]);
        let (info, used) = Response::decode(&bytes).unwrap();
        assert_eq!(used, implied);
        assert_eq!(info.port.is_some(), flags & 0x80 != 0);
        assert_eq!(info.steam_id.is_some(), flags & 0x10 != 0);
        assert_eq!(info.spectator_port.is_some(), flags & 0x40 != 0);
        assert_eq!(info.spectator_name.is_some(), flags & 0x40 != 0);
        assert_eq!(info.spectator_port.is_some(), info.spectator_name.is_some());
        assert_eq!(info.keywords.is_some(), flags & 0x20 != 0);
        assert_eq!(info.game_id.is_some(), flags & 0x01 != 0);
    }
}

#[test]
fn unknown_flag_bits_are_ignored() {
    let (expected, mut bytes) = sample(0);
    let at = bytes.len() - 1;
    bytes[at] = 0x0E;
    let (info, used) = Response::decode(&bytes).unwrap();
    assert_eq!(info, expected);
    assert_eq!(used, bytes.len());
    let (expected, mut bytes) = sample(0x81);
    let at = sample(0).1.len() - 1;
    bytes[at] = 0x81 | 0x0E;
    assert_eq!(Response::from_bytes(&mut bytes), Ok(expected));
}

#[test]
fn malformed_header() {
    for first in 0u8..=255 {
        if first == 0x49 {
            continue;
        }
        let (_, mut bytes) = sample(0xF1);
        bytes[0] = first;
        let expected = DecodeError::MalformedHeader { found: first as char };
        assert_eq!(Response::from_bytes(&mut bytes), Err(expected));
        assert_eq!(Response::decode(&[first]), Err(expected));
        assert_eq!(ServerInfo::from_bytes(&mut bytes), Err(expected));
    }
    let mut l = vec![b'l', 0x11];
    assert_eq!(
        Response::from_bytes(&mut l),
        Err(DecodeError::MalformedHeader { found: 'l' })
    );
}

#[test]
fn unknown_server_type_and_environment() {
    let mut b = body([0x10, 0x00]);
    b.push(0x00);
    let at = 2 + 5 + 9 + 8 + 15 + 2 + 3;
    assert_eq!(b[at], b'd');
    assert_eq!(b[at + 1], b'l');
    let mut bad_type = b.clone();
    bad_type[at] = b'x';
    assert_eq!(
        Response::from_bytes(&mut bad_type),
        Err(DecodeError::UnknownServerType { found: 'x' })
    );
    let mut bad_os = b.clone();
    bad_os[at + 1] = b'z';
    assert_eq!(
        Response::from_bytes(&mut bad_os),
        Err(DecodeError::UnknownEnvironment { found: 'z' })
    );
    let mut both = b.clone();
    both[at] = b'x';
    both[at + 1] = b'z';
    assert_eq!(
        Response::from_bytes(&mut both),
        Err(DecodeError::UnknownServerType { found: 'x' })
    );
    bad_type.truncate(at + 1);
    assert_eq!(
        Response::from_bytes(&mut bad_type),
        Err(DecodeError::UnknownServerType { found: 'x' })
    );
    bad_os.truncate(at + 2);
    assert_eq!(
        Response::from_bytes(&mut bad_os),
        Err(DecodeError::UnknownEnvironment { found: 'z' })
    );
}

#[test]
fn every_server_type_and_environment() {
    assert_eq!(ServerType::from_code(b'd'), Ok(ServerType::Dedicated));
    assert_eq!(ServerType::from_code(b'l'), Ok(ServerType::NonDedicated));
    assert_eq!(ServerType::from_code(b'p'), Ok(ServerType::SourceTVRelay));
    assert_eq!(OS::from_code(b'l'), Ok(OS::Linux));
    assert_eq!(OS::from_code(b'w'), Ok(OS::Windows));
    assert_eq!(OS::from_code(b'm'), Ok(OS::Mac));
    for code in 0u8..=255 {
        if code != b'd' && code != b'l' && code != b'p' {
            assert_eq!(
                ServerType::from_code(code),
                Err(DecodeError::UnknownServerType { found: code as char })
            );
        }
        if code != b'l' && code != b'w' && code != b'm' {
            assert_eq!(
                OS::from_code(code),
                Err(DecodeError::UnknownEnvironment { found: code as char })
            );
        }
    }
    assert_eq!(ServerType::from_code(b'D'), Err(DecodeError::UnknownServerType { found: 'D' }));
}

#[test]
fn truncated_at_every_point() {
    for flags in combinations() {
        let (expected, bytes) = sample(flags);
        for cut in 0..bytes.len() {
            let mut short = bytes[..cut].to_vec();
            assert_eq!(
                Response::from_bytes(&mut short),
                Err(DecodeError::Truncated),
                "flags {:#x}, cut at {}",
                flags,
                cut
            );
            assert_eq!(Response::decode(&bytes[..cut]), Err(DecodeError::Truncated));
        }
        let mut whole = bytes.clone();
        assert_eq!(Response::from_bytes(&mut whole), Ok(expected));
    }
}

#[test]
fn empty_buffer_is_truncated() {
    assert_eq!(Response::decode(&[]), Err(DecodeError::Truncated));
    assert_eq!(Response::decode(&[0x49]), Err(DecodeError::Truncated));
    let mut empty = Vec::new();
    assert_eq!(ServerInfo::from_bytes(&mut empty), Err(DecodeError::Truncated));
}

#[test]
fn visibility_and_vac_compare_exactly() {
    let at = 2 + 5 + 9 + 8 + 15 + 2 + 3 + 2;
    for (visibility, vac, is_public, uses_vac) in [
        (0u8, 0u8, true, false),
        (0, 1, true, true),
        (1, 1, false, true),
        (2, 2, false, false),
        (255, 255, false, false),
        (0, 3, true, false),
    ] {
        let mut b = body([0x10, 0x00]);
        b.push(0x00);
        b[at] = visibility;
        b[at + 1] = vac;
        let info = Response::from_bytes(&mut b).unwrap();
        assert_eq!(info.is_public, is_public);
        assert_eq!(info.uses_vac, uses_vac);
    }
}

#[test]
fn text_is_one_character_per_byte() {
    let mut b = vec![0x49, 0x11];
    b.extend_from_slice(&[0xC3, 0xA9, 0x00]);
    b.extend_from_slice(&[0x00]);
    b.extend_from_slice(&[0xFF, 0x01, 0x7F, 0x80, 0x00]);
    text(&mut b, "g");
    b.extend_from_slice(&[0xFF, 0xFF]);
    b.extend_from_slice(&[0, 0, 0, b'p', b'm', 0, 1]);
    text(&mut b, "");
    b.push(0x20);
    b.extend_from_slice(&[0xE9, 0x00]);
    let info = Response::from_bytes(&mut b).unwrap();
    assert_eq!(info.name, "\u{C3}\u{A9}");
    assert_eq!(info.name.chars().count(), 2);
    assert_eq!(info.map, "");
    assert_eq!(info.folder, "\u{FF}\u{1}\u{7F}\u{80}");
    assert_eq!(info.game, "g");
    assert_eq!(info.steamapp_id, -1);
    assert_eq!(info.server_type, ServerType::SourceTVRelay);
    assert_eq!(info.os, OS::Mac);
    assert_eq!(info.version, "");
    assert_eq!(info.keywords, Some("\u{E9}".to_string()));
}

#[test]
fn server_info_is_the_same_record() {
    for flags in combinations() {
        let (expected, mut bytes) = sample(flags);
        let info = ServerInfo::from_bytes(&mut bytes).unwrap();
        assert_eq!(info, ServerInfo::from_response(expected.clone()));
        assert_eq!(info.name, expected.name);
        assert_eq!(info.map, expected.map);
        assert_eq!(info.folder, expected.folder);
        assert_eq!(info.game, expected.game);
        assert_eq!(info.steamapp_id, 440);
        assert_eq!(info.players, 23);
        assert_eq!(info.max_players, 24);
        assert_eq!(info.bots, 1);
        assert_eq!(info.server_type, ServerType::NonDedicated);
        assert_eq!(info.os, OS::Windows);
        assert!(!info.is_public);
        assert!(!info.uses_vac);
        assert_eq!(info.version, "1.2.3.4");
        assert_eq!(info.port, expected.port);
        assert_eq!(info.steam_id, expected.steam_id);
        assert_eq!(info.spectator_port, expected.spectator_port);
        assert_eq!(info.spectator_name, expected.spectator_name);
        assert_eq!(info.keywords, expected.keywords);
        assert_eq!(info.game_id, expected.game_id);
    }
}
