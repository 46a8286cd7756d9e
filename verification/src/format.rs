//! The layout of an `A2S_INFO` reply and what a buffer of bytes decodes to.
//!
//! A reply is a run of fields without padding. Five of them are
//! zero-terminated texts, so where a field starts depends on the bytes before
//! it; `layout` gives each field's offset. A flag byte after the fixed fields
//! says which of the optional fields follow, always in the same order.

use crate::error::DecodeError;
use crate::info::{ServerType, OS};
use crate::wire::{
    le_i16, le_i32, le_u64, lemma_text_end, lemma_text_end_cut, text, text_end,
};
use vstd::prelude::*;

verus! {

/// The value of the type byte that opens an `A2S_INFO` reply (`I`).
pub const INFO_HEADER: u8 = 0x49;

/// The 32-bit value that opens a datagram which holds a whole reply. Any
/// other value marks a reply split over several datagrams.
pub const SINGLE_PACKET: i32 = -1;

/// The datagram that asks a server for its information: four `0xFF` bytes,
/// the request type `0x54` (`T`), and the text `Source Engine Query` in ASCII
/// with its terminating zero.
pub open spec fn request_payload() -> Seq<u8> {
    seq![0xFFu8, 0xFFu8, 0xFFu8, 0xFFu8, 0x54u8] + "Source Engine Query"@.map_values(
        |c: char| c as u8,
    ) + seq![0u8]
}

/// What a reply says, with each text as a sequence of characters.
pub struct Record {
    pub protocol_version: u8,
    pub name: Seq<char>,
    pub map: Seq<char>,
    pub folder: Seq<char>,
    pub game: Seq<char>,
    pub steamapp_id: i16,
    pub players: u8,
    pub max_players: u8,
    pub bots: u8,
    pub server_type: ServerType,
    pub os: OS,
    pub is_public: bool,
    pub uses_vac: bool,
    pub version: Seq<char>,
    pub port: Option<i16>,
    pub steam_id: Option<u64>,
    pub spectator_port: Option<i16>,
    pub spectator_name: Option<Seq<char>>,
    pub keywords: Option<Seq<char>>,
    pub game_id: Option<u64>,
}

/// Whether the flag byte announces the game port.
pub open spec fn has_port(edf: u8) -> bool {
    edf & 0x80 != 0
}

/// Whether the flag byte announces the server's Steam ID.
pub open spec fn has_steam_id(edf: u8) -> bool {
    edf & 0x10 != 0
}

/// Whether the flag byte announces the spectator port and name.
pub open spec fn has_spectator(edf: u8) -> bool {
    edf & 0x40 != 0
}

/// Whether the flag byte announces the keywords.
pub open spec fn has_keywords(edf: u8) -> bool {
    edf & 0x20 != 0
}

/// Whether the flag byte announces the game ID.
pub open spec fn has_game_id(edf: u8) -> bool {
    edf & 0x01 != 0
}

/// The offset of each field of a reply. The header byte is at 0 and the
/// protocol version at 1. Players, maximum players, bots, server type,
/// environment, visibility and VAC are the seven bytes after the two of
/// the application ID. An optional field that is absent takes no room, so its
/// offset is that of the field after it.
pub struct Layout {
    pub name: int,
    pub map: int,
    pub folder: int,
    pub game: int,
    pub steamapp_id: int,
    pub players: int,
    pub max_players: int,
    pub bots: int,
    pub server_type: int,
    pub os: int,
    pub visibility: int,
    pub vac: int,
    pub version: int,
    pub edf: int,
    pub port: int,
    pub steam_id: int,
    pub spectator_port: int,
    pub spectator_name: int,
    pub keywords: int,
    pub game_id: int,
    pub end: int,
}

/// Where the fields of the reply `s` lie. A text without terminator ends at
/// the end of the buffer and puts what follows it past the end.
pub open spec fn layout(s: Seq<u8>) -> Layout {
    let name: int = 2;
    let map: int = text_end(s, name) + 1;
    let folder: int = text_end(s, map) + 1;
    let game: int = text_end(s, folder) + 1;
    let steamapp_id: int = text_end(s, game) + 1;
    let version: int = steamapp_id + 9;
    let edf: int = text_end(s, version) + 1;
    let port: int = edf + 1;
    let steam_id: int = port + if has_port(s[edf]) { 2int } else { 0int };
    let spectator_port: int = steam_id + if has_steam_id(s[edf]) { 8int } else { 0int };
    let spectator_name: int = spectator_port + 2;
    let keywords: int = if has_spectator(s[edf]) {
        text_end(s, spectator_name) + 1
    } else {
        spectator_port
    };
    let game_id: int = if has_keywords(s[edf]) {
        text_end(s, keywords) + 1
    } else {
        keywords
    };
    let end: int = game_id + if has_game_id(s[edf]) { 8int } else { 0int };
    Layout {
        name,
        map,
        folder,
        game,
        steamapp_id,
        players: steamapp_id + 2,
        max_players: steamapp_id + 3,
        bots: steamapp_id + 4,
        server_type: steamapp_id + 5,
        os: steamapp_id + 6,
        visibility: steamapp_id + 7,
        vac: steamapp_id + 8,
        version,
        edf,
        port,
        steam_id,
        spectator_port,
        spectator_name,
        keywords,
        game_id,
        end,
    }
}

/// The fields of the reply `s`, each read at its offset. It is the reply's
/// record where `s` holds a whole and well-formed reply.
pub open spec fn fields(s: Seq<u8>) -> Record {
    let at = layout(s);
    let edf = s[at.edf];
    Record {
        protocol_version: s[1],
        name: text(s, at.name),
        map: text(s, at.map),
        folder: text(s, at.folder),
        game: text(s, at.game),
        steamapp_id: le_i16(s, at.steamapp_id),
        players: s[at.players],
        max_players: s[at.max_players],
        bots: s[at.bots],
        server_type: ServerType::of_code(s[at.server_type]).unwrap(),
        os: OS::of_code(s[at.os]).unwrap(),
        is_public: s[at.visibility] == 0,
        uses_vac: s[at.vac] == 1,
        version: text(s, at.version),
        port: if has_port(edf) {
            Some(le_i16(s, at.port))
        } else {
            None
        },
        steam_id: if has_steam_id(edf) {
            Some(le_u64(s, at.steam_id))
        } else {
            None
        },
        spectator_port: if has_spectator(edf) {
            Some(le_i16(s, at.spectator_port))
        } else {
            None
        },
        spectator_name: if has_spectator(edf) {
            Some(text(s, at.spectator_name))
        } else {
            None
        },
        keywords: if has_keywords(edf) {
            Some(text(s, at.keywords))
        } else {
            None
        },
        game_id: if has_game_id(edf) {
            Some(le_u64(s, at.game_id))
        } else {
            None
        },
    }
}

/// What the bytes `s`, which follow the four bytes that frame a datagram,
/// decode to. The fields are taken in order, and the first that is missing or
/// wrong decides the error: a byte that is needed and not there gives
/// `Truncated`, whatever comes later.
pub open spec fn decoded(s: Seq<u8>) -> Result<Record, DecodeError> {
    let at = layout(s);
    if s.len() < 1 {
        Err(DecodeError::Truncated)
    } else if s[0] != INFO_HEADER {
        Err(DecodeError::MalformedHeader { found: s[0] as char })
    } else if s.len() <= at.server_type {
        Err(DecodeError::Truncated)
    } else if ServerType::of_code(s[at.server_type]) is None {
        Err(DecodeError::UnknownServerType { found: s[at.server_type] as char })
    } else if s.len() <= at.os {
        Err(DecodeError::Truncated)
    } else if OS::of_code(s[at.os]) is None {
        Err(DecodeError::UnknownEnvironment { found: s[at.os] as char })
    } else if s.len() < at.end {
        Err(DecodeError::Truncated)
    } else {
        Ok(fields(s))
    }
}

/// What a received datagram `d` decodes to: its first four bytes must be the
/// little-endian value -1, and the reply is decoded from the bytes after
/// them.
pub open spec fn reply(d: Seq<u8>) -> Result<Record, DecodeError> {
    if d.len() < 4 {
        Err(DecodeError::Truncated)
    } else if le_i32(d, 0) != SINGLE_PACKET {
        Err(DecodeError::UnsupportedFormat { header: le_i32(d, 0) })
    } else {
        decoded(d.subrange(4, d.len() as int))
    }
}

/// The number of bytes that a reply which decodes takes up in `s`. Bytes
/// after them are not looked at.
pub open spec fn decoded_len(s: Seq<u8>) -> int {
    layout(s).end
}

/// Each offset of the layout is at least the one before it, and the first
/// text starts at 2.
pub proof fn lemma_layout_ordered(s: Seq<u8>)
    ensures
        ({
            let at = layout(s);
            &&& 2 == at.name <= at.map - 1
            &&& at.map <= at.folder - 1
            &&& at.folder <= at.game - 1
            &&& at.game <= at.steamapp_id - 1
            &&& at.version <= at.edf - 1
            &&& at.port <= at.steam_id <= at.spectator_port <= at.keywords <= at.game_id <= at.end
            &&& has_spectator(s[at.edf]) ==> at.spectator_name <= at.keywords - 1
        }),
{
    let at = layout(s);
    lemma_text_end(s, at.name);
    lemma_text_end(s, at.map);
    lemma_text_end(s, at.folder);
    lemma_text_end(s, at.game);
    lemma_text_end(s, at.version);
    lemma_text_end(s, at.spectator_name);
    lemma_text_end(s, at.keywords);
}

/// A buffer whose first byte is not `0x49` is a malformed header, whatever
/// follows that byte: it never decodes to a record, in part or in whole.
pub proof fn lemma_malformed_header(s: Seq<u8>)
    requires
        s.len() >= 1,
        s[0] != INFO_HEADER,
    ensures
        decoded(s) == Err::<Record, DecodeError>(
            DecodeError::MalformedHeader { found: s[0] as char },
        ),
{
}

/// A server type byte other than `d`, `l` and `p` is reported with the byte
/// as a character, and so is an environment byte other than `l`, `w` and
/// `m` that follows a valid server type.
pub proof fn lemma_unknown_codes(s: Seq<u8>)
    requires
        s.len() >= 1,
        s[0] == INFO_HEADER,
    ensures
        ({
            let at = layout(s);
            let kind = s[at.server_type];
            let os = s[at.os];
            &&& at.server_type < s.len() && kind != 0x64 && kind != 0x6c && kind != 0x70
                ==> decoded(s) == Err::<Record, DecodeError>(
                DecodeError::UnknownServerType { found: kind as char },
            )
            &&& at.os < s.len() && (kind == 0x64 || kind == 0x6c || kind == 0x70) && os != 0x6c
                && os != 0x77 && os != 0x6d ==> decoded(s) == Err::<Record, DecodeError>(
                DecodeError::UnknownEnvironment { found: os as char },
            )
        }),
{
}

/// The number of bytes that the optional fields take after a flag byte `edf`:
/// two for the port, eight for the Steam ID, two and a terminated text of
/// `spectator_name` characters for the spectator server, a terminated text of
/// `keywords` characters for the keywords and eight for the game ID, each
/// counted only where its bit is set.
pub open spec fn optional_len(edf: u8, spectator_name: int, keywords: int) -> int {
    (if has_port(edf) {
        2int
    } else {
        0int
    }) + (if has_steam_id(edf) {
        8int
    } else {
        0int
    }) + (if has_spectator(edf) {
        2 + spectator_name + 1
    } else {
        0int
    }) + (if has_keywords(edf) {
        keywords + 1
    } else {
        0int
    }) + (if has_game_id(edf) {
        8int
    } else {
        0int
    })
}

/// In a reply that decodes, the five flag bits and nothing else decide which
/// optional fields are present and how many bytes the reply takes: the fixed
/// fields with their five texts, the flag byte, and what `optional_len` counts
/// for the flags. The spectator port and name come together or not at all.
pub proof fn lemma_flags_decide(s: Seq<u8>)
    requires
        decoded(s) is Ok,
    ensures
        ({
            let r = decoded(s)->Ok_0;
            let edf = s[layout(s).edf];
            &&& r.port is Some <==> has_port(edf)
            &&& r.steam_id is Some <==> has_steam_id(edf)
            &&& r.spectator_port is Some <==> has_spectator(edf)
            &&& r.spectator_name is Some <==> has_spectator(edf)
            &&& r.spectator_port is Some <==> r.spectator_name is Some
            &&& r.keywords is Some <==> has_keywords(edf)
            &&& r.game_id is Some <==> has_game_id(edf)
            &&& layout(s).edf == 2 + (r.name.len() + 1) + (r.map.len() + 1) + (r.folder.len() + 1)
                + (r.game.len() + 1) + 9 + (r.version.len() + 1)
            &&& decoded_len(s) == layout(s).edf + 1 + optional_len(
                edf,
                r.spectator_name.unwrap_or(Seq::empty()).len() as int,
                r.keywords.unwrap_or(Seq::empty()).len() as int,
            )
            &&& decoded_len(s) <= s.len()
        }),
{
    let at = layout(s);
    lemma_text_end(s, at.name);
    lemma_text_end(s, at.map);
    lemma_text_end(s, at.folder);
    lemma_text_end(s, at.game);
    lemma_text_end(s, at.version);
    lemma_text_end(s, at.spectator_name);
    lemma_text_end(s, at.keywords);
}

/// Cutting a buffer short never changes what is decoded from it into
/// anything but `Truncated`: the shorter buffer decodes as the whole one did,
/// which then lies within the cut if it is a record, or it is truncated.
pub proof fn lemma_cut_short(s: Seq<u8>, cut: int)
    requires
        0 <= cut <= s.len(),
    ensures
        decoded(s.take(cut)) == Err::<Record, DecodeError>(DecodeError::Truncated) || (decoded(
            s.take(cut),
        ) == decoded(s) && (decoded(s) is Ok ==> decoded_len(s) <= cut)),
{
    let t = s.take(cut);
    let at = layout(s);
    lemma_layout_ordered(s);
    lemma_layout_ordered(t);
    lemma_text_end_cut(s, cut, at.name);
    lemma_text_end_cut(s, cut, at.map);
    lemma_text_end_cut(s, cut, at.folder);
    lemma_text_end_cut(s, cut, at.game);
    lemma_text_end_cut(s, cut, at.version);
    lemma_text_end_cut(s, cut, at.spectator_name);
    lemma_text_end_cut(s, cut, at.keywords);
    if layout(t).server_type < cut {
        assert(layout(t).steamapp_id == at.steamapp_id);
    }
    if layout(t).end <= cut {
        assert(layout(t).edf == at.edf);
        assert(layout(t) == at);
        assert(fields(t) == fields(s));
    }
}

/// A reply cut short anywhere before its end is truncated: it decodes to no
/// record, neither the whole one nor one with fields left at a default.
pub proof fn lemma_truncation(s: Seq<u8>, cut: int)
    requires
        decoded(s) is Ok,
        0 <= cut < decoded_len(s),
    ensures
        decoded(s.take(cut)) == Err::<Record, DecodeError>(DecodeError::Truncated),
{
    lemma_flags_decide(s);
    lemma_cut_short(s, cut);
}

} // verus!
