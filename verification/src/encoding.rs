//! The bytes that stand for a record, and the proof that decoding them gives
//! the record back.

use crate::error::DecodeError;
use crate::format::{
    decoded, decoded_len, fields, has_game_id, has_keywords, has_port, has_spectator,
    has_steam_id, layout, lemma_layout_ordered, Layout, Record, INFO_HEADER,
};
use crate::info::{ServerType, OS};
use crate::wire::{le_i16, le_u64, lemma_text_end, text, text_end};
use vstd::prelude::*;

verus! {

/// Whether `t` can be sent as a zero-terminated text: each character stands
/// for one byte, and none for the terminator.
pub open spec fn is_text(t: Seq<char>) -> bool {
    forall|i: int| 0 <= i < t.len() ==> 1 <= #[trigger] t[i] as int <= 0xFF
}

/// The bytes of the text `t` with its terminator.
pub open spec fn text_bytes(t: Seq<char>) -> Seq<u8> {
    Seq::new(t.len(), |i: int| t[i] as u8).push(0u8)
}

/// The two bytes of `v`, low byte first, in two's complement.
pub open spec fn i16_bytes(v: i16) -> Seq<u8> {
    let u: int = if v < 0 {
        v + 0x1_0000
    } else {
        v as int
    };
    seq![(u % 0x100) as u8, (u / 0x100) as u8]
}

/// The eight bytes of `v`, low byte first: each is the remainder of what the
/// byte before it left.
pub open spec fn u64_bytes(v: u64) -> Seq<u8> {
    let q0: int = v as int;
    let q1: int = q0 / 0x100;
    let q2: int = q1 / 0x100;
    let q3: int = q2 / 0x100;
    let q4: int = q3 / 0x100;
    let q5: int = q4 / 0x100;
    let q6: int = q5 / 0x100;
    let q7: int = q6 / 0x100;
    seq![
        (q0 % 0x100) as u8,
        (q1 % 0x100) as u8,
        (q2 % 0x100) as u8,
        (q3 % 0x100) as u8,
        (q4 % 0x100) as u8,
        (q5 % 0x100) as u8,
        (q6 % 0x100) as u8,
        (q7 % 0x100) as u8,
    ]
}

/// The byte that stands for a server type.
pub open spec fn server_type_code(t: ServerType) -> u8 {
    match t {
        ServerType::Dedicated => 0x64,
        ServerType::NonDedicated => 0x6c,
        ServerType::SourceTVRelay => 0x70,
    }
}

/// The byte that stands for an operating system.
pub open spec fn os_code(os: OS) -> u8 {
    match os {
        OS::Linux => 0x6c,
        OS::Windows => 0x77,
        OS::Mac => 0x6d,
    }
}

/// The flag byte of a record: one bit for each optional field that it holds.
pub open spec fn flags_of(r: Record) -> u8 {
    (if r.port is Some { 0x80u8 } else { 0u8 }) | (if r.steam_id is Some { 0x10u8 } else { 0u8 })
        | (if r.spectator_port is Some { 0x40u8 } else { 0u8 }) | (if r.keywords is Some {
        0x20u8
    } else {
        0u8
    }) | (if r.game_id is Some { 0x01u8 } else { 0u8 })
}

/// Whether a record can be sent: its texts are texts, and it holds the
/// spectator port and name together or not at all.
pub open spec fn encodable(r: Record) -> bool {
    &&& is_text(r.name)
    &&& is_text(r.map)
    &&& is_text(r.folder)
    &&& is_text(r.game)
    &&& is_text(r.version)
    &&& r.spectator_port is Some <==> r.spectator_name is Some
    &&& r.spectator_name matches Some(t) ==> is_text(t)
    &&& r.keywords matches Some(t) ==> is_text(t)
}

/// The bytes of the optional fields of `r`, in the order of the reply.
pub open spec fn optional_bytes(r: Record) -> Seq<u8> {
    (match r.port {
        Some(p) => i16_bytes(p),
        None => Seq::empty(),
    }) + (match r.steam_id {
        Some(id) => u64_bytes(id),
        None => Seq::empty(),
    }) + (match r.spectator_port {
        Some(p) => i16_bytes(p),
        None => Seq::empty(),
    }) + (match r.spectator_name {
        Some(t) => text_bytes(t),
        None => Seq::empty(),
    }) + (match r.keywords {
        Some(t) => text_bytes(t),
        None => Seq::empty(),
    }) + (match r.game_id {
        Some(id) => u64_bytes(id),
        None => Seq::empty(),
    })
}

/// The bytes of the fields that every reply has, up to the flag byte.
pub open spec fn fixed_bytes(r: Record) -> Seq<u8> {
    seq![INFO_HEADER, r.protocol_version] + text_bytes(r.name) + text_bytes(r.map) + text_bytes(
        r.folder,
    ) + text_bytes(r.game) + i16_bytes(r.steamapp_id) + counts_bytes(r) + text_bytes(r.version)
        + seq![flags_of(r)]
}

/// The reply that stands for `r`, without the four bytes that frame the
/// datagram.
pub open spec fn encoded(r: Record) -> Seq<u8> {
    fixed_bytes(r) + optional_bytes(r)
}

/// Whether the bytes `p` stand in `s` from `at` on.
#[verifier::opaque]
pub open spec fn placed(s: Seq<u8>, at: int, p: Seq<u8>) -> bool {
    &&& 0 <= at
    &&& at + p.len() <= s.len()
    &&& forall|i: int| 0 <= i < p.len() ==> s[at + i] == #[trigger] p[i]
}

/// A buffer starts with the bytes that it was made of first.
proof fn lemma_placed_first(p: Seq<u8>, rest: Seq<u8>)
    ensures
        placed(p + rest, 0, p),
{
    reveal(placed);
}

/// What stands in `s` from `at` on gives `s` its bytes there.
proof fn lemma_placed_byte(s: Seq<u8>, at: int, p: Seq<u8>, i: int)
    requires
        placed(s, at, p),
        0 <= i < p.len(),
    ensures
        0 <= at + i < s.len(),
        s[at + i] == p[i],
{
    reveal(placed);
}

/// Where `p + q` stands, `p` stands, and `q` right after it.
proof fn lemma_split(s: Seq<u8>, at: int, p: Seq<u8>, q: Seq<u8>)
    requires
        placed(s, at, p + q),
    ensures
        placed(s, at, p),
        placed(s, at + p.len(), q),
{
    reveal(placed);
    assert forall|i: int| 0 <= i < p.len() implies s[at + i] == #[trigger] p[i] by {
        assert((p + q)[i] == p[i]);
    }
    assert forall|i: int| 0 <= i < q.len() implies s[at + p.len() + i] == #[trigger] q[i] by {
        assert((p + q)[p.len() + i] == q[i]);
    }
}

/// The text after `at + k` ends where the placed text `t` has its terminator.
proof fn lemma_scan(s: Seq<u8>, at: int, t: Seq<char>, k: int)
    requires
        is_text(t),
        placed(s, at, text_bytes(t)),
        0 <= k <= t.len(),
    ensures
        text_end(s, at + k) == at + t.len(),
    decreases t.len() - k,
{
    let b = text_bytes(t);
    lemma_placed_byte(s, at, b, k);
    if k < t.len() {
        assert(b[k] == t[k] as u8);
        assert(1 <= t[k] as int <= 0xFF);
        lemma_scan(s, at, t, k + 1);
    }
}

/// Where the bytes of a text stand, that text is read, up to its terminator.
pub proof fn lemma_text_placed(s: Seq<u8>, at: int, t: Seq<char>)
    requires
        is_text(t),
        placed(s, at, text_bytes(t)),
    ensures
        text_end(s, at) == at + t.len(),
        text(s, at) == t,
{
    lemma_scan(s, at, t, 0);
    let b = text_bytes(t);
    assert forall|i: int| 0 <= i < t.len() implies #[trigger] text(s, at)[i] == t[i] by {
        lemma_placed_byte(s, at, b, i);
        assert(b[i] == t[i] as u8);
        assert(1 <= t[i] as int <= 0xFF);
    }
    assert(text(s, at) =~= t);
}

/// Where the two bytes of `v` stand, `v` is read.
pub proof fn lemma_i16_placed(s: Seq<u8>, at: int, v: i16)
    requires
        placed(s, at, i16_bytes(v)),
    ensures
        le_i16(s, at) == v,
{
    let b = i16_bytes(v);
    lemma_placed_byte(s, at, b, 0);
    lemma_placed_byte(s, at, b, 1);
}

/// Where the eight bytes of `v` stand, `v` is read.
pub proof fn lemma_u64_placed(s: Seq<u8>, at: int, v: u64)
    requires
        placed(s, at, u64_bytes(v)),
    ensures
        le_u64(s, at) == v,
{
    let b = u64_bytes(v);
    lemma_placed_byte(s, at, b, 0);
    lemma_placed_byte(s, at, b, 1);
    lemma_placed_byte(s, at, b, 2);
    lemma_placed_byte(s, at, b, 3);
    lemma_placed_byte(s, at, b, 4);
    lemma_placed_byte(s, at, b, 5);
    lemma_placed_byte(s, at, b, 6);
    lemma_placed_byte(s, at, b, 7);
}

/// Each flag bit can be read back from the byte that combines them.
proof fn lemma_flag_bits(port: u8, steam_id: u8, spectator: u8, keywords: u8, game_id: u8)
    by (bit_vector)
    requires
        port == 0 || port == 0x80,
        steam_id == 0 || steam_id == 0x10,
        spectator == 0 || spectator == 0x40,
        keywords == 0 || keywords == 0x20,
        game_id == 0 || game_id == 0x01,
    ensures
        (port | steam_id | spectator | keywords | game_id) & 0x80 == port,
        (port | steam_id | spectator | keywords | game_id) & 0x10 == steam_id,
        (port | steam_id | spectator | keywords | game_id) & 0x40 == spectator,
        (port | steam_id | spectator | keywords | game_id) & 0x20 == keywords,
        (port | steam_id | spectator | keywords | game_id) & 0x01 == game_id,
{
}

/// The flag byte of a record announces the optional fields that the record
/// holds, and no others.
pub proof fn lemma_flags_of(r: Record)
    ensures
        has_port(flags_of(r)) <==> r.port is Some,
        has_steam_id(flags_of(r)) <==> r.steam_id is Some,
        has_spectator(flags_of(r)) <==> r.spectator_port is Some,
        has_keywords(flags_of(r)) <==> r.keywords is Some,
        has_game_id(flags_of(r)) <==> r.game_id is Some,
{
    lemma_flag_bits(
        if r.port is Some { 0x80u8 } else { 0u8 },
        if r.steam_id is Some { 0x10u8 } else { 0u8 },
        if r.spectator_port is Some { 0x40u8 } else { 0u8 },
        if r.keywords is Some { 0x20u8 } else { 0u8 },
        if r.game_id is Some { 0x01u8 } else { 0u8 },
    );
}

/// The seven bytes between the application ID and the version: players,
/// maximum players, bots, server type, environment, visibility (0 for a
/// public server and 1 otherwise) and VAC (1 for a secured server and 0
/// otherwise).
pub open spec fn counts_bytes(r: Record) -> Seq<u8> {
    seq![
        r.players,
        r.max_players,
        r.bots,
        server_type_code(r.server_type),
        os_code(r.os),
        if r.is_public { 0u8 } else { 1u8 },
        if r.uses_vac { 1u8 } else { 0u8 },
    ]
}

/// The length of a text on the wire, or 0 for a text that is not sent.
pub open spec fn text_len(t: Option<Seq<char>>) -> int {
    match t {
        Some(t) => t.len() as int + 1,
        None => 0int,
    }
}

/// Where the fields of `r` lie in `encoded(r)`, from the lengths of its
/// texts and the optional fields that it holds.
pub open spec fn offsets(r: Record) -> Layout {
    let name: int = 2;
    let map: int = name + r.name.len() + 1;
    let folder: int = map + r.map.len() + 1;
    let game: int = folder + r.folder.len() + 1;
    let steamapp_id: int = game + r.game.len() + 1;
    let version: int = steamapp_id + 9;
    let edf: int = version + r.version.len() + 1;
    let port: int = edf + 1;
    let steam_id: int = port + if r.port is Some { 2int } else { 0int };
    let spectator_port: int = steam_id + if r.steam_id is Some { 8int } else { 0int };
    let spectator_name: int = spectator_port + 2;
    let keywords: int = spectator_port + if r.spectator_port is Some {
        2 + text_len(r.spectator_name)
    } else {
        0int
    };
    let game_id: int = keywords + text_len(r.keywords);
    let end: int = game_id + if r.game_id is Some { 8int } else { 0int };
    Layout {
        name,
        map,
        folder,
        game,
        steamapp_id,
        players: steamapp_id + 2,
        max_players: steamapp_id + 3,
        bots: steamapp_id + 4,
        server_type: steamapp_id + 5,
        os: steamapp_id + 6,
        visibility: steamapp_id + 7,
        vac: steamapp_id + 8,
        version,
        edf,
        port,
        steam_id,
        spectator_port,
        spectator_name,
        keywords,
        game_id,
        end,
    }
}

/// The fields before the optional ones, read where the bytes of `r` stand.
proof fn lemma_fixed_placed(e: Seq<u8>, r: Record)
    requires
        encodable(r),
        placed(e, 0, fixed_bytes(r)),
    ensures
        ({
            let at = offsets(r);
            &&& at.port <= e.len()
            &&& e[0] == INFO_HEADER
            &&& e[1] == r.protocol_version
            &&& text_end(e, at.name) == at.map - 1 && text(e, at.name) == r.name
            &&& text_end(e, at.map) == at.folder - 1 && text(e, at.map) == r.map
            &&& text_end(e, at.folder) == at.game - 1 && text(e, at.folder) == r.folder
            &&& text_end(e, at.game) == at.steamapp_id - 1 && text(e, at.game) == r.game
            &&& le_i16(e, at.steamapp_id) == r.steamapp_id
            &&& e[at.players] == r.players
            &&& e[at.max_players] == r.max_players
            &&& e[at.bots] == r.bots
            &&& e[at.server_type] == server_type_code(r.server_type)
            &&& e[at.os] == os_code(r.os)
            &&& e[at.visibility] == (if r.is_public { 0u8 } else { 1u8 })
            &&& e[at.vac] == (if r.uses_vac { 1u8 } else { 0u8 })
            &&& text_end(e, at.version) == at.edf - 1 && text(e, at.version) == r.version
            &&& e[at.edf] == flags_of(r)
        }),
{
    let at = offsets(r);
    let head = seq![INFO_HEADER, r.protocol_version];
    let name = text_bytes(r.name);
    let map = text_bytes(r.map);
    let folder = text_bytes(r.folder);
    let game = text_bytes(r.game);
    let app = i16_bytes(r.steamapp_id);
    let counts = counts_bytes(r);
    let version = text_bytes(r.version);
    let flags = seq![flags_of(r)];
    lemma_split(e, 0, head + name + map + folder + game + app + counts + version, flags);
    lemma_split(e, 0, head + name + map + folder + game + app + counts, version);
    lemma_split(e, 0, head + name + map + folder + game + app, counts);
    lemma_split(e, 0, head + name + map + folder + game, app);
    lemma_split(e, 0, head + name + map + folder, game);
    lemma_split(e, 0, head + name + map, folder);
    lemma_split(e, 0, head + name, map);
    lemma_split(e, 0, head, name);
    lemma_text_placed(e, at.name, r.name);
    lemma_text_placed(e, at.map, r.map);
    lemma_text_placed(e, at.folder, r.folder);
    lemma_text_placed(e, at.game, r.game);
    lemma_i16_placed(e, at.steamapp_id, r.steamapp_id);
    lemma_text_placed(e, at.version, r.version);
    lemma_placed_byte(e, 0, head, 0);
    lemma_placed_byte(e, 0, head, 1);
    lemma_placed_byte(e, at.edf, flags, 0);
    lemma_placed_byte(e, at.players, counts, 0);
    lemma_placed_byte(e, at.players, counts, 1);
    lemma_placed_byte(e, at.players, counts, 2);
    lemma_placed_byte(e, at.players, counts, 3);
    lemma_placed_byte(e, at.players, counts, 4);
    lemma_placed_byte(e, at.players, counts, 5);
    lemma_placed_byte(e, at.players, counts, 6);
}

/// The optional fields, read where the bytes of `r` stand.
proof fn lemma_optional_placed(e: Seq<u8>, r: Record)
    requires
        encodable(r),
        placed(e, offsets(r).port, optional_bytes(r)),
    ensures
        ({
            let at = offsets(r);
            &&& at.end <= e.len()
            &&& r.port matches Some(p) ==> le_i16(e, at.port) == p
            &&& r.steam_id matches Some(id) ==> le_u64(e, at.steam_id) == id
            &&& r.spectator_port matches Some(p) ==> le_i16(e, at.spectator_port) == p
            &&& r.spectator_name matches Some(t) ==> text_end(e, at.spectator_name) == at.keywords
                - 1 && text(e, at.spectator_name) == t
            &&& r.keywords matches Some(t) ==> text_end(e, at.keywords) == at.game_id - 1 && text(
                e,
                at.keywords,
            ) == t
            &&& r.game_id matches Some(id) ==> le_u64(e, at.game_id) == id
        }),
{
    let at = offsets(r);
    let port = match r.port {
        Some(p) => i16_bytes(p),
        None => Seq::empty(),
    };
    let steam_id = match r.steam_id {
        Some(id) => u64_bytes(id),
        None => Seq::empty(),
    };
    let spectator_port = match r.spectator_port {
        Some(p) => i16_bytes(p),
        None => Seq::empty(),
    };
    let spectator_name = match r.spectator_name {
        Some(t) => text_bytes(t),
        None => Seq::empty(),
    };
    let keywords = match r.keywords {
        Some(t) => text_bytes(t),
        None => Seq::empty(),
    };
    let game_id = match r.game_id {
        Some(id) => u64_bytes(id),
        None => Seq::empty(),
    };
    lemma_split(e, at.port, port + steam_id + spectator_port + spectator_name + keywords, game_id);
    lemma_split(e, at.port, port + steam_id + spectator_port + spectator_name, keywords);
    lemma_split(e, at.port, port + steam_id + spectator_port, spectator_name);
    lemma_split(e, at.port, port + steam_id, spectator_port);
    lemma_split(e, at.port, port, steam_id);
    assert(placed(e, at.end, Seq::empty())) by {
        lemma_split(e, at.game_id, game_id, Seq::empty());
        assert(game_id + Seq::<u8>::empty() =~= game_id);
    }
    assert(at.end <= e.len()) by {
        reveal(placed);
    }
    if let Some(p) = r.port {
        lemma_i16_placed(e, at.port, p);
    }
    if let Some(id) = r.steam_id {
        lemma_u64_placed(e, at.steam_id, id);
    }
    if let Some(p) = r.spectator_port {
        lemma_i16_placed(e, at.spectator_port, p);
    }
    if let Some(t) = r.spectator_name {
        lemma_text_placed(e, at.spectator_name, t);
    }
    if let Some(t) = r.keywords {
        lemma_text_placed(e, at.keywords, t);
    }
    if let Some(id) = r.game_id {
        lemma_u64_placed(e, at.game_id, id);
    }
}

/// Where the bytes of a record stand at the start of a buffer, the layout of
/// the buffer is that of the record, and the buffer decodes to the record.
proof fn lemma_encoded_placed(e: Seq<u8>, r: Record)
    requires
        encodable(r),
        placed(e, 0, encoded(r)),
    ensures
        layout(e) == offsets(r),
        offsets(r).end == encoded(r).len(),
        decoded(e) == Ok::<Record, DecodeError>(r),
{
    lemma_split(e, 0, fixed_bytes(r), optional_bytes(r));
    lemma_fixed_placed(e, r);
    lemma_optional_placed(e, r);
    lemma_flags_of(r);
    assert(layout(e) == offsets(r));
    assert(fields(e) == r);
    assert(ServerType::of_code(server_type_code(r.server_type)) == Some(r.server_type));
    assert(OS::of_code(os_code(r.os)) == Some(r.os));
}

/// Decoding the bytes of a record gives the record back, field for field and
/// with the optional fields present that the record holds, and takes exactly
/// those bytes, whatever follows them in the buffer.
pub proof fn lemma_round_trip(r: Record, rest: Seq<u8>)
    requires
        encodable(r),
    ensures
        decoded(encoded(r) + rest) == Ok::<Record, DecodeError>(r),
        decoded_len(encoded(r) + rest) == encoded(r).len(),
{
    let e = encoded(r) + rest;
    lemma_placed_first(encoded(r), rest);
    lemma_encoded_placed(e, r);
}

/// A text read from a buffer can be sent again: each of its characters stands
/// for a byte that is not zero.
pub proof fn lemma_text_is_text(s: Seq<u8>, at: int)
    requires
        0 <= at,
        text_end(s, at) <= s.len(),
    ensures
        is_text(text(s, at)),
{
    lemma_text_end(s, at);
    assert forall|i: int| 0 <= i < text(s, at).len() implies 1 <= #[trigger] text(s, at)[i] as int
        <= 0xFF by {
        assert(s[at + i] != 0);
    }
}

/// Every record that the decoder gives can be sent: the requirement of
/// `lemma_round_trip` holds of it.
pub proof fn lemma_decoded_is_encodable(s: Seq<u8>)
    requires
        decoded(s) is Ok,
    ensures
        encodable(decoded(s)->Ok_0),
{
    let at = layout(s);
    lemma_layout_ordered(s);
    lemma_text_end(s, at.spectator_name);
    lemma_text_end(s, at.keywords);
    lemma_text_is_text(s, at.name);
    lemma_text_is_text(s, at.map);
    lemma_text_is_text(s, at.folder);
    lemma_text_is_text(s, at.game);
    lemma_text_is_text(s, at.version);
    if has_spectator(s[at.edf]) {
        lemma_text_is_text(s, at.spectator_name);
    }
    if has_keywords(s[at.edf]) {
        lemma_text_is_text(s, at.keywords);
    }
}

/// Decoding the bytes of a record, and nothing after them, gives the record
/// back.
pub proof fn lemma_round_trip_exact(r: Record)
    requires
        encodable(r),
    ensures
        decoded(encoded(r)) == Ok::<Record, DecodeError>(r),
        decoded_len(encoded(r)) == encoded(r).len(),
{
    lemma_round_trip(r, Seq::empty());
    assert(encoded(r) + Seq::<u8>::empty() =~= encoded(r));
}

} // verus!
