//! Decoder for the reply to a Source engine `A2S_INFO` server query.
//!
//! `info` holds the request datagram and the decoder of the reply, `format`
//! says what a buffer of bytes decodes to, and `wire` reads integers and
//! texts from a buffer. `ServerInfo` is the record under the name that the
//! crate root has for it.

pub mod encoding;
pub mod error;
pub mod format;
pub mod info;
pub mod wire;

use crate::error::DecodeError;
use crate::format::{decoded, reply, Record, INFO_HEADER};
use crate::info::{text_view, Response};
pub use crate::info::{ServerType, OS};
pub use crate::wire::get_string;
use vstd::prelude::*;

verus! {

/// Information about a server, as its reply to an `A2S_INFO` request gives
/// it. It holds what `info::Response` holds.
#[derive(Clone, Debug, PartialEq, Eq)]
pub struct ServerInfo {
    pub protocol_version: u8,
    pub name: String,
    pub map: String,
    pub folder: String,
    pub game: String,
    pub steamapp_id: i16,
    pub players: u8,
    pub max_players: u8,
    pub bots: u8,
    pub server_type: ServerType,
    pub os: OS,
    pub is_public: bool,
    pub uses_vac: bool,
    pub version: String,
    pub port: Option<i16>,
    pub steam_id: Option<u64>,
    pub spectator_port: Option<i16>,
    pub spectator_name: Option<String>,
    pub keywords: Option<String>,
    pub game_id: Option<u64>,
}

impl View for ServerInfo {
    type V = Record;

    open spec fn view(&self) -> Record {
        Record {
            protocol_version: self.protocol_version,
            name: self.name@,
            map: self.map@,
            folder: self.folder@,
            game: self.game@,
            steamapp_id: self.steamapp_id,
            players: self.players,
            max_players: self.max_players,
            bots: self.bots,
            server_type: self.server_type,
            os: self.os,
            is_public: self.is_public,
            uses_vac: self.uses_vac,
            version: self.version@,
            port: self.port,
            steam_id: self.steam_id,
            spectator_port: self.spectator_port,
            spectator_name: text_view(self.spectator_name),
            keywords: text_view(self.keywords),
            game_id: self.game_id,
        }
    }
}

impl ServerInfo {
    /// The same record under this type: every field is moved over unchanged.
    pub fn from_response(info: Response) -> (r: ServerInfo)
        ensures
            r@ == info@,
    {
        ServerInfo {
            protocol_version: info.protocol_version,
            name: info.name,
            map: info.map,
            folder: info.folder,
            game: info.game,
            steamapp_id: info.steamapp_id,
            players: info.players,
            max_players: info.max_players,
            bots: info.bots,
            server_type: info.server_type,
            os: info.os,
            is_public: info.is_public,
            uses_vac: info.uses_vac,
            version: info.version,
            port: info.port,
            steam_id: info.steam_id,
            spectator_port: info.spectator_port,
            spectator_name: info.spectator_name,
            keywords: info.keywords,
            game_id: info.game_id,
        }
    }

    /// Decodes a reply from `b`, the bytes that follow the four framing bytes
    /// of the datagram. `b` is only read. A first byte other than `0x49` is
    /// always a malformed header, whatever follows it.
    pub fn from_bytes(b: &mut Vec<u8>) -> (r: Result<ServerInfo, DecodeError>)
        ensures
            final(b)@ == old(b)@,
            match r {
                Ok(info) => decoded(old(b)@) == Ok::<Record, DecodeError>(info@),
                Err(e) => decoded(old(b)@) == Err::<Record, DecodeError>(e),
            },
            old(b)@.len() >= 1 && old(b)@[0] != INFO_HEADER ==> r == Err::<
                ServerInfo,
                DecodeError,
            >(DecodeError::MalformedHeader { found: old(b)@[0] as char }),
    {
        match Response::from_bytes(b) {
            Ok(info) => Ok(ServerInfo::from_response(info)),
            Err(e) => Err(e),
        }
    }
}

/// Decodes the datagram that a server sent in answer to `info::request()`.
pub fn response(datagram: &[u8]) -> (r: Result<ServerInfo, DecodeError>)
    ensures
        match r {
            Ok(info) => reply(datagram@) == Ok::<Record, DecodeError>(info@),
            Err(e) => reply(datagram@) == Err::<Record, DecodeError>(e),
        },
{
    match crate::info::response(datagram) {
        Ok(info) => Ok(ServerInfo::from_response(info)),
        Err(e) => Err(e),
    }
}

} // verus!
