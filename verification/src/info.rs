//! The `A2S_INFO` reply: the record it decodes to and the decoder.

use crate::error::DecodeError;
use crate::format::{
    decoded, decoded_len, lemma_layout_ordered, reply, request_payload, Record, INFO_HEADER,
    SINGLE_PACKET,
};
use crate::wire::{buf_put_slice, get_string, Reader};
use vstd::prelude::*;

verus! {

/// The role of the answering server.
#[derive(Copy, Clone, Debug, PartialEq, Eq)]
pub enum ServerType {
    Dedicated,
    NonDedicated,
    SourceTVRelay,
}

/// The operating system that the server runs on.
#[derive(Copy, Clone, Debug, PartialEq, Eq)]
pub enum OS {
    Linux,
    Windows,
    Mac,
}

impl ServerType {
    /// The server type that a byte of the reply stands for: `d`, `l` or `p`.
    pub open spec fn of_code(code: u8) -> Option<ServerType> {
        match code as char {
            'd' => Some(ServerType::Dedicated),
            'l' => Some(ServerType::NonDedicated),
            'p' => Some(ServerType::SourceTVRelay),
            _ => None,
        }
    }

    /// Decodes the server type byte; any byte but `d`, `l` and `p` is
    /// rejected and reported as a character.
    pub fn from_code(code: u8) -> (r: Result<ServerType, DecodeError>)
        ensures
            r == match ServerType::of_code(code) {
                Some(t) => Ok::<ServerType, DecodeError>(t),
                None => Err(DecodeError::UnknownServerType { found: code as char }),
            },
    {
        match code as char {
            'd' => Ok(ServerType::Dedicated),
            'l' => Ok(ServerType::NonDedicated),
            'p' => Ok(ServerType::SourceTVRelay),
            c => Err(DecodeError::UnknownServerType { found: c }),
        }
    }
}

impl OS {
    /// The operating system that a byte of the reply stands for: `l`, `w` or
    /// `m`.
    pub open spec fn of_code(code: u8) -> Option<OS> {
        match code as char {
            'l' => Some(OS::Linux),
            'w' => Some(OS::Windows),
            'm' => Some(OS::Mac),
            _ => None,
        }
    }

    /// Decodes the environment byte; any byte but `l`, `w` and `m` is
    /// rejected and reported as a character.
    pub fn from_code(code: u8) -> (r: Result<OS, DecodeError>)
        ensures
            r == match OS::of_code(code) {
                Some(os) => Ok::<OS, DecodeError>(os),
                None => Err(DecodeError::UnknownEnvironment { found: code as char }),
            },
    {
        match code as char {
            'l' => Ok(OS::Linux),
            'w' => Ok(OS::Windows),
            'm' => Ok(OS::Mac),
            c => Err(DecodeError::UnknownEnvironment { found: c }),
        }
    }
}

/// The view of an optional text.
pub open spec fn text_view(t: Option<String>) -> Option<Seq<char>> {
    match t {
        Some(t) => Some(t@),
        None => None,
    }
}

/// Information about a server, as its reply to an `A2S_INFO` request gives
/// it.
#[derive(Clone, Debug, PartialEq, Eq)]
pub struct Response {
    /// Protocol version used by the server.
    pub protocol_version: u8,
    /// Name of the server.
    pub name: String,
    /// Map that the server is running.
    pub map: String,
    /// Name of the folder that holds the game files.
    pub folder: String,
    /// Full name of the game.
    pub game: String,
    /// Steam application ID of the game.
    pub steamapp_id: i16,
    /// Number of players on the server.
    pub players: u8,
    /// Maximum number of players that the server admits.
    pub max_players: u8,
    /// Number of bots on the server.
    pub bots: u8,
    /// Role of the server.
    pub server_type: ServerType,
    /// Operating system of the server.
    pub os: OS,
    /// Whether the server can be joined without a password.
    pub is_public: bool,
    /// Whether the server uses VAC.
    pub uses_vac: bool,
    /// Version of the game installed on the server.
    pub version: String,
    /// The server's game port.
    pub port: Option<i16>,
    /// The server's Steam ID.
    pub steam_id: Option<u64>,
    /// Port of the SourceTV spectator server.
    pub spectator_port: Option<i16>,
    /// Name of the SourceTV spectator server.
    pub spectator_name: Option<String>,
    /// Tags by which the server describes the game.
    pub keywords: Option<String>,
    /// The server's game ID.
    pub game_id: Option<u64>,
}

impl View for Response {
    type V = Record;

    open spec fn view(&self) -> Record {
        Record {
            protocol_version: self.protocol_version,
            name: self.name@,
            map: self.map@,
            folder: self.folder@,
            game: self.game@,
            steamapp_id: self.steamapp_id,
            players: self.players,
            max_players: self.max_players,
            bots: self.bots,
            server_type: self.server_type,
            os: self.os,
            is_public: self.is_public,
            uses_vac: self.uses_vac,
            version: self.version@,
            port: self.port,
            steam_id: self.steam_id,
            spectator_port: self.spectator_port,
            spectator_name: text_view(self.spectator_name),
            keywords: text_view(self.keywords),
            game_id: self.game_id,
        }
    }
}

impl Response {
    /// Decodes a reply from `b`, the bytes that follow the four framing bytes
    /// of the datagram. `b` is only read. A first byte other than `0x49` is
    /// always a malformed header, whatever follows it.
    pub fn from_bytes(b: &mut Vec<u8>) -> (r: Result<Response, DecodeError>)
        ensures
            final(b)@ == old(b)@,
            match r {
                Ok(info) => decoded(old(b)@) == Ok::<Record, DecodeError>(info@),
                Err(e) => decoded(old(b)@) == Err::<Record, DecodeError>(e),
            },
            old(b)@.len() >= 1 && old(b)@[0] != INFO_HEADER ==> r == Err::<Response, DecodeError>(
                DecodeError::MalformedHeader { found: old(b)@[0] as char },
            ),
    {
        match Response::decode(b.as_slice()) {
            Ok((info, _)) => Ok(info),
            Err(e) => Err(e),
        }
    }

    /// Decodes a reply from the start of `b`, the bytes that follow the four
    /// framing bytes of the datagram, and says how many bytes the reply took.
    /// Bytes after the reply are ignored. Nothing is returned of a reply that
    /// fails at any field.
    pub fn decode(b: &[u8]) -> (r: Result<(Response, usize), DecodeError>)
        ensures
            match r {
                Ok((info, used)) => {
                    &&& decoded(b@) == Ok::<Record, DecodeError>(info@)
                    &&& used == decoded_len(b@)
                    &&& used <= b@.len()
                },
                Err(e) => decoded(b@) == Err::<Record, DecodeError>(e),
            },
    {
        proof {
            lemma_layout_ordered(b@);
        }
        let mut cur = Reader::new(b);
        let header: u8 = cur.get_u8()?;
        if header != INFO_HEADER {
            return Err(DecodeError::MalformedHeader { found: header as char });
        }
        let protocol_version: u8 = cur.get_u8()?;
        let name = get_string(&mut cur)?;
        let map = get_string(&mut cur)?;
        let folder = get_string(&mut cur)?;
        let game = get_string(&mut cur)?;
        let steamapp_id: i16 = cur.get_i16_le()?;
        let players: u8 = cur.get_u8()?;
        let max_players: u8 = cur.get_u8()?;
        let bots: u8 = cur.get_u8()?;
        let server_type = ServerType::from_code(cur.get_u8()?)?;
        let os = OS::from_code(cur.get_u8()?)?;
        let is_public = cur.get_u8()? == 0;
        let uses_vac = cur.get_u8()? == 1;
        let version = get_string(&mut cur)?;
        let edf: u8 = cur.get_u8()?;

        let port = if edf & 0x80 != 0 {
            Some(cur.get_i16_le()?)
        } else {
            None
        };

        let steam_id = if edf & 0x10 != 0 {
            Some(cur.get_u64_le()?)
        } else {
            None
        };

        let (spectator_port, spectator_name) = if edf & 0x40 != 0 {
            let p: i16 = cur.get_i16_le()?;
            (Some(p), Some(get_string(&mut cur)?))
        } else {
            (None, None)
        };

        let keywords = if edf & 0x20 != 0 {
            Some(get_string(&mut cur)?)
        } else {
            None
        };

        let game_id = if edf & 0x01 != 0 {
            Some(cur.get_u64_le()?)
        } else {
            None
        };

        let used: usize = cur.position();
        Ok(
            (
                Response {
                    protocol_version,
                    name,
                    map,
                    folder,
                    game,
                    steamapp_id,
                    players,
                    max_players,
                    bots,
                    server_type,
                    os,
                    is_public,
                    uses_vac,
                    version,
                    port,
                    steam_id,
                    spectator_port,
                    spectator_name,
                    keywords,
                    game_id,
                },
                used,
            ),
        )
    }
}

/// The datagram to send to a server to ask for its information.
pub fn request() -> (payload: Vec<u8>)
    ensures
        payload@ == request_payload(),
{
    let prefix: [u8; 5] = [0xFF, 0xFF, 0xFF, 0xFF, 0x54];
    let question: [u8; 20] = [
        0x53, 0x6f, 0x75, 0x72, 0x63, 0x65, 0x20, 0x45, 0x6e, 0x67, 0x69, 0x6e, 0x65, 0x20, 0x51,
        0x75, 0x65, 0x72, 0x79, 0x00,
    ];
    let mut buf: Vec<u8> = Vec::new();
    buf_put_slice(&mut buf, prefix.as_slice());
    buf_put_slice(&mut buf, question.as_slice());
    proof {
        reveal_strlit("Source Engine Query");
        assert(buf@ =~= request_payload());
    }
    buf
}

/// Decodes the datagram that a server sent in answer to `request()`. A
/// datagram that does not open with the 32-bit value -1 belongs to a reply
/// split over several datagrams, which is not decoded.
pub fn response(datagram: &[u8]) -> (r: Result<Response, DecodeError>)
    ensures
        match r {
            Ok(info) => reply(datagram@) == Ok::<Record, DecodeError>(info@),
            Err(e) => reply(datagram@) == Err::<Record, DecodeError>(e),
        },
{
    let mut cur = Reader::new(datagram);
    let header: i32 = cur.get_i32_le()?;
    if header != SINGLE_PACKET {
        return Err(DecodeError::UnsupportedFormat { header });
    }
    match Response::decode(cur.rest()) {
        Ok((info, _)) => Ok(info),
        Err(e) => Err(e),
    }
}

} // verus!
