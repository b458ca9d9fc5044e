//! The status payload that a server hands to the server list of a client.

use vstd::prelude::*;
use vstd::string::StringExecFns;
use vstd::utf8::encode_utf8;
use crate::chat::{json_quote, json_string, message_json, Message};
use crate::error::FieldWriteError;
use crate::text::{string_encoding, write_string, MAX_LENGTH};

verus! {

/// The protocol number that the server speaks.
pub const PROTOCOL_VERSION: usize = 757;

/// The name of the game version that speaks this protocol.
pub const VERSION_NAME: &'static str = "1.18.1";

/// The decimal JSON number that stands for `value`.
pub uninterp spec fn json_integer(value: int) -> Seq<char>;

/// The base64 text of `data`, in the standard alphabet with padding.
pub uninterp spec fn base64_text(data: Seq<u8>) -> Seq<char>;

/// `serde_json::to_string` on an integer: its decimal JSON number. Writing
/// a number into memory has no way to fail.
#[verifier::external_body]
fn json_number(value: i128) -> (out: String)
    ensures
        out@ == json_integer(value as int),
{
    serde_json::to_string(&value).unwrap_or_default()
}

/// `base64::encode`: the base64 text of `data`.
#[verifier::external_body]
fn base64_encode(data: &[u8]) -> (out: String)
    ensures
        out@ == base64_text(data@),
{
    base64::encode(data)
}

/// Name and protocol number of a game version.
#[derive(Debug, Clone, Copy, PartialEq, Eq)]
pub struct VersionInfo {
    pub name: &'static str,
    pub protocol: usize,
}

/// How many players are online and how many fit.
#[derive(Debug, Clone, Copy, PartialEq, Eq, Structural)]
pub struct ServerPlayerInfo {
    pub max: isize,
    pub online: isize,
}

impl VersionInfo {
    /// The version of the game that the server speaks.
    pub fn current() -> (version: VersionInfo)
        ensures
            version.name@ == VERSION_NAME@,
            version.protocol == PROTOCOL_VERSION,
    {
        VersionInfo { name: VERSION_NAME, protocol: PROTOCOL_VERSION }
    }
}

impl ServerPlayerInfo {
    pub fn simple(online: isize, max: isize) -> (info: ServerPlayerInfo)
        ensures
            info == (ServerPlayerInfo { max, online }),
    {
        ServerPlayerInfo { online, max }
    }
}

/// The status payload: version, player counts, description and icon.
#[derive(Debug, Clone, PartialEq, Eq)]
pub struct ServerInfo {
    version: VersionInfo,
    players: Option<ServerPlayerInfo>,
    description: Message,
    favicon: Option<String>,
}

/// What a status payload holds.
pub struct ServerInfoView {
    pub version_name: Seq<char>,
    pub protocol: usize,
    pub players: Option<ServerPlayerInfo>,
    pub description: Seq<char>,
    pub favicon: Option<Seq<char>>,
}

/// The JSON object of a game version.
pub open spec fn version_json(name: Seq<char>, protocol: usize) -> Seq<char> {
    "{\"name\":"@ + json_string(name) + ",\"protocol\":"@ + json_integer(protocol as int) + "}"@
}

/// The JSON value of the player counts: an object, or `null` when the counts
/// are hidden.
pub open spec fn players_json(players: Option<ServerPlayerInfo>) -> Seq<char> {
    match players {
        Some(p) => "{\"max\":"@ + json_integer(p.max as int) + ",\"online\":"@ + json_integer(
            p.online as int,
        ) + "}"@,
        None => "null"@,
    }
}

/// The member that carries the icon, with the comma that separates it from
/// the member before it; empty when there is no icon.
pub open spec fn favicon_json(favicon: Option<Seq<char>>) -> Seq<char> {
    match favicon {
        Some(f) => ",\"favicon\":"@ + json_string(f),
        None => Seq::empty(),
    }
}

/// The JSON text of a status payload.
pub open spec fn server_info_json(info: ServerInfoView) -> Seq<char> {
    "{\"version\":"@ + version_json(info.version_name, info.protocol) + ",\"players\":"@
        + players_json(info.players) + ",\"description\":"@ + message_json(info.description)
        + favicon_json(info.favicon) + "}"@
}

/// The data URL that carries a PNG image.
pub open spec fn favicon_url(png: Seq<u8>) -> Seq<char> {
    "data:image/png;base64,"@ + base64_text(png)
}

impl View for ServerInfo {
    type V = ServerInfoView;

    closed spec fn view(&self) -> ServerInfoView {
        ServerInfoView {
            version_name: self.version.name@,
            protocol: self.version.protocol,
            players: self.players,
            description: self.description@,
            favicon: match self.favicon {
                Some(f) => Some(f@),
                None => None,
            },
        }
    }
}

impl ServerInfo {
    /// Puts a status payload together. The icon is PNG data, which the
    /// payload carries as a base64 data URL.
    pub fn new(
        version: VersionInfo,
        players: Option<ServerPlayerInfo>,
        motd: Message,
        favicon: Option<&[u8]>,
    ) -> (info: ServerInfo)
        ensures
            info@ == (ServerInfoView {
                version_name: version.name@,
                protocol: version.protocol,
                players,
                description: motd@,
                favicon: match favicon {
                    Some(png) => Some(favicon_url(png@)),
                    None => None,
                },
            }),
    {
        let favicon = match favicon {
            Some(png) => {
                let encoded = base64_encode(png);
                let mut url = String::from_str("data:image/png;base64,");
                url.append(encoded.as_str());
                Some(url)
            },
            None => None,
        };
        ServerInfo { version, players, description: motd, favicon }
    }

    /// The JSON text of the payload.
    pub fn to_json(&self) -> (json: String)
        ensures
            json@ == server_info_json(self@),
    {
        let mut json = String::from_str("{\"version\":");
        json.append("{\"name\":");
        json.append(json_quote(self.version.name).as_str());
        json.append(",\"protocol\":");
        json.append(json_number(self.version.protocol as i128).as_str());
        json.append("}");
        json.append(",\"players\":");
        match self.players {
            Some(p) => {
                json.append("{\"max\":");
                json.append(json_number(p.max as i128).as_str());
                json.append(",\"online\":");
                json.append(json_number(p.online as i128).as_str());
                json.append("}");
            },
            None => {
                json.append("null");
            },
        }
        json.append(",\"description\":");
        json.append(self.description.to_json().as_str());
        match &self.favicon {
            Some(f) => {
                json.append(",\"favicon\":");
                json.append(json_quote(f.as_str()).as_str());
            },
            None => {},
        }
        json.append("}");
        assert(json@ =~= server_info_json(self@));
        json
    }

    /// Appends the JSON text of the payload as a string field. Fails,
    /// leaving `buffer` as it was, when the JSON text is too long for the
    /// length prefix.
    pub fn write_to(&self, buffer: &mut Vec<u8>) -> (res: Result<(), FieldWriteError>)
        ensures
            encode_utf8(server_info_json(self@)).len() <= MAX_LENGTH ==> res.is_ok()
                && final(buffer)@ == old(buffer)@ + string_encoding(server_info_json(self@)),
            encode_utf8(server_info_json(self@)).len() > MAX_LENGTH ==> res == Err::<
                (),
                FieldWriteError,
            >(FieldWriteError::LengthOverflow) && final(buffer)@ == old(buffer)@,
    {
        let json = self.to_json();
        write_string(buffer, json.as_str())
    }
}

} // verus!
