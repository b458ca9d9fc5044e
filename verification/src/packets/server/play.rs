//! What the server sends in the play phase.

use vstd::prelude::*;
use vstd::utf8::encode_utf8;
use crate::chat::{message_json, Message};
use crate::error::{FieldWriteError, WriteError};
use crate::fixed::{
    be_bytes, bool_encoding, signed_encoding, write_bool, write_i32, write_i64, write_u32,
    write_u64, write_u8,
};
use crate::io::{strings_encoding, strings_fit, RawBytes, VarIntPrefixedVec};
use crate::text::{string_encoding, write_string, MAX_LENGTH};
use crate::types::{
    game_mode_encoding, optional_game_mode_encoding, position_encoding, write_optional_game_mode,
    GameMode, Position,
};
use crate::varint::{varint_encoding, VarInt};

verus! {

/// An opaque payload for a named channel.
#[derive(Debug, Clone, PartialEq, Eq)]
pub struct PluginMessage {
    pub channel: String,
    pub data: RawBytes,
}

/// What a `PluginMessage` holds.
pub struct PluginMessageView {
    pub channel: Seq<char>,
    pub data: Seq<u8>,
}

impl View for PluginMessage {
    type V = PluginMessageView;

    open spec fn view(&self) -> PluginMessageView {
        PluginMessageView {
            channel: self.channel@,
            data: self.data@,
        }
    }
}

impl PluginMessageView {
    /// The wire form of the fields, in their order.
    pub open spec fn encoding(self) -> Seq<u8> {
        string_encoding(self.channel)
            + self.data
    }

    /// The first field that cannot be written, if there is one.
    pub open spec fn encode_failure(self) -> Option<WriteError> {
        if !(encode_utf8(self.channel).len() <= MAX_LENGTH) {
            Some(WriteError::Field("channel", FieldWriteError::LengthOverflow))
        } else {
            None
        }
    }
}

impl PluginMessage {
    /// Appends the fields in their order. When a field cannot be written,
    /// `buffer` may hold the fields before it.
    pub fn write_to(&self, buffer: &mut Vec<u8>) -> (res: Result<(), WriteError>)
        ensures
            match self@.encode_failure() {
                None => res.is_ok() && final(buffer)@ == old(buffer)@ + self@.encoding(),
                Some(e) => res == Err::<(), WriteError>(e),
            },
    {
        match write_string(buffer, self.channel.as_str()) {
            Ok(()) => {},
            Err(e) => {
                return Err(WriteError::Field("channel", e));
            },
        }
        self.data.write_to(buffer);
        assert(buffer@ =~= old(buffer)@ + self@.encoding());
        Ok(())
    }
}

/// Ends the connection with a reason.
#[derive(Debug, Clone, PartialEq, Eq)]
pub struct Disconnect {
    pub reason: Message,
}

/// What a `Disconnect` holds.
pub struct DisconnectView {
    pub reason: Seq<char>,
}

impl View for Disconnect {
    type V = DisconnectView;

    open spec fn view(&self) -> DisconnectView {
        DisconnectView {
            reason: self.reason@,
        }
    }
}

impl DisconnectView {
    /// The wire form of the fields, in their order.
    pub open spec fn encoding(self) -> Seq<u8> {
        string_encoding(message_json(self.reason))
    }

    /// The first field that cannot be written, if there is one.
    pub open spec fn encode_failure(self) -> Option<WriteError> {
        if !(encode_utf8(message_json(self.reason)).len() <= MAX_LENGTH) {
            Some(WriteError::Field("reason", FieldWriteError::LengthOverflow))
        } else {
            None
        }
    }
}

impl Disconnect {
    /// Appends the fields in their order. When a field cannot be written,
    /// `buffer` may hold the fields before it.
    pub fn write_to(&self, buffer: &mut Vec<u8>) -> (res: Result<(), WriteError>)
        ensures
            match self@.encode_failure() {
                None => res.is_ok() && final(buffer)@ == old(buffer)@ + self@.encoding(),
                Some(e) => res == Err::<(), WriteError>(e),
            },
    {
        match self.reason.write_to(buffer) {
            Ok(()) => {},
            Err(e) => {
                return Err(WriteError::Field("reason", e));
            },
        }
        assert(buffer@ =~= old(buffer)@ + self@.encoding());
        Ok(())
    }
}

/// Asks the client for a sign of life.
#[derive(Debug, Clone, Copy, PartialEq, Eq, Structural)]
pub struct KeepAlive {
    pub id: u64,
}

impl View for KeepAlive {
    type V = KeepAlive;

    open spec fn view(&self) -> KeepAlive {
        *self
    }
}

impl KeepAlive {
    /// The wire form of the fields, in their order.
    pub open spec fn encoding(self) -> Seq<u8> {
        be_bytes(self.id as nat, 8)
    }

    /// The first field that cannot be written, if there is one.
    pub open spec fn encode_failure(self) -> Option<WriteError> {
        None
    }
}

impl KeepAlive {
    /// Appends the fields in their order. When a field cannot be written,
    /// `buffer` may hold the fields before it.
    pub fn write_to(&self, buffer: &mut Vec<u8>) -> (res: Result<(), WriteError>)
        ensures
            match self@.encode_failure() {
                None => res.is_ok() && final(buffer)@ == old(buffer)@ + self@.encoding(),
                Some(e) => res == Err::<(), WriteError>(e),
            },
    {
        write_u64(buffer, self.id);
        assert(buffer@ =~= old(buffer)@ + self@.encoding());
        Ok(())
    }
}

/// Puts the player into the world.
#[derive(Debug, Clone, PartialEq, Eq)]
pub struct JoinGame {
    pub entity_id: i32,
    pub hardcore: bool,
    pub gamemode: GameMode,
    pub previous_gamemode: Option<GameMode>,
    pub world_names: VarIntPrefixedVec<String>,
    /// The registry of dimensions, opaque NBT that the embedder supplies.
    pub dimension_codec: RawBytes,
    /// The dimension that the player is in, opaque NBT that the embedder supplies.
    pub dimension: RawBytes,
    pub world_name: String,
    pub hashed_seed: i64,
    pub max_players: VarInt,
    pub view_distance: VarInt,
    pub simulation_distance: VarInt,
    pub reduced_debug_info: bool,
    pub enable_respawn_screen: bool,
    pub debug: bool,
    pub flat: bool,
}

/// What a `JoinGame` holds.
pub struct JoinGameView {
    pub entity_id: i32,
    pub hardcore: bool,
    pub gamemode: GameMode,
    pub previous_gamemode: Option<GameMode>,
    pub world_names: Seq<Seq<char>>,
    pub dimension_codec: Seq<u8>,
    pub dimension: Seq<u8>,
    pub world_name: Seq<char>,
    pub hashed_seed: i64,
    pub max_players: i32,
    pub view_distance: i32,
    pub simulation_distance: i32,
    pub reduced_debug_info: bool,
    pub enable_respawn_screen: bool,
    pub debug: bool,
    pub flat: bool,
}

impl View for JoinGame {
    type V = JoinGameView;

    open spec fn view(&self) -> JoinGameView {
        JoinGameView {
            entity_id: self.entity_id,
            hardcore: self.hardcore,
            gamemode: self.gamemode,
            previous_gamemode: self.previous_gamemode,
            world_names: self.world_names@,
            dimension_codec: self.dimension_codec@,
            dimension: self.dimension@,
            world_name: self.world_name@,
            hashed_seed: self.hashed_seed,
            max_players: self.max_players.0,
            view_distance: self.view_distance.0,
            simulation_distance: self.simulation_distance.0,
            reduced_debug_info: self.reduced_debug_info,
            enable_respawn_screen: self.enable_respawn_screen,
            debug: self.debug,
            flat: self.flat,
        }
    }
}

impl JoinGameView {
    /// The wire form of the fields, in their order.
    pub open spec fn encoding(self) -> Seq<u8> {
        signed_encoding(self.entity_id as int, 4)
            + bool_encoding(self.hardcore)
            + game_mode_encoding(self.gamemode)
            + optional_game_mode_encoding(self.previous_gamemode)
            + strings_encoding(self.world_names)
            + self.dimension_codec
            + self.dimension
            + string_encoding(self.world_name)
            + signed_encoding(self.hashed_seed as int, 8)
            + varint_encoding(self.max_players)
            + varint_encoding(self.view_distance)
            + varint_encoding(self.simulation_distance)
            + bool_encoding(self.reduced_debug_info)
            + bool_encoding(self.enable_respawn_screen)
            + bool_encoding(self.debug)
            + bool_encoding(self.flat)
    }

    /// The first field that cannot be written, if there is one.
    pub open spec fn encode_failure(self) -> Option<WriteError> {
        if !(self.world_names.len() <= MAX_LENGTH
            && strings_fit(self.world_names, self.world_names.len())) {
            Some(WriteError::Field("world_names", FieldWriteError::LengthOverflow))
        } else if !(encode_utf8(self.world_name).len() <= MAX_LENGTH) {
            Some(WriteError::Field("world_name", FieldWriteError::LengthOverflow))
        } else {
            None
        }
    }
}

impl JoinGame {
    /// Appends the fields in their order. When a field cannot be written,
    /// `buffer` may hold the fields before it.
    #[verifier::rlimit(60)]
    pub fn write_to(&self, buffer: &mut Vec<u8>) -> (res: Result<(), WriteError>)
        ensures
            match self@.encode_failure() {
                None => res.is_ok() && final(buffer)@ == old(buffer)@ + self@.encoding(),
                Some(e) => res == Err::<(), WriteError>(e),
            },
    {
        write_i32(buffer, self.entity_id);
        let ghost a0 = signed_encoding(self@.entity_id as int, 4);
        assert(buffer@ =~= old(buffer)@ + a0);
        write_bool(buffer, self.hardcore);
        let ghost a1 = a0 + bool_encoding(self@.hardcore);
        assert(buffer@ =~= old(buffer)@ + a1);
        self.gamemode.write_to(buffer);
        let ghost a2 = a1 + game_mode_encoding(self@.gamemode);
        assert(buffer@ =~= old(buffer)@ + a2);
        write_optional_game_mode(buffer, self.previous_gamemode);
        let ghost a3 = a2 + optional_game_mode_encoding(self@.previous_gamemode);
        assert(buffer@ =~= old(buffer)@ + a3);
        match self.world_names.write_to(buffer) {
            Ok(()) => {},
            Err(e) => {
                return Err(WriteError::Field("world_names", e));
            },
        }
        let ghost a4 = a3 + strings_encoding(self@.world_names);
        assert(buffer@ =~= old(buffer)@ + a4);
        self.dimension_codec.write_to(buffer);
        let ghost a5 = a4 + self@.dimension_codec;
        assert(buffer@ =~= old(buffer)@ + a5);
        self.dimension.write_to(buffer);
        let ghost a6 = a5 + self@.dimension;
        assert(buffer@ =~= old(buffer)@ + a6);
        match write_string(buffer, self.world_name.as_str()) {
            Ok(()) => {},
            Err(e) => {
                return Err(WriteError::Field("world_name", e));
            },
        }
        let ghost a7 = a6 + string_encoding(self@.world_name);
        assert(buffer@ =~= old(buffer)@ + a7);
        write_i64(buffer, self.hashed_seed);
        let ghost a8 = a7 + signed_encoding(self@.hashed_seed as int, 8);
        assert(buffer@ =~= old(buffer)@ + a8);
        self.max_players.write_to(buffer);
        let ghost a9 = a8 + varint_encoding(self@.max_players);
        assert(buffer@ =~= old(buffer)@ + a9);
        self.view_distance.write_to(buffer);
        let ghost a10 = a9 + varint_encoding(self@.view_distance);
        assert(buffer@ =~= old(buffer)@ + a10);
        self.simulation_distance.write_to(buffer);
        let ghost a11 = a10 + varint_encoding(self@.simulation_distance);
        assert(buffer@ =~= old(buffer)@ + a11);
        write_bool(buffer, self.reduced_debug_info);
        let ghost a12 = a11 + bool_encoding(self@.reduced_debug_info);
        assert(buffer@ =~= old(buffer)@ + a12);
        write_bool(buffer, self.enable_respawn_screen);
        let ghost a13 = a12 + bool_encoding(self@.enable_respawn_screen);
        assert(buffer@ =~= old(buffer)@ + a13);
        write_bool(buffer, self.debug);
        let ghost a14 = a13 + bool_encoding(self@.debug);
        assert(buffer@ =~= old(buffer)@ + a14);
        write_bool(buffer, self.flat);
        let ghost a15 = a14 + bool_encoding(self@.flat);
        assert(buffer@ =~= old(buffer)@ + a15);
        assert(a15 == self@.encoding());
        Ok(())
    }
}

/// Moves the player; the client then finishes loading.
#[derive(Debug, Clone, PartialEq, Eq)]
pub struct PlayerPositionAndLook {
    /// IEEE-754 bits of the x coordinate, a 64-bit float.
    pub x: u64,
    /// IEEE-754 bits of the y coordinate, a 64-bit float.
    pub y: u64,
    /// IEEE-754 bits of the z coordinate, a 64-bit float.
    pub z: u64,
    /// IEEE-754 bits of the yaw, a 32-bit float.
    pub yaw: u32,
    /// IEEE-754 bits of the pitch, a 32-bit float.
    pub pitch: u32,
    pub flags: u8,
    pub teleport_id: VarInt,
    pub dismount_vehicle: bool,
}

/// What a `PlayerPositionAndLook` holds.
pub struct PlayerPositionAndLookView {
    pub x: u64,
    pub y: u64,
    pub z: u64,
    pub yaw: u32,
    pub pitch: u32,
    pub flags: u8,
    pub teleport_id: i32,
    pub dismount_vehicle: bool,
}

impl View for PlayerPositionAndLook {
    type V = PlayerPositionAndLookView;

    open spec fn view(&self) -> PlayerPositionAndLookView {
        PlayerPositionAndLookView {
            x: self.x,
            y: self.y,
            z: self.z,
            yaw: self.yaw,
            pitch: self.pitch,
            flags: self.flags,
            teleport_id: self.teleport_id.0,
            dismount_vehicle: self.dismount_vehicle,
        }
    }
}

impl PlayerPositionAndLookView {
    /// The wire form of the fields, in their order.
    pub open spec fn encoding(self) -> Seq<u8> {
        be_bytes(self.x as nat, 8)
            + be_bytes(self.y as nat, 8)
            + be_bytes(self.z as nat, 8)
            + be_bytes(self.yaw as nat, 4)
            + be_bytes(self.pitch as nat, 4)
            + be_bytes(self.flags as nat, 1)
            + varint_encoding(self.teleport_id)
            + bool_encoding(self.dismount_vehicle)
    }

    /// The first field that cannot be written, if there is one.
    pub open spec fn encode_failure(self) -> Option<WriteError> {
        None
    }
}

impl PlayerPositionAndLook {
    /// Appends the fields in their order. When a field cannot be written,
    /// `buffer` may hold the fields before it.
    pub fn write_to(&self, buffer: &mut Vec<u8>) -> (res: Result<(), WriteError>)
        ensures
            match self@.encode_failure() {
                None => res.is_ok() && final(buffer)@ == old(buffer)@ + self@.encoding(),
                Some(e) => res == Err::<(), WriteError>(e),
            },
    {
        write_u64(buffer, self.x);
        let ghost a0 = be_bytes(self@.x as nat, 8);
        assert(buffer@ =~= old(buffer)@ + a0);
        write_u64(buffer, self.y);
        let ghost a1 = a0 + be_bytes(self@.y as nat, 8);
        assert(buffer@ =~= old(buffer)@ + a1);
        write_u64(buffer, self.z);
        let ghost a2 = a1 + be_bytes(self@.z as nat, 8);
        assert(buffer@ =~= old(buffer)@ + a2);
        write_u32(buffer, self.yaw);
        let ghost a3 = a2 + be_bytes(self@.yaw as nat, 4);
        assert(buffer@ =~= old(buffer)@ + a3);
        write_u32(buffer, self.pitch);
        let ghost a4 = a3 + be_bytes(self@.pitch as nat, 4);
        assert(buffer@ =~= old(buffer)@ + a4);
        write_u8(buffer, self.flags);
        let ghost a5 = a4 + be_bytes(self@.flags as nat, 1);
        assert(buffer@ =~= old(buffer)@ + a5);
        self.teleport_id.write_to(buffer);
        let ghost a6 = a5 + varint_encoding(self@.teleport_id);
        assert(buffer@ =~= old(buffer)@ + a6);
        write_bool(buffer, self.dismount_vehicle);
        let ghost a7 = a6 + bool_encoding(self@.dismount_vehicle);
        assert(buffer@ =~= old(buffer)@ + a7);
        assert(a7 == self@.encoding());
        Ok(())
    }
}

/// Where players spawn.
#[derive(Debug, Clone, Copy, PartialEq, Eq, Structural)]
pub struct SpawnPosition {
    pub location: Position,
    /// IEEE-754 bits of the angle, a 32-bit float.
    pub angle: u32,
}

impl View for SpawnPosition {
    type V = SpawnPosition;

    open spec fn view(&self) -> SpawnPosition {
        *self
    }
}

impl SpawnPosition {
    /// The wire form of the fields, in their order.
    pub open spec fn encoding(self) -> Seq<u8> {
        position_encoding(self.location)
            + be_bytes(self.angle as nat, 4)
    }

    /// The first field that cannot be written, if there is one.
    pub open spec fn encode_failure(self) -> Option<WriteError> {
        None
    }
}

impl SpawnPosition {
    /// Appends the fields in their order. When a field cannot be written,
    /// `buffer` may hold the fields before it.
    pub fn write_to(&self, buffer: &mut Vec<u8>) -> (res: Result<(), WriteError>)
        ensures
            match self@.encode_failure() {
                None => res.is_ok() && final(buffer)@ == old(buffer)@ + self@.encoding(),
                Some(e) => res == Err::<(), WriteError>(e),
            },
    {
        self.location.write_to(buffer);
        write_u32(buffer, self.angle);
        assert(buffer@ =~= old(buffer)@ + self@.encoding());
        Ok(())
    }
}

/// What the server sends in the play phase.
#[derive(Debug, Clone, PartialEq, Eq)]
pub enum ServerPlayPacket {
    PluginMessage(PluginMessage),
    Disconnect(Disconnect),
    KeepAlive(KeepAlive),
    JoinGame(JoinGame),
    PlayerPositionAndLook(PlayerPositionAndLook),
    SpawnPosition(SpawnPosition),
}

/// What a `ServerPlayPacket` holds.
pub enum ServerPlayPacketView {
    PluginMessage(PluginMessageView),
    Disconnect(DisconnectView),
    KeepAlive(KeepAlive),
    JoinGame(JoinGameView),
    PlayerPositionAndLook(PlayerPositionAndLookView),
    SpawnPosition(SpawnPosition),
}

impl View for ServerPlayPacket {
    type V = ServerPlayPacketView;

    open spec fn view(&self) -> ServerPlayPacketView {
        match self {
            ServerPlayPacket::PluginMessage(p) => ServerPlayPacketView::PluginMessage(p@),
            ServerPlayPacket::Disconnect(p) => ServerPlayPacketView::Disconnect(p@),
            ServerPlayPacket::KeepAlive(p) => ServerPlayPacketView::KeepAlive(p@),
            ServerPlayPacket::JoinGame(p) => ServerPlayPacketView::JoinGame(p@),
            ServerPlayPacket::PlayerPositionAndLook(p) => ServerPlayPacketView::PlayerPositionAndLook(p@),
            ServerPlayPacket::SpawnPosition(p) => ServerPlayPacketView::SpawnPosition(p@),
        }
    }
}

impl ServerPlayPacketView {
    /// The id of the packet within its table.
    pub open spec fn packet_id(self) -> i32 {
        match self {
            ServerPlayPacketView::PluginMessage(_) => 0x18,
            ServerPlayPacketView::Disconnect(_) => 0x1a,
            ServerPlayPacketView::KeepAlive(_) => 0x21,
            ServerPlayPacketView::JoinGame(_) => 0x26,
            ServerPlayPacketView::PlayerPositionAndLook(_) => 0x38,
            ServerPlayPacketView::SpawnPosition(_) => 0x4b,
        }
    }

    /// The wire form of the fields of the packet, without its id.
    pub open spec fn body(self) -> Seq<u8> {
        match self {
            ServerPlayPacketView::PluginMessage(p) => p.encoding(),
            ServerPlayPacketView::Disconnect(p) => p.encoding(),
            ServerPlayPacketView::KeepAlive(p) => p.encoding(),
            ServerPlayPacketView::JoinGame(p) => p.encoding(),
            ServerPlayPacketView::PlayerPositionAndLook(p) => p.encoding(),
            ServerPlayPacketView::SpawnPosition(p) => p.encoding(),
        }
    }

    /// The wire form of the packet: its id and then its fields.
    pub open spec fn encoding(self) -> Seq<u8> {
        varint_encoding(self.packet_id()) + self.body()
    }

    /// The first field that cannot be written, if there is one.
    pub open spec fn encode_failure(self) -> Option<WriteError> {
        match self {
            ServerPlayPacketView::PluginMessage(p) => p.encode_failure(),
            ServerPlayPacketView::Disconnect(p) => p.encode_failure(),
            ServerPlayPacketView::KeepAlive(p) => p.encode_failure(),
            ServerPlayPacketView::JoinGame(p) => p.encode_failure(),
            ServerPlayPacketView::PlayerPositionAndLook(p) => p.encode_failure(),
            ServerPlayPacketView::SpawnPosition(p) => p.encode_failure(),
        }
    }
}

impl ServerPlayPacket {
    /// The id of the packet within its table.
    pub fn id(&self) -> (id: i32)
        ensures
            id == self@.packet_id(),
    {
        match self {
            ServerPlayPacket::PluginMessage(_) => 0x18,
            ServerPlayPacket::Disconnect(_) => 0x1a,
            ServerPlayPacket::KeepAlive(_) => 0x21,
            ServerPlayPacket::JoinGame(_) => 0x26,
            ServerPlayPacket::PlayerPositionAndLook(_) => 0x38,
            ServerPlayPacket::SpawnPosition(_) => 0x4b,
        }
    }

    /// Appends the id and then the fields. When a field cannot be written,
    /// `buffer` may hold what comes before it.
    pub fn write_to(&self, buffer: &mut Vec<u8>) -> (res: Result<(), WriteError>)
        ensures
            match self@.encode_failure() {
                None => res.is_ok() && final(buffer)@ == old(buffer)@ + self@.encoding(),
                Some(e) => res == Err::<(), WriteError>(e),
            },
    {
        VarInt(self.id()).write_to(buffer);
        let res = match self {
            ServerPlayPacket::PluginMessage(p) => p.write_to(buffer),
            ServerPlayPacket::Disconnect(p) => p.write_to(buffer),
            ServerPlayPacket::KeepAlive(p) => p.write_to(buffer),
            ServerPlayPacket::JoinGame(p) => p.write_to(buffer),
            ServerPlayPacket::PlayerPositionAndLook(p) => p.write_to(buffer),
            ServerPlayPacket::SpawnPosition(p) => p.write_to(buffer),
        };
        assert(res.is_ok() ==> buffer@ =~= old(buffer)@ + self@.encoding());
        res
    }
}

} // verus!
