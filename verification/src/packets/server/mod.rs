//! What the server sends, by phase.

use vstd::prelude::*;
use crate::error::WriteError;
use crate::packets::State;

pub mod login;
pub mod play;
pub mod status;

use login::{ServerLoginPacket, ServerLoginPacketView};
use play::{ServerPlayPacket, ServerPlayPacketView};
use status::{ServerStatusPacket, ServerStatusPacketView};

verus! {

/// A packet of the server, under the phase that it belongs to.
#[derive(Debug, Clone, PartialEq, Eq)]
pub enum ServerPacket {
    Status(ServerStatusPacket),
    Login(ServerLoginPacket),
    Play(ServerPlayPacket),
}

/// What a `ServerPacket` holds.
pub enum ServerPacketView {
    Status(ServerStatusPacketView),
    Login(ServerLoginPacketView),
    Play(ServerPlayPacketView),
}

impl View for ServerPacket {
    type V = ServerPacketView;

    open spec fn view(&self) -> ServerPacketView {
        match self {
            ServerPacket::Status(p) => ServerPacketView::Status(p@),
            ServerPacket::Login(p) => ServerPacketView::Login(p@),
            ServerPacket::Play(p) => ServerPacketView::Play(p@),
        }
    }
}

impl ServerPacketView {
    /// The phase whose table holds the packet.
    pub open spec fn state(self) -> State {
        match self {
            ServerPacketView::Status(_) => State::Status,
            ServerPacketView::Login(_) => State::Login,
            ServerPacketView::Play(_) => State::Play,
        }
    }

    /// The wire form of the packet: its id and then its fields.
    pub open spec fn encoding(self) -> Seq<u8> {
        match self {
            ServerPacketView::Status(p) => p.encoding(),
            ServerPacketView::Login(p) => p.encoding(),
            ServerPacketView::Play(p) => p.encoding(),
        }
    }

    /// The id of the packet within the table of its phase.
    pub open spec fn packet_id(self) -> i32 {
        match self {
            ServerPacketView::Status(p) => p.packet_id(),
            ServerPacketView::Login(p) => p.packet_id(),
            ServerPacketView::Play(p) => p.packet_id(),
        }
    }

    /// The wire form of the fields of the packet, without its id.
    pub open spec fn body(self) -> Seq<u8> {
        match self {
            ServerPacketView::Status(p) => p.body(),
            ServerPacketView::Login(p) => p.body(),
            ServerPacketView::Play(p) => p.body(),
        }
    }

    /// The first field that cannot be written, if there is one.
    pub open spec fn encode_failure(self) -> Option<WriteError> {
        match self {
            ServerPacketView::Status(p) => p.encode_failure(),
            ServerPacketView::Login(p) => p.encode_failure(),
            ServerPacketView::Play(p) => p.encode_failure(),
        }
    }
}

impl ServerPacket {
    /// Appends the wire form of the packet: its id and then its fields.
    /// When a field cannot be written, `buffer` may hold what comes before
    /// it.
    pub fn encode_to(&self, buffer: &mut Vec<u8>) -> (res: Result<(), WriteError>)
        ensures
            match self@.encode_failure() {
                None => res.is_ok() && final(buffer)@ == old(buffer)@ + self@.encoding(),
                Some(e) => res == Err::<(), WriteError>(e),
            },
    {
        match self {
            ServerPacket::Status(p) => p.write_to(buffer),
            ServerPacket::Login(p) => p.write_to(buffer),
            ServerPacket::Play(p) => p.write_to(buffer),
        }
    }
}

} // verus!
