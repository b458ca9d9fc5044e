//! What a client sends, by phase.

use vstd::prelude::*;
use crate::buffer::DecodeBuffer;
use crate::error::{ReadError, WriteError};
use crate::packets::State;
use crate::varint::varint_decoding;

pub mod handshake;
pub mod login;
pub mod play;
pub mod status;

use handshake::{ClientHandshakePacket, ClientHandshakePacketView};
use login::{ClientLoginPacket, ClientLoginPacketView};
use play::{ClientPlayPacket, ClientPlayPacketView};
use status::ClientStatusPacket;

verus! {

/// A packet of a client, under the phase that it was read in.
#[derive(Debug, Clone, PartialEq, Eq)]
pub enum ClientPacket {
    Handshake(ClientHandshakePacket),
    Status(ClientStatusPacket),
    Login(ClientLoginPacket),
    Play(ClientPlayPacket),
}

/// What a `ClientPacket` holds.
pub enum ClientPacketView {
    Handshake(ClientHandshakePacketView),
    Status(ClientStatusPacket),
    Login(ClientLoginPacketView),
    Play(ClientPlayPacketView),
}

impl View for ClientPacket {
    type V = ClientPacketView;

    open spec fn view(&self) -> ClientPacketView {
        match self {
            ClientPacket::Handshake(p) => ClientPacketView::Handshake(p@),
            ClientPacket::Status(p) => ClientPacketView::Status(p@),
            ClientPacket::Login(p) => ClientPacketView::Login(p@),
            ClientPacket::Play(p) => ClientPacketView::Play(p@),
        }
    }
}

impl ClientPacketView {
    /// The phase whose table holds the packet.
    pub open spec fn state(self) -> State {
        match self {
            ClientPacketView::Handshake(_) => State::Handshake,
            ClientPacketView::Status(_) => State::Status,
            ClientPacketView::Login(_) => State::Login,
            ClientPacketView::Play(_) => State::Play,
        }
    }

    /// The wire form of the packet: its id and then its fields.
    pub open spec fn encoding(self) -> Seq<u8> {
        match self {
            ClientPacketView::Handshake(p) => p.encoding(),
            ClientPacketView::Status(p) => p.encoding(),
            ClientPacketView::Login(p) => p.encoding(),
            ClientPacketView::Play(p) => p.encoding(),
        }
    }

    /// The id of the packet within the table of its phase.
    pub open spec fn packet_id(self) -> i32 {
        match self {
            ClientPacketView::Handshake(p) => p.packet_id(),
            ClientPacketView::Status(p) => p.packet_id(),
            ClientPacketView::Login(p) => p.packet_id(),
            ClientPacketView::Play(p) => p.packet_id(),
        }
    }

    /// The wire form of the fields of the packet, without its id.
    pub open spec fn body(self) -> Seq<u8> {
        match self {
            ClientPacketView::Handshake(p) => p.body(),
            ClientPacketView::Status(p) => p.body(),
            ClientPacketView::Login(p) => p.body(),
            ClientPacketView::Play(p) => p.body(),
        }
    }

    /// The first field that cannot be written, if there is one.
    pub open spec fn encode_failure(self) -> Option<WriteError> {
        match self {
            ClientPacketView::Handshake(p) => p.encode_failure(),
            ClientPacketView::Status(p) => p.encode_failure(),
            ClientPacketView::Login(p) => p.encode_failure(),
            ClientPacketView::Play(p) => p.encode_failure(),
        }
    }

    /// Whether the table of `state` holds a packet with this id.
    pub open spec fn known_id(state: State, id: i32) -> bool {
        match state {
            State::Handshake => ClientHandshakePacketView::known_id(id),
            State::Status => ClientStatusPacket::known_id(id),
            State::Login => ClientLoginPacketView::known_id(id),
            State::Play => ClientPlayPacketView::known_id(id),
        }
    }

    /// The packet that the bytes of one frame hold, read with the table of
    /// `state`.
    pub open spec fn decoding(state: State, s: Seq<u8>) -> Result<ClientPacketView, ReadError> {
        match state {
            State::Handshake => match ClientHandshakePacketView::decoding(s) {
                Ok(p) => Ok(ClientPacketView::Handshake(p)),
                Err(e) => Err(e),
            },
            State::Status => match ClientStatusPacket::decoding(s) {
                Ok(p) => Ok(ClientPacketView::Status(p)),
                Err(e) => Err(e),
            },
            State::Login => match ClientLoginPacketView::decoding(s) {
                Ok(p) => Ok(ClientPacketView::Login(p)),
                Err(e) => Err(e),
            },
            State::Play => match ClientPlayPacketView::decoding(s) {
                Ok(p) => Ok(ClientPacketView::Play(p)),
                Err(e) => Err(e),
            },
        }
    }

    /// Every packet that can be written reads back as it was, in its own
    /// phase.
    pub proof fn lemma_roundtrip(self)
        requires
            self.encode_failure().is_none(),
        ensures
            ClientPacketView::decoding(self.state(), self.encoding()) == Ok::<
                ClientPacketView,
                ReadError,
            >(self),
    {
        match self {
            ClientPacketView::Handshake(p) => {
                p.lemma_roundtrip();
            },
            ClientPacketView::Status(p) => {
                p.lemma_roundtrip();
            },
            ClientPacketView::Login(p) => {
                p.lemma_roundtrip();
            },
            ClientPacketView::Play(p) => {
                p.lemma_roundtrip();
            },
        }
    }

    /// Phase gating: a frame whose id is not in the table of the current
    /// phase is turned down with that id, whatever the frame holds besides.
    pub proof fn lemma_phase_gating(state: State, s: Seq<u8>)
        requires
            varint_decoding(s) matches Ok((id, _)) && !ClientPacketView::known_id(state, id),
        ensures
            varint_decoding(s) matches Ok((id, _)) && ClientPacketView::decoding(state, s) == Err::<
                ClientPacketView,
                ReadError,
            >(ReadError::InvalidPacketId(id)),
    {
    }
}

impl ClientPacket {
    /// Reads one packet with the table of `state`.
    pub fn decode(state: State, r: &mut DecodeBuffer) -> (res: Result<ClientPacket, ReadError>)
        ensures
            final(r).data() == old(r).data(),
            match ClientPacketView::decoding(state, old(r).remaining()) {
                Ok(v) => res.is_ok() && res.unwrap()@ == v,
                Err(e) => res == Err::<ClientPacket, ReadError>(e),
            },
    {
        match state {
            State::Handshake => match ClientHandshakePacket::read_from(r) {
                Ok(p) => Ok(ClientPacket::Handshake(p)),
                Err(e) => Err(e),
            },
            State::Status => match ClientStatusPacket::read_from(r) {
                Ok(p) => Ok(ClientPacket::Status(p)),
                Err(e) => Err(e),
            },
            State::Login => match ClientLoginPacket::read_from(r) {
                Ok(p) => Ok(ClientPacket::Login(p)),
                Err(e) => Err(e),
            },
            State::Play => match ClientPlayPacket::read_from(r) {
                Ok(p) => Ok(ClientPacket::Play(p)),
                Err(e) => Err(e),
            },
        }
    }

    /// Appends the wire form of the packet.
    pub fn encode_to(&self, buffer: &mut Vec<u8>) -> (res: Result<(), WriteError>)
        ensures
            match self@.encode_failure() {
                None => res.is_ok() && final(buffer)@ == old(buffer)@ + self@.encoding(),
                Some(e) => res == Err::<(), WriteError>(e),
            },
    {
        match self {
            ClientPacket::Handshake(p) => p.write_to(buffer),
            ClientPacket::Status(p) => p.write_to(buffer),
            ClientPacket::Login(p) => p.write_to(buffer),
            ClientPacket::Play(p) => p.write_to(buffer),
        }
    }
}

} // verus!
