//! What the server sends in the status phase.

use vstd::prelude::*;
use vstd::utf8::encode_utf8;
use crate::error::{FieldWriteError, WriteError};
use crate::fixed::{signed_encoding, write_i64};
use crate::info::{server_info_json, ServerInfo, ServerInfoView};
use crate::text::{string_encoding, MAX_LENGTH};
use crate::varint::{varint_encoding, VarInt};

verus! {

/// Carries the status payload as JSON text.
#[derive(Debug, Clone, PartialEq, Eq)]
pub struct StatusResponse {
    pub response: ServerInfo,
}

/// What a `StatusResponse` holds.
pub struct StatusResponseView {
    pub response: ServerInfoView,
}

impl View for StatusResponse {
    type V = StatusResponseView;

    open spec fn view(&self) -> StatusResponseView {
        StatusResponseView {
            response: self.response@,
        }
    }
}

impl StatusResponseView {
    /// The wire form of the fields, in their order.
    pub open spec fn encoding(self) -> Seq<u8> {
        string_encoding(server_info_json(self.response))
    }

    /// The first field that cannot be written, if there is one.
    pub open spec fn encode_failure(self) -> Option<WriteError> {
        if !(encode_utf8(server_info_json(self.response)).len() <= MAX_LENGTH) {
            Some(WriteError::Field("response", FieldWriteError::LengthOverflow))
        } else {
            None
        }
    }
}

impl StatusResponse {
    /// Appends the fields in their order. When a field cannot be written,
    /// `buffer` may hold the fields before it.
    pub fn write_to(&self, buffer: &mut Vec<u8>) -> (res: Result<(), WriteError>)
        ensures
            match self@.encode_failure() {
                None => res.is_ok() && final(buffer)@ == old(buffer)@ + self@.encoding(),
                Some(e) => res == Err::<(), WriteError>(e),
            },
    {
        match self.response.write_to(buffer) {
            Ok(()) => {},
            Err(e) => {
                return Err(WriteError::Field("response", e));
            },
        }
        assert(buffer@ =~= old(buffer)@ + self@.encoding());
        Ok(())
    }
}

/// Echoes the payload of a ping.
#[derive(Debug, Clone, Copy, PartialEq, Eq, Structural)]
pub struct StatusPong {
    pub payload: i64,
}

impl View for StatusPong {
    type V = StatusPong;

    open spec fn view(&self) -> StatusPong {
        *self
    }
}

impl StatusPong {
    /// The wire form of the fields, in their order.
    pub open spec fn encoding(self) -> Seq<u8> {
        signed_encoding(self.payload as int, 8)
    }

    /// The first field that cannot be written, if there is one.
    pub open spec fn encode_failure(self) -> Option<WriteError> {
        None
    }
}

impl StatusPong {
    /// Appends the fields in their order. When a field cannot be written,
    /// `buffer` may hold the fields before it.
    pub fn write_to(&self, buffer: &mut Vec<u8>) -> (res: Result<(), WriteError>)
        ensures
            match self@.encode_failure() {
                None => res.is_ok() && final(buffer)@ == old(buffer)@ + self@.encoding(),
                Some(e) => res == Err::<(), WriteError>(e),
            },
    {
        write_i64(buffer, self.payload);
        assert(buffer@ =~= old(buffer)@ + self@.encoding());
        Ok(())
    }
}

/// What the server sends in the status phase.
#[derive(Debug, Clone, PartialEq, Eq)]
pub enum ServerStatusPacket {
    Response(StatusResponse),
    Pong(StatusPong),
}

/// What a `ServerStatusPacket` holds.
pub enum ServerStatusPacketView {
    Response(StatusResponseView),
    Pong(StatusPong),
}

impl View for ServerStatusPacket {
    type V = ServerStatusPacketView;

    open spec fn view(&self) -> ServerStatusPacketView {
        match self {
            ServerStatusPacket::Response(p) => ServerStatusPacketView::Response(p@),
            ServerStatusPacket::Pong(p) => ServerStatusPacketView::Pong(p@),
        }
    }
}

impl ServerStatusPacketView {
    /// The id of the packet within its table.
    pub open spec fn packet_id(self) -> i32 {
        match self {
            ServerStatusPacketView::Response(_) => 0,
            ServerStatusPacketView::Pong(_) => 1,
        }
    }

    /// The wire form of the fields of the packet, without its id.
    pub open spec fn body(self) -> Seq<u8> {
        match self {
            ServerStatusPacketView::Response(p) => p.encoding(),
            ServerStatusPacketView::Pong(p) => p.encoding(),
        }
    }

    /// The wire form of the packet: its id and then its fields.
    pub open spec fn encoding(self) -> Seq<u8> {
        varint_encoding(self.packet_id()) + self.body()
    }

    /// The first field that cannot be written, if there is one.
    pub open spec fn encode_failure(self) -> Option<WriteError> {
        match self {
            ServerStatusPacketView::Response(p) => p.encode_failure(),
            ServerStatusPacketView::Pong(p) => p.encode_failure(),
        }
    }
}

impl ServerStatusPacket {
    /// The id of the packet within its table.
    pub fn id(&self) -> (id: i32)
        ensures
            id == self@.packet_id(),
    {
        match self {
            ServerStatusPacket::Response(_) => 0,
            ServerStatusPacket::Pong(_) => 1,
        }
    }

    /// Appends the id and then the fields. When a field cannot be written,
    /// `buffer` may hold what comes before it.
    pub fn write_to(&self, buffer: &mut Vec<u8>) -> (res: Result<(), WriteError>)
        ensures
            match self@.encode_failure() {
                None => res.is_ok() && final(buffer)@ == old(buffer)@ + self@.encoding(),
                Some(e) => res == Err::<(), WriteError>(e),
            },
    {
        VarInt(self.id()).write_to(buffer);
        let res = match self {
            ServerStatusPacket::Response(p) => p.write_to(buffer),
            ServerStatusPacket::Pong(p) => p.write_to(buffer),
        };
        assert(res.is_ok() ==> buffer@ =~= old(buffer)@ + self@.encoding());
        res
    }
}

} // verus!
