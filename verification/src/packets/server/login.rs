//! What the server sends in the login phase.

use vstd::prelude::*;
use vstd::utf8::encode_utf8;
use crate::chat::{message_json, Message};
use crate::error::{FieldWriteError, WriteError};
use crate::io::{uuid_encoding, write_uuid, VarIntPrefixedVec};
use crate::text::{prefixed_encoding, string_encoding, write_string, MAX_LENGTH};
use crate::varint::{varint_encoding, VarInt};

verus! {

/// Ends the login with a reason.
#[derive(Debug, Clone, PartialEq, Eq)]
pub struct LoginDisconnect {
    pub reason: Message,
}

/// What a `LoginDisconnect` holds.
pub struct LoginDisconnectView {
    pub reason: Seq<char>,
}

impl View for LoginDisconnect {
    type V = LoginDisconnectView;

    open spec fn view(&self) -> LoginDisconnectView {
        LoginDisconnectView {
            reason: self.reason@,
        }
    }
}

impl LoginDisconnectView {
    /// The wire form of the fields, in their order.
    pub open spec fn encoding(self) -> Seq<u8> {
        string_encoding(message_json(self.reason))
    }

    /// The first field that cannot be written, if there is one.
    pub open spec fn encode_failure(self) -> Option<WriteError> {
        if !(encode_utf8(message_json(self.reason)).len() <= MAX_LENGTH) {
            Some(WriteError::Field("reason", FieldWriteError::LengthOverflow))
        } else {
            None
        }
    }
}

impl LoginDisconnect {
    /// Appends the fields in their order. When a field cannot be written,
    /// `buffer` may hold the fields before it.
    pub fn write_to(&self, buffer: &mut Vec<u8>) -> (res: Result<(), WriteError>)
        ensures
            match self@.encode_failure() {
                None => res.is_ok() && final(buffer)@ == old(buffer)@ + self@.encoding(),
                Some(e) => res == Err::<(), WriteError>(e),
            },
    {
        match self.reason.write_to(buffer) {
            Ok(()) => {},
            Err(e) => {
                return Err(WriteError::Field("reason", e));
            },
        }
        assert(buffer@ =~= old(buffer)@ + self@.encoding());
        Ok(())
    }
}

/// Asks the client to set up encryption.
#[derive(Debug, Clone, PartialEq, Eq)]
pub struct EncryptionRequest {
    pub server_id: String,
    pub public_key: VarIntPrefixedVec<u8>,
    pub verify_token: VarIntPrefixedVec<u8>,
}

/// What a `EncryptionRequest` holds.
pub struct EncryptionRequestView {
    pub server_id: Seq<char>,
    pub public_key: Seq<u8>,
    pub verify_token: Seq<u8>,
}

impl View for EncryptionRequest {
    type V = EncryptionRequestView;

    open spec fn view(&self) -> EncryptionRequestView {
        EncryptionRequestView {
            server_id: self.server_id@,
            public_key: self.public_key@,
            verify_token: self.verify_token@,
        }
    }
}

impl EncryptionRequestView {
    /// The wire form of the fields, in their order.
    pub open spec fn encoding(self) -> Seq<u8> {
        string_encoding(self.server_id)
            + prefixed_encoding(self.public_key)
            + prefixed_encoding(self.verify_token)
    }

    /// The first field that cannot be written, if there is one.
    pub open spec fn encode_failure(self) -> Option<WriteError> {
        if !(encode_utf8(self.server_id).len() <= MAX_LENGTH) {
            Some(WriteError::Field("server_id", FieldWriteError::LengthOverflow))
        } else if !(self.public_key.len() <= MAX_LENGTH) {
            Some(WriteError::Field("public_key", FieldWriteError::LengthOverflow))
        } else if !(self.verify_token.len() <= MAX_LENGTH) {
            Some(WriteError::Field("verify_token", FieldWriteError::LengthOverflow))
        } else {
            None
        }
    }
}

impl EncryptionRequest {
    /// Appends the fields in their order. When a field cannot be written,
    /// `buffer` may hold the fields before it.
    pub fn write_to(&self, buffer: &mut Vec<u8>) -> (res: Result<(), WriteError>)
        ensures
            match self@.encode_failure() {
                None => res.is_ok() && final(buffer)@ == old(buffer)@ + self@.encoding(),
                Some(e) => res == Err::<(), WriteError>(e),
            },
    {
        match write_string(buffer, self.server_id.as_str()) {
            Ok(()) => {},
            Err(e) => {
                return Err(WriteError::Field("server_id", e));
            },
        }
        match self.public_key.write_to(buffer) {
            Ok(()) => {},
            Err(e) => {
                return Err(WriteError::Field("public_key", e));
            },
        }
        match self.verify_token.write_to(buffer) {
            Ok(()) => {},
            Err(e) => {
                return Err(WriteError::Field("verify_token", e));
            },
        }
        assert(buffer@ =~= old(buffer)@ + self@.encoding());
        Ok(())
    }
}

/// Ends the login and opens the play phase.
#[derive(Debug, Clone, PartialEq, Eq)]
pub struct LoginSuccess {
    pub uuid: u128,
    pub name: String,
}

/// What a `LoginSuccess` holds.
pub struct LoginSuccessView {
    pub uuid: u128,
    pub name: Seq<char>,
}

impl View for LoginSuccess {
    type V = LoginSuccessView;

    open spec fn view(&self) -> LoginSuccessView {
        LoginSuccessView {
            uuid: self.uuid,
            name: self.name@,
        }
    }
}

impl LoginSuccessView {
    /// The wire form of the fields, in their order.
    pub open spec fn encoding(self) -> Seq<u8> {
        uuid_encoding(self.uuid)
            + string_encoding(self.name)
    }

    /// The first field that cannot be written, if there is one.
    pub open spec fn encode_failure(self) -> Option<WriteError> {
        if !(encode_utf8(self.name).len() <= MAX_LENGTH) {
            Some(WriteError::Field("name", FieldWriteError::LengthOverflow))
        } else {
            None
        }
    }
}

impl LoginSuccess {
    /// Appends the fields in their order. When a field cannot be written,
    /// `buffer` may hold the fields before it.
    pub fn write_to(&self, buffer: &mut Vec<u8>) -> (res: Result<(), WriteError>)
        ensures
            match self@.encode_failure() {
                None => res.is_ok() && final(buffer)@ == old(buffer)@ + self@.encoding(),
                Some(e) => res == Err::<(), WriteError>(e),
            },
    {
        write_uuid(buffer, self.uuid);
        match write_string(buffer, self.name.as_str()) {
            Ok(()) => {},
            Err(e) => {
                return Err(WriteError::Field("name", e));
            },
        }
        assert(buffer@ =~= old(buffer)@ + self@.encoding());
        Ok(())
    }
}

/// Switches compressed framing on.
#[derive(Debug, Clone, PartialEq, Eq)]
pub struct SetCompression {
    pub threshold: VarInt,
}

/// What a `SetCompression` holds.
pub struct SetCompressionView {
    pub threshold: i32,
}

impl View for SetCompression {
    type V = SetCompressionView;

    open spec fn view(&self) -> SetCompressionView {
        SetCompressionView {
            threshold: self.threshold.0,
        }
    }
}

impl SetCompressionView {
    /// The wire form of the fields, in their order.
    pub open spec fn encoding(self) -> Seq<u8> {
        varint_encoding(self.threshold)
    }

    /// The first field that cannot be written, if there is one.
    pub open spec fn encode_failure(self) -> Option<WriteError> {
        None
    }
}

impl SetCompression {
    /// Appends the fields in their order. When a field cannot be written,
    /// `buffer` may hold the fields before it.
    pub fn write_to(&self, buffer: &mut Vec<u8>) -> (res: Result<(), WriteError>)
        ensures
            match self@.encode_failure() {
                None => res.is_ok() && final(buffer)@ == old(buffer)@ + self@.encoding(),
                Some(e) => res == Err::<(), WriteError>(e),
            },
    {
        self.threshold.write_to(buffer);
        assert(buffer@ =~= old(buffer)@ + self@.encoding());
        Ok(())
    }
}

/// What the server sends in the login phase.
#[derive(Debug, Clone, PartialEq, Eq)]
pub enum ServerLoginPacket {
    Disconnect(LoginDisconnect),
    EncryptionRequest(EncryptionRequest),
    Success(LoginSuccess),
    SetCompression(SetCompression),
}

/// What a `ServerLoginPacket` holds.
pub enum ServerLoginPacketView {
    Disconnect(LoginDisconnectView),
    EncryptionRequest(EncryptionRequestView),
    Success(LoginSuccessView),
    SetCompression(SetCompressionView),
}

impl View for ServerLoginPacket {
    type V = ServerLoginPacketView;

    open spec fn view(&self) -> ServerLoginPacketView {
        match self {
            ServerLoginPacket::Disconnect(p) => ServerLoginPacketView::Disconnect(p@),
            ServerLoginPacket::EncryptionRequest(p) => ServerLoginPacketView::EncryptionRequest(p@),
            ServerLoginPacket::Success(p) => ServerLoginPacketView::Success(p@),
            ServerLoginPacket::SetCompression(p) => ServerLoginPacketView::SetCompression(p@),
        }
    }
}

impl ServerLoginPacketView {
    /// The id of the packet within its table.
    pub open spec fn packet_id(self) -> i32 {
        match self {
            ServerLoginPacketView::Disconnect(_) => 0,
            ServerLoginPacketView::EncryptionRequest(_) => 1,
            ServerLoginPacketView::Success(_) => 2,
            ServerLoginPacketView::SetCompression(_) => 3,
        }
    }

    /// The wire form of the fields of the packet, without its id.
    pub open spec fn body(self) -> Seq<u8> {
        match self {
            ServerLoginPacketView::Disconnect(p) => p.encoding(),
            ServerLoginPacketView::EncryptionRequest(p) => p.encoding(),
            ServerLoginPacketView::Success(p) => p.encoding(),
            ServerLoginPacketView::SetCompression(p) => p.encoding(),
        }
    }

    /// The wire form of the packet: its id and then its fields.
    pub open spec fn encoding(self) -> Seq<u8> {
        varint_encoding(self.packet_id()) + self.body()
    }

    /// The first field that cannot be written, if there is one.
    pub open spec fn encode_failure(self) -> Option<WriteError> {
        match self {
            ServerLoginPacketView::Disconnect(p) => p.encode_failure(),
            ServerLoginPacketView::EncryptionRequest(p) => p.encode_failure(),
            ServerLoginPacketView::Success(p) => p.encode_failure(),
            ServerLoginPacketView::SetCompression(p) => p.encode_failure(),
        }
    }
}

impl ServerLoginPacket {
    /// The id of the packet within its table.
    pub fn id(&self) -> (id: i32)
        ensures
            id == self@.packet_id(),
    {
        match self {
            ServerLoginPacket::Disconnect(_) => 0,
            ServerLoginPacket::EncryptionRequest(_) => 1,
            ServerLoginPacket::Success(_) => 2,
            ServerLoginPacket::SetCompression(_) => 3,
        }
    }

    /// Appends the id and then the fields. When a field cannot be written,
    /// `buffer` may hold what comes before it.
    pub fn write_to(&self, buffer: &mut Vec<u8>) -> (res: Result<(), WriteError>)
        ensures
            match self@.encode_failure() {
                None => res.is_ok() && final(buffer)@ == old(buffer)@ + self@.encoding(),
                Some(e) => res == Err::<(), WriteError>(e),
            },
    {
        VarInt(self.id()).write_to(buffer);
        let res = match self {
            ServerLoginPacket::Disconnect(p) => p.write_to(buffer),
            ServerLoginPacket::EncryptionRequest(p) => p.write_to(buffer),
            ServerLoginPacket::Success(p) => p.write_to(buffer),
            ServerLoginPacket::SetCompression(p) => p.write_to(buffer),
        };
        assert(res.is_ok() ==> buffer@ =~= old(buffer)@ + self@.encoding());
        res
    }
}

} // verus!
