//! What a client sends in the login phase.

use vstd::prelude::*;
use vstd::utf8::encode_utf8;
use crate::buffer::DecodeBuffer;
use crate::error::{FieldWriteError, ReadError, WriteError};
use crate::io::VarIntPrefixedVec;
use crate::text::{
    lemma_prefixed_roundtrip, lemma_string_roundtrip, prefixed_decoding, prefixed_encoding,
    read_string, string_decoding, string_encoding, write_string, MAX_LENGTH,
};
use crate::varint::{lemma_varint_roundtrip, varint_decoding, varint_encoding, VarInt};

verus! {

/// Opens the login with the name of the player.
#[derive(Debug, Clone, PartialEq, Eq)]
pub struct LoginStart {
    pub name: String,
}

/// What a `LoginStart` holds.
pub struct LoginStartView {
    pub name: Seq<char>,
}

impl View for LoginStart {
    type V = LoginStartView;

    open spec fn view(&self) -> LoginStartView {
        LoginStartView {
            name: self.name@,
        }
    }
}

impl LoginStartView {
    /// The wire form of the fields, in their order.
    pub open spec fn encoding(self) -> Seq<u8> {
        string_encoding(self.name)
    }

    /// The first field that cannot be written, if there is one.
    pub open spec fn encode_failure(self) -> Option<WriteError> {
        if !(encode_utf8(self.name).len() <= MAX_LENGTH) {
            Some(WriteError::Field("name", FieldWriteError::LengthOverflow))
        } else {
            None
        }
    }

    /// The fields at the front of `s`, read in their order. Bytes behind the
    /// last field are left alone.
    pub open spec fn decoding(s: Seq<u8>) -> Result<LoginStartView, ReadError> {
        match string_decoding(s) {
            Err(e) => Err(ReadError::FieldDecode("name", e)),
            Ok((name, n)) => {
                Ok(LoginStartView { name })
            },
        }
    }

    /// What can be written reads back as it was.
    pub proof fn lemma_roundtrip(self)
        requires
            self.encode_failure().is_none(),
        ensures
            LoginStartView::decoding(self.encoding()) == Ok::<LoginStartView, ReadError>(self),
    {
        let e0 = string_encoding(self.name);
        let r1 = Seq::<u8>::empty();
        let r0 = e0 + r1;
        assert(self.encoding() =~= r0);
        lemma_string_roundtrip(self.name, r1);
        assert(r0.skip(e0.len() as int) =~= r1);
    }
}

impl LoginStart {
    /// Reads the fields in their order.
    pub fn read_from(r: &mut DecodeBuffer) -> (res: Result<LoginStart, ReadError>)
        ensures
            final(r).data() == old(r).data(),
            match LoginStartView::decoding(old(r).remaining()) {
                Ok(v) => res.is_ok() && res.unwrap()@ == v,
                Err(e) => res == Err::<LoginStart, ReadError>(e),
            },
    {
        let name = match read_string(r) {
            Ok(v) => v,
            Err(e) => {
                return Err(ReadError::FieldDecode("name", e));
            },
        };
        Ok(LoginStart { name })
    }

    /// Appends the fields in their order. When a field cannot be written,
    /// `buffer` may hold the fields before it.
    pub fn write_to(&self, buffer: &mut Vec<u8>) -> (res: Result<(), WriteError>)
        ensures
            match self@.encode_failure() {
                None => res.is_ok() && final(buffer)@ == old(buffer)@ + self@.encoding(),
                Some(e) => res == Err::<(), WriteError>(e),
            },
    {
        match write_string(buffer, self.name.as_str()) {
            Ok(()) => {},
            Err(e) => {
                return Err(WriteError::Field("name", e));
            },
        }
        assert(buffer@ =~= old(buffer)@ + self@.encoding());
        Ok(())
    }
}

/// Answers the encryption request; both fields are encrypted with the public key of the server.
#[derive(Debug, Clone, PartialEq, Eq)]
pub struct EncryptionResponse {
    pub shared_secret: VarIntPrefixedVec<u8>,
    pub verify_token: VarIntPrefixedVec<u8>,
}

/// What a `EncryptionResponse` holds.
pub struct EncryptionResponseView {
    pub shared_secret: Seq<u8>,
    pub verify_token: Seq<u8>,
}

impl View for EncryptionResponse {
    type V = EncryptionResponseView;

    open spec fn view(&self) -> EncryptionResponseView {
        EncryptionResponseView {
            shared_secret: self.shared_secret@,
            verify_token: self.verify_token@,
        }
    }
}

impl EncryptionResponseView {
    /// The wire form of the fields, in their order.
    pub open spec fn encoding(self) -> Seq<u8> {
        prefixed_encoding(self.shared_secret)
            + prefixed_encoding(self.verify_token)
    }

    /// The first field that cannot be written, if there is one.
    pub open spec fn encode_failure(self) -> Option<WriteError> {
        if !(self.shared_secret.len() <= MAX_LENGTH) {
            Some(WriteError::Field("shared_secret", FieldWriteError::LengthOverflow))
        } else if !(self.verify_token.len() <= MAX_LENGTH) {
            Some(WriteError::Field("verify_token", FieldWriteError::LengthOverflow))
        } else {
            None
        }
    }

    /// The fields at the front of `s`, read in their order. Bytes behind the
    /// last field are left alone.
    pub open spec fn decoding(s: Seq<u8>) -> Result<EncryptionResponseView, ReadError> {
        match prefixed_decoding(s) {
            Err(e) => Err(ReadError::FieldDecode("shared_secret", e)),
            Ok((shared_secret, n)) => {
                let s = s.skip(n as int);
                match prefixed_decoding(s) {
                    Err(e) => Err(ReadError::FieldDecode("verify_token", e)),
                    Ok((verify_token, n)) => {
                        Ok(EncryptionResponseView { shared_secret, verify_token })
                    },
                }
            },
        }
    }

    /// What can be written reads back as it was.
    pub proof fn lemma_roundtrip(self)
        requires
            self.encode_failure().is_none(),
        ensures
            EncryptionResponseView::decoding(self.encoding()) == Ok::<EncryptionResponseView, ReadError>(self),
    {
        let e0 = prefixed_encoding(self.shared_secret);
        let e1 = prefixed_encoding(self.verify_token);
        let r2 = Seq::<u8>::empty();
        let r1 = e1 + r2;
        let r0 = e0 + r1;
        assert(self.encoding() =~= r0);
        lemma_prefixed_roundtrip(self.shared_secret, r1);
        assert(r0.skip(e0.len() as int) =~= r1);
        lemma_prefixed_roundtrip(self.verify_token, r2);
        assert(r1.skip(e1.len() as int) =~= r2);
    }
}

impl EncryptionResponse {
    /// Reads the fields in their order.
    pub fn read_from(r: &mut DecodeBuffer) -> (res: Result<EncryptionResponse, ReadError>)
        ensures
            final(r).data() == old(r).data(),
            match EncryptionResponseView::decoding(old(r).remaining()) {
                Ok(v) => res.is_ok() && res.unwrap()@ == v,
                Err(e) => res == Err::<EncryptionResponse, ReadError>(e),
            },
    {
        let shared_secret = match VarIntPrefixedVec::<u8>::read_from(r) {
            Ok(v) => v,
            Err(e) => {
                return Err(ReadError::FieldDecode("shared_secret", e));
            },
        };
        let verify_token = match VarIntPrefixedVec::<u8>::read_from(r) {
            Ok(v) => v,
            Err(e) => {
                return Err(ReadError::FieldDecode("verify_token", e));
            },
        };
        Ok(EncryptionResponse { shared_secret, verify_token })
    }

    /// Appends the fields in their order. When a field cannot be written,
    /// `buffer` may hold the fields before it.
    pub fn write_to(&self, buffer: &mut Vec<u8>) -> (res: Result<(), WriteError>)
        ensures
            match self@.encode_failure() {
                None => res.is_ok() && final(buffer)@ == old(buffer)@ + self@.encoding(),
                Some(e) => res == Err::<(), WriteError>(e),
            },
    {
        match self.shared_secret.write_to(buffer) {
            Ok(()) => {},
            Err(e) => {
                return Err(WriteError::Field("shared_secret", e));
            },
        }
        match self.verify_token.write_to(buffer) {
            Ok(()) => {},
            Err(e) => {
                return Err(WriteError::Field("verify_token", e));
            },
        }
        assert(buffer@ =~= old(buffer)@ + self@.encoding());
        Ok(())
    }
}

/// What a client sends in the login phase.
#[derive(Debug, Clone, PartialEq, Eq)]
pub enum ClientLoginPacket {
    Start(LoginStart),
    EncryptionResponse(EncryptionResponse),
}

/// What a `ClientLoginPacket` holds.
pub enum ClientLoginPacketView {
    Start(LoginStartView),
    EncryptionResponse(EncryptionResponseView),
}

impl View for ClientLoginPacket {
    type V = ClientLoginPacketView;

    open spec fn view(&self) -> ClientLoginPacketView {
        match self {
            ClientLoginPacket::Start(p) => ClientLoginPacketView::Start(p@),
            ClientLoginPacket::EncryptionResponse(p) => ClientLoginPacketView::EncryptionResponse(p@),
        }
    }
}

impl ClientLoginPacketView {
    /// The id of the packet within its table.
    pub open spec fn packet_id(self) -> i32 {
        match self {
            ClientLoginPacketView::Start(_) => 0,
            ClientLoginPacketView::EncryptionResponse(_) => 1,
        }
    }

    /// The wire form of the fields of the packet, without its id.
    pub open spec fn body(self) -> Seq<u8> {
        match self {
            ClientLoginPacketView::Start(p) => p.encoding(),
            ClientLoginPacketView::EncryptionResponse(p) => p.encoding(),
        }
    }

    /// The wire form of the packet: its id and then its fields.
    pub open spec fn encoding(self) -> Seq<u8> {
        varint_encoding(self.packet_id()) + self.body()
    }

    /// The first field that cannot be written, if there is one.
    pub open spec fn encode_failure(self) -> Option<WriteError> {
        match self {
            ClientLoginPacketView::Start(p) => p.encode_failure(),
            ClientLoginPacketView::EncryptionResponse(p) => p.encode_failure(),
        }
    }

    /// Whether the table holds a packet with this id.
    pub open spec fn known_id(id: i32) -> bool {
        id == 0 || id == 1
    }

    /// The packet at the front of `s`: its id selects the variant, and an id
    /// that the table does not hold is an error of its own.
    pub open spec fn decoding(s: Seq<u8>) -> Result<ClientLoginPacketView, ReadError> {
        match varint_decoding(s) {
            Err(e) => Err(ReadError::ReadPacketId(e)),
            Ok((id, n)) => {
                let s = s.skip(n as int);
                if id == 0 {
                    match LoginStartView::decoding(s) {
                        Ok(p) => Ok(ClientLoginPacketView::Start(p)),
                        Err(e) => Err(e),
                    }
                } else if id == 1 {
                    match EncryptionResponseView::decoding(s) {
                        Ok(p) => Ok(ClientLoginPacketView::EncryptionResponse(p)),
                        Err(e) => Err(e),
                    }
                } else {
                    Err(ReadError::InvalidPacketId(id))
                }
            },
        }
    }

    /// What can be written reads back as it was.
    pub proof fn lemma_roundtrip(self)
        requires
            self.encode_failure().is_none(),
        ensures
            ClientLoginPacketView::decoding(self.encoding()) == Ok::<ClientLoginPacketView, ReadError>(self),
    {
        lemma_varint_roundtrip(self.packet_id(), self.body());
        assert(self.encoding().skip(varint_encoding(self.packet_id()).len() as int) =~= self.body());
        match self {
            ClientLoginPacketView::Start(p) => {
                p.lemma_roundtrip();
            },
            ClientLoginPacketView::EncryptionResponse(p) => {
                p.lemma_roundtrip();
            },
        }
    }
}

impl ClientLoginPacket {
    /// Reads the id and then the packet that it selects.
    pub fn read_from(r: &mut DecodeBuffer) -> (res: Result<ClientLoginPacket, ReadError>)
        ensures
            final(r).data() == old(r).data(),
            match ClientLoginPacketView::decoding(old(r).remaining()) {
                Ok(v) => res.is_ok() && res.unwrap()@ == v,
                Err(e) => res == Err::<ClientLoginPacket, ReadError>(e),
            },
    {
        let id = match VarInt::read_from(r) {
            Ok(id) => id.0,
            Err(e) => {
                return Err(ReadError::ReadPacketId(e));
            },
        };
        if id == 0 {
            match LoginStart::read_from(r) {
                Ok(p) => Ok(ClientLoginPacket::Start(p)),
                Err(e) => Err(e),
            }
        } else if id == 1 {
            match EncryptionResponse::read_from(r) {
                Ok(p) => Ok(ClientLoginPacket::EncryptionResponse(p)),
                Err(e) => Err(e),
            }
        } else {
            Err(ReadError::InvalidPacketId(id))
        }
    }

    /// The id of the packet within its table.
    pub fn id(&self) -> (id: i32)
        ensures
            id == self@.packet_id(),
    {
        match self {
            ClientLoginPacket::Start(_) => 0,
            ClientLoginPacket::EncryptionResponse(_) => 1,
        }
    }

    /// Appends the id and then the fields. When a field cannot be written,
    /// `buffer` may hold what comes before it.
    pub fn write_to(&self, buffer: &mut Vec<u8>) -> (res: Result<(), WriteError>)
        ensures
            match self@.encode_failure() {
                None => res.is_ok() && final(buffer)@ == old(buffer)@ + self@.encoding(),
                Some(e) => res == Err::<(), WriteError>(e),
            },
    {
        VarInt(self.id()).write_to(buffer);
        let res = match self {
            ClientLoginPacket::Start(p) => p.write_to(buffer),
            ClientLoginPacket::EncryptionResponse(p) => p.write_to(buffer),
        };
        assert(res.is_ok() ==> buffer@ =~= old(buffer)@ + self@.encoding());
        res
    }
}

} // verus!
