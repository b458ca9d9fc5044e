//! The one packet of the handshake phase.

use vstd::prelude::*;
use vstd::utf8::encode_utf8;
use crate::buffer::DecodeBuffer;
use crate::error::{FieldReadError, FieldWriteError, ReadError, WriteError};
use crate::fixed::{be_bytes, lemma_u16_roundtrip, read_u16, unsigned_decoding, write_u16};
use crate::text::{
    lemma_string_roundtrip, read_string, string_decoding, string_encoding, write_string,
    MAX_LENGTH,
};
use crate::varint::{lemma_varint_roundtrip, varint_decoding, varint_encoding, VarInt};

verus! {

/// The phase that a client asks for in its handshake.
#[derive(Debug, Clone, Copy, PartialEq, Eq, Structural)]
pub enum NextState {
    Status,
    Login,
}

impl NextState {
    /// The discriminant of the phase on the wire.
    pub open spec fn spec_id(self) -> i32 {
        match self {
            NextState::Status => 1,
            NextState::Login => 2,
        }
    }

    /// The discriminant of the phase on the wire.
    #[verifier::when_used_as_spec(spec_id)]
    pub fn id(self) -> (id: i32)
        ensures
            id == self.spec_id(),
    {
        match self {
            NextState::Status => 1,
            NextState::Login => 2,
        }
    }

    /// Reads the phase: a variable-length integer, `1` or `2`.
    pub fn read_from(r: &mut DecodeBuffer) -> (res: Result<NextState, FieldReadError>)
        ensures
            final(r).data() == old(r).data(),
            match next_state_decoding(old(r).remaining()) {
                Ok((v, n)) => res == Ok::<NextState, FieldReadError>(v) && final(r).offset() == old(
                    r,
                ).offset() + n && final(r).remaining() == old(r).remaining().skip(n as int),
                Err(e) => res == Err::<NextState, FieldReadError>(e),
            },
    {
        match VarInt::read_from(r) {
            Ok(id) => if id.0 == 1 {
                Ok(NextState::Status)
            } else if id.0 == 2 {
                Ok(NextState::Login)
            } else {
                Err(FieldReadError::InvalidEnumVariant(id.0))
            },
            Err(e) => Err(e),
        }
    }

    /// Appends the discriminant of the phase.
    pub fn write_to(&self, buffer: &mut Vec<u8>)
        ensures
            final(buffer)@ == old(buffer)@ + next_state_encoding(*self),
    {
        VarInt(self.id()).write_to(buffer);
    }
}

/// The wire form of the phase that a handshake asks for.
pub open spec fn next_state_encoding(state: NextState) -> Seq<u8> {
    varint_encoding(state.spec_id())
}

/// The phase that a handshake asks for, at the front of `s`.
pub open spec fn next_state_decoding(s: Seq<u8>) -> Result<(NextState, nat), FieldReadError> {
    match varint_decoding(s) {
        Ok((id, n)) => if id == 1 {
            Ok((NextState::Status, n))
        } else if id == 2 {
            Ok((NextState::Login, n))
        } else {
            Err(FieldReadError::InvalidEnumVariant(id))
        },
        Err(e) => Err(e),
    }
}

/// Both phases survive the trip through their wire form.
pub proof fn lemma_next_state_roundtrip(state: NextState, rest: Seq<u8>)
    ensures
        next_state_decoding(next_state_encoding(state) + rest) == Ok::<
            (NextState, nat),
            FieldReadError,
        >((state, next_state_encoding(state).len())),
{
    lemma_varint_roundtrip(state.spec_id(), rest);
}

/// The opening packet of every connection.
#[derive(Debug, Clone, PartialEq, Eq)]
pub struct Handshake {
    pub protocol_version: VarInt,
    pub server_address: String,
    pub server_port: u16,
    pub next_state: NextState,
}

/// What a `Handshake` holds.
pub struct HandshakeView {
    pub protocol_version: i32,
    pub server_address: Seq<char>,
    pub server_port: u16,
    pub next_state: NextState,
}

impl View for Handshake {
    type V = HandshakeView;

    open spec fn view(&self) -> HandshakeView {
        HandshakeView {
            protocol_version: self.protocol_version.0,
            server_address: self.server_address@,
            server_port: self.server_port,
            next_state: self.next_state,
        }
    }
}

impl HandshakeView {
    /// The wire form of the fields, in their order.
    pub open spec fn encoding(self) -> Seq<u8> {
        varint_encoding(self.protocol_version)
            + string_encoding(self.server_address)
            + be_bytes(self.server_port as nat, 2)
            + next_state_encoding(self.next_state)
    }

    /// The first field that cannot be written, if there is one.
    pub open spec fn encode_failure(self) -> Option<WriteError> {
        if !(encode_utf8(self.server_address).len() <= MAX_LENGTH) {
            Some(WriteError::Field("server_address", FieldWriteError::LengthOverflow))
        } else {
            None
        }
    }

    /// The fields at the front of `s`, read in their order. Bytes behind the
    /// last field are left alone.
    pub open spec fn decoding(s: Seq<u8>) -> Result<HandshakeView, ReadError> {
        match varint_decoding(s) {
            Err(e) => Err(ReadError::FieldDecode("protocol_version", e)),
            Ok((protocol_version, n)) => {
                let s = s.skip(n as int);
                match string_decoding(s) {
                    Err(e) => Err(ReadError::FieldDecode("server_address", e)),
                    Ok((server_address, n)) => {
                        let s = s.skip(n as int);
                        match unsigned_decoding(s, 2) {
                            Err(e) => Err(ReadError::FieldDecode("server_port", e)),
                            Ok((server_port, n)) => {
                                let server_port = server_port as u16;
                                let s = s.skip(n as int);
                                match next_state_decoding(s) {
                                    Err(e) => Err(ReadError::FieldDecode("next_state", e)),
                                    Ok((next_state, n)) => {
                                        Ok(HandshakeView {
                                            protocol_version,
                                            server_address,
                                            server_port,
                                            next_state,
                                        })
                                    },
                                }
                            },
                        }
                    },
                }
            },
        }
    }

    /// What can be written reads back as it was.
    pub proof fn lemma_roundtrip(self)
        requires
            self.encode_failure().is_none(),
        ensures
            HandshakeView::decoding(self.encoding()) == Ok::<HandshakeView, ReadError>(self),
    {
        let e0 = varint_encoding(self.protocol_version);
        let e1 = string_encoding(self.server_address);
        let e2 = be_bytes(self.server_port as nat, 2);
        let e3 = next_state_encoding(self.next_state);
        let r4 = Seq::<u8>::empty();
        let r3 = e3 + r4;
        let r2 = e2 + r3;
        let r1 = e1 + r2;
        let r0 = e0 + r1;
        assert(self.encoding() =~= r0);
        lemma_varint_roundtrip(self.protocol_version, r1);
        assert(r0.skip(e0.len() as int) =~= r1);
        lemma_string_roundtrip(self.server_address, r2);
        assert(r1.skip(e1.len() as int) =~= r2);
        lemma_u16_roundtrip(self.server_port, r3);
        assert(r2.skip(e2.len() as int) =~= r3);
        lemma_next_state_roundtrip(self.next_state, r4);
        assert(r3.skip(e3.len() as int) =~= r4);
    }
}

impl Handshake {
    /// Reads the fields in their order.
    pub fn read_from(r: &mut DecodeBuffer) -> (res: Result<Handshake, ReadError>)
        ensures
            final(r).data() == old(r).data(),
            match HandshakeView::decoding(old(r).remaining()) {
                Ok(v) => res.is_ok() && res.unwrap()@ == v,
                Err(e) => res == Err::<Handshake, ReadError>(e),
            },
    {
        let protocol_version = match VarInt::read_from(r) {
            Ok(v) => v,
            Err(e) => {
                return Err(ReadError::FieldDecode("protocol_version", e));
            },
        };
        let server_address = match read_string(r) {
            Ok(v) => v,
            Err(e) => {
                return Err(ReadError::FieldDecode("server_address", e));
            },
        };
        let server_port = match read_u16(r) {
            Ok(v) => v,
            Err(e) => {
                return Err(ReadError::FieldDecode("server_port", e));
            },
        };
        let next_state = match NextState::read_from(r) {
            Ok(v) => v,
            Err(e) => {
                return Err(ReadError::FieldDecode("next_state", e));
            },
        };
        Ok(Handshake { protocol_version, server_address, server_port, next_state })
    }

    /// Appends the fields in their order. When a field cannot be written,
    /// `buffer` may hold the fields before it.
    pub fn write_to(&self, buffer: &mut Vec<u8>) -> (res: Result<(), WriteError>)
        ensures
            match self@.encode_failure() {
                None => res.is_ok() && final(buffer)@ == old(buffer)@ + self@.encoding(),
                Some(e) => res == Err::<(), WriteError>(e),
            },
    {
        self.protocol_version.write_to(buffer);
        match write_string(buffer, self.server_address.as_str()) {
            Ok(()) => {},
            Err(e) => {
                return Err(WriteError::Field("server_address", e));
            },
        }
        write_u16(buffer, self.server_port);
        self.next_state.write_to(buffer);
        assert(buffer@ =~= old(buffer)@ + self@.encoding());
        Ok(())
    }
}

/// What a client sends in the handshake phase.
#[derive(Debug, Clone, PartialEq, Eq)]
pub enum ClientHandshakePacket {
    Handshake(Handshake),
}

/// What a `ClientHandshakePacket` holds.
pub enum ClientHandshakePacketView {
    Handshake(HandshakeView),
}

impl View for ClientHandshakePacket {
    type V = ClientHandshakePacketView;

    open spec fn view(&self) -> ClientHandshakePacketView {
        match self {
            ClientHandshakePacket::Handshake(p) => ClientHandshakePacketView::Handshake(p@),
        }
    }
}

impl ClientHandshakePacketView {
    /// The id of the packet within its table.
    pub open spec fn packet_id(self) -> i32 {
        match self {
            ClientHandshakePacketView::Handshake(_) => 0,
        }
    }

    /// The wire form of the fields of the packet, without its id.
    pub open spec fn body(self) -> Seq<u8> {
        match self {
            ClientHandshakePacketView::Handshake(p) => p.encoding(),
        }
    }

    /// The wire form of the packet: its id and then its fields.
    pub open spec fn encoding(self) -> Seq<u8> {
        varint_encoding(self.packet_id()) + self.body()
    }

    /// The first field that cannot be written, if there is one.
    pub open spec fn encode_failure(self) -> Option<WriteError> {
        match self {
            ClientHandshakePacketView::Handshake(p) => p.encode_failure(),
        }
    }

    /// Whether the table holds a packet with this id.
    pub open spec fn known_id(id: i32) -> bool {
        id == 0
    }

    /// The packet at the front of `s`: its id selects the variant, and an id
    /// that the table does not hold is an error of its own.
    pub open spec fn decoding(s: Seq<u8>) -> Result<ClientHandshakePacketView, ReadError> {
        match varint_decoding(s) {
            Err(e) => Err(ReadError::ReadPacketId(e)),
            Ok((id, n)) => {
                let s = s.skip(n as int);
                if id == 0 {
                    match HandshakeView::decoding(s) {
                        Ok(p) => Ok(ClientHandshakePacketView::Handshake(p)),
                        Err(e) => Err(e),
                    }
                } else {
                    Err(ReadError::InvalidPacketId(id))
                }
            },
        }
    }

    /// What can be written reads back as it was.
    pub proof fn lemma_roundtrip(self)
        requires
            self.encode_failure().is_none(),
        ensures
            ClientHandshakePacketView::decoding(self.encoding()) == Ok::<ClientHandshakePacketView, ReadError>(self),
    {
        lemma_varint_roundtrip(self.packet_id(), self.body());
        assert(self.encoding().skip(varint_encoding(self.packet_id()).len() as int) =~= self.body());
        match self {
            ClientHandshakePacketView::Handshake(p) => {
                p.lemma_roundtrip();
            },
        }
    }
}

impl ClientHandshakePacket {
    /// Reads the id and then the packet that it selects.
    pub fn read_from(r: &mut DecodeBuffer) -> (res: Result<ClientHandshakePacket, ReadError>)
        ensures
            final(r).data() == old(r).data(),
            match ClientHandshakePacketView::decoding(old(r).remaining()) {
                Ok(v) => res.is_ok() && res.unwrap()@ == v,
                Err(e) => res == Err::<ClientHandshakePacket, ReadError>(e),
            },
    {
        let id = match VarInt::read_from(r) {
            Ok(id) => id.0,
            Err(e) => {
                return Err(ReadError::ReadPacketId(e));
            },
        };
        if id == 0 {
            match Handshake::read_from(r) {
                Ok(p) => Ok(ClientHandshakePacket::Handshake(p)),
                Err(e) => Err(e),
            }
        } else {
            Err(ReadError::InvalidPacketId(id))
        }
    }

    /// The id of the packet within its table.
    pub fn id(&self) -> (id: i32)
        ensures
            id == self@.packet_id(),
    {
        match self {
            ClientHandshakePacket::Handshake(_) => 0,
        }
    }

    /// Appends the id and then the fields. When a field cannot be written,
    /// `buffer` may hold what comes before it.
    pub fn write_to(&self, buffer: &mut Vec<u8>) -> (res: Result<(), WriteError>)
        ensures
            match self@.encode_failure() {
                None => res.is_ok() && final(buffer)@ == old(buffer)@ + self@.encoding(),
                Some(e) => res == Err::<(), WriteError>(e),
            },
    {
        VarInt(self.id()).write_to(buffer);
        let res = match self {
            ClientHandshakePacket::Handshake(p) => p.write_to(buffer),
        };
        assert(res.is_ok() ==> buffer@ =~= old(buffer)@ + self@.encoding());
        res
    }
}

} // verus!
