//! What a client sends in the status phase.

use vstd::prelude::*;
use crate::buffer::DecodeBuffer;
use crate::error::{ReadError, WriteError};
use crate::fixed::{lemma_i64_roundtrip, read_i64, signed_decoding, signed_encoding, write_i64};
use crate::varint::{lemma_varint_roundtrip, varint_decoding, varint_encoding, VarInt};

verus! {

/// Asks for the status payload.
#[derive(Debug, Clone, Copy, PartialEq, Eq, Structural)]
pub struct StatusRequest;

impl View for StatusRequest {
    type V = StatusRequest;

    open spec fn view(&self) -> StatusRequest {
        *self
    }
}

impl StatusRequest {
    /// The wire form of the fields, in their order.
    pub open spec fn encoding(self) -> Seq<u8> {
        Seq::empty()
    }

    /// The first field that cannot be written, if there is one.
    pub open spec fn encode_failure(self) -> Option<WriteError> {
        None
    }

    /// The fields at the front of `s`, read in their order. Bytes behind the
    /// last field are left alone.
    pub open spec fn decoding(s: Seq<u8>) -> Result<StatusRequest, ReadError> {
        Ok(StatusRequest)
    }

    /// What can be written reads back as it was.
    pub proof fn lemma_roundtrip(self)
        requires
            self.encode_failure().is_none(),
        ensures
            StatusRequest::decoding(self.encoding()) == Ok::<StatusRequest, ReadError>(self),
    {
    }
}

impl StatusRequest {
    /// Reads the fields in their order.
    pub fn read_from(r: &mut DecodeBuffer) -> (res: Result<StatusRequest, ReadError>)
        ensures
            final(r).data() == old(r).data(),
            match StatusRequest::decoding(old(r).remaining()) {
                Ok(v) => res.is_ok() && res.unwrap()@ == v,
                Err(e) => res == Err::<StatusRequest, ReadError>(e),
            },
    {
        Ok(StatusRequest)
    }

    /// Appends the fields in their order. When a field cannot be written,
    /// `buffer` may hold the fields before it.
    pub fn write_to(&self, buffer: &mut Vec<u8>) -> (res: Result<(), WriteError>)
        ensures
            match self@.encode_failure() {
                None => res.is_ok() && final(buffer)@ == old(buffer)@ + self@.encoding(),
                Some(e) => res == Err::<(), WriteError>(e),
            },
    {
        assert(buffer@ =~= old(buffer)@ + self@.encoding());
        Ok(())
    }
}

/// Asks for an echo of its payload.
#[derive(Debug, Clone, Copy, PartialEq, Eq, Structural)]
pub struct StatusPing {
    pub payload: i64,
}

impl View for StatusPing {
    type V = StatusPing;

    open spec fn view(&self) -> StatusPing {
        *self
    }
}

impl StatusPing {
    /// The wire form of the fields, in their order.
    pub open spec fn encoding(self) -> Seq<u8> {
        signed_encoding(self.payload as int, 8)
    }

    /// The first field that cannot be written, if there is one.
    pub open spec fn encode_failure(self) -> Option<WriteError> {
        None
    }

    /// The fields at the front of `s`, read in their order. Bytes behind the
    /// last field are left alone.
    pub open spec fn decoding(s: Seq<u8>) -> Result<StatusPing, ReadError> {
        match signed_decoding(s, 8) {
            Err(e) => Err(ReadError::FieldDecode("payload", e)),
            Ok((payload, n)) => {
                let payload = payload as i64;
                Ok(StatusPing { payload })
            },
        }
    }

    /// What can be written reads back as it was.
    pub proof fn lemma_roundtrip(self)
        requires
            self.encode_failure().is_none(),
        ensures
            StatusPing::decoding(self.encoding()) == Ok::<StatusPing, ReadError>(self),
    {
        let e0 = signed_encoding(self.payload as int, 8);
        let r1 = Seq::<u8>::empty();
        let r0 = e0 + r1;
        assert(self.encoding() =~= r0);
        lemma_i64_roundtrip(self.payload, r1);
        assert(r0.skip(e0.len() as int) =~= r1);
    }
}

impl StatusPing {
    /// Reads the fields in their order.
    pub fn read_from(r: &mut DecodeBuffer) -> (res: Result<StatusPing, ReadError>)
        ensures
            final(r).data() == old(r).data(),
            match StatusPing::decoding(old(r).remaining()) {
                Ok(v) => res.is_ok() && res.unwrap()@ == v,
                Err(e) => res == Err::<StatusPing, ReadError>(e),
            },
    {
        let payload = match read_i64(r) {
            Ok(v) => v,
            Err(e) => {
                return Err(ReadError::FieldDecode("payload", e));
            },
        };
        Ok(StatusPing { payload })
    }

    /// Appends the fields in their order. When a field cannot be written,
    /// `buffer` may hold the fields before it.
    pub fn write_to(&self, buffer: &mut Vec<u8>) -> (res: Result<(), WriteError>)
        ensures
            match self@.encode_failure() {
                None => res.is_ok() && final(buffer)@ == old(buffer)@ + self@.encoding(),
                Some(e) => res == Err::<(), WriteError>(e),
            },
    {
        write_i64(buffer, self.payload);
        assert(buffer@ =~= old(buffer)@ + self@.encoding());
        Ok(())
    }
}

/// What a client sends in the status phase.
#[derive(Debug, Clone, Copy, PartialEq, Eq, Structural)]
pub enum ClientStatusPacket {
    Request(StatusRequest),
    Ping(StatusPing),
}

impl View for ClientStatusPacket {
    type V = ClientStatusPacket;

    open spec fn view(&self) -> ClientStatusPacket {
        *self
    }
}

impl ClientStatusPacket {
    /// The id of the packet within its table.
    pub open spec fn packet_id(self) -> i32 {
        match self {
            ClientStatusPacket::Request(_) => 0,
            ClientStatusPacket::Ping(_) => 1,
        }
    }

    /// The wire form of the fields of the packet, without its id.
    pub open spec fn body(self) -> Seq<u8> {
        match self {
            ClientStatusPacket::Request(p) => p.encoding(),
            ClientStatusPacket::Ping(p) => p.encoding(),
        }
    }

    /// The wire form of the packet: its id and then its fields.
    pub open spec fn encoding(self) -> Seq<u8> {
        varint_encoding(self.packet_id()) + self.body()
    }

    /// The first field that cannot be written, if there is one.
    pub open spec fn encode_failure(self) -> Option<WriteError> {
        match self {
            ClientStatusPacket::Request(p) => p.encode_failure(),
            ClientStatusPacket::Ping(p) => p.encode_failure(),
        }
    }

    /// Whether the table holds a packet with this id.
    pub open spec fn known_id(id: i32) -> bool {
        id == 0 || id == 1
    }

    /// The packet at the front of `s`: its id selects the variant, and an id
    /// that the table does not hold is an error of its own.
    pub open spec fn decoding(s: Seq<u8>) -> Result<ClientStatusPacket, ReadError> {
        match varint_decoding(s) {
            Err(e) => Err(ReadError::ReadPacketId(e)),
            Ok((id, n)) => {
                let s = s.skip(n as int);
                if id == 0 {
                    match StatusRequest::decoding(s) {
                        Ok(p) => Ok(ClientStatusPacket::Request(p)),
                        Err(e) => Err(e),
                    }
                } else if id == 1 {
                    match StatusPing::decoding(s) {
                        Ok(p) => Ok(ClientStatusPacket::Ping(p)),
                        Err(e) => Err(e),
                    }
                } else {
                    Err(ReadError::InvalidPacketId(id))
                }
            },
        }
    }

    /// What can be written reads back as it was.
    pub proof fn lemma_roundtrip(self)
        requires
            self.encode_failure().is_none(),
        ensures
            ClientStatusPacket::decoding(self.encoding()) == Ok::<ClientStatusPacket, ReadError>(self),
    {
        lemma_varint_roundtrip(self.packet_id(), self.body());
        assert(self.encoding().skip(varint_encoding(self.packet_id()).len() as int) =~= self.body());
        match self {
            ClientStatusPacket::Request(p) => {
                p.lemma_roundtrip();
            },
            ClientStatusPacket::Ping(p) => {
                p.lemma_roundtrip();
            },
        }
    }
}

impl ClientStatusPacket {
    /// Reads the id and then the packet that it selects.
    pub fn read_from(r: &mut DecodeBuffer) -> (res: Result<ClientStatusPacket, ReadError>)
        ensures
            final(r).data() == old(r).data(),
            match ClientStatusPacket::decoding(old(r).remaining()) {
                Ok(v) => res.is_ok() && res.unwrap()@ == v,
                Err(e) => res == Err::<ClientStatusPacket, ReadError>(e),
            },
    {
        let id = match VarInt::read_from(r) {
            Ok(id) => id.0,
            Err(e) => {
                return Err(ReadError::ReadPacketId(e));
            },
        };
        if id == 0 {
            match StatusRequest::read_from(r) {
                Ok(p) => Ok(ClientStatusPacket::Request(p)),
                Err(e) => Err(e),
            }
        } else if id == 1 {
            match StatusPing::read_from(r) {
                Ok(p) => Ok(ClientStatusPacket::Ping(p)),
                Err(e) => Err(e),
            }
        } else {
            Err(ReadError::InvalidPacketId(id))
        }
    }

    /// The id of the packet within its table.
    pub fn id(&self) -> (id: i32)
        ensures
            id == self@.packet_id(),
    {
        match self {
            ClientStatusPacket::Request(_) => 0,
            ClientStatusPacket::Ping(_) => 1,
        }
    }

    /// Appends the id and then the fields. When a field cannot be written,
    /// `buffer` may hold what comes before it.
    pub fn write_to(&self, buffer: &mut Vec<u8>) -> (res: Result<(), WriteError>)
        ensures
            match self@.encode_failure() {
                None => res.is_ok() && final(buffer)@ == old(buffer)@ + self@.encoding(),
                Some(e) => res == Err::<(), WriteError>(e),
            },
    {
        VarInt(self.id()).write_to(buffer);
        let res = match self {
            ClientStatusPacket::Request(p) => p.write_to(buffer),
            ClientStatusPacket::Ping(p) => p.write_to(buffer),
        };
        assert(res.is_ok() ==> buffer@ =~= old(buffer)@ + self@.encoding());
        res
    }
}

} // verus!
