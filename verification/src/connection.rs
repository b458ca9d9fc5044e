//! The framed connection without its socket: the receive buffer, the phase,
//! the compression threshold and the two ciphers. Bytes that were read from
//! the socket go in, packets come out; packets go in, bytes for the socket
//! come out.

use vstd::prelude::*;
use bytes::{Buf, BytesMut};
use crate::cipher::{
    cfb8_decrypted, cfb8_encrypted, register_after, Cfb8, InvalidLength, BLOCK_LENGTH,
};
use crate::error::{FieldWriteError, ReceiveError, SendError};
use crate::frame::{
    decode_frame, deflated_inner, find_frame, frame_encoding, frame_outcome, next_frame,
    plain_inner, stage_compressed_packet_into, stage_packet_into, zlib_deflated, Framing,
};
use crate::packets::client::ClientPacket;
use crate::packets::server::ServerPacket;
use crate::packets::State;
use crate::text::MAX_LENGTH;

verus! {

/// `bytes::BytesMut`, the byte buffer that received bytes wait in. What it
/// holds is known only through `buffer_bytes`.
#[verifier::external_type_specification]
#[verifier::external_body]
pub struct ExBytesMut(BytesMut);

/// The bytes that a receive buffer holds, oldest first.
pub uninterp spec fn buffer_bytes(buffer: BytesMut) -> Seq<u8>;

/// `BytesMut::new`: a buffer that holds nothing.
#[verifier::external_body]
fn buffer_new() -> (buffer: BytesMut)
    ensures
        buffer_bytes(buffer) == Seq::<u8>::empty(),
{
    BytesMut::new()
}

/// `BytesMut::extend_from_slice`: the buffer holds `data` behind what it
/// held.
#[verifier::external_body]
fn buffer_extend(buffer: &mut BytesMut, data: &[u8])
    ensures
        buffer_bytes(*final(buffer)) == buffer_bytes(*old(buffer)) + data@,
{
    buffer.extend_from_slice(data)
}

/// `Buf::advance` of `BytesMut`: the buffer drops its first `n` bytes. The
/// crate panics when the buffer holds fewer.
#[verifier::external_body]
fn buffer_advance(buffer: &mut BytesMut, n: usize)
    requires
        n <= buffer_bytes(*old(buffer)).len(),
    ensures
        buffer_bytes(*final(buffer)) == buffer_bytes(*old(buffer)).skip(n as int),
{
    buffer.advance(n)
}

/// `Deref` of `BytesMut`: the bytes of the buffer as a slice.
#[verifier::external_body]
fn buffer_slice(buffer: &BytesMut) -> (s: &[u8])
    ensures
        s@ == buffer_bytes(*buffer),
{
    &buffer[..]
}

/// The frame length that the server accepts unless it is told otherwise:
/// two mebibytes.
pub const MAX_PACKET_LENGTH: usize = 0x20_0000;

/// Key and shift register of a cipher.
pub open spec fn cipher_view(cipher: Option<Cfb8>) -> Option<(Seq<u8>, Seq<u8>)> {
    match cipher {
        Some(c) => Some((c.key(), c.register())),
        None => None,
    }
}

/// What goes on the wire for a payload: a frame, and under compression a
/// data length in it, with the data deflated from the threshold on.
pub open spec fn staged_frame(payload: Seq<u8>, threshold: Option<usize>) -> Seq<u8> {
    match threshold {
        None => frame_encoding(payload),
        Some(t) => if payload.len() >= t {
            frame_encoding(deflated_inner(payload.len(), zlib_deflated(payload)))
        } else {
            frame_encoding(plain_inner(payload))
        },
    }
}

/// What leaves for the socket: the staged bytes, encrypted when there is a
/// cipher.
pub open spec fn sealed(cipher: Option<(Seq<u8>, Seq<u8>)>, staged: Seq<u8>) -> Seq<u8> {
    match cipher {
        Some((key, register)) => cfb8_encrypted(key, register, staged),
        None => staged,
    }
}

/// What comes from the socket: the received bytes, decrypted when there is
/// a cipher.
pub open spec fn unsealed(cipher: Option<(Seq<u8>, Seq<u8>)>, chunk: Seq<u8>) -> Seq<u8> {
    match cipher {
        Some((key, register)) => cfb8_decrypted(key, register, chunk),
        None => chunk,
    }
}

/// The cipher once `wire` went through it in its encrypted form.
pub open spec fn moved_on(cipher: Option<(Seq<u8>, Seq<u8>)>, wire: Seq<u8>) -> Option<
    (Seq<u8>, Seq<u8>),
> {
    match cipher {
        Some((key, register)) => Some((key, register_after(register, wire))),
        None => None,
    }
}

/// One connection, seen from the protocol.
pub struct Connection {
    buffer: BytesMut,
    state: State,
    compression_threshold: Option<usize>,
    inbound: Option<Cfb8>,
    outbound: Option<Cfb8>,
    max_packet_length: usize,
}

/// What a connection holds.
pub struct ConnectionView {
    /// The received bytes that no packet was taken from yet.
    pub buffered: Seq<u8>,
    /// The phase of the conversation.
    pub phase: State,
    /// The length from which packets are deflated, once compression is on.
    pub threshold: Option<usize>,
    /// Key and shift register of the cipher for received bytes.
    pub inbound: Option<(Seq<u8>, Seq<u8>)>,
    /// Key and shift register of the cipher for sent bytes.
    pub outbound: Option<(Seq<u8>, Seq<u8>)>,
    /// The longest frame that the connection accepts.
    pub limit: nat,
}

impl View for Connection {
    type V = ConnectionView;

    open spec fn view(&self) -> ConnectionView {
        ConnectionView {
            buffered: self.buffered(),
            phase: self.phase(),
            threshold: self.threshold(),
            inbound: self.inbound(),
            outbound: self.outbound(),
            limit: self.limit(),
        }
    }
}

impl Connection {
    /// The received bytes that no packet was taken from yet.
    pub closed spec fn buffered(&self) -> Seq<u8> {
        buffer_bytes(self.buffer)
    }

    /// Key and shift register of the cipher for received bytes.
    pub closed spec fn inbound(&self) -> Option<(Seq<u8>, Seq<u8>)> {
        cipher_view(self.inbound)
    }

    /// Key and shift register of the cipher for sent bytes.
    pub closed spec fn outbound(&self) -> Option<(Seq<u8>, Seq<u8>)> {
        cipher_view(self.outbound)
    }

    /// The longest frame that the connection accepts.
    pub closed spec fn limit(&self) -> nat {
        self.max_packet_length as nat
    }

    /// The phase of the conversation.
    pub closed spec fn phase(&self) -> State {
        self.state
    }

    /// The length from which packets are deflated, once compression is on.
    pub closed spec fn threshold(&self) -> Option<usize> {
        self.compression_threshold
    }

    /// The phase of the conversation.
    pub fn state(&self) -> (state: State)
        ensures
            state == self.phase(),
    {
        self.state
    }

    /// Moves the conversation to another phase.
    pub fn set_state(&mut self, state: State)
        ensures
            final(self).phase() == state,
            final(self).buffered() == old(self).buffered(),
            final(self).threshold() == old(self).threshold(),
            final(self).inbound() == old(self).inbound(),
            final(self).outbound() == old(self).outbound(),
            final(self).limit() == old(self).limit(),
    {
        self.state = state;
    }

    /// The length from which packets are deflated, once compression is on.
    pub fn compression_threshold(&self) -> (threshold: Option<usize>)
        ensures
            threshold == self.threshold(),
    {
        self.compression_threshold
    }

    /// Switches compressed framing on, for both directions. There is no way
    /// back to plain framing.
    pub fn set_compression_threshold(&mut self, threshold: usize)
        ensures
            final(self).threshold() == Some(threshold),
            final(self).buffered() == old(self).buffered(),
            final(self).phase() == old(self).phase(),
            final(self).inbound() == old(self).inbound(),
            final(self).outbound() == old(self).outbound(),
            final(self).limit() == old(self).limit(),
    {
        self.compression_threshold = Some(threshold);
    }

    /// A fresh connection: in the handshake phase, with neither compression
    /// nor encryption. It accepts frames of up to `max_packet_length` bytes.
    pub fn new(max_packet_length: usize) -> (c: Connection)
        ensures
            c.buffered() == Seq::<u8>::empty(),
            c.phase() == State::Handshake,
            c.threshold().is_none(),
            c.inbound().is_none(),
            c.outbound().is_none(),
            c.limit() == max_packet_length,
    {
        Connection {
            buffer: buffer_new(),
            state: State::Handshake,
            compression_threshold: None,
            inbound: None,
            outbound: None,
            max_packet_length,
        }
    }

    /// Switches encryption on, in both directions, with the shared secret
    /// as key and as initial value. A secret that does not have sixteen
    /// bytes is turned down and changes nothing.
    pub fn update_encryption(&mut self, shared_secret: &[u8]) -> (res: Result<(), InvalidLength>)
        ensures
            final(self).buffered() == old(self).buffered(),
            final(self).phase() == old(self).phase(),
            final(self).threshold() == old(self).threshold(),
            final(self).limit() == old(self).limit(),
            shared_secret@.len() == BLOCK_LENGTH ==> res.is_ok() && final(self).inbound() == Some(
                (shared_secret@, shared_secret@),
            ) && final(self).outbound() == Some((shared_secret@, shared_secret@)),
            shared_secret@.len() != BLOCK_LENGTH ==> res.is_err() && final(self).inbound() == old(
                self,
            ).inbound() && final(self).outbound() == old(self).outbound(),
    {
        let inbound = match Cfb8::new(shared_secret, shared_secret) {
            Ok(c) => c,
            Err(e) => {
                return Err(e);
            },
        };
        let outbound = match Cfb8::new(shared_secret, shared_secret) {
            Ok(c) => c,
            Err(e) => {
                return Err(e);
            },
        };
        self.inbound = Some(inbound);
        self.outbound = Some(outbound);
        Ok(())
    }

    /// Takes in bytes that were read from the socket: decrypts them when
    /// encryption is on and puts them behind what is buffered.
    pub fn receive(&mut self, chunk: &[u8])
        ensures
            final(self).buffered() == old(self).buffered() + unsealed(old(self).inbound(), chunk@),
            final(self).inbound() == moved_on(old(self).inbound(), chunk@),
            final(self).outbound() == old(self).outbound(),
            final(self).phase() == old(self).phase(),
            final(self).threshold() == old(self).threshold(),
            final(self).limit() == old(self).limit(),
    {
        let cipher = self.inbound.take();
        match cipher {
            Some(mut cipher) => {
                let mut plain = vstd::slice::slice_to_vec(chunk);
                cipher.decrypt(&mut plain);
                buffer_extend(&mut self.buffer, plain.as_slice());
                self.inbound = Some(cipher);
            },
            None => {
                buffer_extend(&mut self.buffer, chunk);
            },
        }
    }

    /// What the end of the stream means: a clean close when nothing is
    /// buffered, and otherwise a stream that broke off inside a frame.
    pub fn end_of_stream(&self) -> (res: Result<(), ReceiveError>)
        ensures
            self.buffered().len() == 0 ==> res.is_ok(),
            self.buffered().len() > 0 ==> res == Err::<(), ReceiveError>(
                ReceiveError::ConnectionClosed,
            ),
    {
        if buffer_slice(&self.buffer).len() == 0 {
            Ok(())
        } else {
            Err(ReceiveError::ConnectionClosed)
        }
    }

    /// Takes one packet from the receive buffer, if the buffer holds a
    /// complete frame. The frame leaves the buffer whatever it holds, so
    /// that the frames behind it stay in step.
    pub fn parse_packet(&mut self) -> (res: Result<Option<ClientPacket>, ReceiveError>)
        ensures
            final(self).phase() == old(self).phase(),
            final(self).threshold() == old(self).threshold(),
            final(self).inbound() == old(self).inbound(),
            final(self).outbound() == old(self).outbound(),
            final(self).limit() == old(self).limit(),
            match next_frame(old(self).buffered(), old(self).limit()) {
                Framing::NeedMore => res.is_ok()
                    && res.unwrap().is_none()
                    && final(self).buffered() == old(self).buffered(),
                Framing::Refused(e) => res == Err::<Option<ClientPacket>, ReceiveError>(e)
                    && final(self).buffered() == old(self).buffered(),
                Framing::Complete { body, consumed } => final(self).buffered() == old(
                    self,
                ).buffered().skip(consumed as int) && match frame_outcome(
                    old(self).phase(),
                    body,
                    old(self).threshold().is_some(),
                ) {
                    Ok(v) => res.is_ok() && res.unwrap().is_some() && res.unwrap().unwrap()@ == v,
                    Err(e) => res == Err::<Option<ClientPacket>, ReceiveError>(e),
                },
            },
    {
        let bytes = buffer_slice(&self.buffer);
        let found = find_frame(bytes, self.max_packet_length);
        let (start, len) = match found {
            Ok(Some(found)) => found,
            Ok(None) => {
                return Ok(None);
            },
            Err(e) => {
                return Err(e);
            },
        };
        let total = bytes.len();
        assert(start + len <= total);
        let body = vstd::slice::slice_subrange(bytes, start, start + len);
        let packet = decode_frame(self.state, body, self.compression_threshold.is_some());
        buffer_advance(&mut self.buffer, start + len);
        match packet {
            Ok(p) => Ok(Some(p)),
            Err(e) => Err(e),
        }
    }

    /// Turns a packet into the bytes for the socket: encodes it, puts the
    /// frame around it, deflating it first when compression is on and the
    /// packet reaches the threshold, and encrypts the frame when encryption
    /// is on. A packet that cannot be encoded or framed changes nothing.
    pub fn write_packet(&mut self, packet: &ServerPacket) -> (res: Result<Vec<u8>, SendError>)
        ensures
            final(self).buffered() == old(self).buffered(),
            final(self).phase() == old(self).phase(),
            final(self).threshold() == old(self).threshold(),
            final(self).inbound() == old(self).inbound(),
            final(self).limit() == old(self).limit(),
            packet@.encode_failure() matches Some(e) ==> res == Err::<Vec<u8>, SendError>(
                SendError::Encode(e),
            ),
            res matches Ok(wire) ==> packet@.encode_failure().is_none() && wire@ == sealed(
                old(self).outbound(),
                staged_frame(packet@.encoding(), old(self).threshold()),
            ) && final(self).outbound() == moved_on(old(self).outbound(), wire@),
            res.is_err() ==> final(self).outbound() == old(self).outbound(),
            packet@.encode_failure().is_none() && packet@.encoding().len() < MAX_LENGTH && (
            old(self).threshold() matches Some(t) ==> packet@.encoding().len() < t)
                ==> res.is_ok(),
            packet@.encode_failure().is_none() && packet@.encoding().len() > MAX_LENGTH && (
            old(self).threshold() matches Some(t) ==> packet@.encoding().len() < t) ==> res
                == Err::<Vec<u8>, SendError>(
                SendError::PacketLength(FieldWriteError::LengthOverflow),
            ),
            packet@.encode_failure().is_none() && res.is_err() ==> res == Err::<
                Vec<u8>,
                SendError,
            >(SendError::Compression) || res == Err::<Vec<u8>, SendError>(
                SendError::PacketLength(FieldWriteError::LengthOverflow),
            ),
    {
        let mut packet_buf: Vec<u8> = Vec::new();
        match packet.encode_to(&mut packet_buf) {
            Ok(()) => {},
            Err(e) => {
                return Err(SendError::Encode(e));
            },
        }
        assert(packet_buf@ =~= packet@.encoding());
        let mut staging_buf: Vec<u8> = Vec::new();
        let staged = match self.compression_threshold {
            Some(threshold) => stage_compressed_packet_into(
                &mut staging_buf,
                packet_buf.as_slice(),
                threshold,
            ),
            None => stage_packet_into(&mut staging_buf, packet_buf.as_slice()),
        };
        match staged {
            Ok(()) => {},
            Err(e) => {
                return Err(e);
            },
        }
        assert(staging_buf@ =~= staged_frame(packet@.encoding(), self.compression_threshold));
        let cipher = self.outbound.take();
        match cipher {
            Some(mut cipher) => {
                cipher.encrypt(&mut staging_buf);
                self.outbound = Some(cipher);
            },
            None => {},
        }
        Ok(staging_buf)
    }
}

} // verus!
