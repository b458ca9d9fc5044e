//! Frames: a length prefix around every packet, and under compression a
//! second prefix that tells the length of the data before it was deflated.

use vstd::prelude::*;
use std::io::{Read, Write};
use flate2::read::ZlibDecoder;
use flate2::write::ZlibEncoder;
use flate2::Compression;
use crate::buffer::DecodeBuffer;
use crate::error::{FieldReadError, FieldWriteError, ReadError, ReceiveError, SendError};
use crate::packets::client::{ClientPacket, ClientPacketView};
use crate::packets::server::ServerPacketView;
use crate::packets::State;
use crate::text::{lemma_prefixed_roundtrip, prefixed_encoding, write_prefixed, MAX_LENGTH};
use crate::varint::{
    lemma_varint_len, lemma_varint_roundtrip, varint_decoding, varint_encoding, VarInt,
};

verus! {

/// The zlib stream that the compressor makes of `data` at its default level.
pub uninterp spec fn zlib_deflated(data: Seq<u8>) -> Seq<u8>;

/// What the zlib stream at the front of `data` inflates to, or nothing when
/// there is no such stream.
pub uninterp spec fn zlib_inflated(data: Seq<u8>) -> Option<Seq<u8>>;

/// `flate2::write::ZlibEncoder` at `Compression::default()`, fed with
/// `write_all` and closed with `finish`: the zlib stream of `data`, or
/// nothing when the encoder reports an error.
#[verifier::external_body]
fn zlib_compress(data: &[u8]) -> (out: Option<Vec<u8>>)
    ensures
        out matches Some(v) ==> v@ == zlib_deflated(data@),
{
    let mut encoder = ZlibEncoder::new(Vec::new(), Compression::default());
    encoder.write_all(data).ok()?;
    encoder.finish().ok()
}

/// `flate2::read::ZlibDecoder` read to its end: what the zlib stream at the
/// front of `data` inflates to, or nothing when the decoder reports an error.
#[verifier::external_body]
fn zlib_decompress(data: &[u8]) -> (out: Option<Vec<u8>>)
    ensures
        match zlib_inflated(data@) {
            Some(s) => out.is_some() && out.unwrap()@ == s,
            None => out.is_none(),
        },
{
    let mut out = Vec::new();
    ZlibDecoder::new(data).read_to_end(&mut out).ok()?;
    Some(out)
}

/// What the front of a receive buffer holds.
pub enum Framing {
    /// No complete frame yet.
    NeedMore,
    /// A length prefix that no frame may have.
    Refused(ReceiveError),
    /// A complete frame: its bytes behind the length prefix, and the number
    /// of bytes that prefix and frame take together.
    Complete { body: Seq<u8>, consumed: nat },
}

/// The wire form of a frame around `payload`.
pub open spec fn frame_encoding(payload: Seq<u8>) -> Seq<u8>
    recommends
        payload.len() <= MAX_LENGTH,
{
    prefixed_encoding(payload)
}

/// Looks for one frame at the front of `buf`. A frame may hold at most `max`
/// bytes.
pub open spec fn next_frame(buf: Seq<u8>, max: nat) -> Framing {
    match varint_decoding(buf) {
        Err(FieldReadError::UnexpectedEnd) => Framing::NeedMore,
        Err(e) => Framing::Refused(ReceiveError::PacketLength(e)),
        Ok((len, n)) => if len < 0 || len > max {
            Framing::Refused(ReceiveError::OversizedPacket(len))
        } else if buf.len() - n < len {
            Framing::NeedMore
        } else {
            Framing::Complete { body: buf.subrange(n as int, n + len), consumed: (n + len) as nat }
        },
    }
}

/// What a frame holds under compression when its data was left as it is:
/// a data length of zero, then the data.
pub open spec fn plain_inner(payload: Seq<u8>) -> Seq<u8> {
    varint_encoding(0) + payload
}

/// What a frame holds under compression when its data was deflated: the
/// length of the data, then the zlib stream.
pub open spec fn deflated_inner(data_length: nat, deflated: Seq<u8>) -> Seq<u8> {
    varint_encoding(data_length as i32) + deflated
}

/// The packet that an uncompressed payload holds.
pub open spec fn packet_outcome(state: State, payload: Seq<u8>) -> Result<
    ClientPacketView,
    ReceiveError,
> {
    match ClientPacketView::decoding(state, payload) {
        Ok(p) => Ok(p),
        Err(e) => Err(ReceiveError::Decode(e)),
    }
}

/// The packet that inflated data holds, if the data could be inflated and
/// has the length that the frame announced.
pub open spec fn inflated_outcome(
    state: State,
    data_length: i32,
    inflated: Option<Seq<u8>>,
) -> Result<ClientPacketView, ReceiveError> {
    match inflated {
        None => Err(ReceiveError::Decompression),
        Some(data) => if data.len() != data_length {
            Err(
                ReceiveError::InvalidReportedLength {
                    reported: data_length,
                    actual: data.len() as usize,
                },
            )
        } else {
            packet_outcome(state, data)
        },
    }
}

/// The packet that the body of a frame holds.
pub open spec fn frame_outcome(state: State, body: Seq<u8>, compressed: bool) -> Result<
    ClientPacketView,
    ReceiveError,
> {
    if !compressed {
        packet_outcome(state, body)
    } else {
        match varint_decoding(body) {
            Err(e) => Err(ReceiveError::PacketLength(e)),
            Ok((data_length, n)) => if data_length == 0 {
                packet_outcome(state, body.skip(n as int))
            } else {
                inflated_outcome(state, data_length, zlib_inflated(body.skip(n as int)))
            },
        }
    }
}

/// Frame round trip: a frame that is put in front of any bytes is found
/// again with the same payload, and it ends where those bytes begin.
pub proof fn lemma_frame_roundtrip(payload: Seq<u8>, rest: Seq<u8>, max: nat)
    requires
        payload.len() <= max <= MAX_LENGTH,
    ensures
        next_frame(frame_encoding(payload) + rest, max) == (Framing::Complete {
            body: payload,
            consumed: frame_encoding(payload).len(),
        }),
        (frame_encoding(payload) + rest).skip(frame_encoding(payload).len() as int) == rest,
{
    lemma_prefixed_roundtrip(payload, rest);
    let wire = frame_encoding(payload) + rest;
    lemma_varint_roundtrip(payload.len() as i32, payload + rest);
    assert(wire =~= varint_encoding(payload.len() as i32) + (payload + rest));
    assert(wire.skip(frame_encoding(payload).len() as int) =~= rest);
}

/// Frame round trip for what the server sends: the frame around any packet
/// of any phase is found again, and it holds the id of the packet and then
/// the bytes of its fields, as they were encoded.
pub proof fn lemma_server_frame_roundtrip(packet: ServerPacketView, rest: Seq<u8>, max: nat)
    requires
        packet.encoding().len() <= max <= MAX_LENGTH,
    ensures
        next_frame(frame_encoding(packet.encoding()) + rest, max) == (Framing::Complete {
            body: varint_encoding(packet.packet_id()) + packet.body(),
            consumed: frame_encoding(packet.encoding()).len(),
        }),
{
    lemma_frame_roundtrip(packet.encoding(), rest, max);
}

/// Frame round trip for what a client sends: the frame around any packet
/// that can be written is found again, and read with the table of the phase
/// of the packet it gives the packet back.
pub proof fn lemma_client_frame_roundtrip(packet: ClientPacketView, rest: Seq<u8>, max: nat)
    requires
        packet.encode_failure().is_none(),
        packet.encoding().len() <= max <= MAX_LENGTH,
    ensures
        next_frame(frame_encoding(packet.encoding()) + rest, max) == (Framing::Complete {
            body: varint_encoding(packet.packet_id()) + packet.body(),
            consumed: frame_encoding(packet.encoding()).len(),
        }),
        frame_outcome(packet.state(), packet.encoding(), false) == Ok::<
            ClientPacketView,
            ReceiveError,
        >(packet),
        frame_outcome(packet.state(), plain_inner(packet.encoding()), true) == Ok::<
            ClientPacketView,
            ReceiveError,
        >(packet),
{
    lemma_frame_roundtrip(packet.encoding(), rest, max);
    packet.lemma_roundtrip();
    lemma_plain_inner(packet.state(), packet.encoding());
}

/// Unknown-id tolerance: a frame whose packet id the current phase does not
/// know is reported with that id, and it ends where the bytes behind it
/// begin, so that the frames behind it are read as if it had not been
/// there.
pub proof fn lemma_unknown_id_keeps_step(state: State, payload: Seq<u8>, rest: Seq<u8>, max: nat)
    requires
        payload.len() <= max <= MAX_LENGTH,
        varint_decoding(payload) matches Ok((id, _)) && !ClientPacketView::known_id(state, id),
    ensures
        next_frame(frame_encoding(payload) + rest, max) == (Framing::Complete {
            body: payload,
            consumed: frame_encoding(payload).len(),
        }),
        (frame_encoding(payload) + rest).skip(frame_encoding(payload).len() as int) == rest,
        varint_decoding(payload) matches Ok((id, _)) && frame_outcome(state, payload, false)
            == Err::<ClientPacketView, ReceiveError>(
            ReceiveError::Decode(ReadError::InvalidPacketId(id)),
        ),
{
    lemma_frame_roundtrip(payload, rest, max);
    ClientPacketView::lemma_phase_gating(state, payload);
}

/// Compression leaves short data alone: below the threshold the frame
/// carries a data length of zero and then the data as it is, and the
/// receiver reads the data as it was.
pub proof fn lemma_plain_inner(state: State, payload: Seq<u8>)
    ensures
        plain_inner(payload) == seq![0u8] + payload,
        frame_outcome(state, plain_inner(payload), true) == packet_outcome(state, payload),
{
    reveal_with_fuel(crate::varint::encode_groups, 2);
    assert(varint_encoding(0) =~= seq![0u8]);
    lemma_varint_roundtrip(0, payload);
    assert(plain_inner(payload).skip(1) =~= payload);
}

/// Deflated data reads back as it was, when the decompressor restores what
/// the compressor made of it.
pub proof fn lemma_deflated_inner(state: State, payload: Seq<u8>, deflated: Seq<u8>)
    requires
        0 < payload.len() <= MAX_LENGTH,
        zlib_inflated(deflated) == Some(payload),
    ensures
        frame_outcome(state, deflated_inner(payload.len(), deflated), true) == packet_outcome(
            state,
            payload,
        ),
{
    let len = payload.len() as i32;
    lemma_varint_roundtrip(len, deflated);
    assert(deflated_inner(payload.len(), deflated).skip(varint_encoding(len).len() as int)
        =~= deflated);
}

/// Looks for one frame at the front of `buf`. Gives where its body begins
/// and how long the body is.
pub fn find_frame(buf: &[u8], max: usize) -> (res: Result<Option<(usize, usize)>, ReceiveError>)
    ensures
        match next_frame(buf@, max as nat) {
            Framing::NeedMore => res.is_ok() && res.unwrap().is_none(),
            Framing::Refused(e) => res == Err::<Option<(usize, usize)>, ReceiveError>(e),
            Framing::Complete { body, consumed } => res.is_ok() && res.unwrap().is_some()
                && res.unwrap().unwrap().0 + res.unwrap().unwrap().1 == consumed && consumed
                <= buf@.len() && body == buf@.subrange(
                res.unwrap().unwrap().0 as int,
                res.unwrap().unwrap().0 + res.unwrap().unwrap().1,
            ),
        },
{
    let mut r = DecodeBuffer::new(buf);
    assert(r.remaining() =~= buf@);
    match VarInt::read_from(&mut r) {
        Err(FieldReadError::UnexpectedEnd) => Ok(None),
        Err(e) => Err(ReceiveError::PacketLength(e)),
        Ok(len) => {
            let start = r.position();
            if len.0 < 0 || len.0 as usize > max {
                Err(ReceiveError::OversizedPacket(len.0))
            } else if buf.len() - start < len.0 as usize {
                Ok(None)
            } else {
                Ok(Some((start, len.0 as usize)))
            }
        },
    }
}

/// Reads the packet that an uncompressed payload holds.
pub fn decode_payload(state: State, payload: &[u8]) -> (res: Result<ClientPacket, ReceiveError>)
    ensures
        match packet_outcome(state, payload@) {
            Ok(v) => res.is_ok() && res.unwrap()@ == v,
            Err(e) => res == Err::<ClientPacket, ReceiveError>(e),
        },
{
    let mut r = DecodeBuffer::new(payload);
    assert(r.remaining() =~= payload@);
    match ClientPacket::decode(state, &mut r) {
        Ok(p) => Ok(p),
        Err(e) => Err(ReceiveError::Decode(e)),
    }
}

/// Reads the packet that inflated data holds. `inflated` is what the
/// decompressor made of the frame, `data_length` what the frame announced.
pub fn decode_inflated(state: State, data_length: i32, inflated: Option<Vec<u8>>) -> (res: Result<
    ClientPacket,
    ReceiveError,
>)
    ensures
        match inflated_outcome(
            state,
            data_length,
            match inflated {
                Some(v) => Some(v@),
                None => None,
            },
        ) {
            Ok(v) => res.is_ok() && res.unwrap()@ == v,
            Err(e) => res == Err::<ClientPacket, ReceiveError>(e),
        },
{
    match inflated {
        None => Err(ReceiveError::Decompression),
        Some(data) => {
            if data_length < 0 || data.len() != data_length as usize {
                Err(
                    ReceiveError::InvalidReportedLength {
                        reported: data_length,
                        actual: data.len(),
                    },
                )
            } else {
                decode_payload(state, data.as_slice())
            }
        },
    }
}

/// Reads the packet that the body of a frame holds, inflating it first when
/// the frame says that it was deflated.
pub fn decode_frame(state: State, body: &[u8], compressed: bool) -> (res: Result<
    ClientPacket,
    ReceiveError,
>)
    ensures
        match frame_outcome(state, body@, compressed) {
            Ok(v) => res.is_ok() && res.unwrap()@ == v,
            Err(e) => res == Err::<ClientPacket, ReceiveError>(e),
        },
{
    if !compressed {
        return decode_payload(state, body);
    }
    let mut r = DecodeBuffer::new(body);
    assert(r.remaining() =~= body@);
    let data_length = match VarInt::read_from(&mut r) {
        Ok(v) => v.0,
        Err(e) => {
            return Err(ReceiveError::PacketLength(e));
        },
    };
    let rest = r.slice();
    if data_length == 0 {
        decode_payload(state, rest)
    } else {
        decode_inflated(state, data_length, zlib_decompress(rest))
    }
}

/// Appends a frame around `packet_buf`. Fails, leaving `staging_buf` as it
/// was, when the packet is too long for the length prefix.
pub fn stage_packet_into(staging_buf: &mut Vec<u8>, packet_buf: &[u8]) -> (res: Result<
    (),
    SendError,
>)
    ensures
        packet_buf@.len() <= MAX_LENGTH ==> res.is_ok() && final(staging_buf)@ == old(
            staging_buf,
        )@ + frame_encoding(packet_buf@),
        packet_buf@.len() > MAX_LENGTH ==> res == Err::<(), SendError>(
            SendError::PacketLength(FieldWriteError::LengthOverflow),
        ) && final(staging_buf)@ == old(staging_buf)@,
{
    match write_prefixed(staging_buf, packet_buf) {
        Ok(()) => Ok(()),
        Err(e) => Err(SendError::PacketLength(e)),
    }
}

/// Appends a frame that holds the data length `data_length` and then
/// `data`. Fails, leaving `staging_buf` as it was, when the data length or
/// the frame is too long for its length prefix.
pub fn stage_with_data_length(staging_buf: &mut Vec<u8>, data_length: usize, data: &[u8]) -> (res:
    Result<(), SendError>)
    ensures
        data_length <= MAX_LENGTH && data@.len() + varint_encoding(data_length as i32).len()
            <= MAX_LENGTH ==> res.is_ok() && final(staging_buf)@ == old(staging_buf)@
            + frame_encoding(deflated_inner(data_length as nat, data@)),
        !(data_length <= MAX_LENGTH && data@.len() + varint_encoding(data_length as i32).len()
            <= MAX_LENGTH) ==> res == Err::<(), SendError>(
            SendError::PacketLength(FieldWriteError::LengthOverflow),
        ) && final(staging_buf)@ == old(staging_buf)@,
{
    if data_length > MAX_LENGTH {
        return Err(SendError::PacketLength(FieldWriteError::LengthOverflow));
    }
    let mut inner: Vec<u8> = Vec::new();
    VarInt(data_length as i32).write_to(&mut inner);
    proof {
        lemma_varint_len(data_length as i32);
    }
    if data.len() > MAX_LENGTH - inner.len() {
        return Err(SendError::PacketLength(FieldWriteError::LengthOverflow));
    }
    inner.extend_from_slice(data);
    assert(inner@ =~= deflated_inner(data_length as nat, data@));
    stage_packet_into(staging_buf, inner.as_slice())
}

/// Appends a frame around what the compressor made of a packet of
/// `data_length` bytes. Fails, leaving `staging_buf` as it was, when the
/// compressor gave nothing or the frame is too long.
pub fn stage_deflated_into(
    staging_buf: &mut Vec<u8>,
    data_length: usize,
    deflated: Option<Vec<u8>>,
) -> (res: Result<(), SendError>)
    ensures
        match deflated {
            None => res == Err::<(), SendError>(SendError::Compression) && final(staging_buf)@
                == old(staging_buf)@,
            Some(d) => if data_length <= MAX_LENGTH && d@.len() + varint_encoding(
                data_length as i32,
            ).len() <= MAX_LENGTH {
                res.is_ok() && final(staging_buf)@ == old(staging_buf)@ + frame_encoding(
                    deflated_inner(data_length as nat, d@),
                )
            } else {
                res == Err::<(), SendError>(
                    SendError::PacketLength(FieldWriteError::LengthOverflow),
                ) && final(staging_buf)@ == old(staging_buf)@
            },
        },
{
    match deflated {
        None => Err(SendError::Compression),
        Some(d) => stage_with_data_length(staging_buf, data_length, d.as_slice()),
    }
}

/// Appends a frame around `packet_buf` for a connection that compresses
/// from `threshold` bytes on. A shorter packet goes out as it is behind a
/// data length of zero and is always staged when it fits its length prefix.
/// A longer one is deflated, and then the compressor has a say.
pub fn stage_compressed_packet_into(
    staging_buf: &mut Vec<u8>,
    packet_buf: &[u8],
    threshold: usize,
) -> (res: Result<(), SendError>)
    ensures
        packet_buf@.len() < threshold
            && packet_buf@.len() < MAX_LENGTH ==> res.is_ok()
            && final(staging_buf)@ == old(staging_buf)@ + frame_encoding(plain_inner(packet_buf@)),
        packet_buf@.len() < threshold && packet_buf@.len() >= MAX_LENGTH ==> res == Err::<
            (),
            SendError,
        >(SendError::PacketLength(FieldWriteError::LengthOverflow)),
        packet_buf@.len() >= threshold && res.is_ok() ==> final(staging_buf)@ == old(
            staging_buf,
        )@ + frame_encoding(deflated_inner(packet_buf@.len(), zlib_deflated(packet_buf@))),
        res.is_err() ==> final(staging_buf)@ == old(staging_buf)@,
        packet_buf@.len() >= threshold && res.is_err() ==> res == Err::<(), SendError>(
            SendError::Compression,
        ) || res == Err::<(), SendError>(SendError::PacketLength(FieldWriteError::LengthOverflow)),
{
    if packet_buf.len() >= threshold {
        stage_deflated_into(staging_buf, packet_buf.len(), zlib_compress(packet_buf))
    } else {
        proof {
            reveal_with_fuel(crate::varint::encode_groups, 2);
            assert(varint_encoding(0) =~= seq![0u8]);
        }
        stage_with_data_length(staging_buf, 0, packet_buf)
    }
}

} // verus!
