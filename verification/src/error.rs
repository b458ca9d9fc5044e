//! Error taxonomy of the codec and of the framed connection.

use vstd::prelude::*;

verus! {

/// Why a single field could not be decoded.
#[derive(Debug, Clone, Copy, PartialEq, Eq, Structural)]
pub enum FieldReadError {
    /// The input ended before the field was complete.
    UnexpectedEnd,
    /// A variable-length integer kept its continuation bit set on its fifth byte.
    VariableTooLarge,
    /// A string field did not hold valid UTF-8.
    InvalidUtf8,
    /// A tagged enum carried a discriminant that names no variant.
    InvalidEnumVariant(i32),
    /// A JSON-carried value did not parse.
    JsonDecode,
}

/// Why a single field could not be encoded.
#[derive(Debug, Clone, Copy, PartialEq, Eq, Structural)]
pub enum FieldWriteError {
    /// A length does not fit the signed 32-bit length prefix.
    LengthOverflow,
}

/// Why a packet could not be encoded.
#[derive(Debug, Clone, Copy, PartialEq, Eq)]
pub enum WriteError {
    /// The named field of the packet could not be written.
    Field(&'static str, FieldWriteError),
}

/// Why a packet could not be decoded.
#[derive(Debug, Clone, Copy, PartialEq, Eq)]
pub enum ReadError {
    /// The packet id is not in the table of the current phase.
    InvalidPacketId(i32),
    /// The packet id itself could not be read.
    ReadPacketId(FieldReadError),
    /// The named field of the packet could not be read.
    FieldDecode(&'static str, FieldReadError),
}

/// Why no packet could be taken from the receive buffer.
#[derive(Debug, Clone, Copy, PartialEq, Eq)]
pub enum ReceiveError {
    /// The peer closed the stream in the middle of a frame.
    ConnectionClosed,
    /// A compressed frame inflated to another length than it announced.
    InvalidReportedLength { reported: i32, actual: usize },
    /// The length of a frame, or of its uncompressed data, could not be read.
    PacketLength(FieldReadError),
    /// A frame announced a length below zero or above the configured limit.
    OversizedPacket(i32),
    /// The frame was complete but did not hold a packet of the current phase.
    Decode(ReadError),
    /// The compressed data of a frame was no zlib stream.
    Decompression,
}

/// Why a packet could not be staged for sending.
#[derive(Debug, Clone, Copy, PartialEq, Eq)]
pub enum SendError {
    /// The frame is too long for its length prefix.
    PacketLength(FieldWriteError),
    /// The packet could not be encoded.
    Encode(WriteError),
    /// The compressor gave up.
    Compression,
}

} // verus!
