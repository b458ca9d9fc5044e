//! Wire-protocol engine of a minimal Minecraft Java-Edition compatible server.
//!
//! The crate holds the field codec, the packet tables of the four
//! conversation phases, the framed connection with its optional compression
//! and encryption layers, and the decisions of a client session. Sockets,
//! timers and the session service stay with the embedder: the library takes
//! the bytes that were read and hands back the bytes to write.
//!
//! - [`buffer`], [`varint`], [`fixed`], [`text`], [`io`], [`types`],
//!   [`chat`], [`info`], [`metadata`]: the fields and their wire forms.
//! - [`packets`]: the packets of each phase and direction.
//! - [`frame`], [`cipher`], [`connection`]: frames, compression, encryption.
//! - [`session`], [`mojang`], [`config`]: the state machine of a session,
//!   the hash for the session service, and what an embedder configures.
//!
//! Every function carries a contract that Verus proves; what is taken on
//! trust of other crates is marked `external_body` and says so.

pub mod buffer;
pub mod chat;
pub mod cipher;
pub mod config;
pub mod connection;
pub mod error;
pub mod fixed;
pub mod frame;
pub mod info;
pub mod io;
pub mod metadata;
pub mod mojang;
pub mod packets;
pub mod session;
pub mod text;
pub mod types;
pub mod varint;
