//! What a client sends in the play phase.

use vstd::prelude::*;
use vstd::utf8::encode_utf8;
use crate::buffer::DecodeBuffer;
use crate::error::{FieldWriteError, ReadError, WriteError};
use crate::fixed::{
    be_bytes, bool_decoding, bool_encoding, lemma_bool_roundtrip, lemma_i8_roundtrip,
    lemma_u32_roundtrip, lemma_u64_roundtrip, lemma_u8_roundtrip, read_bool, read_i8, read_u32,
    read_u64, read_u8, signed_decoding, signed_encoding, unsigned_decoding, write_bool, write_i8,
    write_u32, write_u64, write_u8,
};
use crate::io::RawBytes;
use crate::text::{
    lemma_string_roundtrip, read_string, string_decoding, string_encoding, write_string,
    MAX_LENGTH,
};
use crate::varint::{lemma_varint_roundtrip, varint_decoding, varint_encoding, VarInt};

verus! {

/// Confirms a teleport that the server asked for.
#[derive(Debug, Clone, PartialEq, Eq)]
pub struct TeleportConfirm {
    pub id: VarInt,
}

/// What a `TeleportConfirm` holds.
pub struct TeleportConfirmView {
    pub id: i32,
}

impl View for TeleportConfirm {
    type V = TeleportConfirmView;

    open spec fn view(&self) -> TeleportConfirmView {
        TeleportConfirmView {
            id: self.id.0,
        }
    }
}

impl TeleportConfirmView {
    /// The wire form of the fields, in their order.
    pub open spec fn encoding(self) -> Seq<u8> {
        varint_encoding(self.id)
    }

    /// The first field that cannot be written, if there is one.
    pub open spec fn encode_failure(self) -> Option<WriteError> {
        None
    }

    /// The fields at the front of `s`, read in their order. Bytes behind the
    /// last field are left alone.
    pub open spec fn decoding(s: Seq<u8>) -> Result<TeleportConfirmView, ReadError> {
        match varint_decoding(s) {
            Err(e) => Err(ReadError::FieldDecode("id", e)),
            Ok((id, n)) => {
                Ok(TeleportConfirmView { id })
            },
        }
    }

    /// What can be written reads back as it was.
    pub proof fn lemma_roundtrip(self)
        requires
            self.encode_failure().is_none(),
        ensures
            TeleportConfirmView::decoding(self.encoding()) == Ok::<TeleportConfirmView, ReadError>(self),
    {
        let e0 = varint_encoding(self.id);
        let r1 = Seq::<u8>::empty();
        let r0 = e0 + r1;
        assert(self.encoding() =~= r0);
        lemma_varint_roundtrip(self.id, r1);
        assert(r0.skip(e0.len() as int) =~= r1);
    }
}

impl TeleportConfirm {
    /// Reads the fields in their order.
    pub fn read_from(r: &mut DecodeBuffer) -> (res: Result<TeleportConfirm, ReadError>)
        ensures
            final(r).data() == old(r).data(),
            match TeleportConfirmView::decoding(old(r).remaining()) {
                Ok(v) => res.is_ok() && res.unwrap()@ == v,
                Err(e) => res == Err::<TeleportConfirm, ReadError>(e),
            },
    {
        let id = match VarInt::read_from(r) {
            Ok(v) => v,
            Err(e) => {
                return Err(ReadError::FieldDecode("id", e));
            },
        };
        Ok(TeleportConfirm { id })
    }

    /// Appends the fields in their order. When a field cannot be written,
    /// `buffer` may hold the fields before it.
    pub fn write_to(&self, buffer: &mut Vec<u8>) -> (res: Result<(), WriteError>)
        ensures
            match self@.encode_failure() {
                None => res.is_ok() && final(buffer)@ == old(buffer)@ + self@.encoding(),
                Some(e) => res == Err::<(), WriteError>(e),
            },
    {
        self.id.write_to(buffer);
        assert(buffer@ =~= old(buffer)@ + self@.encoding());
        Ok(())
    }
}

/// The settings of the client.
#[derive(Debug, Clone, PartialEq, Eq)]
pub struct ClientSettings {
    pub locale: String,
    pub view_distance: i8,
    pub chat_mode: VarInt,
    pub chat_colors: bool,
    pub displayed_skin_parts: u8,
    pub main_hand: VarInt,
    pub text_filtering: bool,
    pub allow_server_listings: bool,
}

/// What a `ClientSettings` holds.
pub struct ClientSettingsView {
    pub locale: Seq<char>,
    pub view_distance: i8,
    pub chat_mode: i32,
    pub chat_colors: bool,
    pub displayed_skin_parts: u8,
    pub main_hand: i32,
    pub text_filtering: bool,
    pub allow_server_listings: bool,
}

impl View for ClientSettings {
    type V = ClientSettingsView;

    open spec fn view(&self) -> ClientSettingsView {
        ClientSettingsView {
            locale: self.locale@,
            view_distance: self.view_distance,
            chat_mode: self.chat_mode.0,
            chat_colors: self.chat_colors,
            displayed_skin_parts: self.displayed_skin_parts,
            main_hand: self.main_hand.0,
            text_filtering: self.text_filtering,
            allow_server_listings: self.allow_server_listings,
        }
    }
}

impl ClientSettingsView {
    /// The wire form of the fields, in their order.
    pub open spec fn encoding(self) -> Seq<u8> {
        string_encoding(self.locale)
            + signed_encoding(self.view_distance as int, 1)
            + varint_encoding(self.chat_mode)
            + bool_encoding(self.chat_colors)
            + be_bytes(self.displayed_skin_parts as nat, 1)
            + varint_encoding(self.main_hand)
            + bool_encoding(self.text_filtering)
            + bool_encoding(self.allow_server_listings)
    }

    /// The first field that cannot be written, if there is one.
    pub open spec fn encode_failure(self) -> Option<WriteError> {
        if !(encode_utf8(self.locale).len() <= MAX_LENGTH) {
            Some(WriteError::Field("locale", FieldWriteError::LengthOverflow))
        } else {
            None
        }
    }

    /// The fields at the front of `s`, read in their order. Bytes behind the
    /// last field are left alone.
    pub open spec fn decoding(s: Seq<u8>) -> Result<ClientSettingsView, ReadError> {
        match string_decoding(s) {
            Err(e) => Err(ReadError::FieldDecode("locale", e)),
            Ok((locale, n)) => {
                let s = s.skip(n as int);
                match signed_decoding(s, 1) {
                    Err(e) => Err(ReadError::FieldDecode("view_distance", e)),
                    Ok((view_distance, n)) => {
                        let view_distance = view_distance as i8;
                        let s = s.skip(n as int);
                        match varint_decoding(s) {
                            Err(e) => Err(ReadError::FieldDecode("chat_mode", e)),
                            Ok((chat_mode, n)) => {
                                let s = s.skip(n as int);
                                match bool_decoding(s) {
                                    Err(e) => Err(ReadError::FieldDecode("chat_colors", e)),
                                    Ok((chat_colors, n)) => {
                                        let s = s.skip(n as int);
                                        match unsigned_decoding(s, 1) {
                                            Err(e) => Err(ReadError::FieldDecode("displayed_skin_parts", e)),
                                            Ok((displayed_skin_parts, n)) => {
                                                let displayed_skin_parts = displayed_skin_parts as u8;
                                                let s = s.skip(n as int);
                                                match varint_decoding(s) {
                                                    Err(e) => Err(ReadError::FieldDecode("main_hand", e)),
                                                    Ok((main_hand, n)) => {
                                                        let s = s.skip(n as int);
                                                        match bool_decoding(s) {
                                                            Err(e) => Err(ReadError::FieldDecode("text_filtering", e)),
                                                            Ok((text_filtering, n)) => {
                                                                let s = s.skip(n as int);
                                                                match bool_decoding(s) {
                                                                    Err(e) => Err(ReadError::FieldDecode("allow_server_listings", e)),
                                                                    Ok((allow_server_listings, n)) => {
                                                                        Ok(ClientSettingsView {
                                                                            locale,
                                                                            view_distance,
                                                                            chat_mode,
                                                                            chat_colors,
                                                                            displayed_skin_parts,
                                                                            main_hand,
                                                                            text_filtering,
                                                                            allow_server_listings,
                                                                        })
                                                                    },
                                                                }
                                                            },
                                                        }
                                                    },
                                                }
                                            },
                                        }
                                    },
                                }
                            },
                        }
                    },
                }
            },
        }
    }

    /// What can be written reads back as it was.
    #[verifier::rlimit(40)]
    pub proof fn lemma_roundtrip(self)
        requires
            self.encode_failure().is_none(),
        ensures
            ClientSettingsView::decoding(self.encoding()) == Ok::<ClientSettingsView, ReadError>(self),
    {
        let e0 = string_encoding(self.locale);
        let e1 = signed_encoding(self.view_distance as int, 1);
        let e2 = varint_encoding(self.chat_mode);
        let e3 = bool_encoding(self.chat_colors);
        let e4 = be_bytes(self.displayed_skin_parts as nat, 1);
        let e5 = varint_encoding(self.main_hand);
        let e6 = bool_encoding(self.text_filtering);
        let e7 = bool_encoding(self.allow_server_listings);
        let r8 = Seq::<u8>::empty();
        let r7 = e7 + r8;
        let r6 = e6 + r7;
        let r5 = e5 + r6;
        let r4 = e4 + r5;
        let r3 = e3 + r4;
        let r2 = e2 + r3;
        let r1 = e1 + r2;
        let r0 = e0 + r1;
        assert(self.encoding() =~= r0);
        lemma_string_roundtrip(self.locale, r1);
        assert(r0.skip(e0.len() as int) =~= r1);
        lemma_i8_roundtrip(self.view_distance, r2);
        assert(r1.skip(e1.len() as int) =~= r2);
        lemma_varint_roundtrip(self.chat_mode, r3);
        assert(r2.skip(e2.len() as int) =~= r3);
        lemma_bool_roundtrip(self.chat_colors, r4);
        assert(r3.skip(e3.len() as int) =~= r4);
        lemma_u8_roundtrip(self.displayed_skin_parts, r5);
        assert(r4.skip(e4.len() as int) =~= r5);
        lemma_varint_roundtrip(self.main_hand, r6);
        assert(r5.skip(e5.len() as int) =~= r6);
        lemma_bool_roundtrip(self.text_filtering, r7);
        assert(r6.skip(e6.len() as int) =~= r7);
        lemma_bool_roundtrip(self.allow_server_listings, r8);
        assert(r7.skip(e7.len() as int) =~= r8);
    }
}

impl ClientSettings {
    /// Reads the fields in their order.
    pub fn read_from(r: &mut DecodeBuffer) -> (res: Result<ClientSettings, ReadError>)
        ensures
            final(r).data() == old(r).data(),
            match ClientSettingsView::decoding(old(r).remaining()) {
                Ok(v) => res.is_ok() && res.unwrap()@ == v,
                Err(e) => res == Err::<ClientSettings, ReadError>(e),
            },
    {
        let locale = match read_string(r) {
            Ok(v) => v,
            Err(e) => {
                return Err(ReadError::FieldDecode("locale", e));
            },
        };
        let view_distance = match read_i8(r) {
            Ok(v) => v,
            Err(e) => {
                return Err(ReadError::FieldDecode("view_distance", e));
            },
        };
        let chat_mode = match VarInt::read_from(r) {
            Ok(v) => v,
            Err(e) => {
                return Err(ReadError::FieldDecode("chat_mode", e));
            },
        };
        let chat_colors = match read_bool(r) {
            Ok(v) => v,
            Err(e) => {
                return Err(ReadError::FieldDecode("chat_colors", e));
            },
        };
        let displayed_skin_parts = match read_u8(r) {
            Ok(v) => v,
            Err(e) => {
                return Err(ReadError::FieldDecode("displayed_skin_parts", e));
            },
        };
        let main_hand = match VarInt::read_from(r) {
            Ok(v) => v,
            Err(e) => {
                return Err(ReadError::FieldDecode("main_hand", e));
            },
        };
        let text_filtering = match read_bool(r) {
            Ok(v) => v,
            Err(e) => {
                return Err(ReadError::FieldDecode("text_filtering", e));
            },
        };
        let allow_server_listings = match read_bool(r) {
            Ok(v) => v,
            Err(e) => {
                return Err(ReadError::FieldDecode("allow_server_listings", e));
            },
        };
        Ok(ClientSettings {
            locale,
            view_distance,
            chat_mode,
            chat_colors,
            displayed_skin_parts,
            main_hand,
            text_filtering,
            allow_server_listings,
        })
    }

    /// Appends the fields in their order. When a field cannot be written,
    /// `buffer` may hold the fields before it.
    pub fn write_to(&self, buffer: &mut Vec<u8>) -> (res: Result<(), WriteError>)
        ensures
            match self@.encode_failure() {
                None => res.is_ok() && final(buffer)@ == old(buffer)@ + self@.encoding(),
                Some(e) => res == Err::<(), WriteError>(e),
            },
    {
        match write_string(buffer, self.locale.as_str()) {
            Ok(()) => {},
            Err(e) => {
                return Err(WriteError::Field("locale", e));
            },
        }
        let ghost a0 = string_encoding(self@.locale);
        assert(buffer@ =~= old(buffer)@ + a0);
        write_i8(buffer, self.view_distance);
        let ghost a1 = a0 + signed_encoding(self@.view_distance as int, 1);
        assert(buffer@ =~= old(buffer)@ + a1);
        self.chat_mode.write_to(buffer);
        let ghost a2 = a1 + varint_encoding(self@.chat_mode);
        assert(buffer@ =~= old(buffer)@ + a2);
        write_bool(buffer, self.chat_colors);
        let ghost a3 = a2 + bool_encoding(self@.chat_colors);
        assert(buffer@ =~= old(buffer)@ + a3);
        write_u8(buffer, self.displayed_skin_parts);
        let ghost a4 = a3 + be_bytes(self@.displayed_skin_parts as nat, 1);
        assert(buffer@ =~= old(buffer)@ + a4);
        self.main_hand.write_to(buffer);
        let ghost a5 = a4 + varint_encoding(self@.main_hand);
        assert(buffer@ =~= old(buffer)@ + a5);
        write_bool(buffer, self.text_filtering);
        let ghost a6 = a5 + bool_encoding(self@.text_filtering);
        assert(buffer@ =~= old(buffer)@ + a6);
        write_bool(buffer, self.allow_server_listings);
        let ghost a7 = a6 + bool_encoding(self@.allow_server_listings);
        assert(buffer@ =~= old(buffer)@ + a7);
        assert(a7 == self@.encoding());
        Ok(())
    }
}

/// An opaque payload for a named channel.
#[derive(Debug, Clone, PartialEq, Eq)]
pub struct PluginMessage {
    pub channel: String,
    pub data: RawBytes,
}

/// What a `PluginMessage` holds.
pub struct PluginMessageView {
    pub channel: Seq<char>,
    pub data: Seq<u8>,
}

impl View for PluginMessage {
    type V = PluginMessageView;

    open spec fn view(&self) -> PluginMessageView {
        PluginMessageView {
            channel: self.channel@,
            data: self.data@,
        }
    }
}

impl PluginMessageView {
    /// The wire form of the fields, in their order.
    pub open spec fn encoding(self) -> Seq<u8> {
        string_encoding(self.channel)
            + self.data
    }

    /// The first field that cannot be written, if there is one.
    pub open spec fn encode_failure(self) -> Option<WriteError> {
        if !(encode_utf8(self.channel).len() <= MAX_LENGTH) {
            Some(WriteError::Field("channel", FieldWriteError::LengthOverflow))
        } else {
            None
        }
    }

    /// The fields at the front of `s`, read in their order. Bytes behind the
    /// last field are left alone.
    pub open spec fn decoding(s: Seq<u8>) -> Result<PluginMessageView, ReadError> {
        match string_decoding(s) {
            Err(e) => Err(ReadError::FieldDecode("channel", e)),
            Ok((channel, n)) => {
                let s = s.skip(n as int);
                let data = s;
                Ok(PluginMessageView { channel, data })
            },
        }
    }

    /// What can be written reads back as it was.
    pub proof fn lemma_roundtrip(self)
        requires
            self.encode_failure().is_none(),
        ensures
            PluginMessageView::decoding(self.encoding()) == Ok::<PluginMessageView, ReadError>(self),
    {
        let e0 = string_encoding(self.channel);
        let e1 = self.data;
        let r2 = Seq::<u8>::empty();
        let r1 = e1 + r2;
        let r0 = e0 + r1;
        assert(self.encoding() =~= r0);
        lemma_string_roundtrip(self.channel, r1);
        assert(r0.skip(e0.len() as int) =~= r1);
        assert(r1 =~= e1);
    }
}

impl PluginMessage {
    /// Reads the fields in their order.
    pub fn read_from(r: &mut DecodeBuffer) -> (res: Result<PluginMessage, ReadError>)
        ensures
            final(r).data() == old(r).data(),
            match PluginMessageView::decoding(old(r).remaining()) {
                Ok(v) => res.is_ok() && res.unwrap()@ == v,
                Err(e) => res == Err::<PluginMessage, ReadError>(e),
            },
    {
        let channel = match read_string(r) {
            Ok(v) => v,
            Err(e) => {
                return Err(ReadError::FieldDecode("channel", e));
            },
        };
        let data = RawBytes::read_from(r);
        Ok(PluginMessage { channel, data })
    }

    /// Appends the fields in their order. When a field cannot be written,
    /// `buffer` may hold the fields before it.
    pub fn write_to(&self, buffer: &mut Vec<u8>) -> (res: Result<(), WriteError>)
        ensures
            match self@.encode_failure() {
                None => res.is_ok() && final(buffer)@ == old(buffer)@ + self@.encoding(),
                Some(e) => res == Err::<(), WriteError>(e),
            },
    {
        match write_string(buffer, self.channel.as_str()) {
            Ok(()) => {},
            Err(e) => {
                return Err(WriteError::Field("channel", e));
            },
        }
        self.data.write_to(buffer);
        assert(buffer@ =~= old(buffer)@ + self@.encoding());
        Ok(())
    }
}

/// Echoes a keep-alive of the server.
#[derive(Debug, Clone, Copy, PartialEq, Eq, Structural)]
pub struct KeepAlive {
    pub id: u64,
}

impl View for KeepAlive {
    type V = KeepAlive;

    open spec fn view(&self) -> KeepAlive {
        *self
    }
}

impl KeepAlive {
    /// The wire form of the fields, in their order.
    pub open spec fn encoding(self) -> Seq<u8> {
        be_bytes(self.id as nat, 8)
    }

    /// The first field that cannot be written, if there is one.
    pub open spec fn encode_failure(self) -> Option<WriteError> {
        None
    }

    /// The fields at the front of `s`, read in their order. Bytes behind the
    /// last field are left alone.
    pub open spec fn decoding(s: Seq<u8>) -> Result<KeepAlive, ReadError> {
        match unsigned_decoding(s, 8) {
            Err(e) => Err(ReadError::FieldDecode("id", e)),
            Ok((id, n)) => {
                let id = id as u64;
                Ok(KeepAlive { id })
            },
        }
    }

    /// What can be written reads back as it was.
    pub proof fn lemma_roundtrip(self)
        requires
            self.encode_failure().is_none(),
        ensures
            KeepAlive::decoding(self.encoding()) == Ok::<KeepAlive, ReadError>(self),
    {
        let e0 = be_bytes(self.id as nat, 8);
        let r1 = Seq::<u8>::empty();
        let r0 = e0 + r1;
        assert(self.encoding() =~= r0);
        lemma_u64_roundtrip(self.id, r1);
        assert(r0.skip(e0.len() as int) =~= r1);
    }
}

impl KeepAlive {
    /// Reads the fields in their order.
    pub fn read_from(r: &mut DecodeBuffer) -> (res: Result<KeepAlive, ReadError>)
        ensures
            final(r).data() == old(r).data(),
            match KeepAlive::decoding(old(r).remaining()) {
                Ok(v) => res.is_ok() && res.unwrap()@ == v,
                Err(e) => res == Err::<KeepAlive, ReadError>(e),
            },
    {
        let id = match read_u64(r) {
            Ok(v) => v,
            Err(e) => {
                return Err(ReadError::FieldDecode("id", e));
            },
        };
        Ok(KeepAlive { id })
    }

    /// Appends the fields in their order. When a field cannot be written,
    /// `buffer` may hold the fields before it.
    pub fn write_to(&self, buffer: &mut Vec<u8>) -> (res: Result<(), WriteError>)
        ensures
            match self@.encode_failure() {
                None => res.is_ok() && final(buffer)@ == old(buffer)@ + self@.encoding(),
                Some(e) => res == Err::<(), WriteError>(e),
            },
    {
        write_u64(buffer, self.id);
        assert(buffer@ =~= old(buffer)@ + self@.encoding());
        Ok(())
    }
}

/// Where the player stands.
#[derive(Debug, Clone, Copy, PartialEq, Eq, Structural)]
pub struct PlayerPosition {
    /// IEEE-754 bits of the x coordinate, a 64-bit float.
    pub x: u64,
    /// IEEE-754 bits of the y coordinate, a 64-bit float.
    pub y: u64,
    /// IEEE-754 bits of the z coordinate, a 64-bit float.
    pub z: u64,
    pub on_ground: bool,
}

impl View for PlayerPosition {
    type V = PlayerPosition;

    open spec fn view(&self) -> PlayerPosition {
        *self
    }
}

impl PlayerPosition {
    /// The wire form of the fields, in their order.
    pub open spec fn encoding(self) -> Seq<u8> {
        be_bytes(self.x as nat, 8)
            + be_bytes(self.y as nat, 8)
            + be_bytes(self.z as nat, 8)
            + bool_encoding(self.on_ground)
    }

    /// The first field that cannot be written, if there is one.
    pub open spec fn encode_failure(self) -> Option<WriteError> {
        None
    }

    /// The fields at the front of `s`, read in their order. Bytes behind the
    /// last field are left alone.
    pub open spec fn decoding(s: Seq<u8>) -> Result<PlayerPosition, ReadError> {
        match unsigned_decoding(s, 8) {
            Err(e) => Err(ReadError::FieldDecode("x", e)),
            Ok((x, n)) => {
                let x = x as u64;
                let s = s.skip(n as int);
                match unsigned_decoding(s, 8) {
                    Err(e) => Err(ReadError::FieldDecode("y", e)),
                    Ok((y, n)) => {
                        let y = y as u64;
                        let s = s.skip(n as int);
                        match unsigned_decoding(s, 8) {
                            Err(e) => Err(ReadError::FieldDecode("z", e)),
                            Ok((z, n)) => {
                                let z = z as u64;
                                let s = s.skip(n as int);
                                match bool_decoding(s) {
                                    Err(e) => Err(ReadError::FieldDecode("on_ground", e)),
                                    Ok((on_ground, n)) => {
                                        Ok(PlayerPosition { x, y, z, on_ground })
                                    },
                                }
                            },
                        }
                    },
                }
            },
        }
    }

    /// What can be written reads back as it was.
    pub proof fn lemma_roundtrip(self)
        requires
            self.encode_failure().is_none(),
        ensures
            PlayerPosition::decoding(self.encoding()) == Ok::<PlayerPosition, ReadError>(self),
    {
        let e0 = be_bytes(self.x as nat, 8);
        let e1 = be_bytes(self.y as nat, 8);
        let e2 = be_bytes(self.z as nat, 8);
        let e3 = bool_encoding(self.on_ground);
        let r4 = Seq::<u8>::empty();
        let r3 = e3 + r4;
        let r2 = e2 + r3;
        let r1 = e1 + r2;
        let r0 = e0 + r1;
        assert(self.encoding() =~= r0);
        lemma_u64_roundtrip(self.x, r1);
        assert(r0.skip(e0.len() as int) =~= r1);
        lemma_u64_roundtrip(self.y, r2);
        assert(r1.skip(e1.len() as int) =~= r2);
        lemma_u64_roundtrip(self.z, r3);
        assert(r2.skip(e2.len() as int) =~= r3);
        lemma_bool_roundtrip(self.on_ground, r4);
        assert(r3.skip(e3.len() as int) =~= r4);
    }
}

impl PlayerPosition {
    /// Reads the fields in their order.
    pub fn read_from(r: &mut DecodeBuffer) -> (res: Result<PlayerPosition, ReadError>)
        ensures
            final(r).data() == old(r).data(),
            match PlayerPosition::decoding(old(r).remaining()) {
                Ok(v) => res.is_ok() && res.unwrap()@ == v,
                Err(e) => res == Err::<PlayerPosition, ReadError>(e),
            },
    {
        let x = match read_u64(r) {
            Ok(v) => v,
            Err(e) => {
                return Err(ReadError::FieldDecode("x", e));
            },
        };
        let y = match read_u64(r) {
            Ok(v) => v,
            Err(e) => {
                return Err(ReadError::FieldDecode("y", e));
            },
        };
        let z = match read_u64(r) {
            Ok(v) => v,
            Err(e) => {
                return Err(ReadError::FieldDecode("z", e));
            },
        };
        let on_ground = match read_bool(r) {
            Ok(v) => v,
            Err(e) => {
                return Err(ReadError::FieldDecode("on_ground", e));
            },
        };
        Ok(PlayerPosition { x, y, z, on_ground })
    }

    /// Appends the fields in their order. When a field cannot be written,
    /// `buffer` may hold the fields before it.
    pub fn write_to(&self, buffer: &mut Vec<u8>) -> (res: Result<(), WriteError>)
        ensures
            match self@.encode_failure() {
                None => res.is_ok() && final(buffer)@ == old(buffer)@ + self@.encoding(),
                Some(e) => res == Err::<(), WriteError>(e),
            },
    {
        write_u64(buffer, self.x);
        write_u64(buffer, self.y);
        write_u64(buffer, self.z);
        write_bool(buffer, self.on_ground);
        assert(buffer@ =~= old(buffer)@ + self@.encoding());
        Ok(())
    }
}

/// Where the player stands and looks.
#[derive(Debug, Clone, Copy, PartialEq, Eq, Structural)]
pub struct PlayerPositionAndRotation {
    /// IEEE-754 bits of the x coordinate, a 64-bit float.
    pub x: u64,
    /// IEEE-754 bits of the y coordinate, a 64-bit float.
    pub y: u64,
    /// IEEE-754 bits of the z coordinate, a 64-bit float.
    pub z: u64,
    /// IEEE-754 bits of the yaw, a 32-bit float.
    pub yaw: u32,
    /// IEEE-754 bits of the pitch, a 32-bit float.
    pub pitch: u32,
    pub on_ground: bool,
}

impl View for PlayerPositionAndRotation {
    type V = PlayerPositionAndRotation;

    open spec fn view(&self) -> PlayerPositionAndRotation {
        *self
    }
}

impl PlayerPositionAndRotation {
    /// The wire form of the fields, in their order.
    pub open spec fn encoding(self) -> Seq<u8> {
        be_bytes(self.x as nat, 8)
            + be_bytes(self.y as nat, 8)
            + be_bytes(self.z as nat, 8)
            + be_bytes(self.yaw as nat, 4)
            + be_bytes(self.pitch as nat, 4)
            + bool_encoding(self.on_ground)
    }

    /// The first field that cannot be written, if there is one.
    pub open spec fn encode_failure(self) -> Option<WriteError> {
        None
    }

    /// The fields at the front of `s`, read in their order. Bytes behind the
    /// last field are left alone.
    pub open spec fn decoding(s: Seq<u8>) -> Result<PlayerPositionAndRotation, ReadError> {
        match unsigned_decoding(s, 8) {
            Err(e) => Err(ReadError::FieldDecode("x", e)),
            Ok((x, n)) => {
                let x = x as u64;
                let s = s.skip(n as int);
                match unsigned_decoding(s, 8) {
                    Err(e) => Err(ReadError::FieldDecode("y", e)),
                    Ok((y, n)) => {
                        let y = y as u64;
                        let s = s.skip(n as int);
                        match unsigned_decoding(s, 8) {
                            Err(e) => Err(ReadError::FieldDecode("z", e)),
                            Ok((z, n)) => {
                                let z = z as u64;
                                let s = s.skip(n as int);
                                match unsigned_decoding(s, 4) {
                                    Err(e) => Err(ReadError::FieldDecode("yaw", e)),
                                    Ok((yaw, n)) => {
                                        let yaw = yaw as u32;
                                        let s = s.skip(n as int);
                                        match unsigned_decoding(s, 4) {
                                            Err(e) => Err(ReadError::FieldDecode("pitch", e)),
                                            Ok((pitch, n)) => {
                                                let pitch = pitch as u32;
                                                let s = s.skip(n as int);
                                                match bool_decoding(s) {
                                                    Err(e) => Err(ReadError::FieldDecode("on_ground", e)),
                                                    Ok((on_ground, n)) => {
                                                        Ok(PlayerPositionAndRotation {
                                                            x,
                                                            y,
                                                            z,
                                                            yaw,
                                                            pitch,
                                                            on_ground,
                                                        })
                                                    },
                                                }
                                            },
                                        }
                                    },
                                }
                            },
                        }
                    },
                }
            },
        }
    }

    /// What can be written reads back as it was.
    #[verifier::rlimit(40)]
    pub proof fn lemma_roundtrip(self)
        requires
            self.encode_failure().is_none(),
        ensures
            PlayerPositionAndRotation::decoding(self.encoding()) == Ok::<PlayerPositionAndRotation, ReadError>(self),
    {
        let e0 = be_bytes(self.x as nat, 8);
        let e1 = be_bytes(self.y as nat, 8);
        let e2 = be_bytes(self.z as nat, 8);
        let e3 = be_bytes(self.yaw as nat, 4);
        let e4 = be_bytes(self.pitch as nat, 4);
        let e5 = bool_encoding(self.on_ground);
        let r6 = Seq::<u8>::empty();
        let r5 = e5 + r6;
        let r4 = e4 + r5;
        let r3 = e3 + r4;
        let r2 = e2 + r3;
        let r1 = e1 + r2;
        let r0 = e0 + r1;
        assert(self.encoding() =~= r0);
        lemma_u64_roundtrip(self.x, r1);
        assert(r0.skip(e0.len() as int) =~= r1);
        lemma_u64_roundtrip(self.y, r2);
        assert(r1.skip(e1.len() as int) =~= r2);
        lemma_u64_roundtrip(self.z, r3);
        assert(r2.skip(e2.len() as int) =~= r3);
        lemma_u32_roundtrip(self.yaw, r4);
        assert(r3.skip(e3.len() as int) =~= r4);
        lemma_u32_roundtrip(self.pitch, r5);
        assert(r4.skip(e4.len() as int) =~= r5);
        lemma_bool_roundtrip(self.on_ground, r6);
        assert(r5.skip(e5.len() as int) =~= r6);
    }
}

impl PlayerPositionAndRotation {
    /// Reads the fields in their order.
    pub fn read_from(r: &mut DecodeBuffer) -> (res: Result<PlayerPositionAndRotation, ReadError>)
        ensures
            final(r).data() == old(r).data(),
            match PlayerPositionAndRotation::decoding(old(r).remaining()) {
                Ok(v) => res.is_ok() && res.unwrap()@ == v,
                Err(e) => res == Err::<PlayerPositionAndRotation, ReadError>(e),
            },
    {
        let x = match read_u64(r) {
            Ok(v) => v,
            Err(e) => {
                return Err(ReadError::FieldDecode("x", e));
            },
        };
        let y = match read_u64(r) {
            Ok(v) => v,
            Err(e) => {
                return Err(ReadError::FieldDecode("y", e));
            },
        };
        let z = match read_u64(r) {
            Ok(v) => v,
            Err(e) => {
                return Err(ReadError::FieldDecode("z", e));
            },
        };
        let yaw = match read_u32(r) {
            Ok(v) => v,
            Err(e) => {
                return Err(ReadError::FieldDecode("yaw", e));
            },
        };
        let pitch = match read_u32(r) {
            Ok(v) => v,
            Err(e) => {
                return Err(ReadError::FieldDecode("pitch", e));
            },
        };
        let on_ground = match read_bool(r) {
            Ok(v) => v,
            Err(e) => {
                return Err(ReadError::FieldDecode("on_ground", e));
            },
        };
        Ok(PlayerPositionAndRotation { x, y, z, yaw, pitch, on_ground })
    }

    /// Appends the fields in their order. When a field cannot be written,
    /// `buffer` may hold the fields before it.
    pub fn write_to(&self, buffer: &mut Vec<u8>) -> (res: Result<(), WriteError>)
        ensures
            match self@.encode_failure() {
                None => res.is_ok() && final(buffer)@ == old(buffer)@ + self@.encoding(),
                Some(e) => res == Err::<(), WriteError>(e),
            },
    {
        write_u64(buffer, self.x);
        let ghost a0 = be_bytes(self@.x as nat, 8);
        assert(buffer@ =~= old(buffer)@ + a0);
        write_u64(buffer, self.y);
        let ghost a1 = a0 + be_bytes(self@.y as nat, 8);
        assert(buffer@ =~= old(buffer)@ + a1);
        write_u64(buffer, self.z);
        let ghost a2 = a1 + be_bytes(self@.z as nat, 8);
        assert(buffer@ =~= old(buffer)@ + a2);
        write_u32(buffer, self.yaw);
        let ghost a3 = a2 + be_bytes(self@.yaw as nat, 4);
        assert(buffer@ =~= old(buffer)@ + a3);
        write_u32(buffer, self.pitch);
        let ghost a4 = a3 + be_bytes(self@.pitch as nat, 4);
        assert(buffer@ =~= old(buffer)@ + a4);
        write_bool(buffer, self.on_ground);
        let ghost a5 = a4 + bool_encoding(self@.on_ground);
        assert(buffer@ =~= old(buffer)@ + a5);
        assert(a5 == self@.encoding());
        Ok(())
    }
}

/// What a client sends in the play phase.
#[derive(Debug, Clone, PartialEq, Eq)]
pub enum ClientPlayPacket {
    TeleportConfirm(TeleportConfirm),
    ClientSettings(ClientSettings),
    PluginMessage(PluginMessage),
    KeepAlive(KeepAlive),
    PlayerPosition(PlayerPosition),
    PlayerPositionAndRotation(PlayerPositionAndRotation),
}

/// What a `ClientPlayPacket` holds.
pub enum ClientPlayPacketView {
    TeleportConfirm(TeleportConfirmView),
    ClientSettings(ClientSettingsView),
    PluginMessage(PluginMessageView),
    KeepAlive(KeepAlive),
    PlayerPosition(PlayerPosition),
    PlayerPositionAndRotation(PlayerPositionAndRotation),
}

impl View for ClientPlayPacket {
    type V = ClientPlayPacketView;

    open spec fn view(&self) -> ClientPlayPacketView {
        match self {
            ClientPlayPacket::TeleportConfirm(p) => ClientPlayPacketView::TeleportConfirm(p@),
            ClientPlayPacket::ClientSettings(p) => ClientPlayPacketView::ClientSettings(p@),
            ClientPlayPacket::PluginMessage(p) => ClientPlayPacketView::PluginMessage(p@),
            ClientPlayPacket::KeepAlive(p) => ClientPlayPacketView::KeepAlive(p@),
            ClientPlayPacket::PlayerPosition(p) => ClientPlayPacketView::PlayerPosition(p@),
            ClientPlayPacket::PlayerPositionAndRotation(p) => ClientPlayPacketView::PlayerPositionAndRotation(p@),
        }
    }
}

impl ClientPlayPacketView {
    /// The id of the packet within its table.
    pub open spec fn packet_id(self) -> i32 {
        match self {
            ClientPlayPacketView::TeleportConfirm(_) => 0,
            ClientPlayPacketView::ClientSettings(_) => 5,
            ClientPlayPacketView::PluginMessage(_) => 0xa,
            ClientPlayPacketView::KeepAlive(_) => 0xf,
            ClientPlayPacketView::PlayerPosition(_) => 0x11,
            ClientPlayPacketView::PlayerPositionAndRotation(_) => 0x12,
        }
    }

    /// The wire form of the fields of the packet, without its id.
    pub open spec fn body(self) -> Seq<u8> {
        match self {
            ClientPlayPacketView::TeleportConfirm(p) => p.encoding(),
            ClientPlayPacketView::ClientSettings(p) => p.encoding(),
            ClientPlayPacketView::PluginMessage(p) => p.encoding(),
            ClientPlayPacketView::KeepAlive(p) => p.encoding(),
            ClientPlayPacketView::PlayerPosition(p) => p.encoding(),
            ClientPlayPacketView::PlayerPositionAndRotation(p) => p.encoding(),
        }
    }

    /// The wire form of the packet: its id and then its fields.
    pub open spec fn encoding(self) -> Seq<u8> {
        varint_encoding(self.packet_id()) + self.body()
    }

    /// The first field that cannot be written, if there is one.
    pub open spec fn encode_failure(self) -> Option<WriteError> {
        match self {
            ClientPlayPacketView::TeleportConfirm(p) => p.encode_failure(),
            ClientPlayPacketView::ClientSettings(p) => p.encode_failure(),
            ClientPlayPacketView::PluginMessage(p) => p.encode_failure(),
            ClientPlayPacketView::KeepAlive(p) => p.encode_failure(),
            ClientPlayPacketView::PlayerPosition(p) => p.encode_failure(),
            ClientPlayPacketView::PlayerPositionAndRotation(p) => p.encode_failure(),
        }
    }

    /// Whether the table holds a packet with this id.
    pub open spec fn known_id(id: i32) -> bool {
        id == 0 || id == 5 || id == 0xa || id == 0xf || id == 0x11 || id == 0x12
    }

    /// The packet at the front of `s`: its id selects the variant, and an id
    /// that the table does not hold is an error of its own.
    pub open spec fn decoding(s: Seq<u8>) -> Result<ClientPlayPacketView, ReadError> {
        match varint_decoding(s) {
            Err(e) => Err(ReadError::ReadPacketId(e)),
            Ok((id, n)) => {
                let s = s.skip(n as int);
                if id == 0 {
                    match TeleportConfirmView::decoding(s) {
                        Ok(p) => Ok(ClientPlayPacketView::TeleportConfirm(p)),
                        Err(e) => Err(e),
                    }
                } else if id == 5 {
                    match ClientSettingsView::decoding(s) {
                        Ok(p) => Ok(ClientPlayPacketView::ClientSettings(p)),
                        Err(e) => Err(e),
                    }
                } else if id == 0xa {
                    match PluginMessageView::decoding(s) {
                        Ok(p) => Ok(ClientPlayPacketView::PluginMessage(p)),
                        Err(e) => Err(e),
                    }
                } else if id == 0xf {
                    match KeepAlive::decoding(s) {
                        Ok(p) => Ok(ClientPlayPacketView::KeepAlive(p)),
                        Err(e) => Err(e),
                    }
                } else if id == 0x11 {
                    match PlayerPosition::decoding(s) {
                        Ok(p) => Ok(ClientPlayPacketView::PlayerPosition(p)),
                        Err(e) => Err(e),
                    }
                } else if id == 0x12 {
                    match PlayerPositionAndRotation::decoding(s) {
                        Ok(p) => Ok(ClientPlayPacketView::PlayerPositionAndRotation(p)),
                        Err(e) => Err(e),
                    }
                } else {
                    Err(ReadError::InvalidPacketId(id))
                }
            },
        }
    }

    /// What can be written reads back as it was.
    pub proof fn lemma_roundtrip(self)
        requires
            self.encode_failure().is_none(),
        ensures
            ClientPlayPacketView::decoding(self.encoding()) == Ok::<ClientPlayPacketView, ReadError>(self),
    {
        lemma_varint_roundtrip(self.packet_id(), self.body());
        assert(self.encoding().skip(varint_encoding(self.packet_id()).len() as int) =~= self.body());
        match self {
            ClientPlayPacketView::TeleportConfirm(p) => {
                p.lemma_roundtrip();
            },
            ClientPlayPacketView::ClientSettings(p) => {
                p.lemma_roundtrip();
            },
            ClientPlayPacketView::PluginMessage(p) => {
                p.lemma_roundtrip();
            },
            ClientPlayPacketView::KeepAlive(p) => {
                p.lemma_roundtrip();
            },
            ClientPlayPacketView::PlayerPosition(p) => {
                p.lemma_roundtrip();
            },
            ClientPlayPacketView::PlayerPositionAndRotation(p) => {
                p.lemma_roundtrip();
            },
        }
    }
}

impl ClientPlayPacket {
    /// Reads the id and then the packet that it selects.
    pub fn read_from(r: &mut DecodeBuffer) -> (res: Result<ClientPlayPacket, ReadError>)
        ensures
            final(r).data() == old(r).data(),
            match ClientPlayPacketView::decoding(old(r).remaining()) {
                Ok(v) => res.is_ok() && res.unwrap()@ == v,
                Err(e) => res == Err::<ClientPlayPacket, ReadError>(e),
            },
    {
        let id = match VarInt::read_from(r) {
            Ok(id) => id.0,
            Err(e) => {
                return Err(ReadError::ReadPacketId(e));
            },
        };
        if id == 0 {
            match TeleportConfirm::read_from(r) {
                Ok(p) => Ok(ClientPlayPacket::TeleportConfirm(p)),
                Err(e) => Err(e),
            }
        } else if id == 5 {
            match ClientSettings::read_from(r) {
                Ok(p) => Ok(ClientPlayPacket::ClientSettings(p)),
                Err(e) => Err(e),
            }
        } else if id == 0xa {
            match PluginMessage::read_from(r) {
                Ok(p) => Ok(ClientPlayPacket::PluginMessage(p)),
                Err(e) => Err(e),
            }
        } else if id == 0xf {
            match KeepAlive::read_from(r) {
                Ok(p) => Ok(ClientPlayPacket::KeepAlive(p)),
                Err(e) => Err(e),
            }
        } else if id == 0x11 {
            match PlayerPosition::read_from(r) {
                Ok(p) => Ok(ClientPlayPacket::PlayerPosition(p)),
                Err(e) => Err(e),
            }
        } else if id == 0x12 {
            match PlayerPositionAndRotation::read_from(r) {
                Ok(p) => Ok(ClientPlayPacket::PlayerPositionAndRotation(p)),
                Err(e) => Err(e),
            }
        } else {
            Err(ReadError::InvalidPacketId(id))
        }
    }

    /// The id of the packet within its table.
    pub fn id(&self) -> (id: i32)
        ensures
            id == self@.packet_id(),
    {
        match self {
            ClientPlayPacket::TeleportConfirm(_) => 0,
            ClientPlayPacket::ClientSettings(_) => 5,
            ClientPlayPacket::PluginMessage(_) => 0xa,
            ClientPlayPacket::KeepAlive(_) => 0xf,
            ClientPlayPacket::PlayerPosition(_) => 0x11,
            ClientPlayPacket::PlayerPositionAndRotation(_) => 0x12,
        }
    }

    /// Appends the id and then the fields. When a field cannot be written,
    /// `buffer` may hold what comes before it.
    pub fn write_to(&self, buffer: &mut Vec<u8>) -> (res: Result<(), WriteError>)
        ensures
            match self@.encode_failure() {
                None => res.is_ok() && final(buffer)@ == old(buffer)@ + self@.encoding(),
                Some(e) => res == Err::<(), WriteError>(e),
            },
    {
        VarInt(self.id()).write_to(buffer);
        let res = match self {
            ClientPlayPacket::TeleportConfirm(p) => p.write_to(buffer),
            ClientPlayPacket::ClientSettings(p) => p.write_to(buffer),
            ClientPlayPacket::PluginMessage(p) => p.write_to(buffer),
            ClientPlayPacket::KeepAlive(p) => p.write_to(buffer),
            ClientPlayPacket::PlayerPosition(p) => p.write_to(buffer),
            ClientPlayPacket::PlayerPositionAndRotation(p) => p.write_to(buffer),
        };
        assert(res.is_ok() ==> buffer@ =~= old(buffer)@ + self@.encoding());
        res
    }
}

} // verus!
