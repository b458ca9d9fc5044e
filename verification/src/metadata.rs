//! Entity metadata: a list of indexed, typed values that ends with the
//! index `0xff`.

use vstd::prelude::*;
use vstd::utf8::encode_utf8;
use crate::buffer::DecodeBuffer;
use crate::chat::{message_decoding, message_json, Message};
use crate::error::{FieldReadError, FieldWriteError};
use crate::fixed::{
    be_bytes, bool_decoding, bool_encoding, read_bool, read_u32, read_u8, unsigned_decoding,
    write_bool, write_u32, write_u8,
};
use crate::io::{read_uuid, uuid_decoding, uuid_encoding, write_uuid};
use crate::text::{read_string, string_decoding, string_encoding, write_string, MAX_LENGTH};
use crate::types::{position_decoding, position_encoding, Position};
use crate::varint::{varint_decoding, varint_encoding, VarInt};

verus! {

/// The index that ends a list of metadata.
pub const END_OF_METADATA: u8 = 0xff;

/// What a metadata entry describes.
#[derive(Debug, Clone, Copy, PartialEq, Eq, Hash, Structural)]
pub enum MetaIndex {
    Flags,
    AirTicks,
    CustomName,
    CustomNameVisible,
    Silent,
    NoGravity,
    Pose,
    TicksFrozen,
    HandState,
    Health,
    PotionEffectColor,
    PotionEffectAmbient,
    Arrows,
    BeeStingers,
    BedLocation,
    AdditionalHearts,
    Score,
    SkinParts,
    MainHand,
    LeftShoulderEntity,
    RightShoulderEntity,
}

impl MetaIndex {
    /// The index on the wire.
    pub open spec fn spec_id(&self) -> u8 {
        match self {
            MetaIndex::Flags => 0,
            MetaIndex::AirTicks => 1,
            MetaIndex::CustomName => 2,
            MetaIndex::CustomNameVisible => 3,
            MetaIndex::Silent => 4,
            MetaIndex::NoGravity => 5,
            MetaIndex::Pose => 6,
            MetaIndex::TicksFrozen => 7,
            MetaIndex::HandState => 8,
            MetaIndex::Health => 9,
            MetaIndex::PotionEffectColor => 10,
            MetaIndex::PotionEffectAmbient => 11,
            MetaIndex::Arrows => 12,
            MetaIndex::BeeStingers => 13,
            MetaIndex::BedLocation => 14,
            MetaIndex::AdditionalHearts => 15,
            MetaIndex::Score => 16,
            MetaIndex::SkinParts => 17,
            MetaIndex::MainHand => 18,
            MetaIndex::LeftShoulderEntity => 19,
            MetaIndex::RightShoulderEntity => 20,
        }
    }

    /// The index on the wire.
    #[verifier::when_used_as_spec(spec_id)]
    pub fn id(&self) -> (id: u8)
        ensures
            id == self.spec_id(),
            id < END_OF_METADATA,
    {
        match self {
            MetaIndex::Flags => 0,
            MetaIndex::AirTicks => 1,
            MetaIndex::CustomName => 2,
            MetaIndex::CustomNameVisible => 3,
            MetaIndex::Silent => 4,
            MetaIndex::NoGravity => 5,
            MetaIndex::Pose => 6,
            MetaIndex::TicksFrozen => 7,
            MetaIndex::HandState => 8,
            MetaIndex::Health => 9,
            MetaIndex::PotionEffectColor => 10,
            MetaIndex::PotionEffectAmbient => 11,
            MetaIndex::Arrows => 12,
            MetaIndex::BeeStingers => 13,
            MetaIndex::BedLocation => 14,
            MetaIndex::AdditionalHearts => 15,
            MetaIndex::Score => 16,
            MetaIndex::SkinParts => 17,
            MetaIndex::MainHand => 18,
            MetaIndex::LeftShoulderEntity => 19,
            MetaIndex::RightShoulderEntity => 20,
        }
    }
}

/// One typed value of the metadata of an entity.
#[derive(Debug, Clone, PartialEq, Eq)]
pub enum MetaType {
    Byte(u8),
    VarInt(VarInt),
    /// IEEE-754 bits of a 32-bit float.
    Float(u32),
    String(String),
    Chat(Message),
    OptionalChat(Option<Message>),
    Boolean(bool),
    Position(Position),
    OptionalPosition(Option<Position>),
    OptionalUuid(Option<u128>),
    OptionalVarInt(Option<VarInt>),
}

/// What a `MetaType` holds.
pub enum MetaTypeView {
    Byte(u8),
    VarInt(i32),
    Float(u32),
    String(Seq<char>),
    Chat(Seq<char>),
    OptionalChat(Option<Seq<char>>),
    Boolean(bool),
    Position(Position),
    OptionalPosition(Option<Position>),
    OptionalUuid(Option<u128>),
    OptionalVarInt(Option<i32>),
}

impl View for MetaType {
    type V = MetaTypeView;

    open spec fn view(&self) -> MetaTypeView {
        match self {
            MetaType::Byte(v) => MetaTypeView::Byte(*v),
            MetaType::VarInt(v) => MetaTypeView::VarInt(v.0),
            MetaType::Float(v) => MetaTypeView::Float(*v),
            MetaType::String(v) => MetaTypeView::String(v@),
            MetaType::Chat(v) => MetaTypeView::Chat(v@),
            MetaType::OptionalChat(v) => MetaTypeView::OptionalChat(
                match v {
                    Some(m) => Some(m@),
                    None => None,
                },
            ),
            MetaType::Boolean(v) => MetaTypeView::Boolean(*v),
            MetaType::Position(v) => MetaTypeView::Position(*v),
            MetaType::OptionalPosition(v) => MetaTypeView::OptionalPosition(*v),
            MetaType::OptionalUuid(v) => MetaTypeView::OptionalUuid(*v),
            MetaType::OptionalVarInt(v) => MetaTypeView::OptionalVarInt(
                match v {
                    Some(n) => Some(n.0),
                    None => None,
                },
            ),
        }
    }
}

/// The number that an optional integer travels as: zero for none, and one
/// more than the integer otherwise, wrapping around at the largest one.
pub open spec fn optional_varint_code(v: Option<i32>) -> i32 {
    match v {
        Some(n) => if n == i32::MAX {
            i32::MIN
        } else {
            (n + 1) as i32
        },
        None => 0,
    }
}

/// The optional integer that a number stands for: none for zero, and one
/// less than the number otherwise, wrapping around at the smallest one.
pub open spec fn optional_varint_value(code: i32) -> Option<i32> {
    if code == 0 {
        None
    } else if code == i32::MIN {
        Some(i32::MAX)
    } else {
        Some((code - 1) as i32)
    }
}

impl MetaTypeView {
    /// The number that tells the type of the value on the wire.
    pub open spec fn type_id(self) -> i32 {
        match self {
            MetaTypeView::Byte(_) => 0,
            MetaTypeView::VarInt(_) => 1,
            MetaTypeView::Float(_) => 2,
            MetaTypeView::String(_) => 3,
            MetaTypeView::Chat(_) => 4,
            MetaTypeView::OptionalChat(_) => 5,
            MetaTypeView::Boolean(_) => 7,
            MetaTypeView::Position(_) => 9,
            MetaTypeView::OptionalPosition(_) => 10,
            MetaTypeView::OptionalUuid(_) => 12,
            MetaTypeView::OptionalVarInt(_) => 17,
        }
    }

    /// The wire form of the value, without the number of its type.
    pub open spec fn payload(self) -> Seq<u8> {
        match self {
            MetaTypeView::Byte(v) => be_bytes(v as nat, 1),
            MetaTypeView::VarInt(v) => varint_encoding(v),
            MetaTypeView::Float(v) => be_bytes(v as nat, 4),
            MetaTypeView::String(v) => string_encoding(v),
            MetaTypeView::Chat(v) => string_encoding(message_json(v)),
            MetaTypeView::OptionalChat(v) => match v {
                Some(m) => bool_encoding(true) + string_encoding(message_json(m)),
                None => bool_encoding(false),
            },
            MetaTypeView::Boolean(v) => bool_encoding(v),
            MetaTypeView::Position(v) => position_encoding(v),
            MetaTypeView::OptionalPosition(v) => match v {
                Some(p) => bool_encoding(true) + position_encoding(p),
                None => bool_encoding(false),
            },
            MetaTypeView::OptionalUuid(v) => match v {
                Some(u) => bool_encoding(true) + uuid_encoding(u),
                None => bool_encoding(false),
            },
            MetaTypeView::OptionalVarInt(v) => varint_encoding(optional_varint_code(v)),
        }
    }

    /// The wire form of the value: the number of its type, then the value.
    pub open spec fn encoding(self) -> Seq<u8> {
        varint_encoding(self.type_id()) + self.payload()
    }

    /// Whether the value can be written: its text, if it has any, fits a
    /// length prefix.
    pub open spec fn encodable(self) -> bool {
        match self {
            MetaTypeView::String(v) => encode_utf8(v).len() <= MAX_LENGTH,
            MetaTypeView::Chat(v) => encode_utf8(message_json(v)).len() <= MAX_LENGTH,
            MetaTypeView::OptionalChat(Some(v)) => encode_utf8(message_json(v)).len() <= MAX_LENGTH,
            _ => true,
        }
    }

    /// The value of the type `type_id` at the front of `s`.
    pub open spec fn payload_decoding(type_id: i32, s: Seq<u8>) -> Result<
        (MetaTypeView, nat),
        FieldReadError,
    > {
        if type_id == 0 {
            match unsigned_decoding(s, 1) {
                Ok((v, n)) => Ok((MetaTypeView::Byte(v as u8), n)),
                Err(e) => Err(e),
            }
        } else if type_id == 1 {
            match varint_decoding(s) {
                Ok((v, n)) => Ok((MetaTypeView::VarInt(v), n)),
                Err(e) => Err(e),
            }
        } else if type_id == 2 {
            match unsigned_decoding(s, 4) {
                Ok((v, n)) => Ok((MetaTypeView::Float(v as u32), n)),
                Err(e) => Err(e),
            }
        } else if type_id == 3 {
            match string_decoding(s) {
                Ok((v, n)) => Ok((MetaTypeView::String(v), n)),
                Err(e) => Err(e),
            }
        } else if type_id == 4 {
            match message_decoding(s) {
                Ok((v, n)) => Ok((MetaTypeView::Chat(v), n)),
                Err(e) => Err(e),
            }
        } else if type_id == 5 {
            match bool_decoding(s) {
                Err(e) => Err(e),
                Ok((false, n)) => Ok((MetaTypeView::OptionalChat(None), n)),
                Ok((true, n)) => match message_decoding(s.skip(n as int)) {
                    Ok((v, m)) => Ok((MetaTypeView::OptionalChat(Some(v)), n + m)),
                    Err(e) => Err(e),
                },
            }
        } else if type_id == 7 {
            match bool_decoding(s) {
                Ok((v, n)) => Ok((MetaTypeView::Boolean(v), n)),
                Err(e) => Err(e),
            }
        } else if type_id == 9 {
            match position_decoding(s) {
                Ok((v, n)) => Ok((MetaTypeView::Position(v), n)),
                Err(e) => Err(e),
            }
        } else if type_id == 10 {
            match bool_decoding(s) {
                Err(e) => Err(e),
                Ok((false, n)) => Ok((MetaTypeView::OptionalPosition(None), n)),
                Ok((true, n)) => match position_decoding(s.skip(n as int)) {
                    Ok((v, m)) => Ok((MetaTypeView::OptionalPosition(Some(v)), n + m)),
                    Err(e) => Err(e),
                },
            }
        } else if type_id == 12 {
            match bool_decoding(s) {
                Err(e) => Err(e),
                Ok((false, n)) => Ok((MetaTypeView::OptionalUuid(None), n)),
                Ok((true, n)) => match uuid_decoding(s.skip(n as int)) {
                    Ok((v, m)) => Ok((MetaTypeView::OptionalUuid(Some(v)), n + m)),
                    Err(e) => Err(e),
                },
            }
        } else if type_id == 17 {
            match varint_decoding(s) {
                Ok((v, n)) => Ok((MetaTypeView::OptionalVarInt(optional_varint_value(v)), n)),
                Err(e) => Err(e),
            }
        } else {
            Err(FieldReadError::InvalidEnumVariant(type_id))
        }
    }

    /// The typed value at the front of `s`: the number of its type, then the
    /// value.
    pub open spec fn decoding(s: Seq<u8>) -> Result<(MetaTypeView, nat), FieldReadError> {
        match varint_decoding(s) {
            Err(e) => Err(e),
            Ok((type_id, n)) => match MetaTypeView::payload_decoding(type_id, s.skip(n as int)) {
                Ok((v, m)) => Ok((v, n + m)),
                Err(e) => Err(e),
            },
        }
    }
}

impl MetaType {
    /// Reads the value of the type `type_id`.
    fn read_payload(type_id: i32, r: &mut DecodeBuffer) -> (res: Result<MetaType, FieldReadError>)
        ensures
            final(r).data() == old(r).data(),
            match MetaTypeView::payload_decoding(type_id, old(r).remaining()) {
                Ok((v, n)) => res.is_ok() && res.unwrap()@ == v && final(r).offset() == old(
                    r,
                ).offset() + n && final(r).remaining() == old(r).remaining().skip(n as int),
                Err(e) => res == Err::<MetaType, FieldReadError>(e),
            },
    {
        let ghost before = r.remaining();
        if type_id == 0 {
            match read_u8(r) {
                Ok(v) => Ok(MetaType::Byte(v)),
                Err(e) => Err(e),
            }
        } else if type_id == 1 {
            match VarInt::read_from(r) {
                Ok(v) => Ok(MetaType::VarInt(v)),
                Err(e) => Err(e),
            }
        } else if type_id == 2 {
            match read_u32(r) {
                Ok(v) => Ok(MetaType::Float(v)),
                Err(e) => Err(e),
            }
        } else if type_id == 3 {
            match read_string(r) {
                Ok(v) => Ok(MetaType::String(v)),
                Err(e) => Err(e),
            }
        } else if type_id == 4 {
            match Message::read_from(r) {
                Ok(v) => Ok(MetaType::Chat(v)),
                Err(e) => Err(e),
            }
        } else if type_id == 5 {
            match read_bool(r) {
                Err(e) => Err(e),
                Ok(false) => Ok(MetaType::OptionalChat(None)),
                Ok(true) => match Message::read_from(r) {
                    Ok(v) => {
                        assert(before.skip(1).skip(r.offset() - old(r).offset() - 1) =~= before.skip(
                            r.offset() - old(r).offset(),
                        ));
                        Ok(MetaType::OptionalChat(Some(v)))
                    },
                    Err(e) => Err(e),
                },
            }
        } else if type_id == 7 {
            match read_bool(r) {
                Ok(v) => Ok(MetaType::Boolean(v)),
                Err(e) => Err(e),
            }
        } else if type_id == 9 {
            match Position::read_from(r) {
                Ok(v) => Ok(MetaType::Position(v)),
                Err(e) => Err(e),
            }
        } else if type_id == 10 {
            match read_bool(r) {
                Err(e) => Err(e),
                Ok(false) => Ok(MetaType::OptionalPosition(None)),
                Ok(true) => match Position::read_from(r) {
                    Ok(v) => {
                        assert(before.skip(1).skip(r.offset() - old(r).offset() - 1) =~= before.skip(
                            r.offset() - old(r).offset(),
                        ));
                        Ok(MetaType::OptionalPosition(Some(v)))
                    },
                    Err(e) => Err(e),
                },
            }
        } else if type_id == 12 {
            match read_bool(r) {
                Err(e) => Err(e),
                Ok(false) => Ok(MetaType::OptionalUuid(None)),
                Ok(true) => match read_uuid(r) {
                    Ok(v) => {
                        assert(before.skip(1).skip(r.offset() - old(r).offset() - 1) =~= before.skip(
                            r.offset() - old(r).offset(),
                        ));
                        Ok(MetaType::OptionalUuid(Some(v)))
                    },
                    Err(e) => Err(e),
                },
            }
        } else if type_id == 17 {
            match VarInt::read_from(r) {
                Ok(v) => if v.0 == 0 {
                    Ok(MetaType::OptionalVarInt(None))
                } else if v.0 == i32::MIN {
                    Ok(MetaType::OptionalVarInt(Some(VarInt(i32::MAX))))
                } else {
                    Ok(MetaType::OptionalVarInt(Some(VarInt(v.0 - 1))))
                },
                Err(e) => Err(e),
            }
        } else {
            Err(FieldReadError::InvalidEnumVariant(type_id))
        }
    }

    /// Reads a typed value: the number of its type, then the value.
    pub fn read_from(r: &mut DecodeBuffer) -> (res: Result<MetaType, FieldReadError>)
        ensures
            final(r).data() == old(r).data(),
            match MetaTypeView::decoding(old(r).remaining()) {
                Ok((v, n)) => res.is_ok() && res.unwrap()@ == v && final(r).offset() == old(
                    r,
                ).offset() + n && final(r).remaining() == old(r).remaining().skip(n as int),
                Err(e) => res == Err::<MetaType, FieldReadError>(e),
            },
    {
        let ghost before = r.remaining();
        let type_id = match VarInt::read_from(r) {
            Ok(v) => v.0,
            Err(e) => {
                return Err(e);
            },
        };
        let ghost head = r.offset() - old(r).offset();
        let res = MetaType::read_payload(type_id, r);
        proof {
            r.lemma_offset_in_bounds();
            assert(res.is_ok() ==> before.skip(head).skip(r.offset() - old(r).offset() - head)
                =~= before.skip(r.offset() - old(r).offset()));
        }
        res
    }

    /// Appends the number of the type and then the value. Fails, leaving
    /// `buffer` as it was, when the text of the value is too long for a
    /// length prefix.
    pub fn write_to(&self, buffer: &mut Vec<u8>) -> (res: Result<(), FieldWriteError>)
        ensures
            self@.encodable() ==> res.is_ok() && final(buffer)@ == old(buffer)@ + self@.encoding(),
            !self@.encodable() ==> res == Err::<(), FieldWriteError>(
                FieldWriteError::LengthOverflow,
            ) && final(buffer)@ == old(buffer)@,
    {
        let mut out: Vec<u8> = Vec::new();
        let res = match self {
            MetaType::Byte(v) => {
                VarInt(0).write_to(&mut out);
                write_u8(&mut out, *v);
                Ok(())
            },
            MetaType::VarInt(v) => {
                VarInt(1).write_to(&mut out);
                v.write_to(&mut out);
                Ok(())
            },
            MetaType::Float(v) => {
                VarInt(2).write_to(&mut out);
                write_u32(&mut out, *v);
                Ok(())
            },
            MetaType::String(v) => {
                VarInt(3).write_to(&mut out);
                write_string(&mut out, v.as_str())
            },
            MetaType::Chat(v) => {
                VarInt(4).write_to(&mut out);
                v.write_to(&mut out)
            },
            MetaType::OptionalChat(v) => {
                VarInt(5).write_to(&mut out);
                match v {
                    Some(m) => {
                        write_bool(&mut out, true);
                        m.write_to(&mut out)
                    },
                    None => {
                        write_bool(&mut out, false);
                        Ok(())
                    },
                }
            },
            MetaType::Boolean(v) => {
                VarInt(7).write_to(&mut out);
                write_bool(&mut out, *v);
                Ok(())
            },
            MetaType::Position(v) => {
                VarInt(9).write_to(&mut out);
                v.write_to(&mut out);
                Ok(())
            },
            MetaType::OptionalPosition(v) => {
                VarInt(10).write_to(&mut out);
                match v {
                    Some(p) => {
                        write_bool(&mut out, true);
                        p.write_to(&mut out);
                    },
                    None => {
                        write_bool(&mut out, false);
                    },
                }
                Ok(())
            },
            MetaType::OptionalUuid(v) => {
                VarInt(12).write_to(&mut out);
                match v {
                    Some(u) => {
                        write_bool(&mut out, true);
                        write_uuid(&mut out, *u);
                    },
                    None => {
                        write_bool(&mut out, false);
                    },
                }
                Ok(())
            },
            MetaType::OptionalVarInt(v) => {
                VarInt(17).write_to(&mut out);
                let code: i32 = match v {
                    Some(n) => if n.0 == i32::MAX {
                        i32::MIN
                    } else {
                        n.0 + 1
                    },
                    None => 0,
                };
                VarInt(code).write_to(&mut out);
                Ok(())
            },
        };
        match res {
            Ok(()) => {
                assert(out@ =~= self@.encoding());
                buffer.extend_from_slice(out.as_slice());
                Ok(())
            },
            Err(e) => Err(e),
        }
    }
}

/// One entry of the metadata of an entity.
#[derive(Debug, Clone, PartialEq, Eq)]
pub struct MetaEntry {
    pub index: u8,
    pub value: MetaType,
}

/// What the entries of a list of metadata hold.
pub open spec fn entry_views(entries: Seq<MetaEntry>) -> Seq<(u8, MetaTypeView)> {
    entries.map_values(|e: MetaEntry| (e.index, e.value@))
}

/// Where the entry with the index `index` stands among the first `upto`
/// entries, if there is one.
pub open spec fn position_of(entries: Seq<(u8, MetaTypeView)>, index: u8, upto: int) -> Option<int>
    decreases upto,
{
    if upto <= 0 || upto > entries.len() {
        None
    } else if entries[upto - 1].0 == index {
        Some(upto - 1)
    } else {
        position_of(entries, index, upto - 1)
    }
}

/// The entries with one more: it takes the place of the entry with the
/// same index, or goes behind the others when there is none.
pub open spec fn inserted(entries: Seq<(u8, MetaTypeView)>, index: u8, value: MetaTypeView) -> Seq<
    (u8, MetaTypeView),
> {
    match position_of(entries, index, entries.len() as int) {
        Some(i) => entries.update(i, (index, value)),
        None => entries.push((index, value)),
    }
}

/// The wire forms of the first `count` entries, one after the other.
pub open spec fn entries_encoding(entries: Seq<(u8, MetaTypeView)>, count: nat) -> Seq<u8>
    decreases count,
{
    if count == 0 || count > entries.len() {
        Seq::empty()
    } else {
        entries_encoding(entries, (count - 1) as nat) + seq![entries[count - 1].0]
            + entries[count - 1].1.encoding()
    }
}

/// The wire form of a list of metadata: its entries, then the end mark.
pub open spec fn metadata_encoding(entries: Seq<(u8, MetaTypeView)>) -> Seq<u8> {
    entries_encoding(entries, entries.len()) + seq![END_OF_METADATA]
}

/// Whether each of the first `count` entries can be written.
pub open spec fn entries_encodable(entries: Seq<(u8, MetaTypeView)>, count: nat) -> bool {
    forall|i: int| 0 <= i < count && i < entries.len() ==> (#[trigger] entries[i]).1.encodable()
}

/// What is known of a whole list once some of it was read from `used`
/// bytes.
pub open spec fn resume_metadata(
    rest: Result<(Seq<(u8, MetaTypeView)>, nat), FieldReadError>,
    used: nat,
) -> Result<(Seq<(u8, MetaTypeView)>, nat), FieldReadError> {
    match rest {
        Ok((v, m)) => Ok((v, used + m)),
        Err(e) => Err(e),
    }
}

/// The list of metadata at the front of `s`, read into the entries `read`:
/// entry after entry up to the end mark, a later entry taking the place of
/// an earlier one with the same index.
pub open spec fn metadata_decoding(s: Seq<u8>, read: Seq<(u8, MetaTypeView)>) -> Result<
    (Seq<(u8, MetaTypeView)>, nat),
    FieldReadError,
>
    decreases s.len(),
{
    if s.len() == 0 {
        Err(FieldReadError::UnexpectedEnd)
    } else if s[0] == END_OF_METADATA {
        Ok((read, 1))
    } else {
        match MetaTypeView::decoding(s.skip(1)) {
            Err(e) => Err(e),
            Ok((value, n)) => if n + 1 > s.len() {
                Err(FieldReadError::UnexpectedEnd)
            } else {
                resume_metadata(
                    metadata_decoding(s.skip((n + 1) as int), inserted(read, s[0], value)),
                    n + 1,
                )
            },
        }
    }
}

/// The metadata of an entity: typed values under distinct indices.
#[derive(Debug, Clone, PartialEq, Eq)]
pub struct EntityMetadata {
    entries: Vec<MetaEntry>,
}

impl View for EntityMetadata {
    type V = Seq<(u8, MetaTypeView)>;

    closed spec fn view(&self) -> Seq<(u8, MetaTypeView)> {
        entry_views(self.entries@)
    }
}

impl EntityMetadata {
    /// Metadata without entries.
    pub fn new() -> (m: EntityMetadata)
        ensures
            m@ == Seq::<(u8, MetaTypeView)>::empty(),
    {
        let m = EntityMetadata { entries: Vec::new() };
        assert(m@ =~= Seq::<(u8, MetaTypeView)>::empty());
        m
    }

    /// Puts a value under a raw index: in the place of the entry with the
    /// same index, or behind the others when there is none.
    pub fn insert(&mut self, index: u8, value: MetaType)
        ensures
            final(self)@ == inserted(old(self)@, index, value@),
    {
        let n = self.entries.len();
        let mut i: usize = n;
        while i > 0
            invariant
                i <= n,
                n == self.entries@.len(),
                self.entries@ == old(self).entries@,
                position_of(old(self)@, index, n as int) == position_of(
                    old(self)@,
                    index,
                    i as int,
                ),
            decreases i,
        {
            assert(old(self)@[i - 1] == (self.entries@[i - 1].index, self.entries@[i - 1].value@));
            if self.entries[i - 1].index == index {
                let ghost before = self@;
                self.entries.set(i - 1, MetaEntry { index, value });
                assert(self@ =~= before.update(i - 1, (index, value@)));
                return ;
            }
            i = i - 1;
        }
        let ghost before = self@;
        self.entries.push(MetaEntry { index, value });
        assert(self@ =~= before.push((index, value@)));
    }

    /// Puts a value under an index.
    pub fn add(&mut self, index: MetaIndex, value: MetaType)
        ensures
            final(self)@ == inserted(old(self)@, index.spec_id(), value@),
    {
        self.insert(index.id(), value);
    }

    /// The metadata with a value under an index.
    pub fn with(self, index: MetaIndex, value: MetaType) -> (m: EntityMetadata)
        ensures
            m@ == inserted(self@, index.spec_id(), value@),
    {
        let mut m = self;
        m.add(index, value);
        m
    }

    /// Reads entries up to the end mark.
    pub fn read_from(r: &mut DecodeBuffer) -> (res: Result<EntityMetadata, FieldReadError>)
        ensures
            final(r).data() == old(r).data(),
            match metadata_decoding(old(r).remaining(), Seq::empty()) {
                Ok((v, n)) => res.is_ok() && res.unwrap()@ == v && final(r).offset() == old(
                    r,
                ).offset() + n && final(r).remaining() == old(r).remaining().skip(n as int),
                Err(e) => res == Err::<EntityMetadata, FieldReadError>(e),
            },
    {
        let ghost whole = r.remaining();
        let ghost start = r.offset();
        let ghost mut used: nat = 0;
        let mut m = EntityMetadata::new();
        proof {
            r.lemma_offset_in_bounds();
            assert(whole.skip(0) =~= whole);
            match metadata_decoding(whole, m@) {
                Ok((v, n)) => {},
                Err(e) => {},
            }
        }
        loop
            invariant
                r.data() == old(r).data(),
                whole == old(r).remaining(),
                start == old(r).offset(),
                start + whole.len() == r.data().len(),
                r.offset() == start + used,
                used <= whole.len(),
                r.remaining() == whole.skip(used as int),
                metadata_decoding(whole, Seq::empty()) == resume_metadata(
                    metadata_decoding(r.remaining(), m@),
                    used,
                ),
            decreases whole.len() - used,
        {
            let ghost here = r.remaining();
            let index = match read_u8(r) {
                Ok(v) => v,
                Err(e) => {
                    proof {
                        reveal_with_fuel(crate::fixed::be_value, 2);
                    }
                    return Err(e);
                },
            };
            proof {
                reveal_with_fuel(crate::fixed::be_value, 2);
                assert(here.take(1).drop_last() =~= Seq::<u8>::empty());
                assert(index == here[0]);
            }
            if index == END_OF_METADATA {
                proof {
                    assert(whole.skip(used as int).skip(1) =~= whole.skip((used + 1) as int));
                }
                return Ok(m);
            }
            let ghost inner = r.remaining();
            let ghost mid = r.offset();
            let value = match MetaType::read_from(r) {
                Ok(v) => v,
                Err(e) => {
                    return Err(e);
                },
            };
            let ghost n = (r.offset() - mid) as nat;
            proof {
                r.lemma_offset_in_bounds();
                assert(here.skip(1).skip(n as int) =~= here.skip((n + 1) as int));
                assert(whole.skip(used as int).skip((n + 1) as int) =~= whole.skip((used + n + 1) as int));
            }
            m.insert(index, value);
            proof {
                used = used + n + 1;
            }
        }
    }

    /// Appends the entries and then the end mark. Fails when the text of a
    /// value is too long for a length prefix; `buffer` may then hold a part
    /// of the output.
    pub fn write_to(&self, buffer: &mut Vec<u8>) -> (res: Result<(), FieldWriteError>)
        ensures
            entries_encodable(self@, self@.len()) ==> res.is_ok() && final(buffer)@ == old(
                buffer,
            )@ + metadata_encoding(self@),
            !entries_encodable(self@, self@.len()) ==> res == Err::<(), FieldWriteError>(
                FieldWriteError::LengthOverflow,
            ),
    {
        let count = self.entries.len();
        let mut i: usize = 0;
        proof {
            assert(buffer@ =~= old(buffer)@ + entries_encoding(self@, 0));
        }
        while i < count
            invariant
                i <= count,
                count == self.entries@.len(),
                count == self@.len(),
                entries_encodable(self@, i as nat),
                buffer@ == old(buffer)@ + entries_encoding(self@, i as nat),
            decreases count - i,
        {
            assert(self@[i as int] == (self.entries@[i as int].index, self.entries@[i as int].value@));
            write_u8(buffer, self.entries[i].index);
            proof {
                reveal_with_fuel(crate::fixed::be_bytes, 2);
                assert(be_bytes(self.entries@[i as int].index as nat, 1) =~= seq![
                    self.entries@[i as int].index,
                ]);
            }
            match self.entries[i].value.write_to(buffer) {
                Ok(()) => {},
                Err(e) => {
                    return Err(e);
                },
            }
            assert(buffer@ =~= old(buffer)@ + entries_encoding(self@, (i + 1) as nat));
            i = i + 1;
        }
        buffer.push(END_OF_METADATA);
        assert(buffer@ =~= old(buffer)@ + metadata_encoding(self@));
        Ok(())
    }
}

} // verus!
