use limbo::buffer::DecodeBuffer;
use limbo::chat::Message;
use limbo::error::FieldReadError;
use limbo::io::VarIntPrefixedVec;
use limbo::metadata::{EntityMetadata, MetaIndex, MetaType, END_OF_METADATA};
use limbo::types::Position;
use limbo::varint::VarInt;

fn written(value: &MetaType) -> Vec<u8> {
    let mut out = Vec::new();
    assert_eq!(value.write_to(&mut out), Ok(()));
    out
}

fn read(bytes: &[u8]) -> Result<MetaType, FieldReadError> {
    let mut r = DecodeBuffer::new(bytes);
    MetaType::read_from(&mut r)
}

#[test]
fn typed_values_carry_the_number_of_their_type() {
    assert_eq!(written(&MetaType::Byte(0x7f)), vec![0, 0x7f]);
    assert_eq!(written(&MetaType::VarInt(VarInt(300))), vec![1, 0xac, 0x02]);
    assert_eq!(written(&MetaType::Float(1.0f32.to_bits())), vec![2, 0x3f, 0x80, 0, 0]);
    assert_eq!(written(&MetaType::String("ab".to_string())), vec![3, 2, b'a', b'b']);
    assert_eq!(written(&MetaType::Boolean(true)), vec![7, 1]);
    assert_eq!(
        written(&MetaType::Position(Position::new(0, 64, 0))),
        vec![9, 0, 0, 0, 0, 0, 0, 0, 64]
    );
    assert_eq!(written(&MetaType::OptionalPosition(None)), vec![10, 0]);
    assert_eq!(
        written(&MetaType::OptionalPosition(Some(Position::new(0, 1, 0)))),
        vec![10, 1, 0, 0, 0, 0, 0, 0, 0, 1]
    );
    assert_eq!(written(&MetaType::OptionalUuid(None)), vec![12, 0]);
    let mut with_uuid = vec![12, 1];
    with_uuid.extend_from_slice(&7u128.to_be_bytes());
    assert_eq!(written(&MetaType::OptionalUuid(Some(7))), with_uuid);
    assert_eq!(written(&MetaType::OptionalVarInt(None)), vec![17, 0]);
    assert_eq!(written(&MetaType::OptionalVarInt(Some(VarInt(0)))), vec![17, 1]);
    assert_eq!(written(&MetaType::OptionalVarInt(Some(VarInt(41)))), vec![17, 42]);
    let chat = written(&MetaType::Chat(Message::new("hi".to_string())));
    assert_eq!(chat[0], 4);
    assert_eq!(&chat[2..], b"{\"text\":\"hi\"}");
    assert_eq!(written(&MetaType::OptionalChat(None)), vec![5, 0]);
    let chat = written(&MetaType::OptionalChat(Some(Message::new("hi".to_string()))));
    assert_eq!(&chat[..2], &[5, 1]);
    assert_eq!(&chat[3..], b"{\"text\":\"hi\"}");
}

#[test]
fn typed_values_read_back() {
    let values = vec![
        MetaType::Byte(0),
        MetaType::Byte(255),
        MetaType::VarInt(VarInt(-1)),
        MetaType::Float(f32::MAX.to_bits()),
        MetaType::String("\u{e9}t\u{e9}".to_string()),
        MetaType::Chat(Message::new("say \"hi\"".to_string())),
        MetaType::OptionalChat(None),
        MetaType::OptionalChat(Some(Message::new(String::new()))),
        MetaType::Boolean(false),
        MetaType::Position(Position::new(-5, -6, 7)),
        MetaType::OptionalPosition(None),
        MetaType::OptionalPosition(Some(Position::new(1, 2, 3))),
        MetaType::OptionalUuid(None),
        MetaType::OptionalUuid(Some(u128::MAX)),
        MetaType::OptionalVarInt(None),
        MetaType::OptionalVarInt(Some(VarInt(0))),
        MetaType::OptionalVarInt(Some(VarInt(i32::MAX))),
        MetaType::OptionalVarInt(Some(VarInt(i32::MIN))),
    ];
    for value in values {
        let mut bytes = written(&value);
        let length = bytes.len();
        bytes.push(0x55);
        let mut r = DecodeBuffer::new(&bytes);
        assert_eq!(MetaType::read_from(&mut r), Ok(value));
        assert_eq!(r.position(), length);
    }
}

#[test]
fn an_optional_integer_of_minus_one_cannot_be_told_from_none() {
    assert_eq!(written(&MetaType::OptionalVarInt(Some(VarInt(-1)))), vec![17, 0]);
    assert_eq!(read(&[17, 0]), Ok(MetaType::OptionalVarInt(None)));
}

#[test]
fn typed_values_that_do_not_read() {
    assert_eq!(read(&[6, 0]), Err(FieldReadError::InvalidEnumVariant(6)));
    assert_eq!(read(&[18, 0]), Err(FieldReadError::InvalidEnumVariant(18)));
    assert_eq!(read(&[]), Err(FieldReadError::UnexpectedEnd));
    assert_eq!(read(&[0]), Err(FieldReadError::UnexpectedEnd));
    assert_eq!(read(&[12, 1, 0]), Err(FieldReadError::UnexpectedEnd));
    assert_eq!(read(&[3, 1, 0xff]), Err(FieldReadError::InvalidUtf8));
    assert_eq!(read(&[4, 2, b'{', b'}']), Err(FieldReadError::JsonDecode));
    assert_eq!(read(&[4, 1, b'x']), Err(FieldReadError::JsonDecode));
    assert_eq!(read(&[5, 1, 2, b'[', b']']), Err(FieldReadError::JsonDecode));
}

#[test]
fn messages_read_from_their_json() {
    assert_eq!(Message::from_json("{\"text\":\"hi\"}"), Some(Message::new("hi".to_string())));
    assert_eq!(
        Message::from_json("{ \"bold\": true, \"text\": \"a\\nb\" }"),
        Some(Message::new("a\nb".to_string()))
    );
    assert_eq!(Message::from_json("{\"text\":5}"), None);
    assert_eq!(Message::from_json("{\"other\":\"x\"}"), None);
    assert_eq!(Message::from_json("\"text\""), None);
    assert_eq!(Message::from_json("{\"text\":"), None);
    for text in ["", "plain", "quote \" and \\ and \u{1f600}"] {
        let message = Message::new(text.to_string());
        assert_eq!(Message::from_json(&message.to_json()), Some(message.clone()));
        let mut out = Vec::new();
        assert_eq!(message.write_to(&mut out), Ok(()));
        let mut r = DecodeBuffer::new(&out);
        assert_eq!(Message::read_from(&mut r), Ok(message));
        assert_eq!(r.position(), out.len());
    }
}

#[test]
fn counted_strings_read_back() {
    let lists = vec![
        Vec::new(),
        vec!["limbo".to_string()],
        vec!["a".to_string(), String::new(), "\u{65e5}\u{672c}".to_string()],
    ];
    for list in lists {
        let names = VarIntPrefixedVec(list);
        let mut out = Vec::new();
        assert_eq!(names.write_to(&mut out), Ok(()));
        let length = out.len();
        out.push(9);
        let mut r = DecodeBuffer::new(&out);
        assert_eq!(VarIntPrefixedVec::<String>::read_from(&mut r), Ok(names));
        assert_eq!(r.position(), length);
    }
    let mut r = DecodeBuffer::new(&[2, 1, b'a']);
    assert_eq!(
        VarIntPrefixedVec::<String>::read_from(&mut r),
        Err(FieldReadError::UnexpectedEnd)
    );
    let mut r = DecodeBuffer::new(&[0xff, 0xff, 0xff, 0xff, 0x0f]);
    assert_eq!(
        VarIntPrefixedVec::<String>::read_from(&mut r),
        Err(FieldReadError::UnexpectedEnd)
    );
    let mut r = DecodeBuffer::new(&[0xff, 0xff, 0xff, 0xff, 0x07, 0]);
    assert_eq!(
        VarIntPrefixedVec::<String>::read_from(&mut r),
        Err(FieldReadError::UnexpectedEnd)
    );
    let mut r = DecodeBuffer::new(&[1, 1, 0x80]);
    assert_eq!(
        VarIntPrefixedVec::<String>::read_from(&mut r),
        Err(FieldReadError::InvalidUtf8)
    );
}

#[test]
fn indices_are_numbered_in_their_order() {
    assert_eq!(MetaIndex::Flags.id(), 0);
    assert_eq!(MetaIndex::Pose.id(), 6);
    assert_eq!(MetaIndex::HandState.id(), 8);
    assert_eq!(MetaIndex::AdditionalHearts.id(), 15);
    assert_eq!(MetaIndex::SkinParts.id(), 17);
    assert_eq!(MetaIndex::MainHand.id(), 18);
    assert_eq!(MetaIndex::RightShoulderEntity.id(), 20);
    assert_eq!(END_OF_METADATA, 0xff);
}

#[test]
fn metadata_is_a_list_of_entries_behind_their_indices() {
    let metadata = EntityMetadata::new()
        .with(MetaIndex::SkinParts, MetaType::Byte(0x7f))
        .with(MetaIndex::MainHand, MetaType::Byte(1));
    let mut out = Vec::new();
    assert_eq!(metadata.write_to(&mut out), Ok(()));
    assert_eq!(out, vec![17, 0, 0x7f, 18, 0, 1, 0xff]);
    let mut r = DecodeBuffer::new(&out);
    assert_eq!(EntityMetadata::read_from(&mut r), Ok(metadata));
    assert_eq!(r.position(), out.len());

    let mut out = Vec::new();
    assert_eq!(EntityMetadata::new().write_to(&mut out), Ok(()));
    assert_eq!(out, vec![0xff]);
    let mut r = DecodeBuffer::new(&out);
    assert_eq!(EntityMetadata::read_from(&mut r), Ok(EntityMetadata::new()));
}

#[test]
fn a_later_entry_takes_the_place_of_an_earlier_one() {
    let mut metadata = EntityMetadata::new();
    metadata.add(MetaIndex::Flags, MetaType::Byte(1));
    metadata.add(MetaIndex::Silent, MetaType::Boolean(true));
    metadata.add(MetaIndex::Flags, MetaType::Byte(2));
    let mut out = Vec::new();
    assert_eq!(metadata.write_to(&mut out), Ok(()));
    assert_eq!(out, vec![0, 0, 2, 4, 7, 1, 0xff]);

    let doubled = [0u8, 0, 1, 4, 7, 1, 0, 0, 2, 0xff, 0x11];
    let mut r = DecodeBuffer::new(&doubled);
    assert_eq!(EntityMetadata::read_from(&mut r), Ok(metadata));
    assert_eq!(r.position(), 10);

    let mut raw = EntityMetadata::new();
    raw.insert(200, MetaType::VarInt(VarInt(5)));
    let mut out = Vec::new();
    assert_eq!(raw.write_to(&mut out), Ok(()));
    assert_eq!(out, vec![200, 1, 5, 0xff]);
}

#[test]
fn metadata_without_its_end_does_not_read() {
    let mut r = DecodeBuffer::new(&[]);
    assert_eq!(EntityMetadata::read_from(&mut r), Err(FieldReadError::UnexpectedEnd));
    let mut r = DecodeBuffer::new(&[0, 0, 1]);
    assert_eq!(EntityMetadata::read_from(&mut r), Err(FieldReadError::UnexpectedEnd));
    let mut r = DecodeBuffer::new(&[0, 6, 1, 0xff]);
    assert_eq!(EntityMetadata::read_from(&mut r), Err(FieldReadError::InvalidEnumVariant(6)));
    let mut r = DecodeBuffer::new(&[1]);
    assert_eq!(EntityMetadata::read_from(&mut r), Err(FieldReadError::UnexpectedEnd));
}
