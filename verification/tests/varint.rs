use limbo::buffer::DecodeBuffer;
use limbo::error::FieldReadError;
use limbo::varint::VarInt;

fn encode(value: i32) -> Vec<u8> {
    let mut out = Vec::new();
    VarInt(value).write_to(&mut out);
    out
}

#[test]
fn varint_corner_values_encode_as_documented() {
    assert_eq!(encode(0), vec![0x00]);
    assert_eq!(encode(1), vec![0x01]);
    assert_eq!(encode(127), vec![0x7f]);
    assert_eq!(encode(128), vec![0x80, 0x01]);
    assert_eq!(encode(2147483647), vec![0xff, 0xff, 0xff, 0xff, 0x07]);
    assert_eq!(encode(-1), vec![0xff, 0xff, 0xff, 0xff, 0x0f]);
}

#[test]
fn varint_round_trip_on_chosen_values() {
    for value in [0, 1, -1, 127, 128, 255, 25565, i32::MAX, i32::MIN, -123456] {
        let bytes = encode(value);
        assert!(!bytes.is_empty() && bytes.len() <= 5);
        let mut r = DecodeBuffer::new(&bytes);
        assert_eq!(VarInt::read_from(&mut r), Ok(VarInt(value)));
        assert_eq!(r.position(), bytes.len());
    }
}

#[test]
fn varint_with_fifth_continuation_is_too_large() {
    let bytes = [0x80u8, 0x80, 0x80, 0x80, 0x80, 0x01];
    let mut r = DecodeBuffer::new(&bytes);
    assert_eq!(VarInt::read_from(&mut r), Err(FieldReadError::VariableTooLarge));
}

#[test]
fn varint_cut_short_is_unexpected_end() {
    let bytes = [0x80u8, 0x80];
    let mut r = DecodeBuffer::new(&bytes);
    assert_eq!(VarInt::read_from(&mut r), Err(FieldReadError::UnexpectedEnd));
    assert_eq!(r.position(), 0);
}
