use limbo::buffer::DecodeBuffer;
use limbo::error::{FieldReadError, FieldWriteError};
use limbo::fixed::{
    read_bool, read_i16, read_i32, read_i64, read_i8, read_u16, read_u32, read_u64, read_u8,
    write_bool, write_i16, write_i32, write_i64, write_i8, write_u16, write_u32, write_u64,
    write_u8,
};
use limbo::io::{read_uuid, write_uuid, BooleanPrefixedOption, RawBytes, VarIntPrefixedVec};
use limbo::text::{read_prefixed, read_string, write_prefixed, write_string};
use limbo::types::{read_optional_game_mode, write_optional_game_mode, GameMode, Position};

#[test]
fn decode_buffer_tracks_its_position() {
    let bytes = [1u8, 2, 3, 4, 5];
    let mut r = DecodeBuffer::new(&bytes);
    assert_eq!(r.position(), 0);
    assert_eq!(r.slice(), &bytes[..]);
    r.advance(2);
    assert_eq!(r.position(), 2);
    assert_eq!(r.slice(), &[3u8, 4, 5][..]);
    assert_eq!(r.take(2), Some(&[3u8, 4][..]));
    assert_eq!(r.position(), 4);
    assert_eq!(r.take(2), None);
    assert_eq!(r.position(), 4);
    r.advance(100);
    assert_eq!(r.position(), 5);
    assert!(r.slice().is_empty());
    r.advance(usize::MAX);
    assert_eq!(r.position(), 5);
}

#[test]
fn unsigned_integers_are_big_endian() {
    let mut out = Vec::new();
    write_u8(&mut out, 0xab);
    write_u16(&mut out, 25565);
    write_u32(&mut out, 0xdead_beef);
    write_u64(&mut out, 0x0102_0304_0506_0708);
    assert_eq!(
        out,
        vec![0xab, 0x63, 0xdd, 0xde, 0xad, 0xbe, 0xef, 1, 2, 3, 4, 5, 6, 7, 8]
    );
    let mut r = DecodeBuffer::new(&out);
    assert_eq!(read_u8(&mut r), Ok(0xab));
    assert_eq!(read_u16(&mut r), Ok(25565));
    assert_eq!(read_u32(&mut r), Ok(0xdead_beef));
    assert_eq!(read_u64(&mut r), Ok(0x0102_0304_0506_0708));
    assert_eq!(r.position(), out.len());
}

#[test]
fn signed_integers_are_twos_complement() {
    let mut out = Vec::new();
    write_i8(&mut out, -1);
    write_i16(&mut out, -5000);
    write_i32(&mut out, i32::MIN);
    write_i64(&mut out, -2);
    assert_eq!(
        out,
        vec![
            0xff, 0xec, 0x78, 0x80, 0, 0, 0, 0xff, 0xff, 0xff, 0xff, 0xff, 0xff, 0xff, 0xfe
        ]
    );
    let mut r = DecodeBuffer::new(&out);
    assert_eq!(read_i8(&mut r), Ok(-1));
    assert_eq!(read_i16(&mut r), Ok(-5000));
    assert_eq!(read_i32(&mut r), Ok(i32::MIN));
    assert_eq!(read_i64(&mut r), Ok(-2));
}

#[test]
fn signed_extremes_round_trip() {
    for value in [i64::MIN, -1, 0, 1, 42, i64::MAX] {
        let mut out = Vec::new();
        write_i64(&mut out, value);
        assert_eq!(out.len(), 8);
        let mut r = DecodeBuffer::new(&out);
        assert_eq!(read_i64(&mut r), Ok(value));
    }
    for value in [i8::MIN, -1, 0, 1, i8::MAX] {
        let mut out = Vec::new();
        write_i8(&mut out, value);
        let mut r = DecodeBuffer::new(&out);
        assert_eq!(read_i8(&mut r), Ok(value));
    }
}

#[test]
fn short_input_is_unexpected_end_and_leaves_the_buffer() {
    let bytes = [1u8, 2, 3];
    let mut r = DecodeBuffer::new(&bytes);
    assert_eq!(read_u32(&mut r), Err(FieldReadError::UnexpectedEnd));
    assert_eq!(read_i64(&mut r), Err(FieldReadError::UnexpectedEnd));
    assert_eq!(r.position(), 0);
    assert_eq!(read_u16(&mut r), Ok(0x0102));
    assert_eq!(read_u16(&mut r), Err(FieldReadError::UnexpectedEnd));
    assert_eq!(read_u8(&mut r), Ok(3));
    assert_eq!(read_u8(&mut r), Err(FieldReadError::UnexpectedEnd));
    assert_eq!(read_bool(&mut r), Err(FieldReadError::UnexpectedEnd));
}

#[test]
fn booleans_take_one_byte() {
    let mut out = Vec::new();
    write_bool(&mut out, true);
    write_bool(&mut out, false);
    assert_eq!(out, vec![1, 0]);
    let bytes = [0u8, 1, 2, 0xff];
    let mut r = DecodeBuffer::new(&bytes);
    assert_eq!(read_bool(&mut r), Ok(false));
    assert_eq!(read_bool(&mut r), Ok(true));
    assert_eq!(read_bool(&mut r), Ok(true));
    assert_eq!(read_bool(&mut r), Ok(true));
}

#[test]
fn strings_carry_their_byte_length() {
    let mut out = Vec::new();
    assert_eq!(write_string(&mut out, "localhost"), Ok(()));
    assert_eq!(out, b"\x09localhost".to_vec());
    let mut r = DecodeBuffer::new(&out);
    assert_eq!(read_string(&mut r), Ok("localhost".to_string()));
    assert_eq!(r.position(), 10);
}

#[test]
fn strings_round_trip_with_wide_characters() {
    for text in ["", "a", "h\u{e9}llo", "\u{65e5}\u{672c}\u{8a9e}", "\u{1f600} ok"] {
        let mut out = Vec::new();
        assert_eq!(write_string(&mut out, text), Ok(()));
        assert_eq!(out[0] as usize, text.len());
        out.push(0x55);
        let mut r = DecodeBuffer::new(&out);
        assert_eq!(read_string(&mut r), Ok(text.to_string()));
        assert_eq!(r.position(), out.len() - 1);
    }
}

#[test]
fn long_strings_round_trip() {
    let text = "x".repeat(1 << 21);
    let mut out = Vec::new();
    assert_eq!(write_string(&mut out, &text), Ok(()));
    assert_eq!(&out[..4], &[0x80, 0x80, 0x80, 0x01]);
    let mut r = DecodeBuffer::new(&out);
    assert_eq!(read_string(&mut r), Ok(text));
}

#[test]
fn strings_reject_bad_utf8_and_short_input() {
    let bad = [2u8, 0xc3, 0x28];
    let mut r = DecodeBuffer::new(&bad);
    assert_eq!(read_string(&mut r), Err(FieldReadError::InvalidUtf8));
    let short = [5u8, b'a', b'b'];
    let mut r = DecodeBuffer::new(&short);
    assert_eq!(read_string(&mut r), Err(FieldReadError::UnexpectedEnd));
    let negative = [0xffu8, 0xff, 0xff, 0xff, 0x0f, b'a'];
    let mut r = DecodeBuffer::new(&negative);
    assert_eq!(read_string(&mut r), Err(FieldReadError::UnexpectedEnd));
    let nothing: [u8; 0] = [];
    let mut r = DecodeBuffer::new(&nothing);
    assert_eq!(read_string(&mut r), Err(FieldReadError::UnexpectedEnd));
    let too_large = [0x80u8, 0x80, 0x80, 0x80, 0x80];
    let mut r = DecodeBuffer::new(&too_large);
    assert_eq!(read_string(&mut r), Err(FieldReadError::VariableTooLarge));
}

#[test]
fn prefixed_bytes_round_trip() {
    let mut out = Vec::new();
    assert_eq!(write_prefixed(&mut out, &[9, 8, 7]), Ok(()));
    assert_eq!(out, vec![3, 9, 8, 7]);
    let mut r = DecodeBuffer::new(&out);
    assert_eq!(read_prefixed(&mut r), Ok(&[9u8, 8, 7][..]));
    let mut list = Vec::new();
    assert_eq!(VarIntPrefixedVec(vec![1u8, 2]).write_to(&mut list), Ok(()));
    assert_eq!(list, vec![2, 1, 2]);
    let mut r = DecodeBuffer::new(&list);
    assert_eq!(
        VarIntPrefixedVec::<u8>::read_from(&mut r),
        Ok(VarIntPrefixedVec(vec![1u8, 2]))
    );
}

#[test]
fn counted_strings_are_written_one_after_the_other() {
    let names = VarIntPrefixedVec(vec!["limbo".to_string(), "".to_string(), "ab".to_string()]);
    let mut out = Vec::new();
    assert_eq!(names.write_to(&mut out), Ok(()));
    assert_eq!(out, b"\x03\x05limbo\x00\x02ab".to_vec());
    let none: VarIntPrefixedVec<String> = VarIntPrefixedVec(Vec::new());
    let mut out = Vec::new();
    assert_eq!(none.write_to(&mut out), Ok(()));
    assert_eq!(out, vec![0]);
}

#[test]
fn raw_bytes_take_the_rest() {
    let bytes = [1u8, 2, 3, 4];
    let mut r = DecodeBuffer::new(&bytes);
    r.advance(1);
    let raw = RawBytes::read_from(&mut r);
    assert_eq!(raw, RawBytes::new(vec![2, 3, 4]));
    assert_eq!(r.position(), 4);
    let mut out = vec![0xaa];
    raw.write_to(&mut out);
    assert_eq!(out, vec![0xaa, 2, 3, 4]);
}

#[test]
fn optional_strings_follow_a_flag() {
    let mut out = Vec::new();
    assert_eq!(BooleanPrefixedOption(Some("hi".to_string())).write_to(&mut out), Ok(()));
    assert_eq!(BooleanPrefixedOption::<String>(None).write_to(&mut out), Ok(()));
    assert_eq!(out, vec![1, 2, b'h', b'i', 0]);
    let mut r = DecodeBuffer::new(&out);
    assert_eq!(
        BooleanPrefixedOption::<String>::read_from(&mut r),
        Ok(BooleanPrefixedOption(Some("hi".to_string())))
    );
    assert_eq!(
        BooleanPrefixedOption::<String>::read_from(&mut r),
        Ok(BooleanPrefixedOption(None))
    );
    assert_eq!(
        BooleanPrefixedOption::<String>::read_from(&mut r),
        Err(FieldReadError::UnexpectedEnd)
    );
    let cut = [1u8, 4, b'a'];
    let mut r = DecodeBuffer::new(&cut);
    assert_eq!(
        BooleanPrefixedOption::<String>::read_from(&mut r),
        Err(FieldReadError::UnexpectedEnd)
    );
}

#[test]
fn uuids_are_two_words_high_first() {
    let uuid: u128 = 0x0011_2233_4455_6677_8899_aabb_ccdd_eeff;
    let mut out = Vec::new();
    write_uuid(&mut out, uuid);
    assert_eq!(
        out,
        vec![
            0x00, 0x11, 0x22, 0x33, 0x44, 0x55, 0x66, 0x77, 0x88, 0x99, 0xaa, 0xbb, 0xcc, 0xdd,
            0xee, 0xff
        ]
    );
    let expected = uuid::Uuid::from_u128(uuid);
    let (hi, lo) = expected.as_u64_pair();
    assert_eq!(&out[..8], &hi.to_be_bytes());
    assert_eq!(&out[8..], &lo.to_be_bytes());
    let mut r = DecodeBuffer::new(&out);
    assert_eq!(read_uuid(&mut r), Ok(uuid));
    let mut r = DecodeBuffer::new(&out[..15]);
    assert_eq!(read_uuid(&mut r), Err(FieldReadError::UnexpectedEnd));
    for value in [0u128, 1, u128::MAX, 1 << 64, (1 << 64) - 1] {
        let mut out = Vec::new();
        write_uuid(&mut out, value);
        let mut r = DecodeBuffer::new(&out);
        assert_eq!(read_uuid(&mut r), Ok(value));
    }
}

#[test]
fn position_packs_into_one_word() {
    let position = Position::new(18357644, 831, -20882616);
    assert_eq!(position.pack(), 0x4607632c15b4833f);
    assert_eq!(position.pack() >> 38, 18357644);
    assert_eq!(position.pack() & 0xfff, 831);
    assert_eq!((position.pack() >> 12) & 0x3ffffff, (-20882616i32 as u64) & 0x3ffffff);
    assert_eq!(Position::unpack(0x4607632c15b4833f), position);
    let mut out = Vec::new();
    position.write_to(&mut out);
    assert_eq!(out, vec![0x46, 0x07, 0x63, 0x2c, 0x15, 0xb4, 0x83, 0x3f]);
    let mut r = DecodeBuffer::new(&out);
    assert_eq!(Position::read_from(&mut r), Ok(position));
}

#[test]
fn position_round_trips_at_the_edges_of_its_fields() {
    let xz = [-(1 << 25), -1, 0, 1, (1 << 25) - 1];
    let ys = [-(1 << 11), -1, 0, 64, (1 << 11) - 1];
    for x in xz {
        for z in xz {
            for y in ys {
                let position = Position::new(x, y, z);
                assert_eq!(Position::unpack(position.pack()), position);
            }
        }
    }
}

#[test]
fn position_outside_its_fields_loses_high_bits() {
    let position = Position::new(1 << 25, 1 << 11, 0);
    assert_eq!(Position::unpack(position.pack()), Position::new(-(1 << 25), -(1 << 11), 0));
    let mut r = DecodeBuffer::new(&[0u8; 7]);
    assert_eq!(Position::read_from(&mut r), Err(FieldReadError::UnexpectedEnd));
}

#[test]
fn game_modes_are_one_signed_byte() {
    let modes = [
        (GameMode::Survival, 0u8),
        (GameMode::Creative, 1),
        (GameMode::Adventure, 2),
        (GameMode::Spectator, 3),
    ];
    for (mode, byte) in modes {
        let mut out = Vec::new();
        mode.write_to(&mut out);
        assert_eq!(out, vec![byte]);
        let mut r = DecodeBuffer::new(&out);
        assert_eq!(GameMode::read_from(&mut r), Ok(mode));
        let mut r = DecodeBuffer::new(&out);
        assert_eq!(read_optional_game_mode(&mut r), Ok(Some(mode)));
        assert_eq!(GameMode::from_id(mode.id()), Some(mode));
    }
    let mut out = Vec::new();
    write_optional_game_mode(&mut out, None);
    write_optional_game_mode(&mut out, Some(GameMode::Creative));
    assert_eq!(out, vec![0xff, 1]);
    let mut r = DecodeBuffer::new(&out);
    assert_eq!(read_optional_game_mode(&mut r), Ok(None));
    assert_eq!(read_optional_game_mode(&mut r), Ok(Some(GameMode::Creative)));
}

#[test]
fn unknown_game_mode_is_an_invalid_variant() {
    let mut r = DecodeBuffer::new(&[4u8]);
    assert_eq!(GameMode::read_from(&mut r), Err(FieldReadError::InvalidEnumVariant(4)));
    let mut r = DecodeBuffer::new(&[0xffu8]);
    assert_eq!(GameMode::read_from(&mut r), Err(FieldReadError::InvalidEnumVariant(-1)));
    let mut r = DecodeBuffer::new(&[0xfeu8]);
    assert_eq!(read_optional_game_mode(&mut r), Err(FieldReadError::InvalidEnumVariant(-2)));
    let nothing: [u8; 0] = [];
    let mut r = DecodeBuffer::new(&nothing);
    assert_eq!(GameMode::read_from(&mut r), Err(FieldReadError::UnexpectedEnd));
    assert_eq!(GameMode::from_id(9), None);
}

#[test]
fn length_overflow_is_the_only_write_error() {
    assert_eq!(
        format!("{:?}", FieldWriteError::LengthOverflow),
        "LengthOverflow".to_string()
    );
    let mut out = Vec::new();
    assert_eq!(write_prefixed(&mut out, &[]), Ok(()));
    assert_eq!(out, vec![0]);
}
