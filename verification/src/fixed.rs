//! Fixed-width integers and booleans, most significant byte first.

use vstd::prelude::*;
use byteorder::{BigEndian, ByteOrder};
use crate::buffer::DecodeBuffer;
use crate::error::FieldReadError;

verus! {

/// 256 to the power `width`: the number of values that `width` bytes hold.
pub open spec fn byte_span(width: nat) -> nat
    decreases width,
{
    if width == 0 {
        1
    } else {
        256 * byte_span((width - 1) as nat)
    }
}

/// The number that the bytes of `s` spell, most significant byte first.
pub open spec fn be_value(s: Seq<u8>) -> nat
    decreases s.len(),
{
    if s.len() == 0 {
        0
    } else {
        be_value(s.drop_last()) * 256 + s.last() as nat
    }
}

/// The `width` low-order bytes of `n`, most significant byte first.
pub open spec fn be_bytes(n: nat, width: nat) -> Seq<u8>
    decreases width,
{
    if width == 0 {
        Seq::empty()
    } else {
        be_bytes(n / 256, (width - 1) as nat).push((n % 256) as u8)
    }
}

/// The value that an unsigned `n` of `width` bytes has when read as two's
/// complement.
pub open spec fn signed_of(n: nat, width: nat) -> int {
    if 2 * n >= byte_span(width) {
        n - byte_span(width)
    } else {
        n as int
    }
}

/// The unsigned representation of `v` in two's complement of `width` bytes.
pub open spec fn unsigned_of(v: int, width: nat) -> nat {
    if v < 0 {
        (v + byte_span(width)) as nat
    } else {
        v as nat
    }
}

/// An unsigned integer of `width` bytes at the front of `s`.
pub open spec fn unsigned_decoding(s: Seq<u8>, width: nat) -> Result<(nat, nat), FieldReadError> {
    if s.len() < width {
        Err(FieldReadError::UnexpectedEnd)
    } else {
        Ok((be_value(s.take(width as int)), width))
    }
}

/// A two's-complement integer of `width` bytes at the front of `s`.
pub open spec fn signed_decoding(s: Seq<u8>, width: nat) -> Result<(int, nat), FieldReadError> {
    match unsigned_decoding(s, width) {
        Ok((n, len)) => Ok((signed_of(n, width), len)),
        Err(e) => Err(e),
    }
}

/// The wire form of a two's-complement integer of `width` bytes.
pub open spec fn signed_encoding(v: int, width: nat) -> Seq<u8> {
    be_bytes(unsigned_of(v, width), width)
}

/// A boolean at the front of `s`: one byte, zero for false.
pub open spec fn bool_decoding(s: Seq<u8>) -> Result<(bool, nat), FieldReadError> {
    if s.len() < 1 {
        Err(FieldReadError::UnexpectedEnd)
    } else {
        Ok((s[0] != 0, 1))
    }
}

/// The wire form of a boolean.
pub open spec fn bool_encoding(b: bool) -> Seq<u8> {
    seq![if b { 1u8 } else { 0u8 }]
}

pub proof fn lemma_be_bytes_len(n: nat, width: nat)
    ensures
        be_bytes(n, width).len() == width,
    decreases width,
{
    if width > 0 {
        lemma_be_bytes_len(n / 256, (width - 1) as nat);
    }
}

/// The bytes of a number spell a number below the span of their width.
pub proof fn lemma_be_value_bound(s: Seq<u8>)
    ensures
        be_value(s) < byte_span(s.len()),
    decreases s.len(),
{
    if s.len() > 0 {
        lemma_be_value_bound(s.drop_last());
    }
}

/// What a fixed-width integer can be once it was decoded: it lies in the
/// range of its width and used exactly `width` bytes.
pub proof fn lemma_decoding_range(s: Seq<u8>, width: nat)
    ensures
        unsigned_decoding(s, width) matches Ok((v, n)) ==> v < byte_span(width) && n == width,
        signed_decoding(s, width) matches Ok((v, n)) ==> -(byte_span(width) as int) <= 2 * v
            < byte_span(width) && n == width,
{
    if s.len() >= width {
        lemma_be_value_bound(s.take(width as int));
    }
}

/// Reading the bytes of a number that fits its width gives the number back.
pub proof fn lemma_be_roundtrip(n: nat, width: nat)
    requires
        n < byte_span(width),
    ensures
        be_value(be_bytes(n, width)) == n,
    decreases width,
{
    if width > 0 {
        let w = (width - 1) as nat;
        let s = be_bytes(n, width);
        assert(s.drop_last() =~= be_bytes(n / 256, w));
        assert(n / 256 < byte_span(w)) by (nonlinear_arith)
            requires
                n < 256 * byte_span(w),
        ;
        lemma_be_roundtrip(n / 256, w);
    }
}

/// A two's-complement integer within the range of its width survives the
/// trip through its unsigned representation.
pub proof fn lemma_signed_roundtrip(v: int, width: nat)
    requires
        -(byte_span(width) as int) <= 2 * v < byte_span(width),
    ensures
        unsigned_of(v, width) < byte_span(width),
        signed_of(unsigned_of(v, width), width) == v,
{
}

/// Decoding the wire form of an unsigned integer gives it back, whatever
/// follows it.
pub proof fn lemma_unsigned_roundtrip(n: nat, width: nat, rest: Seq<u8>)
    requires
        n < byte_span(width),
    ensures
        unsigned_decoding(be_bytes(n, width) + rest, width) == Ok::<(nat, nat), FieldReadError>(
            (n, width),
        ),
        be_bytes(n, width).len() == width,
{
    lemma_be_bytes_len(n, width);
    lemma_be_roundtrip(n, width);
    assert((be_bytes(n, width) + rest).take(width as int) =~= be_bytes(n, width));
}

/// Decoding the wire form of a two's-complement integer gives it back,
/// whatever follows it.
pub proof fn lemma_signed_decoding_roundtrip(v: int, width: nat, rest: Seq<u8>)
    requires
        -(byte_span(width) as int) <= 2 * v < byte_span(width),
    ensures
        signed_decoding(signed_encoding(v, width) + rest, width) == Ok::<
            (int, nat),
            FieldReadError,
        >((v, width)),
        signed_encoding(v, width).len() == width,
{
    lemma_signed_roundtrip(v, width);
    lemma_unsigned_roundtrip(unsigned_of(v, width), width, rest);
}

/// Every `u8` survives the trip through its wire form, whatever follows it.
pub proof fn lemma_u8_roundtrip(value: u8, rest: Seq<u8>)
    ensures
        unsigned_decoding(be_bytes(value as nat, 1) + rest, 1) == Ok::<
            (nat, nat),
            FieldReadError,
        >((value as nat, 1)),
        be_bytes(value as nat, 1).len() == 1,
{
    reveal_with_fuel(byte_span, 9);
    lemma_unsigned_roundtrip(value as nat, 1, rest);
}

/// Every `u16` survives the trip through its wire form, whatever follows it.
pub proof fn lemma_u16_roundtrip(value: u16, rest: Seq<u8>)
    ensures
        unsigned_decoding(be_bytes(value as nat, 2) + rest, 2) == Ok::<
            (nat, nat),
            FieldReadError,
        >((value as nat, 2)),
        be_bytes(value as nat, 2).len() == 2,
{
    reveal_with_fuel(byte_span, 9);
    lemma_unsigned_roundtrip(value as nat, 2, rest);
}

/// Every `u32` survives the trip through its wire form, whatever follows it.
pub proof fn lemma_u32_roundtrip(value: u32, rest: Seq<u8>)
    ensures
        unsigned_decoding(be_bytes(value as nat, 4) + rest, 4) == Ok::<
            (nat, nat),
            FieldReadError,
        >((value as nat, 4)),
        be_bytes(value as nat, 4).len() == 4,
{
    reveal_with_fuel(byte_span, 9);
    lemma_unsigned_roundtrip(value as nat, 4, rest);
}

/// Every `u64` survives the trip through its wire form, whatever follows it.
pub proof fn lemma_u64_roundtrip(value: u64, rest: Seq<u8>)
    ensures
        unsigned_decoding(be_bytes(value as nat, 8) + rest, 8) == Ok::<
            (nat, nat),
            FieldReadError,
        >((value as nat, 8)),
        be_bytes(value as nat, 8).len() == 8,
{
    reveal_with_fuel(byte_span, 9);
    lemma_unsigned_roundtrip(value as nat, 8, rest);
}

/// Every `i8` survives the trip through its wire form, whatever follows it.
pub proof fn lemma_i8_roundtrip(value: i8, rest: Seq<u8>)
    ensures
        signed_decoding(signed_encoding(value as int, 1) + rest, 1) == Ok::<
            (int, nat),
            FieldReadError,
        >((value as int, 1)),
        signed_encoding(value as int, 1).len() == 1,
{
    reveal_with_fuel(byte_span, 9);
    lemma_signed_decoding_roundtrip(value as int, 1, rest);
}

/// Every `i16` survives the trip through its wire form, whatever follows it.
pub proof fn lemma_i16_roundtrip(value: i16, rest: Seq<u8>)
    ensures
        signed_decoding(signed_encoding(value as int, 2) + rest, 2) == Ok::<
            (int, nat),
            FieldReadError,
        >((value as int, 2)),
        signed_encoding(value as int, 2).len() == 2,
{
    reveal_with_fuel(byte_span, 9);
    lemma_signed_decoding_roundtrip(value as int, 2, rest);
}

/// Every `i32` survives the trip through its wire form, whatever follows it.
pub proof fn lemma_i32_roundtrip(value: i32, rest: Seq<u8>)
    ensures
        signed_decoding(signed_encoding(value as int, 4) + rest, 4) == Ok::<
            (int, nat),
            FieldReadError,
        >((value as int, 4)),
        signed_encoding(value as int, 4).len() == 4,
{
    reveal_with_fuel(byte_span, 9);
    lemma_signed_decoding_roundtrip(value as int, 4, rest);
}

/// Every `i64` survives the trip through its wire form, whatever follows it.
pub proof fn lemma_i64_roundtrip(value: i64, rest: Seq<u8>)
    ensures
        signed_decoding(signed_encoding(value as int, 8) + rest, 8) == Ok::<
            (int, nat),
            FieldReadError,
        >((value as int, 8)),
        signed_encoding(value as int, 8).len() == 8,
{
    reveal_with_fuel(byte_span, 9);
    lemma_signed_decoding_roundtrip(value as int, 8, rest);
}

/// `byteorder::BigEndian::read_uint`: the unsigned integer that the first
/// `nbytes` bytes of `buf` spell, most significant byte first. The crate
/// panics outside the stated widths or on a shorter slice.
#[verifier::external_body]
fn be_read(buf: &[u8], nbytes: usize) -> (v: u64)
    requires
        1 <= nbytes <= 8,
        nbytes <= buf@.len(),
    ensures
        v as nat == be_value(buf@.take(nbytes as int)),
{
    BigEndian::read_uint(buf, nbytes)
}

/// `byteorder::BigEndian::write_uint`: the `nbytes` bytes that spell `n`,
/// most significant byte first. The crate panics when `n` needs more bytes.
#[verifier::external_body]
fn be_write(n: u64, nbytes: usize) -> (out: Vec<u8>)
    requires
        1 <= nbytes <= 8,
        (n as nat) < byte_span(nbytes as nat),
    ensures
        out@ == be_bytes(n as nat, nbytes as nat),
{
    let mut out = vec![0u8; nbytes];
    BigEndian::write_uint(&mut out, n, nbytes);
    out
}

fn read_unsigned(r: &mut DecodeBuffer, width: usize) -> (res: Result<u64, FieldReadError>)
    requires
        1 <= width <= 8,
    ensures
        final(r).data() == old(r).data(),
        match unsigned_decoding(old(r).remaining(), width as nat) {
            Ok((v, n)) => res == Ok::<u64, FieldReadError>(v as u64) && v < byte_span(width as nat)
                && v <= u64::MAX
                    && final(r).offset() == old(r).offset() + n
                    && final(r).remaining() == old(r).remaining().skip(n as int),
            Err(e) => res == Err::<u64, FieldReadError>(e) && final(r).offset() == old(r).offset(),
        },
{
    match r.take(width) {
        Some(bytes) => {
            let v = be_read(bytes, width);
            proof {
                let rem = old(r).remaining();
                assert(bytes@.take(width as int) =~= rem.take(width as int));
                lemma_be_value_bound(rem.take(width as int));
            }
            Ok(v)
        },
        None => Err(FieldReadError::UnexpectedEnd),
    }
}

fn write_unsigned(buffer: &mut Vec<u8>, n: u64, width: usize)
    requires
        1 <= width <= 8,
        (n as nat) < byte_span(width as nat),
    ensures
        final(buffer)@ == old(buffer)@ + be_bytes(n as nat, width as nat),
{
    let mut bytes = be_write(n, width);
    buffer.append(&mut bytes);
}

/// Reads a big-endian `u8` and moves past it. When fewer than 1 byte(s)
/// are left the buffer stays where it was.
pub fn read_u8(r: &mut DecodeBuffer) -> (res: Result<u8, FieldReadError>)
    ensures
        final(r).data() == old(r).data(),
        match unsigned_decoding(old(r).remaining(), 1) {
            Ok((v, n)) => res == Ok::<u8, FieldReadError>(v as u8)
                && final(r).offset() == old(r).offset() + n
                && final(r).remaining() == old(r).remaining().skip(n as int),
            Err(e) => res == Err::<u8, FieldReadError>(e) && final(r).offset() == old(r).offset(),
        },
{
    reveal_with_fuel(byte_span, 9);
    match read_unsigned(r, 1) {
        Ok(v) => Ok(v as u8),
        Err(e) => Err(e),
    }
}

/// Appends `value` in big-endian order.
pub fn write_u8(buffer: &mut Vec<u8>, value: u8)
    ensures
        final(buffer)@ == old(buffer)@ + be_bytes(value as nat, 1),
{
    reveal_with_fuel(byte_span, 9);
    write_unsigned(buffer, value as u64, 1);
}

/// Reads a big-endian `u16` and moves past it. When fewer than 2 byte(s)
/// are left the buffer stays where it was.
pub fn read_u16(r: &mut DecodeBuffer) -> (res: Result<u16, FieldReadError>)
    ensures
        final(r).data() == old(r).data(),
        match unsigned_decoding(old(r).remaining(), 2) {
            Ok((v, n)) => res == Ok::<u16, FieldReadError>(v as u16)
                && final(r).offset() == old(r).offset() + n
                && final(r).remaining() == old(r).remaining().skip(n as int),
            Err(e) => res == Err::<u16, FieldReadError>(e) && final(r).offset() == old(r).offset(),
        },
{
    reveal_with_fuel(byte_span, 9);
    match read_unsigned(r, 2) {
        Ok(v) => Ok(v as u16),
        Err(e) => Err(e),
    }
}

/// Appends `value` in big-endian order.
pub fn write_u16(buffer: &mut Vec<u8>, value: u16)
    ensures
        final(buffer)@ == old(buffer)@ + be_bytes(value as nat, 2),
{
    reveal_with_fuel(byte_span, 9);
    write_unsigned(buffer, value as u64, 2);
}

/// Reads a big-endian `u32` and moves past it. When fewer than 4 byte(s)
/// are left the buffer stays where it was.
pub fn read_u32(r: &mut DecodeBuffer) -> (res: Result<u32, FieldReadError>)
    ensures
        final(r).data() == old(r).data(),
        match unsigned_decoding(old(r).remaining(), 4) {
            Ok((v, n)) => res == Ok::<u32, FieldReadError>(v as u32)
                && final(r).offset() == old(r).offset() + n
                && final(r).remaining() == old(r).remaining().skip(n as int),
            Err(e) => res == Err::<u32, FieldReadError>(e) && final(r).offset() == old(r).offset(),
        },
{
    reveal_with_fuel(byte_span, 9);
    match read_unsigned(r, 4) {
        Ok(v) => Ok(v as u32),
        Err(e) => Err(e),
    }
}

/// Appends `value` in big-endian order.
pub fn write_u32(buffer: &mut Vec<u8>, value: u32)
    ensures
        final(buffer)@ == old(buffer)@ + be_bytes(value as nat, 4),
{
    reveal_with_fuel(byte_span, 9);
    write_unsigned(buffer, value as u64, 4);
}

/// Reads a big-endian `u64` and moves past it. When fewer than 8 byte(s)
/// are left the buffer stays where it was.
pub fn read_u64(r: &mut DecodeBuffer) -> (res: Result<u64, FieldReadError>)
    ensures
        final(r).data() == old(r).data(),
        match unsigned_decoding(old(r).remaining(), 8) {
            Ok((v, n)) => res == Ok::<u64, FieldReadError>(v as u64)
                && final(r).offset() == old(r).offset() + n
                && final(r).remaining() == old(r).remaining().skip(n as int),
            Err(e) => res == Err::<u64, FieldReadError>(e) && final(r).offset() == old(r).offset(),
        },
{
    reveal_with_fuel(byte_span, 9);
    match read_unsigned(r, 8) {
        Ok(v) => Ok(v as u64),
        Err(e) => Err(e),
    }
}

/// Appends `value` in big-endian order.
pub fn write_u64(buffer: &mut Vec<u8>, value: u64)
    ensures
        final(buffer)@ == old(buffer)@ + be_bytes(value as nat, 8),
{
    reveal_with_fuel(byte_span, 9);
    write_unsigned(buffer, value as u64, 8);
}

/// Reads a big-endian two's-complement `i8` and moves past it. When fewer
/// than 1 byte(s) are left the buffer stays where it was.
pub fn read_i8(r: &mut DecodeBuffer) -> (res: Result<i8, FieldReadError>)
    ensures
        final(r).data() == old(r).data(),
        match signed_decoding(old(r).remaining(), 1) {
            Ok((v, n)) => res == Ok::<i8, FieldReadError>(v as i8)
                && final(r).offset() == old(r).offset() + n
                && final(r).remaining() == old(r).remaining().skip(n as int),
            Err(e) => res == Err::<i8, FieldReadError>(e) && final(r).offset() == old(r).offset(),
        },
{
    reveal_with_fuel(byte_span, 9);
    match read_unsigned(r, 1) {
        Ok(v) => {
            let u: u8 = v as u8;
            let value: i8 = #[verifier::truncate]
            (u as i8);
            assert((u >= 0x80 ==> value == u - 0x100) && (u < 0x80 ==> value == u))
                by (bit_vector)
                requires
                    value == u as i8,
            ;
            Ok(value)
        },
        Err(e) => Err(e),
    }
}

/// Appends `value` in big-endian two's complement.
pub fn write_i8(buffer: &mut Vec<u8>, value: i8)
    ensures
        final(buffer)@ == old(buffer)@ + signed_encoding(value as int, 1),
{
    reveal_with_fuel(byte_span, 9);
    let u: u8 = #[verifier::truncate]
    (value as u8);
    assert((value < 0 ==> u == value + 0x100) && (value >= 0 ==> u == value)) by (bit_vector)
        requires
            u == value as u8,
    ;
    write_unsigned(buffer, u as u64, 1);
}

/// Reads a big-endian two's-complement `i16` and moves past it. When fewer
/// than 2 byte(s) are left the buffer stays where it was.
pub fn read_i16(r: &mut DecodeBuffer) -> (res: Result<i16, FieldReadError>)
    ensures
        final(r).data() == old(r).data(),
        match signed_decoding(old(r).remaining(), 2) {
            Ok((v, n)) => res == Ok::<i16, FieldReadError>(v as i16)
                && final(r).offset() == old(r).offset() + n
                && final(r).remaining() == old(r).remaining().skip(n as int),
            Err(e) => res == Err::<i16, FieldReadError>(e) && final(r).offset() == old(r).offset(),
        },
{
    reveal_with_fuel(byte_span, 9);
    match read_unsigned(r, 2) {
        Ok(v) => {
            let u: u16 = v as u16;
            let value: i16 = #[verifier::truncate]
            (u as i16);
            assert((u >= 0x8000 ==> value == u - 0x10000) && (u < 0x8000 ==> value == u))
                by (bit_vector)
                requires
                    value == u as i16,
            ;
            Ok(value)
        },
        Err(e) => Err(e),
    }
}

/// Appends `value` in big-endian two's complement.
pub fn write_i16(buffer: &mut Vec<u8>, value: i16)
    ensures
        final(buffer)@ == old(buffer)@ + signed_encoding(value as int, 2),
{
    reveal_with_fuel(byte_span, 9);
    let u: u16 = #[verifier::truncate]
    (value as u16);
    assert((value < 0 ==> u == value + 0x10000) && (value >= 0 ==> u == value)) by (bit_vector)
        requires
            u == value as u16,
    ;
    write_unsigned(buffer, u as u64, 2);
}

/// Reads a big-endian two's-complement `i32` and moves past it. When fewer
/// than 4 byte(s) are left the buffer stays where it was.
pub fn read_i32(r: &mut DecodeBuffer) -> (res: Result<i32, FieldReadError>)
    ensures
        final(r).data() == old(r).data(),
        match signed_decoding(old(r).remaining(), 4) {
            Ok((v, n)) => res == Ok::<i32, FieldReadError>(v as i32)
                && final(r).offset() == old(r).offset() + n
                && final(r).remaining() == old(r).remaining().skip(n as int),
            Err(e) => res == Err::<i32, FieldReadError>(e) && final(r).offset() == old(r).offset(),
        },
{
    reveal_with_fuel(byte_span, 9);
    match read_unsigned(r, 4) {
        Ok(v) => {
            let u: u32 = v as u32;
            let value: i32 = #[verifier::truncate]
            (u as i32);
            assert((u >= 0x80000000 ==> value == u - 0x100000000)
                && (u < 0x80000000 ==> value == u))
                by (bit_vector)
                requires
                    value == u as i32,
            ;
            Ok(value)
        },
        Err(e) => Err(e),
    }
}

/// Appends `value` in big-endian two's complement.
pub fn write_i32(buffer: &mut Vec<u8>, value: i32)
    ensures
        final(buffer)@ == old(buffer)@ + signed_encoding(value as int, 4),
{
    reveal_with_fuel(byte_span, 9);
    let u: u32 = #[verifier::truncate]
    (value as u32);
    assert((value < 0 ==> u == value + 0x100000000) && (value >= 0 ==> u == value)) by (bit_vector)
        requires
            u == value as u32,
    ;
    write_unsigned(buffer, u as u64, 4);
}

/// Reads a big-endian two's-complement `i64` and moves past it. When fewer
/// than 8 byte(s) are left the buffer stays where it was.
pub fn read_i64(r: &mut DecodeBuffer) -> (res: Result<i64, FieldReadError>)
    ensures
        final(r).data() == old(r).data(),
        match signed_decoding(old(r).remaining(), 8) {
            Ok((v, n)) => res == Ok::<i64, FieldReadError>(v as i64)
                && final(r).offset() == old(r).offset() + n
                && final(r).remaining() == old(r).remaining().skip(n as int),
            Err(e) => res == Err::<i64, FieldReadError>(e) && final(r).offset() == old(r).offset(),
        },
{
    reveal_with_fuel(byte_span, 9);
    match read_unsigned(r, 8) {
        Ok(v) => {
            let u: u64 = v as u64;
            let value: i64 = #[verifier::truncate]
            (u as i64);
            assert((u >= 0x8000000000000000 ==> value == u - 0x10000000000000000)
                && (u < 0x8000000000000000 ==> value == u))
                by (bit_vector)
                requires
                    value == u as i64,
            ;
            Ok(value)
        },
        Err(e) => Err(e),
    }
}

/// Appends `value` in big-endian two's complement.
pub fn write_i64(buffer: &mut Vec<u8>, value: i64)
    ensures
        final(buffer)@ == old(buffer)@ + signed_encoding(value as int, 8),
{
    reveal_with_fuel(byte_span, 9);
    let u: u64 = #[verifier::truncate]
    (value as u64);
    assert((value < 0 ==> u == value + 0x10000000000000000)
        && (value >= 0 ==> u == value)) by (bit_vector)
        requires
            u == value as u64,
    ;
    write_unsigned(buffer, u as u64, 8);
}

/// Reads a boolean: one byte, zero for false and anything else for true.
pub fn read_bool(r: &mut DecodeBuffer) -> (res: Result<bool, FieldReadError>)
    ensures
        final(r).data() == old(r).data(),
        match bool_decoding(old(r).remaining()) {
            Ok((v, n)) => res == Ok::<bool, FieldReadError>(v)
                && final(r).offset() == old(r).offset() + n
                && final(r).remaining() == old(r).remaining().skip(n as int),
            Err(e) => res == Err::<bool, FieldReadError>(e) && final(r).offset() == old(r).offset(),
        },
{
    match r.take(1) {
        Some(bytes) => Ok(bytes[0] != 0),
        None => Err(FieldReadError::UnexpectedEnd),
    }
}

/// Appends a boolean as one byte, `1` for true and `0` for false.
pub fn write_bool(buffer: &mut Vec<u8>, value: bool)
    ensures
        final(buffer)@ == old(buffer)@ + bool_encoding(value),
{
    let byte: u8 = if value {
        1
    } else {
        0
    };
    buffer.push(byte);
    assert(buffer@ =~= old(buffer)@ + bool_encoding(value));
}

/// A boolean survives the trip through its wire form, whatever follows it.
pub proof fn lemma_bool_roundtrip(b: bool, rest: Seq<u8>)
    ensures
        bool_decoding(bool_encoding(b) + rest) == Ok::<(bool, nat), FieldReadError>((b, 1)),
{
}

} // verus!
