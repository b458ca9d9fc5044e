//! Strings on the wire: a variable-length integer that gives the number of
//! bytes, then that many bytes of UTF-8.

use vstd::prelude::*;
use vstd::slice::slice_to_vec;
use vstd::string::StringSliceAdditionalSpecFns;
use vstd::utf8::{decode_utf8, encode_utf8, valid_utf8};
use crate::buffer::DecodeBuffer;
use crate::error::{FieldReadError, FieldWriteError};
use crate::varint::{lemma_varint_roundtrip, varint_decoding, varint_encoding, VarInt};

verus! {

/// The largest length that a length prefix can carry.
pub const MAX_LENGTH: usize = 0x7fff_ffff;

/// The wire form of a run of bytes behind its length prefix.
pub open spec fn prefixed_encoding(bytes: Seq<u8>) -> Seq<u8>
    recommends
        bytes.len() <= MAX_LENGTH,
{
    varint_encoding(bytes.len() as i32) + bytes
}

/// The run of bytes at the front of `s` that its length prefix announces,
/// and the number of bytes used. A negative length announces more than any
/// input holds.
pub open spec fn prefixed_decoding(s: Seq<u8>) -> Result<(Seq<u8>, nat), FieldReadError> {
    match varint_decoding(s) {
        Err(e) => Err(e),
        Ok((len, n)) => if len < 0 || s.len() - n < len {
            Err(FieldReadError::UnexpectedEnd)
        } else {
            Ok((s.subrange(n as int, n + len), (n + len) as nat))
        },
    }
}

/// The wire form of a string.
pub open spec fn string_encoding(s: Seq<char>) -> Seq<u8>
    recommends
        encode_utf8(s).len() <= MAX_LENGTH,
{
    prefixed_encoding(encode_utf8(s))
}

/// The string at the front of `s` and the number of bytes used.
pub open spec fn string_decoding(s: Seq<u8>) -> Result<(Seq<char>, nat), FieldReadError> {
    match prefixed_decoding(s) {
        Err(e) => Err(e),
        Ok((bytes, n)) => if valid_utf8(bytes) {
            Ok((decode_utf8(bytes), n))
        } else {
            Err(FieldReadError::InvalidUtf8)
        },
    }
}

/// A run of bytes that fits the length prefix survives the trip through its
/// wire form, whatever follows it.
pub proof fn lemma_prefixed_roundtrip(bytes: Seq<u8>, rest: Seq<u8>)
    requires
        bytes.len() <= MAX_LENGTH,
    ensures
        prefixed_decoding(prefixed_encoding(bytes) + rest) == Ok::<(Seq<u8>, nat), FieldReadError>(
            (bytes, prefixed_encoding(bytes).len()),
        ),
{
    let len = bytes.len() as i32;
    let head = varint_encoding(len);
    let wire = prefixed_encoding(bytes) + rest;
    assert(wire =~= head + (bytes + rest));
    lemma_varint_roundtrip(len, bytes + rest);
    assert(wire.subrange(head.len() as int, head.len() + len) =~= bytes);
}

/// Every string whose UTF-8 form fits the length prefix survives the trip
/// through its wire form, whatever follows it.
pub proof fn lemma_string_roundtrip(s: Seq<char>, rest: Seq<u8>)
    requires
        encode_utf8(s).len() <= MAX_LENGTH,
    ensures
        string_decoding(string_encoding(s) + rest) == Ok::<(Seq<char>, nat), FieldReadError>(
            (s, string_encoding(s).len()),
        ),
{
    lemma_prefixed_roundtrip(encode_utf8(s), rest);
    vstd::utf8::encode_utf8_valid_utf8(s);
    vstd::utf8::encode_utf8_decode_utf8(s);
}

/// `String::from_utf8`: the string that holds exactly the given bytes, when
/// they are valid UTF-8, and nothing otherwise.
#[verifier::external_body]
fn string_from_utf8(bytes: Vec<u8>) -> (res: Option<String>)
    ensures
        res.is_some() == valid_utf8(bytes@),
        res.is_some() ==> encode_utf8(res.unwrap()@) == bytes@,
{
    String::from_utf8(bytes).ok()
}

/// Reads a length prefix and the bytes it announces, and moves past them.
pub fn read_prefixed<'a>(r: &mut DecodeBuffer<'a>) -> (res: Result<&'a [u8], FieldReadError>)
    ensures
        final(r).data() == old(r).data(),
        match prefixed_decoding(old(r).remaining()) {
            Ok((bytes, n)) => res.is_ok()
                && res.unwrap()@ == bytes
                && final(r).offset() == old(r).offset() + n
                && final(r).remaining() == old(r).remaining().skip(n as int),
            Err(e) => res == Err::<&'a [u8], FieldReadError>(e),
        },
{
    let ghost before = r.remaining();
    let ghost start = r.offset();
    let len = match VarInt::read_from(r) {
        Ok(len) => len.0,
        Err(e) => {
            return Err(e);
        },
    };
    if len < 0 {
        return Err(FieldReadError::UnexpectedEnd);
    }
    let ghost used = (r.offset() - start) as nat;
    proof {
        r.lemma_offset_in_bounds();
        assert(r.remaining() =~= before.skip(used as int));
    }
    match r.take(len as usize) {
        Some(bytes) => {
            assert(bytes@ =~= before.subrange(used as int, used + len));
            Ok(bytes)
        },
        None => Err(FieldReadError::UnexpectedEnd),
    }
}

/// Appends the length of `bytes` and then `bytes`. Fails, leaving `buffer`
/// as it was, when the length does not fit the prefix.
pub fn write_prefixed(buffer: &mut Vec<u8>, bytes: &[u8]) -> (res: Result<(), FieldWriteError>)
    ensures
        bytes@.len() <= MAX_LENGTH ==> res.is_ok() && final(buffer)@ == old(buffer)@
            + prefixed_encoding(bytes@),
        bytes@.len() > MAX_LENGTH ==> res == Err::<(), FieldWriteError>(
            FieldWriteError::LengthOverflow,
        ) && final(buffer)@ == old(buffer)@,
{
    let len = bytes.len();
    if len > MAX_LENGTH {
        return Err(FieldWriteError::LengthOverflow);
    }
    VarInt(len as i32).write_to(buffer);
    buffer.extend_from_slice(bytes);
    assert(buffer@ =~= old(buffer)@ + prefixed_encoding(bytes@));
    Ok(())
}

/// Reads a string and moves past it.
pub fn read_string(r: &mut DecodeBuffer) -> (res: Result<String, FieldReadError>)
    ensures
        final(r).data() == old(r).data(),
        match string_decoding(old(r).remaining()) {
            Ok((s, n)) => res.is_ok()
                && res.unwrap()@ == s
                && final(r).offset() == old(r).offset() + n
                && final(r).remaining() == old(r).remaining().skip(n as int),
            Err(e) => res == Err::<String, FieldReadError>(e),
        },
{
    let bytes = match read_prefixed(r) {
        Ok(bytes) => bytes,
        Err(e) => {
            return Err(e);
        },
    };
    match string_from_utf8(slice_to_vec(bytes)) {
        Some(s) => {
            proof {
                vstd::utf8::encode_utf8_decode_utf8(s@);
            }
            Ok(s)
        },
        None => Err(FieldReadError::InvalidUtf8),
    }
}

/// Appends the wire form of `s`. Fails, leaving `buffer` as it was, when the
/// UTF-8 form of `s` is too long for the length prefix.
pub fn write_string(buffer: &mut Vec<u8>, s: &str) -> (res: Result<(), FieldWriteError>)
    ensures
        encode_utf8(s@).len() <= MAX_LENGTH ==> res.is_ok() && final(buffer)@ == old(buffer)@
            + string_encoding(s@),
        encode_utf8(s@).len() > MAX_LENGTH ==> res == Err::<(), FieldWriteError>(
            FieldWriteError::LengthOverflow,
        ) && final(buffer)@ == old(buffer)@,
{
    write_prefixed(buffer, s.as_bytes())
}

} // verus!
