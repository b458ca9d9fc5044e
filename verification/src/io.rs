//! Compound fields: raw tails, counted sequences, flagged options and UUIDs.

use vstd::prelude::*;
use vstd::slice::slice_to_vec;
use vstd::utf8::encode_utf8;
use crate::buffer::DecodeBuffer;
use crate::error::{FieldReadError, FieldWriteError};
use crate::fixed::{
    be_bytes, bool_decoding, bool_encoding, byte_span, lemma_be_bytes_len, lemma_decoding_range,
    lemma_unsigned_roundtrip, read_bool, read_u64, unsigned_decoding, write_bool, write_u64,
};
use crate::text::{
    lemma_string_roundtrip, prefixed_decoding, prefixed_encoding, read_prefixed, read_string,
    string_decoding, string_encoding, write_prefixed, write_string, MAX_LENGTH,
};
use crate::varint::{varint_decoding, varint_encoding, VarInt};

verus! {

/// All the bytes that are left in a frame, taken as they are.
#[derive(Debug, Clone, PartialEq, Eq)]
pub struct RawBytes(pub Vec<u8>);

impl View for RawBytes {
    type V = Seq<u8>;

    open spec fn view(&self) -> Seq<u8> {
        self.0@
    }
}

impl RawBytes {
    pub fn new(data: Vec<u8>) -> (raw: RawBytes)
        ensures
            raw@ == data@,
    {
        RawBytes(data)
    }

    /// Takes every unread byte.
    pub fn read_from(r: &mut DecodeBuffer) -> (raw: RawBytes)
        ensures
            final(r).data() == old(r).data(),
            raw@ == old(r).remaining(),
            final(r).offset() == old(r).data().len(),
    {
        let rest = r.slice();
        r.advance(rest.len());
        RawBytes(slice_to_vec(rest))
    }

    /// Appends the bytes as they are.
    pub fn write_to(&self, buffer: &mut Vec<u8>)
        ensures
            final(buffer)@ == old(buffer)@ + self@,
    {
        buffer.extend_from_slice(self.0.as_slice());
    }
}

/// A sequence on the wire behind a variable-length integer that counts its
/// elements.
#[derive(Debug, Clone, PartialEq, Eq)]
pub struct VarIntPrefixedVec<T>(pub Vec<T>);

impl View for VarIntPrefixedVec<u8> {
    type V = Seq<u8>;

    open spec fn view(&self) -> Seq<u8> {
        self.0@
    }
}

impl VarIntPrefixedVec<u8> {
    /// Reads the count and then that many bytes.
    pub fn read_from(r: &mut DecodeBuffer) -> (res: Result<VarIntPrefixedVec<u8>, FieldReadError>)
        ensures
            final(r).data() == old(r).data(),
            match prefixed_decoding(old(r).remaining()) {
                Ok((bytes, n)) => res.is_ok()
                    && res.unwrap()@ == bytes
                    && final(r).offset() == old(r).offset() + n
                    && final(r).remaining() == old(r).remaining().skip(n as int),
                Err(e) => res == Err::<VarIntPrefixedVec<u8>, FieldReadError>(e),
            },
    {
        match read_prefixed(r) {
            Ok(bytes) => Ok(VarIntPrefixedVec(slice_to_vec(bytes))),
            Err(e) => Err(e),
        }
    }

    /// Appends the count and the bytes. Fails, leaving `buffer` as it was,
    /// when the count does not fit the prefix.
    pub fn write_to(&self, buffer: &mut Vec<u8>) -> (res: Result<(), FieldWriteError>)
        ensures
            self@.len() <= MAX_LENGTH ==> res.is_ok() && final(buffer)@ == old(buffer)@
                + prefixed_encoding(self@),
            self@.len() > MAX_LENGTH ==> res == Err::<(), FieldWriteError>(
                FieldWriteError::LengthOverflow,
            ) && final(buffer)@ == old(buffer)@,
    {
        write_prefixed(buffer, self.0.as_slice())
    }
}

/// The views of the strings of a sequence.
pub open spec fn string_views(v: Seq<String>) -> Seq<Seq<char>> {
    v.map_values(|s: String| s@)
}

/// Whether the UTF-8 form of each of the first `count` strings fits a length
/// prefix.
pub open spec fn strings_fit(v: Seq<Seq<char>>, count: nat) -> bool {
    forall|i: int| 0 <= i < count
        && i < v.len() ==> encode_utf8(#[trigger] v[i]).len() <= MAX_LENGTH
}

/// The wire forms of the first `count` strings, one after the other.
pub open spec fn strings_body(v: Seq<Seq<char>>, count: nat) -> Seq<u8>
    decreases count,
{
    if count == 0 || count > v.len() {
        Seq::empty()
    } else {
        strings_body(v, (count - 1) as nat) + string_encoding(v[count - 1])
    }
}

/// The wire form of a counted sequence of strings.
pub open spec fn strings_encoding(v: Seq<Seq<char>>) -> Seq<u8> {
    varint_encoding(v.len() as i32) + strings_body(v, v.len())
}

/// The `count` strings at the front of `s`, and the number of bytes that
/// they take together.
pub open spec fn strings_body_decoding(s: Seq<u8>, count: nat) -> Result<
    (Seq<Seq<char>>, nat),
    FieldReadError,
>
    decreases count,
{
    if count == 0 {
        Ok((Seq::empty(), 0))
    } else {
        match string_decoding(s) {
            Err(e) => Err(e),
            Ok((first, n)) => match strings_body_decoding(s.skip(n as int), (count - 1) as nat) {
                Err(e) => Err(e),
                Ok((rest, m)) => Ok((seq![first] + rest, n + m)),
            },
        }
    }
}

/// The counted sequence of strings at the front of `s`. A negative count
/// announces more than any input holds.
pub open spec fn strings_decoding(s: Seq<u8>) -> Result<(Seq<Seq<char>>, nat), FieldReadError> {
    match varint_decoding(s) {
        Err(e) => Err(e),
        Ok((count, n)) => if count < 0 {
            Err(FieldReadError::UnexpectedEnd)
        } else {
            match strings_body_decoding(s.skip(n as int), count as nat) {
                Err(e) => Err(e),
                Ok((v, m)) => Ok((v, n + m)),
            }
        },
    }
}

/// What is known of a whole run of strings once the strings `read` were
/// read from `used` bytes.
pub open spec fn resume_strings(
    rest: Result<(Seq<Seq<char>>, nat), FieldReadError>,
    read: Seq<Seq<char>>,
    used: nat,
) -> Result<(Seq<Seq<char>>, nat), FieldReadError> {
    match rest {
        Ok((v, m)) => Ok((read + v, used + m)),
        Err(e) => Err(e),
    }
}

/// The wire forms of the first strings are the wire form of the first one
/// and then those of the others.
pub proof fn lemma_strings_body_front(v: Seq<Seq<char>>, count: nat)
    requires
        1 <= count <= v.len(),
    ensures
        strings_body(v, count) == string_encoding(v[0]) + strings_body(
            v.skip(1),
            (count - 1) as nat,
        ),
    decreases count,
{
    if count == 1 {
        assert(strings_body(v, 0) =~= Seq::<u8>::empty());
        assert(strings_body(v.skip(1), 0) =~= Seq::<u8>::empty());
        assert(strings_body(v, 1) =~= string_encoding(v[0]));
        assert(string_encoding(v[0]) + Seq::<u8>::empty() =~= string_encoding(v[0]));
    } else {
        lemma_strings_body_front(v, (count - 1) as nat);
        assert(v.skip(1)[count - 2] == v[count - 1]);
        assert(strings_body(v, count) =~= string_encoding(v[0]) + strings_body(
            v.skip(1),
            (count - 1) as nat,
        ));
    }
}

/// A run of strings that can be written reads back as it was, whatever
/// follows it.
pub proof fn lemma_strings_body_roundtrip(v: Seq<Seq<char>>, rest: Seq<u8>)
    requires
        strings_fit(v, v.len()),
    ensures
        strings_body_decoding(strings_body(v, v.len()) + rest, v.len()) == Ok::<
            (Seq<Seq<char>>, nat),
            FieldReadError,
        >((v, strings_body(v, v.len()).len())),
    decreases v.len(),
{
    if v.len() == 0 {
        assert(v =~= Seq::<Seq<char>>::empty());
    } else {
        let tail = v.skip(1);
        let head = string_encoding(v[0]);
        let body = strings_body(tail, tail.len());
        lemma_strings_body_front(v, v.len());
        assert(strings_body(v, v.len()) + rest =~= head + (body + rest));
        lemma_string_roundtrip(v[0], body + rest);
        assert((head + (body + rest)).skip(head.len() as int) =~= body + rest);
        assert(strings_fit(tail, tail.len())) by {
            assert forall|i: int| 0 <= i < tail.len() implies encode_utf8(
                #[trigger] tail[i],
            ).len() <= MAX_LENGTH by {
                assert(tail[i] == v[i + 1]);
            }
        }
        lemma_strings_body_roundtrip(tail, rest);
        assert(seq![v[0]] + tail =~= v);
    }
}

/// A counted sequence of strings that can be written reads back as it was,
/// whatever follows it.
pub proof fn lemma_strings_roundtrip(v: Seq<Seq<char>>, rest: Seq<u8>)
    requires
        v.len() <= MAX_LENGTH,
        strings_fit(v, v.len()),
    ensures
        strings_decoding(strings_encoding(v) + rest) == Ok::<(Seq<Seq<char>>, nat), FieldReadError>(
            (v, strings_encoding(v).len()),
        ),
{
    let head = varint_encoding(v.len() as i32);
    let body = strings_body(v, v.len());
    assert(strings_encoding(v) + rest =~= head + (body + rest));
    crate::varint::lemma_varint_roundtrip(v.len() as i32, body + rest);
    assert((head + (body + rest)).skip(head.len() as int) =~= body + rest);
    lemma_strings_body_roundtrip(v, rest);
}

impl View for VarIntPrefixedVec<String> {
    type V = Seq<Seq<char>>;

    open spec fn view(&self) -> Seq<Seq<char>> {
        string_views(self.0@)
    }
}

impl VarIntPrefixedVec<String> {
    /// Whether the sequence can be written: its count and the length of
    /// each string fit a length prefix.
    pub open spec fn encodable(&self) -> bool {
        self@.len() <= MAX_LENGTH && strings_fit(self@, self@.len())
    }

    /// Reads the count and then that many strings.
    pub fn read_from(r: &mut DecodeBuffer) -> (res: Result<VarIntPrefixedVec<String>, FieldReadError>)
        ensures
            final(r).data() == old(r).data(),
            match strings_decoding(old(r).remaining()) {
                Ok((v, n)) => res.is_ok() && res.unwrap()@ == v && final(r).offset() == old(
                    r,
                ).offset() + n && final(r).remaining() == old(r).remaining().skip(n as int),
                Err(e) => res == Err::<VarIntPrefixedVec<String>, FieldReadError>(e),
            },
    {
        let ghost whole = r.remaining();
        let count = match VarInt::read_from(r) {
            Ok(count) => count.0,
            Err(e) => {
                return Err(e);
            },
        };
        if count < 0 {
            return Err(FieldReadError::UnexpectedEnd);
        }
        let ghost head = (r.offset() - old(r).offset()) as nat;
        let ghost body = r.remaining();
        proof {
            r.lemma_offset_in_bounds();
        }
        let ghost start = r.offset();
        let mut out: Vec<String> = Vec::new();
        let mut i: i32 = 0;
        let ghost mut used: nat = 0;
        proof {
            assert(string_views(out@) =~= Seq::<Seq<char>>::empty());
            assert(body.skip(0) =~= body);
            match strings_body_decoding(body, count as nat) {
                Ok((v, m)) => {
                    assert(Seq::<Seq<char>>::empty() + v =~= v);
                },
                Err(e) => {},
            }
        }
        while i < count
            invariant
                0 <= i <= count,
                r.data() == old(r).data(),
                whole == old(r).remaining(),
                varint_decoding(whole) == Ok::<(i32, nat), FieldReadError>((count, head)),
                head <= whole.len(),
                body == whole.skip(head as int),
                start == old(r).offset() + head,
                r.offset() == start + used,
                r.remaining() == body.skip(used as int),
                used <= body.len(),
                strings_body_decoding(body, count as nat) == resume_strings(
                    strings_body_decoding(r.remaining(), (count - i) as nat),
                    string_views(out@),
                    used,
                ),
            decreases count - i,
        {
            let ghost before = r.remaining();
            let ghost read = string_views(out@);
            let s = match read_string(r) {
                Ok(s) => s,
                Err(e) => {
                    return Err(e);
                },
            };
            proof {
                let ghost_s = s@;
                match strings_body_decoding(r.remaining(), (count - i - 1) as nat) {
                    Ok((v, m)) => {
                        assert((read + seq![ghost_s]) + v =~= read + (seq![ghost_s] + v));
                    },
                    Err(e) => {},
                }
            }
            let ghost step = (r.offset() - start - used) as nat;
            proof {
                r.lemma_offset_in_bounds();
            }
            out.push(s);
            proof {
                assert(string_views(out@) =~= read + seq![s@]);
                assert(r.remaining() =~= body.skip((used + step) as int));
                used = used + step;
            }
            i = i + 1;
        }
        proof {
            assert(whole.skip(head as int).skip(used as int) =~= whole.skip((head + used) as int));
            match strings_body_decoding(r.remaining(), 0) {
                Ok((v, m)) => {
                    assert(string_views(out@) + v =~= string_views(out@));
                },
                Err(e) => {},
            }
        }
        Ok(VarIntPrefixedVec(out))
    }

    /// Appends the count and then each string. Fails when the count or the
    /// length of a string does not fit a length prefix; `buffer` may then
    /// hold a part of the output.
    pub fn write_to(&self, buffer: &mut Vec<u8>) -> (res: Result<(), FieldWriteError>)
        ensures
            self.encodable() ==> res.is_ok() && final(buffer)@ == old(buffer)@ + strings_encoding(
                self@,
            ),
            !self.encodable() ==> res == Err::<(), FieldWriteError>(
                FieldWriteError::LengthOverflow,
            ),
    {
        let count = self.0.len();
        if count > MAX_LENGTH {
            return Err(FieldWriteError::LengthOverflow);
        }
        VarInt(count as i32).write_to(buffer);
        let mut i: usize = 0;
        while i < count
            invariant
                i <= count,
                count == self.0@.len(),
                count <= MAX_LENGTH,
                strings_fit(self@, i as nat),
                buffer@ == old(buffer)@ + varint_encoding(count as i32) + strings_body(
                    self@,
                    i as nat,
                ),
            decreases count - i,
        {
            let ghost before = buffer@;
            match write_string(buffer, self.0[i].as_str()) {
                Ok(()) => {},
                Err(e) => {
                    assert(!strings_fit(self@, count as nat)) by {
                        assert(self@[i as int] == self.0@[i as int]@);
                    }
                    return Err(e);
                },
            }
            proof {
                assert(self@[i as int] == self.0@[i as int]@);
                assert(buffer@ =~= old(buffer)@ + varint_encoding(count as i32) + strings_body(
                    self@,
                    (i + 1) as nat,
                ));
            }
            i = i + 1;
        }
        Ok(())
    }
}

/// An optional value on the wire behind a boolean that says whether it is
/// there.
#[derive(Debug, Clone, PartialEq, Eq)]
pub struct BooleanPrefixedOption<T>(pub Option<T>);

/// The wire form of an optional string.
pub open spec fn optional_string_encoding(s: Option<Seq<char>>) -> Seq<u8> {
    match s {
        Some(s) => bool_encoding(true) + string_encoding(s),
        None => bool_encoding(false),
    }
}

/// The optional string at the front of `s`.
pub open spec fn optional_string_decoding(s: Seq<u8>) -> Result<
    (Option<Seq<char>>, nat),
    FieldReadError,
> {
    match bool_decoding(s) {
        Err(e) => Err(e),
        Ok((false, n)) => Ok((None, n)),
        Ok((true, n)) => match string_decoding(s.skip(n as int)) {
            Ok((v, m)) => Ok((Some(v), n + m)),
            Err(e) => Err(e),
        },
    }
}

/// Every optional string that can be written survives the trip through its
/// wire form, whatever follows it.
pub proof fn lemma_optional_string_roundtrip(s: Option<Seq<char>>, rest: Seq<u8>)
    requires
        s matches Some(v) ==> encode_utf8(v).len() <= MAX_LENGTH,
    ensures
        optional_string_decoding(optional_string_encoding(s) + rest) == Ok::<
            (Option<Seq<char>>, nat),
            FieldReadError,
        >((s, optional_string_encoding(s).len())),
{
    let wire = optional_string_encoding(s) + rest;
    match s {
        Some(v) => {
            assert(wire.skip(1) =~= string_encoding(v) + rest);
            lemma_string_roundtrip(v, rest);
        },
        None => {},
    }
}

impl View for BooleanPrefixedOption<String> {
    type V = Option<Seq<char>>;

    open spec fn view(&self) -> Option<Seq<char>> {
        match self.0 {
            Some(s) => Some(s@),
            None => None,
        }
    }
}

impl BooleanPrefixedOption<String> {
    /// Reads the flag and, when it is set, the string behind it.
    pub fn read_from(r: &mut DecodeBuffer) -> (res: Result<
        BooleanPrefixedOption<String>,
        FieldReadError,
    >)
        ensures
            final(r).data() == old(r).data(),
            match optional_string_decoding(old(r).remaining()) {
                Ok((v, n)) => res.is_ok()
                    && res.unwrap()@ == v
                    && final(r).offset() == old(r).offset() + n
                    && final(r).remaining() == old(r).remaining().skip(n as int),
                Err(e) => res == Err::<BooleanPrefixedOption<String>, FieldReadError>(e),
            },
    {
        let ghost before = r.remaining();
        let ghost start = r.offset();
        match read_bool(r) {
            Err(e) => Err(e),
            Ok(false) => Ok(BooleanPrefixedOption(None)),
            Ok(true) => {
                match read_string(r) {
                    Ok(s) => Ok(BooleanPrefixedOption(Some(s))),
                    Err(e) => Err(e),
                }
            },
        }
    }

    /// Appends the flag and, when there is a string, the string. Fails when
    /// the string is too long for a length prefix.
    pub fn write_to(&self, buffer: &mut Vec<u8>) -> (res: Result<(), FieldWriteError>)
        ensures
            (self@ matches Some(v) ==> encode_utf8(v).len() <= MAX_LENGTH) ==> res.is_ok()
                && final(buffer)@ == old(buffer)@ + optional_string_encoding(self@),
            (self@ matches Some(v) && encode_utf8(v).len() > MAX_LENGTH) ==> res == Err::<
                (),
                FieldWriteError,
            >(FieldWriteError::LengthOverflow),
    {
        match &self.0 {
            Some(s) => {
                write_bool(buffer, true);
                let res = write_string(buffer, s.as_str());
                assert(res.is_ok() ==> buffer@ =~= old(buffer)@ + optional_string_encoding(self@));
                res
            },
            None => {
                write_bool(buffer, false);
                Ok(())
            },
        }
    }
}

/// The wire form of a UUID: its high and its low 64 bits, each big-endian.
pub open spec fn uuid_encoding(uuid: u128) -> Seq<u8> {
    be_bytes((uuid / 0x1_0000_0000_0000_0000) as nat, 8) + be_bytes(
        (uuid % 0x1_0000_0000_0000_0000) as nat,
        8,
    )
}

/// The UUID at the front of `s`.
pub open spec fn uuid_decoding(s: Seq<u8>) -> Result<(u128, nat), FieldReadError> {
    match unsigned_decoding(s, 8) {
        Err(e) => Err(e),
        Ok((hi, n)) => match unsigned_decoding(s.skip(n as int), 8) {
            Err(e) => Err(e),
            Ok((lo, m)) => Ok(((hi * 0x1_0000_0000_0000_0000 + lo) as u128, n + m)),
        },
    }
}

/// Every UUID survives the trip through its wire form, whatever follows it.
pub proof fn lemma_uuid_roundtrip(uuid: u128, rest: Seq<u8>)
    ensures
        uuid_decoding(uuid_encoding(uuid) + rest) == Ok::<(u128, nat), FieldReadError>((uuid, 16)),
{
    reveal_with_fuel(byte_span, 9);
    let hi = (uuid / 0x1_0000_0000_0000_0000) as nat;
    let lo = (uuid % 0x1_0000_0000_0000_0000) as nat;
    let wire = uuid_encoding(uuid) + rest;
    assert(wire =~= be_bytes(hi, 8) + (be_bytes(lo, 8) + rest));
    lemma_unsigned_roundtrip(hi, 8, be_bytes(lo, 8) + rest);
    lemma_be_bytes_len(hi, 8);
    assert(wire.skip(8) =~= be_bytes(lo, 8) + rest);
    lemma_unsigned_roundtrip(lo, 8, rest);
}

/// Reads a UUID: two big-endian 64-bit words, the high one first.
pub fn read_uuid(r: &mut DecodeBuffer) -> (res: Result<u128, FieldReadError>)
    ensures
        final(r).data() == old(r).data(),
        match uuid_decoding(old(r).remaining()) {
            Ok((v, n)) => res == Ok::<u128, FieldReadError>(v)
                && final(r).offset() == old(r).offset() + n
                && final(r).remaining() == old(r).remaining().skip(n as int),
            Err(e) => res == Err::<u128, FieldReadError>(e),
        },
{
    let ghost before = r.remaining();
    proof {
        reveal_with_fuel(byte_span, 9);
        lemma_decoding_range(before, 8);
        lemma_decoding_range(before.skip(8), 8);
    }
    let hi = match read_u64(r) {
        Ok(v) => v,
        Err(e) => {
            return Err(e);
        },
    };
    let lo = match read_u64(r) {
        Ok(v) => v,
        Err(e) => {
            return Err(e);
        },
    };
    let value: u128 = ((hi as u128) << 64) | (lo as u128);
    assert(value == hi * 0x1_0000_0000_0000_0000 + lo) by (bit_vector)
        requires
            value == ((hi as u128) << 64) | (lo as u128),
    ;
    Ok(value)
}

/// Appends a UUID as two big-endian 64-bit words, the high one first.
pub fn write_uuid(buffer: &mut Vec<u8>, uuid: u128)
    ensures
        final(buffer)@ == old(buffer)@ + uuid_encoding(uuid),
{
    let hi: u64 = (uuid >> 64) as u64;
    let lo: u64 = #[verifier::truncate]
    (uuid as u64);
    assert(hi == uuid / 0x1_0000_0000_0000_0000 && lo == uuid % 0x1_0000_0000_0000_0000)
        by (bit_vector)
        requires
            hi == (uuid >> 64) as u64,
            lo == uuid as u64,
    ;
    write_u64(buffer, hi);
    write_u64(buffer, lo);
    assert(buffer@ =~= old(buffer)@ + uuid_encoding(uuid));
}

} // verus!
