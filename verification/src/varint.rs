//! Variable-length integers: base-128 groups, least significant group first,
//! each byte holding seven payload bits and a continuation bit.

use vstd::prelude::*;
use crate::buffer::DecodeBuffer;
use crate::error::FieldReadError;

verus! {

/// The 32-bit unsigned representation of `v` in two's complement.
pub open spec fn unsigned32(v: i32) -> nat {
    if v < 0 {
        (v + 0x1_0000_0000) as nat
    } else {
        v as nat
    }
}

/// The signed value whose two's-complement representation is `n`.
pub open spec fn signed32(n: nat) -> i32
    recommends
        n < 0x1_0000_0000,
{
    if n >= 0x8000_0000 {
        (n - 0x1_0000_0000) as i32
    } else {
        n as i32
    }
}

/// The base-128 groups of `n`, least significant first, every byte but the
/// last carrying the continuation bit.
pub open spec fn encode_groups(n: nat) -> Seq<u8>
    decreases n,
{
    if n < 128 {
        seq![n as u8]
    } else {
        seq![(n % 128 + 128) as u8] + encode_groups(n / 128)
    }
}

/// Reads groups from the front of `s`, at most `budget` of them. Gives the
/// value and the number of bytes used.
pub open spec fn decode_groups(s: Seq<u8>, budget: nat) -> Result<(nat, nat), FieldReadError>
    decreases budget,
{
    if budget == 0 {
        Err(FieldReadError::VariableTooLarge)
    } else if s.len() == 0 {
        Err(FieldReadError::UnexpectedEnd)
    } else if s[0] < 128 {
        Ok((s[0] as nat, 1))
    } else {
        match decode_groups(s.skip(1), (budget - 1) as nat) {
            Ok((v, n)) => Ok((((s[0] - 128) + 128 * v) as nat, n + 1)),
            Err(e) => Err(e),
        }
    }
}

/// The wire form of a variable-length integer.
pub open spec fn varint_encoding(v: i32) -> Seq<u8> {
    encode_groups(unsigned32(v))
}

/// The variable-length integer at the front of `s` and its length in bytes.
/// Bits beyond the 32nd are dropped. A fifth byte with its continuation bit
/// set is an error, and so is an input that ends inside the integer.
pub open spec fn varint_decoding(s: Seq<u8>) -> Result<(i32, nat), FieldReadError> {
    match decode_groups(s, 5) {
        Ok((n, len)) => Ok((signed32(n % 0x1_0000_0000), len)),
        Err(e) => Err(e),
    }
}

/// The weight of the group at index `i`: 128 to the power `i`.
pub open spec fn group_weight(i: nat) -> nat
    decreases i,
{
    if i == 0 {
        1
    } else {
        128 * group_weight((i - 1) as nat)
    }
}

/// A value below 128^k takes at most k groups.
pub proof fn lemma_groups_len(n: nat, k: nat)
    requires
        k >= 1,
        n < group_weight(k),
    ensures
        1 <= encode_groups(n).len() <= k,
    decreases n,
{
    reveal_with_fuel(group_weight, 2);
    if n >= 128 {
        let k1 = (k - 1) as nat;
        let p = group_weight(k1);
        assert(n / 128 < p) by (nonlinear_arith)
            requires
                n < 128 * p,
        ;
        lemma_groups_len(n / 128, k1);
    }
}

/// Reading back the groups of `n` gives `n` and uses exactly those bytes,
/// whatever follows them.
pub proof fn lemma_groups_roundtrip(n: nat, rest: Seq<u8>, budget: nat)
    requires
        budget >= encode_groups(n).len(),
    ensures
        decode_groups(encode_groups(n) + rest, budget) == Ok::<(nat, nat), FieldReadError>(
            (n, encode_groups(n).len()),
        ),
    decreases n,
{
    let s = encode_groups(n) + rest;
    if n < 128 {
        assert(s[0] == n as u8);
    } else {
        let tail = encode_groups(n / 128);
        assert(s[0] == (n % 128 + 128) as u8);
        assert(s.skip(1) =~= tail + rest);
        lemma_groups_roundtrip(n / 128, rest, (budget - 1) as nat);
        assert(((s[0] - 128) + 128 * (n / 128)) as nat == n);
    }
}

/// Every 32-bit value encodes to between one and five bytes.
pub proof fn lemma_varint_len(v: i32)
    ensures
        1 <= varint_encoding(v).len() <= 5,
{
    reveal_with_fuel(group_weight, 6);
    lemma_groups_len(unsigned32(v), 5);
}

/// Decoding the encoding of any 32-bit value gives the value back and uses
/// exactly the encoded bytes.
pub proof fn lemma_varint_roundtrip(v: i32, rest: Seq<u8>)
    ensures
        varint_decoding(varint_encoding(v) + rest) == Ok::<(i32, nat), FieldReadError>(
            (v, varint_encoding(v).len()),
        ),
{
    lemma_varint_len(v);
    lemma_groups_roundtrip(unsigned32(v), rest, 5);
}

/// Five bytes that all carry the continuation bit are rejected, whatever
/// follows.
pub proof fn lemma_varint_too_large(s: Seq<u8>)
    requires
        s.len() >= 5,
        forall|i: int| 0 <= i < 5 ==> s[i] >= 128,
    ensures
        varint_decoding(s) == Err::<(i32, nat), FieldReadError>(FieldReadError::VariableTooLarge),
{
    let s1 = s.skip(1);
    let s2 = s1.skip(1);
    let s3 = s2.skip(1);
    let s4 = s3.skip(1);
    let s5 = s4.skip(1);
    assert(s1[0] == s[1] && s2[0] == s[2] && s3[0] == s[3] && s4[0] == s[4]);
    assert(decode_groups(s5, 0) == Err::<(nat, nat), FieldReadError>(
        FieldReadError::VariableTooLarge,
    ));
    assert(decode_groups(s4, 1) == decode_groups(s5, 0));
    assert(decode_groups(s3, 2) == decode_groups(s5, 0));
    assert(decode_groups(s2, 3) == decode_groups(s5, 0));
    assert(decode_groups(s1, 4) == decode_groups(s5, 0));
    assert(decode_groups(s, 5) == decode_groups(s5, 0));
}

/// What is known of the whole input once `i` continuation groups with the
/// partial value `acc` have been read.
spec fn resume(
    rest: Result<(nat, nat), FieldReadError>,
    acc: nat,
    weight: nat,
    i: nat,
) -> Result<(nat, nat), FieldReadError> {
    match rest {
        Ok((v, n)) => Ok((acc + weight * v, n + i)),
        Err(e) => Err(e),
    }
}

proof fn lemma_decode_step(s: Seq<u8>, i: nat, acc: nat, weight: nat)
    requires
        i < 5,
        i < s.len(),
        s[i as int] >= 128,
        decode_groups(s, 5) == resume(decode_groups(s.skip(i as int), (5 - i) as nat), acc, weight, i),
    ensures
        decode_groups(s, 5) == resume(
            decode_groups(s.skip(i as int + 1), (4 - i) as nat),
            acc + weight * (s[i as int] - 128) as nat,
            weight * 128,
            i + 1,
        ),
{
    let cur = s.skip(i as int);
    assert(cur[0] == s[i as int]);
    assert(cur.skip(1) =~= s.skip(i as int + 1));
    let b = (s[i as int] - 128) as nat;
    match decode_groups(s.skip(i as int + 1), (4 - i) as nat) {
        Ok((v, n)) => {
            assert(acc + weight * (b + 128 * v) == (acc + weight * b) + (weight * 128) * v)
                by (nonlinear_arith);
        },
        Err(e) => {},
    }
}

/// A variable-length 32-bit signed integer.
#[derive(Debug, Clone, Copy, PartialEq, Eq, Structural)]
pub struct VarInt(pub i32);

impl VarInt {
    /// Reads one integer from the front of the unread bytes and moves past
    /// it. On an error the position is left where it was.
    pub fn read_from(r: &mut DecodeBuffer) -> (res: Result<VarInt, FieldReadError>)
        ensures
            final(r).data() == old(r).data(),
            match varint_decoding(old(r).remaining()) {
                Ok((v, n)) => res == Ok::<VarInt, FieldReadError>(VarInt(v))
                    && final(r).offset() == old(r).offset() + n
                    && final(r).remaining() == old(r).remaining().skip(n as int),
                Err(e) => res == Err::<VarInt, FieldReadError>(e) && final(r).offset() == old(
                    r,
                ).offset(),
            },
    {
        let bytes = r.slice();
        let mut acc: u64 = 0;
        let mut weight: u64 = 1;
        let mut i: usize = 0;
        proof {
            assert(bytes@.skip(0) =~= bytes@);
            match decode_groups(bytes@, 5) {
                Ok((v, n)) => {
                    assert(0 + 1 * v == v);
                },
                Err(e) => {},
            }
        }
        while i < 5
            invariant
                i <= 5,
                i <= bytes@.len(),
                bytes@ == old(r).remaining(),
                old(r).offset() + bytes@.len() == old(r).data().len(),
                r.data() == old(r).data(),
                r.offset() == old(r).offset(),
                weight == group_weight(i as nat),
                acc < weight,
                decode_groups(bytes@, 5) == resume(
                    decode_groups(bytes@.skip(i as int), (5 - i) as nat),
                    acc as nat,
                    weight as nat,
                    i as nat,
                ),
            decreases 5 - i,
        {
            if i >= bytes.len() {
                assert(bytes@.skip(i as int).len() == 0);
                return Err(FieldReadError::UnexpectedEnd);
            }
            let byte: u8 = bytes[i];
            proof {
                assert(bytes@.skip(i as int)[0] == byte);
                reveal_with_fuel(group_weight, 6);
                assert(weight <= 0x1000_0000);
            }
            if byte < 128 {
                assert(byte as u64 * weight <= 127 * 0x1000_0000) by (nonlinear_arith)
                    requires
                        byte < 128,
                        weight <= 0x1000_0000,
                ;
                let total: u64 = acc + (byte as u64) * weight;
                let low: u32 = #[verifier::truncate]
                ((total & 0xffff_ffff) as u32);
                let value: i32 = #[verifier::truncate]
                (low as i32);
                proof {
                    assert(total as nat == acc as nat + weight as nat * byte as nat)
                        by (nonlinear_arith)
                        requires
                            total == acc + (byte as u64) * weight,
                    ;
                    assert(low as nat == total as nat % 0x1_0000_0000) by (bit_vector)
                        requires
                            low == (total & 0xffff_ffff) as u32,
                    ;
                    assert(value == signed32(low as nat)) by {
                        assert(low >= 0x8000_0000 ==> value == low - 0x1_0000_0000) by (bit_vector)
                            requires
                                value == low as i32,
                        ;
                        assert(low < 0x8000_0000 ==> value == low) by (bit_vector)
                            requires
                                value == low as i32,
                        ;
                    }
                }
                r.advance(i + 1);
                return Ok(VarInt(value));
            }
            proof {
                lemma_decode_step(bytes@, i as nat, acc as nat, weight as nat);
                assert((byte - 128) as u64 * weight <= 127 * weight && (byte - 128) as u64 * weight
                    == weight as nat * (byte - 128) as nat) by (nonlinear_arith)
                    requires
                        128 <= byte < 256,
                        weight >= 0,
                ;
            }
            acc = acc + ((byte - 128) as u64) * weight;
            weight = weight * 128;
            i = i + 1;
        }
        Err(FieldReadError::VariableTooLarge)
    }

    /// Appends the wire form of the integer to `buffer`.
    pub fn write_to(&self, buffer: &mut Vec<u8>)
        ensures
            final(buffer)@ == old(buffer)@ + varint_encoding(self.0),
    {
        let v: i32 = self.0;
        let mut value: u32 = v as u32;
        proof {
            assert(v < 0 ==> value == v + 0x1_0000_0000) by (bit_vector)
                requires
                    value == v as u32,
            ;
            assert(v >= 0 ==> value == v) by (bit_vector)
                requires
                    value == v as u32,
            ;
        }
        while value >= 128
            invariant
                old(buffer)@ + varint_encoding(self.0) == buffer@ + encode_groups(value as nat),
            decreases value,
        {
            let part: u8 = ((value & 0x7f) | 0x80) as u8;
            let next: u32 = value >> 7;
            proof {
                assert(part == value % 128 + 128 && next == value / 128) by (bit_vector)
                    requires
                        part == ((value & 0x7f) | 0x80) as u8,
                        next == value >> 7,
                ;
                assert(buffer@ + encode_groups(value as nat) =~= buffer@.push(part)
                    + encode_groups(next as nat));
            }
            buffer.push(part);
            value = next;
        }
        assert(buffer@ + encode_groups(value as nat) =~= buffer@.push(value as u8));
        buffer.push(value as u8);
    }
}

} // verus!
