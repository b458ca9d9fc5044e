//! Game modes and bit-packed block positions.

use vstd::prelude::*;
use crate::buffer::DecodeBuffer;
use crate::error::FieldReadError;
use crate::fixed::{
    be_bytes, lemma_decoding_range, lemma_signed_decoding_roundtrip, lemma_unsigned_roundtrip,
    read_i8, read_u64, signed_decoding, signed_encoding, unsigned_decoding, write_i8, write_u64,
    byte_span,
};
use crate::varint::unsigned32;

verus! {

/// The game mode of a player.
#[derive(Debug, Clone, Copy, PartialEq, Eq, Structural)]
pub enum GameMode {
    Survival,
    Creative,
    Adventure,
    Spectator,
}

impl GameMode {
    /// The discriminant of the mode on the wire.
    pub open spec fn spec_id(self) -> i8 {
        match self {
            GameMode::Survival => 0,
            GameMode::Creative => 1,
            GameMode::Adventure => 2,
            GameMode::Spectator => 3,
        }
    }

    /// The mode that a discriminant names, if any.
    pub open spec fn spec_from_id(id: int) -> Option<GameMode> {
        if id == 0 {
            Some(GameMode::Survival)
        } else if id == 1 {
            Some(GameMode::Creative)
        } else if id == 2 {
            Some(GameMode::Adventure)
        } else if id == 3 {
            Some(GameMode::Spectator)
        } else {
            None
        }
    }

    /// The discriminant of the mode on the wire.
    #[verifier::when_used_as_spec(spec_id)]
    pub fn id(self) -> (id: i8)
        ensures
            id == self.spec_id(),
    {
        match self {
            GameMode::Survival => 0,
            GameMode::Creative => 1,
            GameMode::Adventure => 2,
            GameMode::Spectator => 3,
        }
    }

    /// The mode that a discriminant names, if any.
    pub fn from_id(id: i8) -> (mode: Option<GameMode>)
        ensures
            mode == GameMode::spec_from_id(id as int),
    {
        match id {
            0 => Some(GameMode::Survival),
            1 => Some(GameMode::Creative),
            2 => Some(GameMode::Adventure),
            3 => Some(GameMode::Spectator),
            _ => None,
        }
    }

    /// Reads a game mode: one signed byte that names a mode.
    pub fn read_from(r: &mut DecodeBuffer) -> (res: Result<GameMode, FieldReadError>)
        ensures
            final(r).data() == old(r).data(),
            match game_mode_decoding(old(r).remaining()) {
                Ok((mode, n)) => res == Ok::<GameMode, FieldReadError>(mode)
                    && final(r).offset() == old(r).offset() + n
                    && final(r).remaining() == old(r).remaining().skip(n as int),
                Err(e) => res == Err::<GameMode, FieldReadError>(e),
            },
    {
        proof {
            reveal_with_fuel(byte_span, 2);
            lemma_decoding_range(r.remaining(), 1);
        }
        match read_i8(r) {
            Ok(id) => match GameMode::from_id(id) {
                Some(mode) => Ok(mode),
                None => Err(FieldReadError::InvalidEnumVariant(id as i32)),
            },
            Err(e) => Err(e),
        }
    }

    /// Appends the discriminant of the mode as one signed byte.
    pub fn write_to(&self, buffer: &mut Vec<u8>)
        ensures
            final(buffer)@ == old(buffer)@ + game_mode_encoding(*self),
    {
        write_i8(buffer, self.id());
    }
}

/// The wire form of a game mode.
pub open spec fn game_mode_encoding(mode: GameMode) -> Seq<u8> {
    signed_encoding(mode.spec_id() as int, 1)
}

/// The game mode at the front of `s`.
pub open spec fn game_mode_decoding(s: Seq<u8>) -> Result<(GameMode, nat), FieldReadError> {
    match signed_decoding(s, 1) {
        Ok((id, n)) => match GameMode::spec_from_id(id) {
            Some(mode) => Ok((mode, n)),
            None => Err(FieldReadError::InvalidEnumVariant(id as i32)),
        },
        Err(e) => Err(e),
    }
}

/// The wire form of an optional game mode: `-1` stands for none.
pub open spec fn optional_game_mode_encoding(mode: Option<GameMode>) -> Seq<u8> {
    match mode {
        Some(mode) => game_mode_encoding(mode),
        None => signed_encoding(-1, 1),
    }
}

/// The optional game mode at the front of `s`.
pub open spec fn optional_game_mode_decoding(s: Seq<u8>) -> Result<
    (Option<GameMode>, nat),
    FieldReadError,
> {
    match signed_decoding(s, 1) {
        Ok((id, n)) => if id == -1 {
            Ok((None, n))
        } else {
            match GameMode::spec_from_id(id) {
                Some(mode) => Ok((Some(mode), n)),
                None => Err(FieldReadError::InvalidEnumVariant(id as i32)),
            }
        },
        Err(e) => Err(e),
    }
}

/// Reads an optional game mode: one signed byte, `-1` for none.
pub fn read_optional_game_mode(r: &mut DecodeBuffer) -> (res: Result<
    Option<GameMode>,
    FieldReadError,
>)
    ensures
        final(r).data() == old(r).data(),
        match optional_game_mode_decoding(old(r).remaining()) {
            Ok((mode, n)) => res == Ok::<Option<GameMode>, FieldReadError>(mode)
                && final(r).offset() == old(r).offset() + n
                && final(r).remaining() == old(r).remaining().skip(n as int),
            Err(e) => res == Err::<Option<GameMode>, FieldReadError>(e),
        },
{
    proof {
        reveal_with_fuel(byte_span, 2);
        lemma_decoding_range(r.remaining(), 1);
    }
    match read_i8(r) {
        Ok(id) => if id == -1 {
            Ok(None)
        } else {
            match GameMode::from_id(id) {
                Some(mode) => Ok(Some(mode)),
                None => Err(FieldReadError::InvalidEnumVariant(id as i32)),
            }
        },
        Err(e) => Err(e),
    }
}

/// Appends an optional game mode as one signed byte, `-1` for none.
pub fn write_optional_game_mode(buffer: &mut Vec<u8>, mode: Option<GameMode>)
    ensures
        final(buffer)@ == old(buffer)@ + optional_game_mode_encoding(mode),
{
    match mode {
        Some(mode) => mode.write_to(buffer),
        None => write_i8(buffer, -1),
    }
}

/// Every optional game mode survives the trip through its wire form.
pub proof fn lemma_optional_game_mode_roundtrip(mode: Option<GameMode>, rest: Seq<u8>)
    ensures
        optional_game_mode_decoding(optional_game_mode_encoding(mode) + rest) == Ok::<
            (Option<GameMode>, nat),
            FieldReadError,
        >((mode, 1)),
{
    reveal_with_fuel(byte_span, 2);
    let id: int = match mode {
        Some(m) => m.spec_id() as int,
        None => -1,
    };
    lemma_signed_decoding_roundtrip(id, 1, rest);
}

/// Every game mode survives the trip through its wire form.
pub proof fn lemma_game_mode_roundtrip(mode: GameMode, rest: Seq<u8>)
    ensures
        game_mode_decoding(game_mode_encoding(mode) + rest) == Ok::<
            (GameMode, nat),
            FieldReadError,
        >((mode, 1)),
{
    reveal_with_fuel(byte_span, 2);
    lemma_signed_decoding_roundtrip(mode.spec_id() as int, 1, rest);
}

/// A block position.
#[derive(Debug, Clone, Copy, PartialEq, Eq, Structural)]
pub struct Position {
    pub x: i32,
    pub y: i32,
    pub z: i32,
}

/// The signed value of the low `2 * half` values of a field: values from
/// `half` on stand for the negatives.
pub open spec fn field_signed(n: nat, half: nat) -> int {
    if n >= half {
        n - 2 * half
    } else {
        n as int
    }
}

/// The 64-bit word that holds a position: x in bits 63 to 38, z in bits 37
/// to 12, y in bits 11 to 0, each in two's complement of its width.
pub open spec fn position_packing(p: Position) -> nat {
    (unsigned32(p.x) % 0x400_0000) * 0x40_0000_0000 + (unsigned32(p.z) % 0x400_0000) * 0x1000
        + unsigned32(p.y) % 0x1000
}

/// The position that a 64-bit word holds, each field sign-extended.
pub open spec fn position_unpacking(v: nat) -> Position {
    Position {
        x: field_signed(v / 0x40_0000_0000, 0x200_0000) as i32,
        y: field_signed(v % 0x1000, 0x800) as i32,
        z: field_signed((v / 0x1000) % 0x400_0000, 0x200_0000) as i32,
    }
}

/// Whether every coordinate fits its field: 26 bits for x and z, 12 for y.
pub open spec fn position_in_range(p: Position) -> bool {
    &&& -0x200_0000 <= p.x < 0x200_0000
    &&& -0x200_0000 <= p.z < 0x200_0000
    &&& -0x800 <= p.y < 0x800
}

/// The wire form of a position.
pub open spec fn position_encoding(p: Position) -> Seq<u8> {
    be_bytes(position_packing(p), 8)
}

/// The position at the front of `s`.
pub open spec fn position_decoding(s: Seq<u8>) -> Result<(Position, nat), FieldReadError> {
    match unsigned_decoding(s, 8) {
        Ok((v, n)) => Ok((position_unpacking(v), n)),
        Err(e) => Err(e),
    }
}

/// A packed position is a 64-bit word.
pub proof fn lemma_packing_fits(p: Position)
    ensures
        position_packing(p) < 0x1_0000_0000_0000_0000,
{
}

/// Unpacking the packed form of a position whose coordinates fit their
/// fields gives the position back.
pub proof fn lemma_position_roundtrip(p: Position)
    requires
        position_in_range(p),
    ensures
        position_unpacking(position_packing(p)) == p,
{
    let a = unsigned32(p.x) % 0x400_0000;
    let b = unsigned32(p.z) % 0x400_0000;
    let c = unsigned32(p.y) % 0x1000;
    let v = position_packing(p);
    assert(v == a * 0x40_0000_0000 + b * 0x1000 + c);
    assert(v / 0x40_0000_0000 == a);
    assert(v % 0x1000 == c);
    assert((v / 0x1000) % 0x400_0000 == b);
}

/// A position whose coordinates fit their fields survives the trip through
/// its wire form, whatever follows it.
pub proof fn lemma_position_wire_roundtrip(p: Position, rest: Seq<u8>)
    requires
        position_in_range(p),
    ensures
        position_decoding(position_encoding(p) + rest) == Ok::<(Position, nat), FieldReadError>(
            (p, 8),
        ),
{
    reveal_with_fuel(byte_span, 9);
    lemma_packing_fits(p);
    lemma_unsigned_roundtrip(position_packing(p), 8, rest);
    lemma_position_roundtrip(p);
}

impl Position {
    pub fn new(x: i32, y: i32, z: i32) -> (p: Position)
        ensures
            p == (Position { x, y, z }),
    {
        Position { x, y, z }
    }

    /// Packs the position into one 64-bit word. Coordinates that do not fit
    /// their field lose their high bits.
    pub fn pack(&self) -> (v: u64)
        ensures
            v as nat == position_packing(*self),
    {
        let x: i32 = self.x;
        let y: i32 = self.y;
        let z: i32 = self.z;
        let xu: u32 = #[verifier::truncate]
        (x as u32);
        let yu: u32 = #[verifier::truncate]
        (y as u32);
        let zu: u32 = #[verifier::truncate]
        (z as u32);
        assert((x < 0 ==> xu == x + 0x1_0000_0000) && (x >= 0 ==> xu == x)) by (bit_vector)
            requires
                xu == x as u32,
        ;
        assert((y < 0 ==> yu == y + 0x1_0000_0000) && (y >= 0 ==> yu == y)) by (bit_vector)
            requires
                yu == y as u32,
        ;
        assert((z < 0 ==> zu == z + 0x1_0000_0000) && (z >= 0 ==> zu == z)) by (bit_vector)
            requires
                zu == z as u32,
        ;
        let v: u64 = (((xu as u64) & 0x3ffffff) << 38) | ((yu as u64) & 0xfff) | (((zu as u64)
            & 0x3ffffff) << 12);
        assert(v == (xu % 0x400_0000) * 0x40_0000_0000 + (zu % 0x400_0000) * 0x1000 + yu % 0x1000)
            by (bit_vector)
            requires
                v == (((xu as u64) & 0x3ffffff) << 38) | ((yu as u64) & 0xfff) | (((zu as u64)
                    & 0x3ffffff) << 12),
        ;
        v
    }

    /// Unpacks a 64-bit word into a position, sign-extending each field.
    pub fn unpack(v: u64) -> (p: Position)
        ensures
            p == position_unpacking(v as nat),
    {
        let xq: u64 = v >> 38;
        let zq: u64 = (v >> 12) & 0x3ffffff;
        let yq: u64 = v & 0xfff;
        assert(xq == v / 0x40_0000_0000 && zq == (v / 0x1000) % 0x400_0000 && yq == v % 0x1000
            && xq < 0x400_0000) by (bit_vector)
            requires
                xq == v >> 38,
                zq == (v >> 12) & 0x3ffffff,
                yq == v & 0xfff,
        ;
        let x: i32 = if xq >= 0x200_0000 {
            (xq as i64 - 0x400_0000) as i32
        } else {
            xq as i32
        };
        let z: i32 = if zq >= 0x200_0000 {
            (zq as i64 - 0x400_0000) as i32
        } else {
            zq as i32
        };
        let y: i32 = if yq >= 0x800 {
            (yq as i64 - 0x1000) as i32
        } else {
            yq as i32
        };
        Position { x, y, z }
    }

    /// Reads a position: one big-endian 64-bit word.
    pub fn read_from(r: &mut DecodeBuffer) -> (res: Result<Position, FieldReadError>)
        ensures
            final(r).data() == old(r).data(),
            match position_decoding(old(r).remaining()) {
                Ok((p, n)) => res == Ok::<Position, FieldReadError>(p)
                    && final(r).offset() == old(r).offset() + n
                    && final(r).remaining() == old(r).remaining().skip(n as int),
                Err(e) => res == Err::<Position, FieldReadError>(e),
            },
    {
        proof {
            reveal_with_fuel(byte_span, 9);
            lemma_decoding_range(r.remaining(), 8);
        }
        match read_u64(r) {
            Ok(v) => Ok(Position::unpack(v)),
            Err(e) => Err(e),
        }
    }

    /// Appends the packed position as one big-endian 64-bit word.
    pub fn write_to(&self, buffer: &mut Vec<u8>)
        ensures
            final(buffer)@ == old(buffer)@ + position_encoding(*self),
    {
        write_u64(buffer, self.pack());
    }
}

} // verus!
