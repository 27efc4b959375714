use vstd::prelude::*;
use crate::types::{Position, TileId, TileData, Date};
use crate::text::{int_text, int_to_text};
use vstd::arithmetic::power2::{pow2, lemma2_to64, lemma_pow2_unfold, lemma_pow2_strictly_increases, lemma_pow2_pos};

verus! {

/// A single-precision number as the logic reads it: its IEEE 754 bit pattern and its
/// `Debug` text. Values of this type are made where floats are available, from an
/// `f32`; the library reads the number from its bits (see [`float_truncated`]).
#[derive(Debug)]
pub struct FloatNumber {
    pub bits: u32,
    pub text: String,
}

/// The single-precision number with the bits converted to `i32` as `as i32` does:
/// truncated toward zero, saturated at the ends of `i32`, and zero for NaN. The bits
/// hold a sign (bit 31), a biased exponent (bits 23 to 30) and a fraction (bits 0 to
/// 22); a normal number is (1 + fraction / 2^23) * 2^(exponent - 127), so numbers with an
/// exponent below 127 lie strictly between -1 and 1.
pub open spec fn float_truncated(bits: u32) -> i32 {
    let negative = bits >= 0x8000_0000;
    let e = ((bits / 0x80_0000) % 0x100) as nat;
    let m = (bits % 0x80_0000) as nat + 0x80_0000;
    if e == 255 && bits % 0x80_0000 != 0 {
        0
    } else if e < 127 {
        0
    } else if e >= 158 {
        if negative { i32::MIN } else { i32::MAX }
    } else {
        let mag: int = if e >= 150 { (m * pow2((e - 150) as nat)) as int } else { (m / pow2((150 - e) as nat)) as int };
        if negative { (-mag) as i32 } else { mag as i32 }
    }
}

/// Converts the bits of a single-precision number to `i32` as `as i32` does; see
/// [`float_truncated`].
pub fn truncate_float_bits(bits: u32) -> (r: i32)
    ensures
        r == float_truncated(bits),
{
    let negative = bits >= 0x8000_0000;
    let e: u32 = (bits / 0x80_0000) % 0x100;
    let m: u64 = (bits % 0x80_0000) as u64 + 0x80_0000;
    if e == 255 && bits % 0x80_0000 != 0 {
        return 0;
    }
    if e < 127 {
        return 0;
    }
    if e >= 158 {
        return if negative { i32::MIN } else { i32::MAX };
    }
    let k: u32 = if e >= 150 { e - 150 } else { 150 - e };
    let mut p: u64 = 1;
    let mut i: u32 = 0;
    proof {
        lemma2_to64();
    }
    while i < k
        invariant
            i <= k,
            k <= 23,
            p == pow2(i as nat),
            pow2(23) == 0x80_0000,
        decreases k - i,
    {
        proof {
            lemma_pow2_unfold((i + 1) as nat);
            if i + 1 < 23 {
                lemma_pow2_strictly_increases((i + 1) as nat, 23);
            }
        }
        p = p * 2;
        i = i + 1;
    }
    proof {
        lemma_pow2_pos(k as nat);
        if e >= 150 {
            if k < 7 {
                lemma_pow2_strictly_increases(k as nat, 7);
            }
            assert(m * p <= 0xFF_FFFF * 0x80) by (nonlinear_arith)
                requires
                    m <= 0xFF_FFFF,
                    p <= 0x80,
            ;
        }
    }
    let mag: u64 = if e >= 150 { m * p } else { m / p };
    proof {
        if e < 150 {
            assert(m / p <= m) by (nonlinear_arith)
                requires
                    p >= 1,
            ;
        }
    }
    if negative { -(mag as i64) as i32 } else { mag as i32 }
}

/// A value stored in a behavior node.
#[derive(Debug)]
pub enum Value {
    /// No value.
    Empty,
    /// A number; see [`FloatNumber`].
    Float(FloatNumber),
    /// An integer number.
    Integer(i32),
    /// A position in a region.
    Position(Position),
    /// The id of a region and the id of an area in it.
    Area(u128, u128),
    /// The id of a tilemap and a tile offset inside it.
    Tile(u128, u16, u16),
    /// Text or a script.
    String(String),
    /// A tile id.
    TileId(TileId),
    /// A placed tile.
    TileData(TileData),
    /// The serialized text of a property sink.
    PropertySink(String),
    /// A boolean.
    Bool(bool),
    /// An unsigned size.
    USize(usize),
    /// A date.
    Date(Date),
}

impl Clone for Value {
    fn clone(&self) -> (r: Self)
        ensures
            r == *self,
    {
        match self {
            Value::Empty => Value::Empty,
            Value::Float(f) => Value::Float(FloatNumber { bits: f.bits, text: f.text.clone() }),
            Value::Integer(v) => Value::Integer(*v),
            Value::Position(p) => Value::Position(*p),
            Value::Area(a, b) => Value::Area(*a, *b),
            Value::Tile(t, x, y) => Value::Tile(*t, *x, *y),
            Value::String(s) => Value::String(s.clone()),
            Value::TileId(t) => Value::TileId(*t),
            Value::TileData(t) => Value::TileData(*t),
            Value::PropertySink(s) => Value::PropertySink(s.clone()),
            Value::Bool(b) => Value::Bool(*b),
            Value::USize(u) => Value::USize(*u),
            Value::Date(d) => Value::Date(*d),
        }
    }
}

/// The integer a value converts to: integers as they are, numbers truncated.
pub open spec fn spec_integer(v: Value) -> Option<i32> {
    match v {
        Value::Float(f) => Some(float_truncated(f.bits)),
        Value::Integer(i) => Some(i),
        _ => None,
    }
}

/// The text a value holds, if it is a string.
pub open spec fn spec_text(v: Value) -> Option<Seq<char>> {
    match v {
        Value::String(s) => Some(s@),
        _ => None,
    }
}

/// The display text of a value: numbers in decimal, strings as they are, else empty.
pub open spec fn spec_text_value(v: Value) -> Seq<char> {
    match v {
        Value::Float(f) => f.text@,
        Value::Integer(i) => int_text(i as int),
        Value::String(s) => s@,
        _ => Seq::empty(),
    }
}

/// The tile id a value denotes, if any.
pub open spec fn spec_tile_id(v: Value) -> Option<TileId> {
    match v {
        Value::Tile(t, x, y) => Some(TileId { tilemap: t, x_off: x, y_off: y }),
        Value::TileId(t) => Some(t),
        Value::TileData(t) => Some(TileId { tilemap: t.tilemap, x_off: t.x_off, y_off: t.y_off }),
        _ => None,
    }
}

impl Value {
    /// Converts the value into an integer; only numbers convert.
    pub fn to_integer(&self) -> (r: Option<i32>)
        ensures
            r == spec_integer(*self),
    {
        match self {
            Value::Float(f) => Some(truncate_float_bits(f.bits)),
            Value::Integer(v) => Some(*v),
            _ => None,
        }
    }

    /// Returns the text of a string value.
    pub fn to_string(&self) -> (r: Option<String>)
        ensures
            r is Some <==> self is String,
            r matches Some(s) ==> Some(s@) == spec_text(*self),
    {
        match self {
            Value::String(v) => Some(v.clone()),
            _ => None,
        }
    }

    /// Returns the display text of the value (empty for non-textual values).
    pub fn to_string_value(&self) -> (r: String)
        ensures
            r@ == spec_text_value(*self),
    {
        match self {
            Value::Float(f) => f.text.clone(),
            Value::Integer(v) => int_to_text(*v),
            Value::String(v) => v.clone(),
            _ => String::new(),
        }
    }

    /// Returns the position of a position value.
    pub fn to_position(&self) -> (r: Option<Position>)
        ensures
            r == (match *self {
                Value::Position(p) => Some(p),
                _ => None::<Position>,
            }),
    {
        match self {
            Value::Position(p) => Some(*p),
            _ => None,
        }
    }

    /// Returns the tile of a tile-data value.
    pub fn to_tile_data(&self) -> (r: Option<TileData>)
        ensures
            r == (match *self {
                Value::TileData(t) => Some(t),
                _ => None::<TileData>,
            }),
    {
        match self {
            Value::TileData(t) => Some(*t),
            _ => None,
        }
    }

    /// Returns the tile id of a tile, tile-id or tile-data value.
    pub fn to_tile_id(&self) -> (r: Option<TileId>)
        ensures
            r == spec_tile_id(*self),
    {
        match self {
            Value::Tile(t, x, y) => Some(TileId::new(*t, *x, *y)),
            Value::TileId(t) => Some(*t),
            Value::TileData(t) => Some(TileId::new(t.tilemap, t.x_off, t.y_off)),
            _ => None,
        }
    }

    /// Returns the date of a date value.
    pub fn to_date(&self) -> (r: Option<Date>)
        ensures
            r == (match *self {
                Value::Date(d) => Some(d),
                _ => None::<Date>,
            }),
    {
        match self {
            Value::Date(d) => Some(*d),
            _ => None,
        }
    }
}

} // verus!
