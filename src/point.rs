use vstd::prelude::*;

verus! {

/// Mask of the exponent bits of a single precision number.
pub const EXPONENT_MASK: u32 = 0x7f80_0000;

/// Mask of the mantissa bits of a single precision number.
pub const MANTISSA_MASK: u32 = 0x007f_ffff;

/// Mask of every bit but the sign.
pub const MAGNITUDE_MASK: u32 = 0x7fff_ffff;

/// The bit pattern is a NaN: all exponent bits set, mantissa non-zero.
pub open spec fn is_nan_bits(b: u32) -> bool {
    (b & EXPONENT_MASK) == EXPONENT_MASK && (b & MANTISSA_MASK) != 0
}

/// The bit pattern is positive or negative zero.
pub open spec fn is_zero_bits(b: u32) -> bool {
    (b & MAGNITUDE_MASK) == 0
}

/// Equality of the two numbers that the bit patterns encode: NaN equals
/// nothing, and the two zeros are equal.
pub open spec fn same_number(a: u32, b: u32) -> bool {
    !is_nan_bits(a) && !is_nan_bits(b) && (a == b || (is_zero_bits(a) && is_zero_bits(b)))
}

/// Whether `b` encodes a NaN.
pub fn is_nan(b: u32) -> (r: bool)
    ensures
        r == is_nan_bits(b),
{
    (b & EXPONENT_MASK) == EXPONENT_MASK && (b & MANTISSA_MASK) != 0
}

/// Whether `b` encodes positive or negative zero.
pub fn is_zero(b: u32) -> (r: bool)
    ensures
        r == is_zero_bits(b),
{
    (b & MAGNITUDE_MASK) == 0
}

/// Whether `a` and `b` encode equal numbers.
pub fn number_eq(a: u32, b: u32) -> (r: bool)
    ensures
        r == same_number(a, b),
{
    !is_nan(a) && !is_nan(b) && (a == b || (is_zero(a) && is_zero(b)))
}

/// A position on the drawing surface; each coordinate is the bit pattern of
/// a single precision number.
#[derive(Clone, Copy, Debug, PartialEq, Eq)]
pub struct Pos {
    pub x: u32,
    pub y: u32,
}

impl Pos {
    /// The two positions are at the same place, coordinate by coordinate.
    pub open spec fn same_place(self, other: Pos) -> bool {
        same_number(self.x, other.x) && same_number(self.y, other.y)
    }

    pub fn new(x: u32, y: u32) -> (r: Pos)
        ensures
            r.x == x,
            r.y == y,
    {
        Pos { x, y }
    }

    /// Whether `self` and `other` are at the same place.
    pub fn same_place_as(&self, other: &Pos) -> (r: bool)
        ensures
            r == self.same_place(*other),
    {
        number_eq(self.x, other.x) && number_eq(self.y, other.y)
    }
}

} // verus!
