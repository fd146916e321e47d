use vstd::prelude::*;

verus! {

/// The bit that carries the sign of a single-precision number.
pub const SIGN_BIT: u32 = 0x8000_0000;

/// The bit pattern of positive infinity. A magnitude above it is not a number.
pub const INFINITY_BITS: u32 = 0x7F80_0000;

/// A single-precision IEEE 754 number, carried as its bit pattern.
///
/// The library moves such numbers around, compares them and flips their sign;
/// it never rounds. Equality of two scalars is equality of their bit patterns.
#[derive(Clone, Copy, Debug, PartialEq, Eq, Structural)]
pub struct Scalar {
    pub bits: u32,
}

impl Scalar {
    /// Whether the sign bit is set.
    pub open spec fn negative(self) -> bool {
        self.bits >= SIGN_BIT
    }

    /// The bit pattern with the sign bit cleared.
    pub open spec fn magnitude(self) -> int {
        if self.bits >= SIGN_BIT {
            self.bits - SIGN_BIT
        } else {
            self.bits as int
        }
    }

    /// Whether the pattern encodes "not a number".
    pub open spec fn nan(self) -> bool {
        self.magnitude() > INFINITY_BITS
    }

    /// Position of the number on the line of all numbers: the magnitude,
    /// counted downwards for negative patterns. Both zeros sit at 0, and
    /// for patterns that are numbers a larger ordinal is a larger number.
    pub open spec fn ordinal(self) -> int {
        if self.negative() {
            -self.magnitude()
        } else {
            self.magnitude()
        }
    }

    /// `self < other` as IEEE 754 orders numbers: false when either side is
    /// not a number.
    pub open spec fn less(self, other: Scalar) -> bool {
        !self.nan() && !other.nan() && self.ordinal() < other.ordinal()
    }

    /// The pattern with its sign bit flipped.
    pub open spec fn negated(self) -> Scalar {
        if self.bits >= SIGN_BIT {
            Scalar { bits: (self.bits - SIGN_BIT) as u32 }
        } else {
            Scalar { bits: (self.bits + SIGN_BIT) as u32 }
        }
    }

    /// Positive zero.
    pub open spec fn zero() -> Scalar {
        Scalar { bits: 0 }
    }

    /// The number one.
    pub open spec fn one() -> Scalar {
        Scalar { bits: 0x3F80_0000 }
    }

    pub fn from_bits(bits: u32) -> (r: Scalar)
        ensures
            r.bits == bits,
    {
        Scalar { bits }
    }

    pub fn to_bits(self) -> (r: u32)
        ensures
            r == self.bits,
    {
        self.bits
    }

    pub fn is_nan(self) -> (r: bool)
        ensures
            r == self.nan(),
    {
        let magnitude: u32 = if self.bits >= SIGN_BIT {
            self.bits - SIGN_BIT
        } else {
            self.bits
        };
        magnitude > INFINITY_BITS
    }

    /// Flips the sign, as unary minus does on a float.
    pub fn neg(self) -> (r: Scalar)
        ensures
            r == self.negated(),
            r.magnitude() == self.magnitude(),
            r.negative() != self.negative(),
    {
        if self.bits >= SIGN_BIT {
            Scalar { bits: self.bits - SIGN_BIT }
        } else {
            Scalar { bits: self.bits + SIGN_BIT }
        }
    }

    /// The comparison `self < other` of two floats.
    pub fn lt(self, other: Scalar) -> (r: bool)
        ensures
            r == self.less(other),
    {
        if self.is_nan() || other.is_nan() {
            return false;
        }
        let left_negative = self.bits >= SIGN_BIT;
        let right_negative = other.bits >= SIGN_BIT;
        let left: u32 = if left_negative {
            self.bits - SIGN_BIT
        } else {
            self.bits
        };
        let right: u32 = if right_negative {
            other.bits - SIGN_BIT
        } else {
            other.bits
        };
        if left_negative {
            if right_negative {
                left > right
            } else {
                left > 0 || right > 0
            }
        } else {
            if right_negative {
                false
            } else {
                left < right
            }
        }
    }

    /// The comparison `self > other` of two floats.
    pub fn gt(self, other: Scalar) -> (r: bool)
        ensures
            r == other.less(self),
    {
        other.lt(self)
    }
}

/// A point or a velocity in the plane.
#[derive(Clone, Copy, Debug, PartialEq, Eq, Structural)]
pub struct Vec2 {
    pub x: Scalar,
    pub y: Scalar,
}

impl Vec2 {
    /// The origin: both coordinates positive zero.
    pub open spec fn origin() -> Vec2 {
        Vec2 { x: Scalar::zero(), y: Scalar::zero() }
    }

    pub fn new(x: Scalar, y: Scalar) -> (r: Vec2)
        ensures
            r.x == x,
            r.y == y,
    {
        Vec2 { x, y }
    }

    /// The origin.
    pub fn zero() -> (r: Vec2)
        ensures
            r == Vec2::origin(),
    {
        Vec2 { x: Scalar { bits: 0 }, y: Scalar { bits: 0 } }
    }
}

} // verus!
