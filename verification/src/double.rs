//! Double-precision values as IEEE 754 binary64 bit patterns: classification,
//! ordering and clamping.

use vstd::prelude::*;

verus! {

/// The sign bit of a binary64 pattern.
pub const SIGN_BIT: u64 = 0x8000_0000_0000_0000;

/// The magnitude bits of an infinity: all exponent bits set, fraction zero.
pub const INFINITY_BITS: u64 = 0x7FF0_0000_0000_0000;

/// The pattern of the quiet NaN that every invalid operation returns.
pub const NAN_BITS: u64 = 0x7FF8_0000_0000_0000;

/// The pattern of `1.0`.
pub const ONE_BITS: u64 = 0x3FF0_0000_0000_0000;

/// A double-precision value, held as its binary64 bit pattern.
///
/// `==` on this type is identity of patterns: it tells `-0.0` from `+0.0` and
/// finds a NaN equal to itself.  Numeric comparison is `lt`, `le`, `gt`, `ge`.
#[derive(Clone, Copy, Debug, PartialEq, Eq, Structural)]
pub struct Double {
    pub bits: u64,
}

impl Double {
    /// The pattern without its sign bit.
    pub open spec fn magnitude(self) -> u64 {
        if self.bits >= SIGN_BIT {
            (self.bits - SIGN_BIT) as u64
        } else {
            self.bits
        }
    }

    pub open spec fn is_negative_spec(self) -> bool {
        self.bits >= SIGN_BIT
    }

    /// Zero, subnormal or normal.
    pub open spec fn is_finite_spec(self) -> bool {
        self.magnitude() < INFINITY_BITS
    }

    pub open spec fn is_infinite_spec(self) -> bool {
        self.magnitude() == INFINITY_BITS
    }

    pub open spec fn is_nan_spec(self) -> bool {
        self.magnitude() > INFINITY_BITS
    }

    pub open spec fn is_zero_spec(self) -> bool {
        self.magnitude() == 0
    }

    /// An integer that orders all values but NaN as their numeric values are
    /// ordered; both zeros have rank 0.
    pub open spec fn rank(self) -> int {
        if self.is_negative_spec() {
            -(self.magnitude() as int)
        } else {
            self.magnitude() as int
        }
    }

    /// Numeric `<`: false whenever either side is NaN.
    pub open spec fn lt_spec(self, other: Double) -> bool {
        !self.is_nan_spec() && !other.is_nan_spec() && self.rank() < other.rank()
    }

    /// Numeric `<=`: false whenever either side is NaN.
    pub open spec fn le_spec(self, other: Double) -> bool {
        !self.is_nan_spec() && !other.is_nan_spec() && self.rank() <= other.rank()
    }

    /// Numeric `>`: false whenever either side is NaN.
    pub open spec fn gt_spec(self, other: Double) -> bool {
        other.lt_spec(self)
    }

    /// Numeric `>=`: false whenever either side is NaN.
    pub open spec fn ge_spec(self, other: Double) -> bool {
        other.le_spec(self)
    }

    /// `self` restricted to `[min, max]`: `min` if `self` is below it, `max`
    /// if `self` is above it, and otherwise `self` as it is (a NaN too).
    pub open spec fn clamp_spec(self, min: Double, max: Double) -> Double {
        if self.lt_spec(min) {
            min
        } else if self.gt_spec(max) {
            max
        } else {
            self
        }
    }

    /// Whether `self` lies in `[min, max]`.
    pub open spec fn within(self, min: Double, max: Double) -> bool {
        min.le_spec(self) && self.le_spec(max)
    }

    pub fn from_bits(bits: u64) -> (d: Double)
        ensures
            d.bits == bits,
    {
        Double { bits }
    }

    pub fn to_bits(self) -> (bits: u64)
        ensures
            bits == self.bits,
    {
        self.bits
    }

    /// Positive zero.
    pub fn zero() -> (d: Double)
        ensures
            d.bits == 0,
    {
        Double { bits: 0 }
    }

    /// `1.0`.
    pub fn one() -> (d: Double)
        ensures
            d.bits == ONE_BITS,
    {
        Double { bits: ONE_BITS }
    }

    /// The canonical quiet NaN.
    pub fn nan() -> (d: Double)
        ensures
            d.bits == NAN_BITS,
            d.is_nan_spec(),
    {
        Double { bits: NAN_BITS }
    }

    pub fn abs_bits(self) -> (m: u64)
        ensures
            m == self.magnitude(),
    {
        if self.bits >= SIGN_BIT {
            self.bits - SIGN_BIT
        } else {
            self.bits
        }
    }

    pub fn is_negative(self) -> (b: bool)
        ensures
            b == self.is_negative_spec(),
    {
        self.bits >= SIGN_BIT
    }

    pub fn is_finite(self) -> (b: bool)
        ensures
            b == self.is_finite_spec(),
    {
        self.abs_bits() < INFINITY_BITS
    }

    pub fn is_infinite(self) -> (b: bool)
        ensures
            b == self.is_infinite_spec(),
    {
        self.abs_bits() == INFINITY_BITS
    }

    pub fn is_nan(self) -> (b: bool)
        ensures
            b == self.is_nan_spec(),
    {
        self.abs_bits() > INFINITY_BITS
    }

    pub fn is_zero(self) -> (b: bool)
        ensures
            b == self.is_zero_spec(),
    {
        self.abs_bits() == 0
    }

    /// The value with its sign flipped (a NaN stays a NaN).
    pub fn neg(self) -> (d: Double)
        ensures
            d.magnitude() == self.magnitude(),
            d.is_negative_spec() != self.is_negative_spec(),
    {
        if self.bits >= SIGN_BIT {
            Double { bits: self.bits - SIGN_BIT }
        } else {
            Double { bits: self.bits + SIGN_BIT }
        }
    }

    pub fn lt(self, other: Double) -> (b: bool)
        ensures
            b == self.lt_spec(other),
    {
        if self.is_nan() || other.is_nan() {
            return false;
        }
        let a: u64 = self.abs_bits();
        let b: u64 = other.abs_bits();
        if self.is_negative() {
            if other.is_negative() {
                b < a
            } else {
                a != 0 || b != 0
            }
        } else {
            if other.is_negative() {
                false
            } else {
                a < b
            }
        }
    }

    pub fn le(self, other: Double) -> (b: bool)
        ensures
            b == self.le_spec(other),
    {
        if self.is_nan() || other.is_nan() {
            return false;
        }
        !other.lt(self)
    }

    pub fn gt(self, other: Double) -> (b: bool)
        ensures
            b == self.gt_spec(other),
    {
        other.lt(self)
    }

    pub fn ge(self, other: Double) -> (b: bool)
        ensures
            b == self.ge_spec(other),
    {
        other.le(self)
    }

    /// Restricts `self` to `[min, max]`.  The bounds must be ordered, which
    /// also rules out a NaN bound.
    pub fn clamp(self, min: Double, max: Double) -> (d: Double)
        requires
            min.le_spec(max),
        ensures
            d == self.clamp_spec(min, max),
            !self.is_nan_spec() ==> d.within(min, max),
            self.within(min, max) ==> d == self,
    {
        if self.lt(min) {
            min
        } else if self.gt(max) {
            max
        } else {
            self
        }
    }
}

} // verus!
