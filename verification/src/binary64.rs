//! IEEE-754 binary64 quantities held by their bit patterns.
//!
//! The library compares quantities such as gigabytes of memory as the
//! hardware does, without holding floating-point values: a `Binary64` is the
//! bit pattern of a double, and `lt` / `le` follow IEEE-754 ordering (every
//! comparison with a NaN is false, and -0 equals +0).
use vstd::prelude::*;

verus! {

/// Bit pattern of an IEEE-754 double.
#[derive(Clone, Copy, Debug, PartialEq, Eq)]
pub struct Binary64(pub u64);

pub const SIGN_BIT: u64 = 0x8000_0000_0000_0000;

/// Magnitudes above this one (exponent all ones, mantissa non-zero) are NaNs.
pub const INFINITY_MAGNITUDE: u64 = 0x7FF0_0000_0000_0000;

impl Binary64 {
    /// The bits without the sign.
    pub open spec fn magnitude(self) -> int {
        if self.0 >= SIGN_BIT {
            self.0 - SIGN_BIT
        } else {
            self.0 as int
        }
    }

    pub open spec fn is_nan(self) -> bool {
        self.magnitude() > INFINITY_MAGNITUDE
    }

    /// An integer that orders non-NaN doubles as their values are ordered.
    pub open spec fn order_key(self) -> int {
        if self.0 >= SIGN_BIT {
            -self.magnitude()
        } else {
            self.magnitude()
        }
    }

    /// IEEE-754 `self < other`.
    pub open spec fn less_than(self, other: Binary64) -> bool {
        !self.is_nan() && !other.is_nan() && self.order_key() < other.order_key()
    }

    /// IEEE-754 `self <= other`.
    pub open spec fn at_most(self, other: Binary64) -> bool {
        !self.is_nan() && !other.is_nan() && self.order_key() <= other.order_key()
    }

    fn magnitude_exec(&self) -> (m: u64)
        ensures
            m == self.magnitude(),
    {
        if self.0 >= SIGN_BIT {
            self.0 - SIGN_BIT
        } else {
            self.0
        }
    }

    pub fn is_nan_exec(&self) -> (r: bool)
        ensures
            r == self.is_nan(),
    {
        self.magnitude_exec() > INFINITY_MAGNITUDE
    }

    /// IEEE-754 `<`.
    pub fn lt(&self, other: &Binary64) -> (r: bool)
        ensures
            r == self.less_than(*other),
    {
        if self.is_nan_exec() || other.is_nan_exec() {
            return false;
        }
        let a = self.magnitude_exec();
        let b = other.magnitude_exec();
        let a_neg = self.0 >= SIGN_BIT;
        let b_neg = other.0 >= SIGN_BIT;
        if a_neg && b_neg {
            b < a
        } else if a_neg {
            a > 0 || b > 0
        } else if b_neg {
            false
        } else {
            a < b
        }
    }

    /// IEEE-754 `<=`.
    pub fn le(&self, other: &Binary64) -> (r: bool)
        ensures
            r == self.at_most(*other),
    {
        if self.is_nan_exec() || other.is_nan_exec() {
            return false;
        }
        let a = self.magnitude_exec();
        let b = other.magnitude_exec();
        let a_neg = self.0 >= SIGN_BIT;
        let b_neg = other.0 >= SIGN_BIT;
        if a_neg && b_neg {
            b <= a
        } else if a_neg {
            true
        } else if b_neg {
            a == 0 && b == 0
        } else {
            a <= b
        }
    }
}

/// Positive zero.
pub open spec fn zero() -> Binary64 {
    Binary64(0)
}

} // verus!
