//! Monetary quantities.
//!
//! An [`Amount`] is an IEEE 754 binary64 number held by its bit pattern. The
//! kernels compare amounts and carry them through; they compute no sum and no
//! product of them. The order of two binary64 numbers can be read off their
//! bit patterns with integer arithmetic alone, and that is what this module
//! does.

use vstd::prelude::*;
use vstd::arithmetic::power2::{
    lemma_pow2_pos, lemma_pow2_strictly_increases, lemma_pow2_unfold, pow2,
};

verus! {

/// The bit that holds the sign of a binary64 number.
pub const SIGN_BIT: u64 = 0x8000_0000_0000_0000;

/// The magnitude bits of infinity. Every larger magnitude is a NaN.
pub const INFINITY_MAGNITUDE: u64 = 0x7FF0_0000_0000_0000;

/// The number of magnitudes that share one exponent: two to the power of 52,
/// the width of the fraction field.
pub const FRACTION_RANGE: u64 = 0x10_0000_0000_0000;

/// An IEEE 754 binary64 number, held by its bit pattern. Two amounts are equal
/// under `==` when their bit patterns are; the order of the numbers is given
/// by [`Amount::lt`] and [`Amount::gt`].
#[derive(Clone, Copy, Debug, PartialEq, Eq, Structural)]
pub struct Amount {
    pub bits: u64,
}

impl Amount {
    /// The bit pattern with the sign bit cleared.
    pub open spec fn magnitude(self) -> int {
        if self.bits < SIGN_BIT {
            self.bits as int
        } else {
            self.bits - SIGN_BIT
        }
    }

    /// Whether the number is a NaN, which compares false with everything.
    pub open spec fn is_nan(self) -> bool {
        self.magnitude() > INFINITY_MAGNITUDE
    }

    /// An integer that orders the numbers as their values do: the magnitude
    /// bits, negated where the sign bit is set. Both zeros map to 0.
    pub open spec fn order_key(self) -> int {
        if self.bits < SIGN_BIT {
            self.magnitude()
        } else {
            -self.magnitude()
        }
    }

    /// Whether the number is neither an infinity nor a NaN.
    pub open spec fn is_finite(self) -> bool {
        self.magnitude() < INFINITY_MAGNITUDE
    }

    /// The value of a finite number, counted in units of the smallest
    /// positive binary64 number, two to the power of -1074. Every finite
    /// binary64 number is a whole multiple of that unit.
    pub open spec fn scaled_value(self) -> int {
        if self.bits < SIGN_BIT {
            scaled_magnitude(self.magnitude())
        } else {
            -scaled_magnitude(self.magnitude())
        }
    }

    /// `self < other` as binary64 numbers.
    pub open spec fn spec_lt(self, other: Amount) -> bool {
        !self.is_nan() && !other.is_nan() && self.order_key() < other.order_key()
    }

    /// `self > other` as binary64 numbers.
    pub open spec fn spec_gt(self, other: Amount) -> bool {
        other.spec_lt(self)
    }

    /// The amount with the given bit pattern.
    pub fn from_bits(bits: u64) -> (amount: Amount)
        ensures
            amount.bits == bits,
    {
        Amount { bits }
    }

    /// The bit pattern of the amount.
    pub fn to_bits(&self) -> (bits: u64)
        ensures
            bits == self.bits,
    {
        self.bits
    }

    /// Positive zero.
    pub fn zero() -> (amount: Amount)
        ensures
            amount.bits == 0,
    {
        Amount { bits: 0 }
    }

    /// The order key of the number.
    fn key(&self) -> (key: i128)
        ensures
            key == self.order_key(),
    {
        if self.bits < SIGN_BIT {
            self.bits as i128
        } else {
            -((self.bits - SIGN_BIT) as i128)
        }
    }

    /// Whether the number is a NaN.
    fn nan(&self) -> (nan: bool)
        ensures
            nan == self.is_nan(),
    {
        if self.bits < SIGN_BIT {
            self.bits > INFINITY_MAGNITUDE
        } else {
            self.bits - SIGN_BIT > INFINITY_MAGNITUDE
        }
    }

    /// Whether `self < other` as binary64 numbers.
    pub fn lt(&self, other: &Amount) -> (less: bool)
        ensures
            less == self.spec_lt(*other),
    {
        !self.nan() && !other.nan() && self.key() < other.key()
    }

    /// Whether `self > other` as binary64 numbers.
    pub fn gt(&self, other: &Amount) -> (greater: bool)
        ensures
            greater == self.spec_gt(*other),
    {
        other.lt(self)
    }
}

/// The absolute value of the finite number with the magnitude bits
/// `magnitude`, in units of two to the power of -1074. The bits above the
/// fraction field are the exponent: where it is zero the fraction counts the
/// units itself; otherwise the fraction, with the implicit leading bit put in
/// front, is doubled once for each step of the exponent above one.
pub open spec fn scaled_magnitude(magnitude: int) -> int {
    let exponent = magnitude / (FRACTION_RANGE as int);
    let fraction = magnitude % (FRACTION_RANGE as int);
    if exponent == 0 {
        fraction
    } else {
        (FRACTION_RANGE + fraction) * pow2((exponent - 1) as nat)
    }
}

/// Greater magnitude bits stand for a greater absolute value.
pub proof fn lemma_scaled_magnitude_increases(x: int, y: int)
    requires
        0 <= x < y,
    ensures
        0 <= scaled_magnitude(x) < scaled_magnitude(y),
{
    let range = FRACTION_RANGE as int;
    let (ex, fx) = (x / range, x % range);
    let (ey, fy) = (y / range, y % range);
    assert(0 <= ex <= ey);
    if ex > 0 {
        lemma_pow2_pos((ex - 1) as nat);
        let px = pow2((ex - 1) as nat) as int;
        assert((range + fx) * px >= 0) by (nonlinear_arith)
            requires
                range + fx >= 0,
                px > 0,
        ;
    }
    if ex == ey {
        if ex > 0 {
            let p = pow2((ex - 1) as nat) as int;
            assert((range + fx) * p < (range + fy) * p) by (nonlinear_arith)
                requires
                    fx < fy,
                    p > 0,
            ;
        }
    } else {
        lemma_pow2_pos((ey - 1) as nat);
        let py = pow2((ey - 1) as nat) as int;
        assert((range + fy) * py >= range * py >= range) by (nonlinear_arith)
            requires
                fy >= 0,
                py >= 1,
                range > 0,
        ;
        if ex > 0 {
            let px = pow2((ex - 1) as nat) as int;
            lemma_pow2_unfold(ex as nat);
            if ex < ey - 1 {
                lemma_pow2_strictly_increases(ex as nat, (ey - 1) as nat);
            }
            assert((range + fx) * px < range * (2 * px)) by (nonlinear_arith)
                requires
                    fx < range,
                    px > 0,
            ;
            assert(range * (2 * px) <= range * py) by (nonlinear_arith)
                requires
                    2 * px <= py,
                    range > 0,
            ;
        }
    }
}

/// The order key orders the numbers as their values do: two numbers have keys
/// in a given order exactly when their scaled values are in that order.
pub proof fn lemma_order_key_orders_values(a: Amount, b: Amount)
    ensures
        a.order_key() < b.order_key() <==> a.scaled_value() < b.scaled_value(),
        a.order_key() == b.order_key() <==> a.scaled_value() == b.scaled_value(),
{
    let (x, y) = (a.magnitude(), b.magnitude());
    assert(scaled_magnitude(0) == 0);
    if x < y {
        lemma_scaled_magnitude_increases(x, y);
    } else if y < x {
        lemma_scaled_magnitude_increases(y, x);
    }
    if 0 < x {
        lemma_scaled_magnitude_increases(0, x);
    }
    if 0 < y {
        lemma_scaled_magnitude_increases(0, y);
    }
}

/// On finite numbers `spec_lt` is the order of the values.
pub proof fn lemma_lt_orders_finite_values(a: Amount, b: Amount)
    requires
        a.is_finite(),
        b.is_finite(),
    ensures
        a.spec_lt(b) <==> a.scaled_value() < b.scaled_value(),
        a.spec_gt(b) <==> a.scaled_value() > b.scaled_value(),
{
    lemma_order_key_orders_values(a, b);
    lemma_order_key_orders_values(b, a);
}

/// Every finite number lies between the two infinities.
pub proof fn lemma_infinities_bound_finite_values(a: Amount)
    requires
        a.is_finite(),
    ensures
        a.spec_lt(Amount { bits: INFINITY_MAGNITUDE }),
        a.spec_gt(Amount { bits: (SIGN_BIT + INFINITY_MAGNITUDE) as u64 }),
{
}

} // verus!
