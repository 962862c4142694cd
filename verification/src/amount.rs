//! Amounts of usage.
use vstd::prelude::*;

verus! {

/// The sign bit of a double.
pub const SIGN_BIT: u64 = 0x8000_0000_0000_0000;

/// The bits of positive infinity; larger magnitudes stand for no number.
pub const INFINITY_BITS: u64 = 0x7ff0_0000_0000_0000;

/// The bits of one.
pub const ONE_BITS: u64 = 0x3ff0_0000_0000_0000;

/// The bits of one hundred.
pub const HUNDRED_BITS: u64 = 0x4059_0000_0000_0000;

/// An amount: a double, held by its IEEE 754 bit pattern.
///
/// Amounts are compared here and computed elsewhere.
#[derive(Debug, Clone, Copy, PartialEq, Eq, Structural)]
pub struct Amount {
    pub bits: u64,
}

impl Amount {
    /// The bits without the sign.
    pub open spec fn magnitude(self) -> int {
        if self.bits >= SIGN_BIT {
            self.bits - SIGN_BIT
        } else {
            self.bits as int
        }
    }

    /// The bit pattern stands for no number.
    pub open spec fn is_nan(self) -> bool {
        self.magnitude() > INFINITY_BITS
    }

    /// The place of the amount among all amounts: of two numbers, the smaller has the lower rank,
    /// and both zeros have rank zero.
    pub open spec fn rank(self) -> int {
        if self.bits >= SIGN_BIT {
            -self.magnitude()
        } else {
            self.magnitude()
        }
    }

    /// Zero.
    pub open spec fn zero_spec() -> Amount {
        Amount { bits: 0 }
    }

    /// Zero.
    #[verifier::when_used_as_spec(zero_spec)]
    pub fn zero() -> (r: Amount)
        ensures
            r == Amount::zero_spec(),
    {
        Amount { bits: 0 }
    }

    /// Tells whether the amount is no number.
    pub fn not_a_number(self) -> (r: bool)
        ensures
            r == self.is_nan(),
    {
        let magnitude: u64 = if self.bits >= SIGN_BIT {
            self.bits - SIGN_BIT
        } else {
            self.bits
        };
        magnitude > INFINITY_BITS
    }

    /// Computes the rank.
    pub fn position(self) -> (r: i64)
        ensures
            r == self.rank(),
    {
        if self.bits >= SIGN_BIT {
            -((self.bits - SIGN_BIT) as i64)
        } else {
            self.bits as i64
        }
    }

    /// The amount, but zero where it is negative or no number.
    pub open spec fn at_least_zero(self) -> Amount {
        if self.is_nan() || self.rank() <= 0 {
            Amount::zero()
        } else {
            self
        }
    }

    /// The amount, but one hundred where it is more or no number.
    pub open spec fn at_most_hundred(self) -> Amount {
        if self.is_nan() || self.rank() >= HUNDRED_BITS {
            Amount { bits: HUNDRED_BITS }
        } else {
            self
        }
    }

    /// A number above zero.
    pub open spec fn is_positive(self) -> bool {
        !self.is_nan() && self.rank() > 0
    }

    /// A number that is zero or below.
    pub open spec fn is_used_up(self) -> bool {
        !self.is_nan() && self.rank() <= 0
    }

    /// A number above zero and below one.
    pub open spec fn is_low(self) -> bool {
        !self.is_nan() && 0 < self.rank() < ONE_BITS
    }

    /// Tells whether the amount is above zero.
    pub fn positive(self) -> (r: bool)
        ensures
            r == self.is_positive(),
    {
        !self.not_a_number() && self.position() > 0
    }

    /// Raises a negative amount to zero.
    pub fn raised_to_zero(self) -> (r: Amount)
        ensures
            r == self.at_least_zero(),
    {
        if self.positive() {
            self
        } else {
            Amount::zero()
        }
    }

    /// Lowers an amount above one hundred to one hundred.
    pub fn lowered_to_hundred(self) -> (r: Amount)
        ensures
            r == self.at_most_hundred(),
    {
        if self.not_a_number() || self.position() >= HUNDRED_BITS as i64 {
            Amount { bits: HUNDRED_BITS }
        } else {
            self
        }
    }

    /// Tells whether the amount is zero or below.
    pub fn used_up(self) -> (r: bool)
        ensures
            r == self.is_used_up(),
    {
        !self.not_a_number() && self.position() <= 0
    }

    /// Tells whether the amount is above zero and below one.
    pub fn low(self) -> (r: bool)
        ensures
            r == self.is_low(),
    {
        !self.not_a_number() && 0 < self.position() && self.position() < ONE_BITS as i64
    }
}

/// The order of amounts is that of the numbers that their bits stand for: without the sign bit more
/// is more, with it more is less, and a negative number comes before one that is not.
pub proof fn amounts_are_ordered_like_numbers(a: Amount, b: Amount)
    ensures
        a.is_nan() <==> (0x7ff0_0000_0000_0000 < a.bits < 0x8000_0000_0000_0000
            || 0xfff0_0000_0000_0000 < a.bits),
        a.bits < 0x8000_0000_0000_0000 && b.bits < 0x8000_0000_0000_0000 ==> (a.rank() < b.rank()
            <==> a.bits < b.bits),
        a.bits >= 0x8000_0000_0000_0000 && b.bits >= 0x8000_0000_0000_0000 ==> (a.rank() < b.rank()
            <==> a.bits > b.bits),
        a.bits > 0x8000_0000_0000_0000 && b.bits < 0x8000_0000_0000_0000 ==> a.rank() < b.rank(),
        a.rank() == 0 <==> a.bits == 0 || a.bits == 0x8000_0000_0000_0000,
{
}

/// Which amounts are above zero, used up or low: one has the bits `0x3ff0_0000_0000_0000`, and what
/// is no number is none of these.
pub proof fn amounts_are_told_apart(a: Amount)
    ensures
        a.is_positive() <==> 0 < a.bits <= 0x7ff0_0000_0000_0000,
        a.is_used_up() <==> (a.bits == 0 || 0x8000_0000_0000_0000 <= a.bits
            <= 0xfff0_0000_0000_0000),
        a.is_low() <==> 0 < a.bits < 0x3ff0_0000_0000_0000,
{
}

/// A number above zero stays when it is raised to zero, and all else becomes zero; a number below
/// one hundred, whose bits are `0x4059_0000_0000_0000`, stays when it is lowered to one hundred,
/// and all else becomes one hundred.
pub proof fn bounds_change_only_what_is_beyond_them(a: Amount)
    ensures
        0 < a.bits <= 0x7ff0_0000_0000_0000 ==> a.at_least_zero() == a,
        !(0 < a.bits <= 0x7ff0_0000_0000_0000) ==> a.at_least_zero().bits == 0,
        a.bits < 0x4059_0000_0000_0000 || 0x8000_0000_0000_0000 <= a.bits <= 0xfff0_0000_0000_0000
            ==> a.at_most_hundred() == a,
        !(a.bits < 0x4059_0000_0000_0000 || 0x8000_0000_0000_0000 <= a.bits
            <= 0xfff0_0000_0000_0000) ==> a.at_most_hundred().bits == 0x4059_0000_0000_0000,
{
}

} // verus!
