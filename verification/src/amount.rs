//! Fixed-point monetary amounts with four fractional digits.
//!
//! An [`Amount`] is an exact count of ten-thousandths of a unit. Its view is
//! that count as a mathematical integer, and every contract in this crate
//! speaks of amounts through it.

use core::cmp::Ordering;
use core::ops::{Add, Mul, Sub};
use vstd::prelude::*;
use vstd::std_specs::cmp::PartialOrdSpecImpl;
use vstd::std_specs::ops::{AddSpecImpl, MulSpecImpl, SubSpecImpl};

verus! {

/// A monetary value held as a count of ten-thousandths.
#[derive(Debug, Clone, Copy, PartialEq, Eq, Ord, Structural)]
pub struct Amount {
    pub amount_fx4: i64,
}

/// Why a text was not read as an amount. The text is kept with the error,
/// unless it is empty.
#[derive(Debug)]
pub enum Error {
    /// The text is empty.
    NoInput,
    /// The text is not a number with an optional fraction, or the number is
    /// too large to be held.
    Malformed(String),
    /// The text has more than four fraction digits.
    PrecisionTooHigh(String),
}

/// Whether `v` ten-thousandths can be held by an [`Amount`].
pub open spec fn representable(v: int) -> bool {
    i64::MIN <= v <= i64::MAX
}

/// The quotient of `x` by ten thousand, rounded toward zero.
pub open spec fn rescale(x: int) -> int {
    if x >= 0 {
        x / 10000
    } else {
        -((-x) / 10000)
    }
}

impl View for Amount {
    type V = int;

    open spec fn view(&self) -> int {
        self.amount_fx4 as int
    }
}

impl Amount {
    /// The scaled value of `whole` units and `fraction` ten-thousandths,
    /// the fraction counting away from zero.
    pub open spec fn compose(whole: int, fraction: int) -> int {
        if whole >= 0 {
            whole * 10000 + fraction
        } else {
            whole * 10000 - fraction
        }
    }

    /// The amount of nothing.
    pub fn zero() -> (amount: Amount)
        ensures
            amount@ == 0,
    {
        Amount { amount_fx4: 0 }
    }

    /// The amount of `whole` units and `fraction` ten-thousandths.
    pub fn new(whole: i64, fraction: u32) -> (amount: Amount)
        requires
            representable(Self::compose(whole as int, fraction as int)),
        ensures
            amount@ == Self::compose(whole as int, fraction as int),
    {
        if whole >= 0 {
            Amount { amount_fx4: whole * 10000 + (fraction as i64) }
        } else {
            Amount { amount_fx4: whole * 10000 - (fraction as i64) }
        }
    }

    /// The sum, unless it cannot be held.
    pub fn checked_add(self, rhs: Amount) -> (sum: Option<Amount>)
        ensures
            match sum {
                Some(amount) => amount@ == self@ + rhs@,
                None => !representable(self@ + rhs@),
            },
    {
        match self.amount_fx4.checked_add(rhs.amount_fx4) {
            Some(amount_fx4) => Some(Amount { amount_fx4 }),
            None => None,
        }
    }

    /// The difference, unless it cannot be held.
    pub fn checked_sub(self, rhs: Amount) -> (difference: Option<Amount>)
        ensures
            match difference {
                Some(amount) => amount@ == self@ - rhs@,
                None => !representable(self@ - rhs@),
            },
    {
        match self.amount_fx4.checked_sub(rhs.amount_fx4) {
            Some(amount_fx4) => Some(Amount { amount_fx4 }),
            None => None,
        }
    }
}

impl Default for Amount {
    fn default() -> (amount: Amount)
        ensures
            amount@ == 0,
    {
        Amount { amount_fx4: 0 }
    }
}

impl AddSpecImpl for Amount {
    open spec fn obeys_add_spec() -> bool {
        true
    }

    open spec fn add_req(self, rhs: Amount) -> bool {
        representable(self@ + rhs@)
    }

    open spec fn add_spec(self, rhs: Amount) -> Amount {
        Amount { amount_fx4: (self@ + rhs@) as i64 }
    }
}

impl Add for Amount {
    type Output = Amount;

    /// The sum. The caller shows that it can be held.
    fn add(self, rhs: Amount) -> (sum: Amount)
        ensures
            sum@ == self@ + rhs@,
    {
        Amount { amount_fx4: self.amount_fx4 + rhs.amount_fx4 }
    }
}

impl SubSpecImpl for Amount {
    open spec fn obeys_sub_spec() -> bool {
        true
    }

    open spec fn sub_req(self, rhs: Amount) -> bool {
        representable(self@ - rhs@)
    }

    open spec fn sub_spec(self, rhs: Amount) -> Amount {
        Amount { amount_fx4: (self@ - rhs@) as i64 }
    }
}

impl Sub for Amount {
    type Output = Amount;

    /// The difference. The caller shows that it can be held.
    fn sub(self, rhs: Amount) -> (difference: Amount)
        ensures
            difference@ == self@ - rhs@,
    {
        Amount { amount_fx4: self.amount_fx4 - rhs.amount_fx4 }
    }
}

impl MulSpecImpl for Amount {
    open spec fn obeys_mul_spec() -> bool {
        true
    }

    open spec fn mul_req(self, rhs: Amount) -> bool {
        representable(rescale(self@ * rhs@))
    }

    open spec fn mul_spec(self, rhs: Amount) -> Amount {
        Amount { amount_fx4: rescale(self@ * rhs@) as i64 }
    }
}

impl Mul for Amount {
    type Output = Amount;

    /// The product of two scaled values, scaled back and rounded toward
    /// zero. The caller shows that it can be held.
    fn mul(self, rhs: Amount) -> (product: Amount)
        ensures
            product@ == rescale(self@ * rhs@),
    {
        let a: i128 = self.amount_fx4 as i128;
        let b: i128 = rhs.amount_fx4 as i128;
        assert(-0x4000_0000_0000_0000_0000_0000_0000_0000 <= a * b
            <= 0x4000_0000_0000_0000_0000_0000_0000_0000) by (nonlinear_arith)
            requires
                -0x8000_0000_0000_0000 <= a <= 0x8000_0000_0000_0000,
                -0x8000_0000_0000_0000 <= b <= 0x8000_0000_0000_0000,
        ;
        let scaled: i128 = (a * b) / 10000;
        Amount { amount_fx4: scaled as i64 }
    }
}

impl PartialOrdSpecImpl for Amount {
    open spec fn obeys_partial_cmp_spec() -> bool {
        true
    }

    open spec fn partial_cmp_spec(&self, other: &Amount) -> Option<Ordering> {
        if self.amount_fx4 < other.amount_fx4 {
            Some(Ordering::Less)
        } else if self.amount_fx4 > other.amount_fx4 {
            Some(Ordering::Greater)
        } else {
            Some(Ordering::Equal)
        }
    }
}

impl PartialOrd for Amount {
    /// Amounts are ordered as their values are.
    fn partial_cmp(&self, other: &Amount) -> (order: Option<Ordering>) {
        if self.amount_fx4 < other.amount_fx4 {
            Some(Ordering::Less)
        } else if self.amount_fx4 > other.amount_fx4 {
            Some(Ordering::Greater)
        } else {
            Some(Ordering::Equal)
        }
    }
}

} // verus!
