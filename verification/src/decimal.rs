//! Fixed-point decimal amounts.
//!
//! Monetary quantities (prices, equity, profit and loss, scores) are held as
//! a signed count of millionths, i.e. with `DECIMAL_SCALE` fractional decimal
//! digits. The host process converts between this representation and
//! whatever arbitrary-precision type its drivers use.

use vstd::prelude::*;

verus! {

/// Number of fractional decimal digits every `Decimal` carries.
pub const DECIMAL_SCALE: u32 = 6;

/// Ten to the `n`th power.
pub open spec fn pow10(n: nat) -> int
    decreases n,
{
    if n == 0 {
        1
    } else {
        10 * pow10((n - 1) as nat)
    }
}

/// A decimal amount, stored as `raw` millionths of a unit.
#[derive(Clone, Copy, Debug, PartialEq, Eq, Structural)]
pub struct Decimal {
    pub raw: i64,
}

/// Ten to the `n`th power for the scales a `Decimal` can carry.
fn pow10_i64(n: u32) -> (r: i64)
    requires
        n <= DECIMAL_SCALE,
    ensures
        r == pow10(n as nat),
{
    proof {
        reveal_with_fuel(pow10, 7);
    }
    if n == 0 {
        1
    } else if n == 1 {
        10
    } else if n == 2 {
        100
    } else if n == 3 {
        1000
    } else if n == 4 {
        10000
    } else if n == 5 {
        100000
    } else {
        1000000
    }
}

impl Decimal {
    /// The amount `mantissa * 10^(-scale)`, exactly representable whenever
    /// `scale` does not exceed `DECIMAL_SCALE` and the scaled value fits.
    pub fn new(mantissa: i64, scale: u32) -> (r: Decimal)
        requires
            scale <= DECIMAL_SCALE,
            i64::MIN <= mantissa * pow10((DECIMAL_SCALE - scale) as nat) <= i64::MAX,
        ensures
            r.raw == mantissa * pow10((DECIMAL_SCALE - scale) as nat),
    {
        let factor = pow10_i64(DECIMAL_SCALE - scale);
        Decimal { raw: mantissa * factor }
    }

    /// The amount zero.
    pub fn zero() -> (r: Decimal)
        ensures
            r.raw == 0,
    {
        Decimal { raw: 0 }
    }

    /// The amount one.
    pub fn one() -> (r: Decimal)
        ensures
            r.raw == pow10(DECIMAL_SCALE as nat),
    {
        proof {
            reveal_with_fuel(pow10, 7);
        }
        Decimal { raw: 1000000 }
    }

    /// The sum of two amounts.
    pub fn plus(self, other: Decimal) -> (r: Decimal)
        requires
            i64::MIN <= self.raw + other.raw <= i64::MAX,
        ensures
            r.raw == self.raw + other.raw,
    {
        Decimal { raw: self.raw + other.raw }
    }

    /// Whether this amount is strictly greater than `other`.
    pub fn gt(self, other: Decimal) -> (r: bool)
        ensures
            r == (self.raw > other.raw),
    {
        self.raw > other.raw
    }
}

} // verus!
