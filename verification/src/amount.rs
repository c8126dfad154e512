//! Exact decimal quantities: the decimal numbers that records carry, and the
//! fixed-point sums that accounts keep.

use vstd::arithmetic::div_mod::{lemma_basic_div, lemma_fundamental_div_mod};
use vstd::prelude::*;

verus! {

/// Number of fractional digits that an [`Amount`] keeps.
pub const FRACTION_DIGITS: usize = 4;

/// Ten to the power `n`.
pub open spec fn pow10(n: nat) -> nat
    decreases n,
{
    if n == 0 {
        1
    } else {
        10 * pow10((n - 1) as nat)
    }
}

/// The absolute value of `x`.
pub open spec fn magnitude(x: int) -> int {
    if x < 0 {
        -x
    } else {
        x
    }
}

/// The quotient `n / d` rounded to the nearest integer, a tie going away from zero.
pub open spec fn round_half_away(n: int, d: int) -> int
    recommends
        d > 0,
{
    if n >= 0 {
        (2 * n + d) / (2 * d)
    } else {
        -((2 * (-n) + d) / (2 * d))
    }
}

/// A decimal number as a record writes it: `mantissa / 10^scale`.
#[derive(Clone, Copy, Debug, PartialEq, Eq, Structural)]
pub struct Decimal {
    pub mantissa: i64,
    pub scale: usize,
}

/// A sum of money in ten-thousandths of a unit: `units / 10^4`.
#[derive(Clone, Copy, Debug, PartialEq, Eq, Structural)]
pub struct Amount {
    pub units: i128,
}

impl View for Amount {
    type V = int;

    open spec fn view(&self) -> int {
        self.units as int
    }
}

impl Amount {
    /// The amount of `units` ten-thousandths.
    pub fn from_units(units: i128) -> (amount: Amount)
        ensures
            amount@ == units,
    {
        Amount { units }
    }

    /// The amount in ten-thousandths.
    pub fn units(&self) -> (units: i128)
        ensures
            units == self@,
    {
        self.units
    }

    /// The same number with its four fractional digits written out.
    pub fn to_decimal(&self) -> (decimal: Option<Decimal>)
        ensures
            i64::MIN <= self@ <= i64::MAX ==> decimal == Some(
                Decimal { mantissa: self@ as i64, scale: FRACTION_DIGITS },
            ),
            !(i64::MIN <= self@ <= i64::MAX) ==> decimal is None,
    {
        if self.units < i64::MIN as i128 || self.units > i64::MAX as i128 {
            None
        } else {
            Some(Decimal { mantissa: self.units as i64, scale: FRACTION_DIGITS })
        }
    }
}

impl Decimal {
    /// The number in ten-thousandths, rounded half away from zero where it
    /// has more than four fractional digits.
    pub open spec fn rounded_units(self) -> int {
        if self.scale <= FRACTION_DIGITS {
            self.mantissa * pow10((FRACTION_DIGITS - self.scale) as nat)
        } else {
            round_half_away(
                self.mantissa as int,
                pow10((self.scale - FRACTION_DIGITS) as nat) as int,
            )
        }
    }

    /// The decimal `mantissa / 10^scale`.
    pub fn new(mantissa: i64, scale: usize) -> (decimal: Decimal)
        ensures
            decimal == (Decimal { mantissa, scale }),
    {
        Decimal { mantissa, scale }
    }

    /// Rounds to four fractional digits, half away from zero.
    pub fn round(&self) -> (rounded: Amount)
        ensures
            rounded@ == self.rounded_units(),
    {
        let mantissa: i128 = self.mantissa as i128;
        if self.scale <= FRACTION_DIGITS {
            let factor: i128 = power_of_ten(FRACTION_DIGITS - self.scale);
            proof {
                lemma_pow10_increases((FRACTION_DIGITS - self.scale) as nat, 4);
                lemma_pow10_values();
                assert(-0x8000_0000_0000_0000 * 10_000 <= mantissa * factor
                    <= 0x8000_0000_0000_0000 * 10_000) by (nonlinear_arith)
                    requires
                        -0x8000_0000_0000_0000 <= mantissa <= 0x8000_0000_0000_0000,
                        1 <= factor <= 10_000,
                ;
            }
            Amount { units: mantissa * factor }
        } else {
            let excess: usize = self.scale - FRACTION_DIGITS;
            if excess > 19 {
                proof {
                    let d = pow10(excess as nat) as int;
                    lemma_pow10_increases(20, excess as nat);
                    lemma_pow10_values();
                    lemma_basic_div(2 * magnitude(mantissa as int) + d, 2 * d);
                }
                Amount { units: 0 }
            } else {
                let divisor: i128 = power_of_ten(excess);
                proof {
                    lemma_pow10_increases(excess as nat, 19);
                    lemma_pow10_values();
                }
                if mantissa < 0 {
                    Amount { units: -((2 * (-mantissa) + divisor) / (2 * divisor)) }
                } else {
                    Amount { units: (2 * mantissa + divisor) / (2 * divisor) }
                }
            }
        }
    }
}

/// Computes `10^exponent`.
fn power_of_ten(exponent: usize) -> (power: i128)
    requires
        exponent <= 19,
    ensures
        power == pow10(exponent as nat),
        power >= 1,
{
    let mut power: i128 = 1;
    let mut done: usize = 0;
    while done < exponent
        invariant
            done <= exponent <= 19,
            power == pow10(done as nat),
            power >= 1,
        decreases exponent - done,
    {
        proof {
            lemma_pow10_increases((done + 1) as nat, 19);
            lemma_pow10_values();
        }
        power = power * 10;
        done = done + 1;
    }
    power
}

/// The powers of ten that bound the arithmetic of this module.
pub proof fn lemma_pow10_values()
    ensures
        pow10(0) == 1,
        pow10(1) == 10,
        pow10(2) == 100,
        pow10(3) == 1_000,
        pow10(4) == 10_000,
        pow10(19) == 10_000_000_000_000_000_000,
        pow10(20) == 100_000_000_000_000_000_000,
{
    reveal_with_fuel(pow10, 21);
}

/// A larger exponent gives a power of ten that is no smaller.
pub proof fn lemma_pow10_increases(low: nat, high: nat)
    requires
        low <= high,
    ensures
        1 <= pow10(low) <= pow10(high),
    decreases high,
{
    if low < high {
        lemma_pow10_increases(low, (high - 1) as nat);
    } else if low > 0 {
        lemma_pow10_increases((low - 1) as nat, (high - 1) as nat);
    }
}

/// Rounding picks a nearest integer: the rounded quotient, scaled back,
/// differs from the numerator by at most half the divisor.
pub proof fn lemma_round_is_nearest(n: int, d: int)
    requires
        d > 0,
    ensures
        2 * magnitude(round_half_away(n, d) * d - n) <= d,
{
    let a = magnitude(n);
    let q = (2 * a + d) / (2 * d);
    lemma_fundamental_div_mod(2 * a + d, 2 * d);
    assert(0 <= (2 * a + d) % (2 * d) < 2 * d) by (nonlinear_arith)
        requires
            d > 0,
    ;
    assert((2 * d) * q == 2 * (q * d)) by (nonlinear_arith);
    if n < 0 {
        assert((-q) * d == -(q * d)) by (nonlinear_arith);
    }
}

/// A tie goes away from zero: where the numerator lies exactly halfway
/// between two multiples of the divisor, rounding picks the one of larger
/// magnitude.
pub proof fn lemma_round_tie_goes_away(n: int, d: int)
    requires
        d > 0,
        2 * magnitude(round_half_away(n, d) * d - n) == d,
    ensures
        magnitude(round_half_away(n, d)) * d > magnitude(n),
{
    let a = magnitude(n);
    let q = (2 * a + d) / (2 * d);
    lemma_fundamental_div_mod(2 * a + d, 2 * d);
    assert(0 <= (2 * a + d) % (2 * d) < 2 * d) by (nonlinear_arith)
        requires
            d > 0,
    ;
    assert((2 * d) * q == 2 * (q * d)) by (nonlinear_arith);
    assert(q >= 0) by (nonlinear_arith)
        requires
            (2 * d) * q + (2 * a + d) % (2 * d) == 2 * a + d,
            (2 * a + d) % (2 * d) < 2 * d,
            a >= 0,
            d > 0,
    ;
    if n < 0 {
        assert((-q) * d == -(q * d)) by (nonlinear_arith);
    }
}

/// Rounding is odd: the negated numerator rounds to the negated result.
pub proof fn lemma_round_is_odd(n: int, d: int)
    requires
        d > 0,
    ensures
        round_half_away(-n, d) == -round_half_away(n, d),
{
    if n == 0 {
        lemma_basic_div(d, 2 * d);
    }
}

/// A number that already has four fractional digits or fewer is kept as it
/// is: rounding an amount written out as a decimal gives the amount back.
pub proof fn lemma_round_keeps_amounts(units: i64)
    ensures
        (Decimal { mantissa: units, scale: FRACTION_DIGITS }).rounded_units() == units,
{
    assert(pow10((FRACTION_DIGITS - FRACTION_DIGITS) as nat) == 1);
}

/// Powers of ten multiply as their exponents add.
pub proof fn lemma_pow10_adds(low: nat, high: nat)
    ensures
        pow10(low + high) == pow10(low) * pow10(high),
    decreases low,
{
    if low > 0 {
        lemma_pow10_adds((low - 1) as nat, high);
        assert(10 * (pow10((low - 1) as nat) * pow10(high)) == (10 * pow10((low - 1) as nat))
            * pow10(high)) by (nonlinear_arith);
    } else {
        assert(1 * pow10(high) == pow10(high));
    }
}

/// Rounding moves a number by half a ten-thousandth at the most: between
/// the rounded amount `units / 10^4` and the decimal `mantissa / 10^scale`
/// lies no more than `1 / (2 * 10^4)`.
pub proof fn lemma_rounding_error(decimal: Decimal)
    ensures
        2 * magnitude(
            decimal.rounded_units() * pow10(decimal.scale as nat) - decimal.mantissa * pow10(
                FRACTION_DIGITS as nat,
            ),
        ) <= pow10(decimal.scale as nat),
{
    let scale = decimal.scale as nat;
    let mantissa = decimal.mantissa as int;
    let units = decimal.rounded_units();
    let ten_thousand = pow10(4) as int;
    lemma_pow10_increases(0, scale);
    lemma_pow10_increases(0, 4);
    if scale <= 4 {
        let factor = pow10((4 - scale) as nat) as int;
        lemma_pow10_adds((4 - scale) as nat, scale);
        assert((mantissa * factor) * pow10(scale) == mantissa * (factor * pow10(scale)))
            by (nonlinear_arith);
    } else {
        let divisor = pow10((scale - 4) as nat) as int;
        lemma_pow10_increases(0, (scale - 4) as nat);
        lemma_pow10_adds((scale - 4) as nat, 4);
        lemma_round_is_nearest(mantissa, divisor);
        let gap = units * divisor - mantissa;
        assert(units * (divisor * ten_thousand) - mantissa * ten_thousand == gap * ten_thousand)
            by (nonlinear_arith)
            requires
                gap == units * divisor - mantissa,
        ;
        assert(2 * magnitude(gap * ten_thousand) <= divisor * ten_thousand) by (nonlinear_arith)
            requires
                ten_thousand > 0,
                2 * magnitude(gap) <= divisor,
        ;
    }
}

} // verus!
