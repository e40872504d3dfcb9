//! Prices, quantities and money: fixed-point numbers with their own precision.
use vstd::arithmetic::div_mod::{lemma_fundamental_div_mod, lemma_fundamental_div_mod_converse};
use vstd::arithmetic::power::{lemma_pow_adds, lemma_pow_increases, lemma_pow_positive, pow};
use vstd::prelude::*;

use crate::decimal::{Amount, MAX_MANTISSA, MAX_SCALE};
#[allow(unused_imports)]
use crate::decimal::{common_scale, maximum, pow10};

verus! {

/// The integer nearest to `numerator / denominator`; of two that are as near, the even one.
pub open spec fn round_half_even(numerator: int, denominator: int) -> int {
    let below = numerator / denominator;
    let rest = numerator % denominator;
    if 2 * rest < denominator {
        below
    } else if 2 * rest > denominator {
        below + 1
    } else if below % 2 == 0 {
        below
    } else {
        below + 1
    }
}

/// The mantissa of `value` rounded to `precision` decimal places, half to even.
pub open spec fn rounded(value: Amount, precision: int) -> int {
    if value.scale <= precision {
        value.mantissa * pow10(precision - value.scale)
    } else {
        round_half_even(value.mantissa as int, pow10(value.scale - precision))
    }
}

/// Comparing two numbers is comparing their mantissas at the finer of their scales.
pub proof fn lemma_less_than_at_common_scale(left: Amount, right: Amount)
    ensures
        left.less_than(right) <==> left.at_scale(common_scale(left, right)) < right.at_scale(
            common_scale(left, right),
        ),
{
    let scale = common_scale(left, right);
    let coarse = if left.scale < right.scale {
        left.scale as int
    } else {
        right.scale as int
    };
    let power = pow10(scale - coarse);
    let base = pow10(coarse);
    let one = pow10(0);
    lemma_pow_positive(10, coarse as nat);
    lemma_pow_adds(10, (scale - coarse) as nat, coarse as nat);
    assert(one == 1) by {
        reveal(pow);
    }
    let l = left.mantissa as int;
    let r = right.mantissa as int;
    assert((l * (power * base) < r * base <==> l * power < r * one) && (l * base < r * (power
        * base) <==> l * one < r * power)) by (nonlinear_arith)
        requires
            base >= 1,
            one == 1,
    ;
}

/// Rounding a fraction does not depend on how it is expanded.
proof fn lemma_round_expanded(numerator: int, denominator: int, factor: int)
    requires
        denominator >= 1,
        factor >= 1,
    ensures
        round_half_even(numerator * factor, denominator * factor) == round_half_even(
            numerator,
            denominator,
        ),
{
    let below = numerator / denominator;
    let rest = numerator % denominator;
    lemma_fundamental_div_mod(numerator, denominator);
    assert(numerator * factor == below * (denominator * factor) + rest * factor && 0 <= rest
        * factor < denominator * factor) by (nonlinear_arith)
        requires
            numerator == denominator * below + rest,
            0 <= rest < denominator,
            factor >= 1,
    ;
    lemma_fundamental_div_mod_converse(
        numerator * factor,
        denominator * factor,
        below,
        rest * factor,
    );
    assert((2 * (rest * factor) < denominator * factor <==> 2 * rest < denominator) && (2 * (rest
        * factor) > denominator * factor <==> 2 * rest > denominator)) by (nonlinear_arith)
        requires
            factor >= 1,
    ;
}

/// Rounding depends on the number alone, not on the scale that it is written with.
pub proof fn lemma_rounded_is_by_value(value: Amount, scale: int, precision: int)
    requires
        0 <= precision,
        value.scale <= scale <= u32::MAX,
        i128::MIN <= value.at_scale(scale) <= i128::MAX,
    ensures
        rounded(
            Amount { mantissa: value.at_scale(scale) as i128, scale: scale as u32 },
            precision,
        ) == rounded(value, precision),
{
    let m = value.mantissa as int;
    let s = value.scale as int;
    let k = pow10(scale - s);
    lemma_pow_positive(10, (scale - s) as nat);
    if scale <= precision {
        lemma_pow_adds(10, (scale - s) as nat, (precision - scale) as nat);
        let p = pow10(precision - scale);
        assert((m * k) * p == m * (k * p)) by (nonlinear_arith);
    } else if s <= precision {
        lemma_pow_adds(10, (precision - s) as nat, (scale - precision) as nat);
        let q = pow10(precision - s);
        let d = pow10(scale - precision);
        lemma_pow_positive(10, (scale - precision) as nat);
        assert(m * (q * d) == (m * q) * d) by (nonlinear_arith);
        lemma_fundamental_div_mod_converse(m * k, d, m * q, 0);
    } else {
        lemma_pow_adds(10, (s - precision) as nat, (scale - s) as nat);
        lemma_pow_positive(10, (s - precision) as nat);
        lemma_round_expanded(m, pow10(s - precision), k);
    }
}

/// The larger of a number and zero is the number where that is positive.
pub proof fn lemma_maximum_with_zero(value: Amount)
    ensures
        maximum(value, Amount::zero()) == if value.mantissa < 0 {
            Amount::zero()
        } else {
            value
        },
{
    let one = pow10(0);
    lemma_pow_positive(10, 0);
    assert(pow10(Amount::zero().scale as int) == one);
    assert(0 * pow10(value.scale as int) == 0);
    assert(value.mantissa < 0 <==> value.mantissa * one < 0) by (nonlinear_arith)
        requires
            one >= 1,
    ;
}

/// A number that is not negative is not negative when rounded, and zero stays zero. Where
/// nothing is rounded away, a positive number stays positive.
pub proof fn lemma_rounded_keeps_sign(value: Amount, precision: int)
    requires
        value.mantissa >= 0,
        0 <= precision,
    ensures
        rounded(value, precision) >= 0,
        value.mantissa == 0 ==> rounded(value, precision) == 0,
        value.scale <= precision ==> (rounded(value, precision) > 0 <==> value.mantissa > 0),
{
    let m = value.mantissa as int;
    if value.scale <= precision {
        let power = pow10(precision - value.scale);
        lemma_pow_positive(10, (precision - value.scale) as nat);
        assert(m * power >= 0 && (m * power > 0 <==> m > 0)) by (nonlinear_arith)
            requires
                m >= 0,
                power >= 1,
        ;
    } else {
        let power = pow10(value.scale - precision);
        lemma_pow_positive(10, (value.scale - precision) as nat);
        lemma_fundamental_div_mod(m, power);
        assert(m / power >= 0 && (m == 0 ==> m / power == 0 && m % power == 0))
            by (nonlinear_arith)
            requires
                m >= 0,
                power >= 1,
        ;
    }
}

/// Powers of ten up to the largest scale fit 94 bits.
pub proof fn lemma_pow10_bound(exponent: int)
    requires
        0 <= exponent <= MAX_SCALE,
    ensures
        1 <= pow10(exponent) <= 10_000_000_000_000_000_000_000_000_000,
        exponent >= 1 ==> pow10(exponent) >= 10,
{
    lemma_pow_positive(10, exponent as nat);
    lemma_pow_increases(10, exponent as nat, 28);
    assert(pow(10, 7) == 10_000_000) by {
        reveal_with_fuel(pow, 8);
    }
    lemma_pow_adds(10, 7, 7);
    lemma_pow_adds(10, 14, 14);
    assert(pow(10, 28) == 10_000_000_000_000_000_000_000_000_000) by (nonlinear_arith)
        requires
            pow(10, 7) == 10_000_000,
            pow(10, 14) == pow(10, 7) * pow(10, 7),
            pow(10, 28) == pow(10, 14) * pow(10, 14),
    ;
    if exponent >= 1 {
        lemma_pow_increases(10, 1, exponent as nat);
        assert(pow(10, 1) == 10) by {
            reveal_with_fuel(pow, 2);
        }
    }
}

/// `10^exponent` as a machine integer.
fn power_of_ten(exponent: u32) -> (power: u128)
    requires
        exponent <= MAX_SCALE,
    ensures
        power == pow10(exponent as int),
        1 <= power,
{
    let mut power: u128 = 1;
    let mut i: u32 = 0;
    assert(pow10(0) == 1) by {
        reveal(pow);
    }
    while i < exponent
        invariant
            i <= exponent <= MAX_SCALE,
            power == pow10(i as int),
        decreases exponent - i,
    {
        proof {
            lemma_pow10_bound(i as int);
            lemma_pow10_bound(i + 1);
            assert(pow10(i + 1) == 10 * pow10(i as int)) by {
                reveal(pow);
            }
        }
        power = power * 10;
        i += 1;
    }
    proof {
        lemma_pow10_bound(exponent as int);
    }
    power
}

/// The magnitude of a number.
fn magnitude(value: i128) -> (result: u128)
    requires
        -MAX_MANTISSA <= value <= MAX_MANTISSA,
    ensures
        result == if value < 0 {
            -value
        } else {
            value as int
        },
{
    if value < 0 {
        (-value) as u128
    } else {
        value as u128
    }
}

/// `numerator / denominator` rounded half to even.
fn divide_half_even(numerator: i128, denominator: u128) -> (quotient: i128)
    requires
        -MAX_MANTISSA <= numerator <= MAX_MANTISSA,
        1 <= denominator <= 10_000_000_000_000_000_000_000_000_000,
    ensures
        quotient == round_half_even(numerator as int, denominator as int),
        -MAX_MANTISSA <= quotient <= MAX_MANTISSA,
{
    let size: u128 = magnitude(numerator);
    let whole: u128 = size / denominator;
    let part: u128 = size % denominator;
    proof {
        let d = denominator as int;
        lemma_fundamental_div_mod(size as int, d);
        assert(0 <= whole <= size && (d >= 2 && size > 0 ==> whole < size)) by (nonlinear_arith)
            requires
                size == d * whole + part,
                1 <= d,
                0 <= part < d,
                0 <= size,
                d == denominator,
                0 <= whole,
        ;
    }
    let (below, rest): (i128, u128) = if numerator >= 0 {
        (whole as i128, part)
    } else if part == 0 {
        (-(whole as i128), 0)
    } else {
        (-(whole as i128) - 1, denominator - part)
    };
    proof {
        let d = denominator as int;
        assert(numerator as int == below * d + rest) by (nonlinear_arith)
            requires
                size == d * whole + part,
                numerator >= 0 ==> numerator == size && below == whole && rest == part,
                numerator < 0 ==> numerator == -size,
                numerator < 0 && part == 0 ==> below == -whole && rest == 0,
                numerator < 0 && part != 0 ==> below == -whole - 1 && rest == d - part,
        ;
        lemma_fundamental_div_mod_converse(numerator as int, d, below as int, rest as int);
    }
    let up: bool = if 2 * rest < denominator {
        false
    } else if 2 * rest > denominator {
        true
    } else {
        whole % 2 == if numerator >= 0 || part == 0 { 1u128 } else { 0u128 }
    };
    if up {
        below + 1
    } else {
        below
    }
}

/// The mantissa of `value` at `precision` decimal places, where it fits 96 bits.
fn round_to_precision(value: Amount, precision: u32) -> (mantissa: Option<i128>)
    requires
        value.wf(),
        precision <= MAX_SCALE,
    ensures
        mantissa is Some <==> -MAX_MANTISSA <= rounded(value, precision as int) <= MAX_MANTISSA,
        mantissa is Some ==> mantissa->0 == rounded(value, precision as int),
{
    if value.scale > precision {
        let power: u128 = power_of_ten(value.scale - precision);
        proof {
            lemma_pow10_bound(value.scale - precision);
        }
        return Some(divide_half_even(value.mantissa, power));
    }
    let places: u32 = precision - value.scale;
    let power: u128 = power_of_ten(places);
    let size: u128 = magnitude(value.mantissa);
    let limit: u128 = 0xffff_ffff_ffff_ffff_ffff_ffffu128 / power;
    proof {
        let p = power as int;
        lemma_fundamental_div_mod(MAX_MANTISSA as int, p);
        assert(size <= limit <==> size * p <= MAX_MANTISSA) by (nonlinear_arith)
            requires
                p >= 1,
                p == power,
                MAX_MANTISSA as int == p * (MAX_MANTISSA as int / p) + MAX_MANTISSA as int % p,
                0 <= MAX_MANTISSA as int % p < p,
                limit == MAX_MANTISSA as int / p,
        ;
        assert(size * p == value.mantissa * p || size * p == -(value.mantissa * p))
            by (nonlinear_arith)
            requires
                size == value.mantissa || size == -value.mantissa,
        ;
        assert(value.mantissa >= 0 ==> value.mantissa * p >= 0) by (nonlinear_arith)
            requires
                p >= 1,
        ;
        assert(value.mantissa < 0 ==> value.mantissa * p < 0) by (nonlinear_arith)
            requires
                p >= 1,
        ;
    }
    if size > limit {
        return None;
    }
    let scaled: u128 = size * power;
    if value.mantissa >= 0 {
        Some(scaled as i128)
    } else {
        Some(-(scaled as i128))
    }
}

/// The price `mantissa / 10^precision`.
#[derive(Clone, Copy, Debug, PartialEq, Eq, Structural)]
pub struct Price {
    pub mantissa: i128,
    pub precision: u8,
}

impl Price {
    /// The price as a decimal number.
    pub open spec fn amount(self) -> Amount {
        Amount { mantissa: self.mantissa, scale: self.precision as u32 }
    }

    /// The price is a decimal number.
    pub open spec fn wf(self) -> bool {
        self.amount().wf()
    }

    /// The price zero with this precision.
    pub fn zero(precision: u8) -> (price: Price)
        ensures
            price == (Price { mantissa: 0, precision }),
    {
        Price { mantissa: 0, precision }
    }

    /// The price as a decimal number.
    pub fn as_decimal(&self) -> (value: Amount)
        ensures
            value == self.amount(),
    {
        Amount { mantissa: self.mantissa, scale: self.precision as u32 }
    }

    /// Whether the price is one that decimal arithmetic can work on.
    pub fn is_valid(&self) -> (valid: bool)
        ensures
            valid == self.wf(),
    {
        self.precision <= 28 && self.mantissa <= MAX_MANTISSA && self.mantissa >= -MAX_MANTISSA
    }

    /// `value` rounded half to even to a price of this precision; `None` where the result
    /// is no valid price.
    pub fn from_decimal_dp(value: Amount, precision: u8) -> (price: Option<Price>)
        requires
            value.wf(),
        ensures
            price == price_of(value, precision as int),
    {
        if precision > 28 {
            return None;
        }
        match round_to_precision(value, precision as u32) {
            Some(mantissa) => Some(Price { mantissa, precision }),
            None => None,
        }
    }
}

/// The price that `value` is when rounded half to even to `precision` decimal places, where
/// that is a valid price.
pub open spec fn price_of(value: Amount, precision: int) -> Option<Price> {
    let mantissa = rounded(value, precision);
    if precision <= MAX_SCALE && -MAX_MANTISSA <= mantissa <= MAX_MANTISSA {
        Some(Price { mantissa: mantissa as i128, precision: precision as u8 })
    } else {
        None
    }
}

/// The quantity `mantissa / 10^precision`.
#[derive(Clone, Copy, Debug, PartialEq, Eq, Structural)]
pub struct Quantity {
    pub mantissa: u128,
    pub precision: u8,
}

impl Quantity {
    /// The quantity as a decimal number.
    pub open spec fn amount(self) -> Amount {
        Amount { mantissa: self.mantissa as i128, scale: self.precision as u32 }
    }

    /// The quantity is a decimal number.
    pub open spec fn wf(self) -> bool {
        self.mantissa <= MAX_MANTISSA && self.precision <= MAX_SCALE
    }

    /// Two quantities are the same amount, whatever their precisions.
    pub open spec fn same_as(self, other: Quantity) -> bool {
        self.mantissa * pow10(other.precision as int) == other.mantissa * pow10(
            self.precision as int,
        )
    }

    /// The quantity as a decimal number.
    pub fn as_decimal(&self) -> (value: Amount)
        requires
            self.wf(),
        ensures
            value == self.amount(),
            value.wf(),
            0 <= value.mantissa,
    {
        Amount { mantissa: self.mantissa as i128, scale: self.precision as u32 }
    }

    /// Whether the quantity is one that decimal arithmetic can work on.
    pub fn is_valid(&self) -> (valid: bool)
        ensures
            valid == self.wf(),
    {
        self.mantissa <= 0xffff_ffff_ffff_ffff_ffff_ffffu128 && self.precision <= 28
    }

    /// Whether two quantities are the same amount, whatever their precisions.
    pub fn is_same_as(&self, other: &Quantity) -> (same: bool)
        ensures
            same == self.same_as(*other),
    {
        let (fine, coarse): (Quantity, Quantity) = if self.precision >= other.precision {
            (*self, *other)
        } else {
            (*other, *self)
        };
        let places: u8 = fine.precision - coarse.precision;
        let mut rest: u128 = fine.mantissa;
        let mut i: u8 = 0;
        proof {
            lemma_same_amount(fine, coarse);
            assert(pow10(0) == 1) by {
                reveal(pow);
            }
        }
        while i < places
            invariant
                i <= places,
                places == fine.precision - coarse.precision,
                fine.mantissa == rest * pow10(i as int),
                self.same_as(*other) <==> fine.mantissa == coarse.mantissa * pow10(places as int),
            decreases places - i,
        {
            proof {
                lemma_pow_positive(10, i as nat);
                lemma_pow_adds(10, (places - i) as nat, i as nat);
                assert(pow10(places - i) == 10 * pow10(places - i - 1)) by {
                    reveal(pow);
                }
                assert(pow10(i + 1) == 10 * pow10(i as int)) by {
                    reveal(pow);
                }
                let p = pow10(i as int);
                let t = pow10(places - i - 1);
                if fine.mantissa == coarse.mantissa * pow10(places as int) {
                    assert(rest == 10 * (coarse.mantissa * t)) by (nonlinear_arith)
                        requires
                            rest * p == coarse.mantissa * ((10 * t) * p),
                            p >= 1,
                    ;
                }
            }
            if rest % 10 != 0 {
                return false;
            }
            proof {
                assert(rest * pow10(i as int) == (rest / 10) * pow10(i + 1)) by (nonlinear_arith)
                    requires
                        rest % 10 == 0,
                        pow10(i + 1) == 10 * pow10(i as int),
                ;
            }
            rest = rest / 10;
            i += 1;
        }
        proof {
            lemma_pow_positive(10, places as nat);
            let p = pow10(places as int);
            assert(rest * p == coarse.mantissa * p <==> rest == coarse.mantissa)
                by (nonlinear_arith)
                requires
                    p >= 1,
            ;
        }
        rest == coarse.mantissa
    }

    /// `value` rounded half to even to a quantity of this precision; `None` where the
    /// result is no valid quantity.
    pub fn from_decimal_dp(value: Amount, precision: u8) -> (quantity: Option<Quantity>)
        requires
            value.wf(),
        ensures
            quantity == quantity_of(value, precision as int),
    {
        if precision > 28 {
            return None;
        }
        match round_to_precision(value, precision as u32) {
            Some(mantissa) => if mantissa >= 0 {
                Some(Quantity { mantissa: mantissa as u128, precision })
            } else {
                None
            },
            None => None,
        }
    }
}

/// Two quantities are the same amount where the mantissa of the finer one is that of the
/// coarser one, brought to the finer precision.
proof fn lemma_same_amount(fine: Quantity, coarse: Quantity)
    requires
        coarse.precision <= fine.precision,
    ensures
        fine.same_as(coarse) <==> fine.mantissa == coarse.mantissa * pow10(
            fine.precision - coarse.precision,
        ),
        fine.same_as(coarse) <==> coarse.same_as(fine),
{
    let c = pow10(coarse.precision as int);
    let p = pow10(fine.precision - coarse.precision);
    lemma_pow_positive(10, coarse.precision as nat);
    lemma_pow_adds(10, (fine.precision - coarse.precision) as nat, coarse.precision as nat);
    assert(fine.mantissa * c == coarse.mantissa * (p * c) <==> fine.mantissa == coarse.mantissa * p)
        by (nonlinear_arith)
        requires
            c >= 1,
    ;
}

/// The quantity that `value` is when rounded half to even to `precision` decimal places,
/// where that is a valid quantity.
pub open spec fn quantity_of(value: Amount, precision: int) -> Option<Quantity> {
    let mantissa = rounded(value, precision);
    if precision <= MAX_SCALE && 0 <= mantissa <= MAX_MANTISSA {
        Some(Quantity { mantissa: mantissa as u128, precision: precision as u8 })
    } else {
        None
    }
}

/// Rounding to more decimal places changes nothing of the number. Rounding to fewer gives
/// the nearest number with that many, and of two that are as near, the even one.
pub proof fn law_rounding_gives_the_nearest(value: Amount, precision: int)
    requires
        0 <= precision,
    ensures
        ({
            let m = value.mantissa as int;
            let r = rounded(value, precision);
            if value.scale <= precision {
                r == m * pow(10, (precision - value.scale) as nat)
            } else {
                let unit = pow(10, (value.scale - precision) as nat);
                &&& -unit <= 2 * (r * unit - m) <= unit
                &&& 2 * (r * unit - m) == unit || 2 * (r * unit - m) == -unit ==> r % 2 == 0
            }
        }),
{
    if value.scale > precision {
        let m = value.mantissa as int;
        let unit = pow(10, (value.scale - precision) as nat);
        lemma_pow_positive(10, (value.scale - precision) as nat);
        lemma_fundamental_div_mod(m, unit);
        let below = m / unit;
        let rest = m % unit;
        let r = rounded(value, precision);
        assert(below * unit == m - rest && (below + 1) * unit == m - rest + unit)
            by (nonlinear_arith)
            requires
                m == unit * below + rest,
        ;
        assert(r == below || r == below + 1);
    }
}

/// Rounding gives a price exactly where the precision has at most 28 places and the rounded
/// mantissa fits 96 bits; the price has that mantissa and that precision.
pub proof fn law_a_price_is_a_rounded_number(value: Amount, precision: int)
    requires
        0 <= precision <= 255,
    ensures
        match price_of(value, precision) {
            Some(price) => {
                &&& price.mantissa == rounded(value, precision)
                &&& price.precision == precision
                &&& precision <= 28
                &&& -79_228_162_514_264_337_593_543_950_335 <= price.mantissa
                    <= 79_228_162_514_264_337_593_543_950_335
            },
            None => precision > 28 || !(-79_228_162_514_264_337_593_543_950_335 <= rounded(
                value,
                precision,
            ) <= 79_228_162_514_264_337_593_543_950_335),
        },
{
}

/// Rounding gives a quantity exactly where the precision has at most 28 places and the
/// rounded mantissa is not negative and fits 96 bits; the quantity has that mantissa and
/// that precision.
pub proof fn law_a_quantity_is_a_rounded_number(value: Amount, precision: int)
    requires
        0 <= precision <= 255,
    ensures
        match quantity_of(value, precision) {
            Some(quantity) => {
                &&& quantity.mantissa == rounded(value, precision)
                &&& quantity.precision == precision
                &&& precision <= 28
                &&& quantity.mantissa <= 79_228_162_514_264_337_593_543_950_335
            },
            None => precision > 28 || !(0 <= rounded(value, precision)
                <= 79_228_162_514_264_337_593_543_950_335),
        },
{
}

/// Two quantities are the same where they are the same number: each mantissa, brought to the
/// other's precision as well, is the same.
pub proof fn law_same_quantities_are_the_same_number(left: Quantity, right: Quantity)
    ensures
        left.same_as(right) <==> left.mantissa * pow(10, right.precision as nat) == right.mantissa
            * pow(10, left.precision as nat),
        left.precision == right.precision ==> (left.same_as(right) <==> left.mantissa
            == right.mantissa),
{
    let power = pow(10, left.precision as nat);
    lemma_pow_positive(10, left.precision as nat);
    assert(left.mantissa * power == right.mantissa * power <==> left.mantissa == right.mantissa)
        by (nonlinear_arith)
        requires
            power >= 1,
    ;
}

/// A price and a quantity are the decimal number of their mantissa and precision, and can be
/// worked with where that has at most 28 places and fits 96 bits.
pub proof fn law_prices_and_quantities_are_decimal_numbers(price: Price, quantity: Quantity)
    ensures
        price.amount().mantissa == price.mantissa,
        price.amount().scale == price.precision,
        price.wf() <==> price.precision <= 28 && -79_228_162_514_264_337_593_543_950_335
            <= price.mantissa <= 79_228_162_514_264_337_593_543_950_335,
        quantity.wf() <==> quantity.precision <= 28 && quantity.mantissa
            <= 79_228_162_514_264_337_593_543_950_335,
        quantity.wf() ==> quantity.amount().mantissa == quantity.mantissa
            && quantity.amount().scale == quantity.precision,
{
}

} // verus!
