//! Decimal numbers as plain values, and the decimal arithmetic that prices need.
use rust_decimal::Decimal;
use vstd::prelude::*;

verus! {

/// The largest number of decimal places of a decimal number.
pub const MAX_SCALE: u32 = 28;

/// The largest mantissa of a decimal number: 2^96 - 1.
pub const MAX_MANTISSA: i128 = 0xffff_ffff_ffff_ffff_ffff_ffff;

/// `10^exponent`.
pub open spec fn pow10(exponent: int) -> int {
    vstd::arithmetic::power::pow(10, exponent as nat)
}

/// The decimal number `mantissa / 10^scale`.
#[derive(Clone, Copy, Debug, PartialEq, Eq, Structural)]
pub struct Amount {
    pub mantissa: i128,
    pub scale: u32,
}

impl Amount {
    /// The number has a 96-bit mantissa and at most 28 decimal places.
    pub open spec fn wf(self) -> bool {
        &&& self.scale <= MAX_SCALE
        &&& -MAX_MANTISSA <= self.mantissa <= MAX_MANTISSA
    }

    /// The mantissa that the number has when written with `scale` decimal places.
    pub open spec fn at_scale(self, scale: int) -> int {
        self.mantissa * pow10(scale - self.scale)
    }

    /// The order of the numbers, whatever their scales.
    pub open spec fn less_than(self, other: Amount) -> bool {
        self.mantissa * pow10(other.scale as int) < other.mantissa * pow10(self.scale as int)
    }

    /// The number zero.
    pub open spec fn zero() -> Amount {
        Amount { mantissa: 0, scale: 0 }
    }
}

/// The larger of two scales.
pub open spec fn common_scale(left: Amount, right: Amount) -> int {
    if left.scale < right.scale {
        right.scale as int
    } else {
        left.scale as int
    }
}

/// What decimal subtraction gives for `left_mantissa / 10^left_scale` less
/// `right_mantissa / 10^right_scale`: the mantissa and the scale of the difference, or
/// `None` where it is out of range.
pub uninterp spec fn decimal_difference(
    left_mantissa: i128,
    left_scale: u32,
    right_mantissa: i128,
    right_scale: u32,
) -> Option<(i128, u32)>;

/// What decimal multiplication gives for `left_mantissa / 10^left_scale` times
/// `right_mantissa / 10^right_scale`: the mantissa and the scale of the product, or `None`
/// where it is out of range.
pub uninterp spec fn decimal_product(
    left_mantissa: i128,
    left_scale: u32,
    right_mantissa: i128,
    right_scale: u32,
) -> Option<(i128, u32)>;

/// The mantissa and the scale of a number, where there is one.
pub open spec fn parts(value: Option<Amount>) -> Option<(i128, u32)> {
    match value {
        Some(amount) => Some((amount.mantissa, amount.scale)),
        None => None,
    }
}

/// The number with this mantissa and scale, where there is one.
pub open spec fn from_parts(value: Option<(i128, u32)>) -> Option<Amount> {
    match value {
        Some((mantissa, scale)) => Some(Amount { mantissa, scale }),
        None => None,
    }
}

/// The difference of two numbers, as decimal subtraction gives it.
pub open spec fn difference(left: Amount, right: Amount) -> Option<Amount> {
    from_parts(decimal_difference(left.mantissa, left.scale, right.mantissa, right.scale))
}

/// The product of two numbers, as decimal multiplication gives it.
pub open spec fn product(left: Amount, right: Amount) -> Option<Amount> {
    from_parts(decimal_product(left.mantissa, left.scale, right.mantissa, right.scale))
}

/// The larger of two numbers; the first where they are equal.
pub open spec fn maximum(left: Amount, right: Amount) -> Amount {
    if left.less_than(right) {
        right
    } else {
        left
    }
}

/// Compares two `rust_decimal::Decimal` numbers with `>`: the comparison is exact,
/// whatever the two scales.
#[verifier::external_body]
pub(crate) fn decimal_greater(left: Amount, right: Amount) -> (greater: bool)
    requires
        left.wf(),
        right.wf(),
    ensures
        greater == right.less_than(left),
{
    Decimal::from_i128_with_scale(left.mantissa, left.scale)
        > Decimal::from_i128_with_scale(right.mantissa, right.scale)
}

/// Calls `rust_decimal::Decimal::max`: one of the two numbers, the larger; the first
/// where they are equal.
#[verifier::external_body]
pub(crate) fn decimal_max(left: Amount, right: Amount) -> (larger: Amount)
    requires
        left.wf(),
        right.wf(),
    ensures
        larger == maximum(left, right),
{
    let larger = Decimal::from_i128_with_scale(left.mantissa, left.scale).max(
        Decimal::from_i128_with_scale(right.mantissa, right.scale),
    );
    Amount { mantissa: larger.mantissa(), scale: larger.scale() }
}

/// Calls `rust_decimal::Decimal::checked_sub`, the subtraction behind the `-` operator,
/// which panics where this gives `None`. The difference has the sign of the exact one and
/// no more decimal places than the finer number. It is exact where the exact one fits 96
/// bits at the larger scale. Elsewhere decimal places may be given up and the result is
/// only named, but it does not fit 96 bits at the larger scale either.
#[verifier::external_body]
pub(crate) fn decimal_checked_sub(left: Amount, right: Amount) -> (result: Option<Amount>)
    requires
        left.wf(),
        right.wf(),
    ensures
        parts(result) == decimal_difference(
            left.mantissa,
            left.scale,
            right.mantissa,
            right.scale,
        ),
        result matches Some(value) ==> {
            &&& value.wf()
            &&& value.scale <= common_scale(left, right)
            &&& value.mantissa > 0 <==> right.less_than(left)
            &&& value.mantissa < 0 <==> left.less_than(right)
        },
        ({
            let scale = common_scale(left, right);
            let exact = left.at_scale(scale) - right.at_scale(scale);
            if -MAX_MANTISSA <= exact <= MAX_MANTISSA {
                result is Some && result->0.at_scale(scale) == exact
            } else {
                result is Some ==> !(-MAX_MANTISSA <= result->0.at_scale(scale) <= MAX_MANTISSA)
            }
        }),
{
    let result = Decimal::from_i128_with_scale(left.mantissa, left.scale).checked_sub(
        Decimal::from_i128_with_scale(right.mantissa, right.scale),
    );
    result.map(|value| Amount { mantissa: value.mantissa(), scale: value.scale() })
}

/// Calls `rust_decimal::Decimal::checked_mul`, the multiplication behind the `*` operator,
/// which panics where this gives `None`. The product is exact where its mantissa fits 96
/// bits and its scale 28 places; elsewhere decimal places may be given up, and the result
/// is only named.
#[verifier::external_body]
pub(crate) fn decimal_checked_mul(left: Amount, right: Amount) -> (result: Option<Amount>)
    requires
        left.wf(),
        right.wf(),
    ensures
        parts(result) == decimal_product(
            left.mantissa,
            left.scale,
            right.mantissa,
            right.scale,
        ),
        result is Some ==> result->0.wf(),
        ({
            let scale = left.scale + right.scale;
            let exact = left.mantissa * right.mantissa;
            scale <= MAX_SCALE && -MAX_MANTISSA <= exact <= MAX_MANTISSA ==> result is Some
                && result->0.scale <= scale && result->0.at_scale(scale) == exact
        }),
{
    let result = Decimal::from_i128_with_scale(left.mantissa, left.scale).checked_mul(
        Decimal::from_i128_with_scale(right.mantissa, right.scale),
    );
    result.map(|value| Amount { mantissa: value.mantissa(), scale: value.scale() })
}

} // verus!
