//! What prices, quantities and decisions are, in numbers.
//!
//! A price or a quantity stands for `mantissa / 10^precision`. The laws compare such numbers
//! by bringing both to a common number of decimal places.
#[allow(unused_imports)]
use vstd::arithmetic::power::{lemma_pow_adds, lemma_pow_positive, pow};
use vstd::prelude::*;

#[allow(unused_imports)]
use crate::amounts::{
    law_rounding_gives_the_nearest, lemma_maximum_with_zero, price_of, quantity_of, rounded,
    Price, Quantity,
};
#[allow(unused_imports)]
use crate::decimal::{decimal_difference, decimal_product, difference, product, Amount};
#[allow(unused_imports)]
use crate::faults::{
    cash_price_fault, delivery_fault, exercise_fault, position_fault, positions_fault,
    SettlementFault,
};
#[allow(unused_imports)]
use crate::model::{
    closing_side_of, opening_side_of, InstrumentView, OptionKind, OrderSide, PositionSide,
    PositionView,
};
#[allow(unused_imports)]
use crate::terms::{
    delivered_quantity, delivery_fits, exact_delivery, exact_gain, exact_intrinsic_value, gain_fits,
    in_the_money, intrinsic_value, is_cash_price, is_delivery, legs_per_position, settlement_price,
    EngineView,
};

verus! {

/// A call is exercised exactly where the underlying's price is above the strike, a put
/// exactly where it is below; an option without a strike or a kind is never exercised.
pub proof fn law_exercise_compares_price_and_strike(instrument: InstrumentView, price: Price)
    ensures
        in_the_money(instrument, price) ==> instrument.strike_price is Some
            && instrument.option_kind is Some,
        instrument.strike_price matches Some(strike) ==> {
            let spot = price.mantissa * pow(10, strike.precision as nat);
            let level = strike.mantissa * pow(10, price.precision as nat);
            &&& instrument.option_kind == Some(OptionKind::Call) ==> (in_the_money(
                instrument,
                price,
            ) <==> spot > level)
            &&& instrument.option_kind == Some(OptionKind::Put) ==> (in_the_money(
                instrument,
                price,
            ) <==> spot < level)
        },
{
}

/// By delivery, an option settles at its strike; without a strike, it does not settle. In
/// cash, it settles at the rounded intrinsic value.
pub proof fn law_delivery_settles_at_the_strike(instrument: InstrumentView, price: Price)
    ensures
        settlement_price(instrument, price, false) == instrument.strike_price,
        instrument.strike_price is None ==> settlement_price(instrument, price, true) is None,
{
}

/// Where the underlying's price has no more decimal places than the strike, a settlement
/// price in cash is the amount by which the underlying is above the strike, for a call, or
/// below it, for a put; it is zero where that is negative. It has the strike's precision.
pub proof fn law_cash_price_is_the_gain(
    instrument: InstrumentView,
    strike: Price,
    spot: Price,
    price: Price,
)
    requires
        instrument.strike_price == Some(strike),
        spot.precision <= strike.precision,
        is_cash_price(instrument, spot, price),
    ensures
        price.precision == strike.precision,
        ({
            let above = spot.mantissa * pow(10, (strike.precision - spot.precision) as nat)
                - strike.mantissa;
            let gain = if instrument.option_kind == Some(OptionKind::Call) {
                above
            } else {
                -above
            };
            if gain > 0 {
                price.mantissa == gain
            } else {
                price.mantissa == 0
            }
        }),
{
    assert(pow(10, 0) == 1) by {
        reveal(pow);
    }
}

/// Where the underlying's price has more decimal places than the strike, a settlement price
/// in cash is the nearest to the gain, at the strike's precision, wherever the gain fits 96
/// bits; it is zero where the gain is negative. A positive one goes with exercise, always.
pub proof fn law_cash_price_is_nearest_to_the_gain(
    instrument: InstrumentView,
    strike: Price,
    spot: Price,
    price: Price,
)
    requires
        instrument.strike_price == Some(strike),
        strike.precision < spot.precision <= 28,
        -79_228_162_514_264_337_593_543_950_335 <= strike.mantissa
            <= 79_228_162_514_264_337_593_543_950_335,
        -79_228_162_514_264_337_593_543_950_335 <= spot.mantissa
            <= 79_228_162_514_264_337_593_543_950_335,
        is_cash_price(instrument, spot, price),
    ensures
        price.precision == strike.precision,
        price.mantissa >= 0,
        instrument.option_kind == Some(OptionKind::Call) && price.mantissa > 0 ==> spot.mantissa
            > strike.mantissa * pow(10, (spot.precision - strike.precision) as nat),
        instrument.option_kind == Some(OptionKind::Put) && price.mantissa > 0 ==> spot.mantissa
            < strike.mantissa * pow(10, (spot.precision - strike.precision) as nat),
        ({
            let unit = pow(10, (spot.precision - strike.precision) as nat);
            let above = spot.mantissa - strike.mantissa * unit;
            let gain = if instrument.option_kind == Some(OptionKind::Call) {
                above
            } else {
                -above
            };
            -79_228_162_514_264_337_593_543_950_335 <= gain
                <= 79_228_162_514_264_337_593_543_950_335 ==> if gain <= 0 {
                price.mantissa == 0
            } else {
                -unit <= 2 * (price.mantissa * unit - gain) <= unit
            }
        }),
{
    let unit = pow(10, (spot.precision - strike.precision) as nat);
    lemma_pow_positive(10, (spot.precision - strike.precision) as nat);
    assert(pow(10, 0) == 1) by {
        reveal(pow);
    }
    let above = spot.mantissa - strike.mantissa * unit;
    assert(exact_gain(instrument, strike, spot) == if instrument.option_kind == Some(
        OptionKind::Call,
    ) {
        above
    } else {
        -above
    });
    if gain_fits(instrument, strike, spot) {
        let value = exact_intrinsic_value(instrument, strike, spot);
        law_rounding_gives_the_nearest(value, strike.precision as int);
        if exact_gain(instrument, strike, spot) <= 0 {
            let r = rounded(value, strike.precision as int);
            assert(r == 0) by (nonlinear_arith)
                requires
                    -unit <= 2 * (r * unit) <= unit,
                    unit >= 1,
            ;
        }
    }
    let s = pow(10, strike.precision as nat);
    lemma_pow_positive(10, strike.precision as nat);
    lemma_pow_adds(10, (spot.precision - strike.precision) as nat, strike.precision as nat);
    assert((spot.mantissa * s > strike.mantissa * (unit * s) <==> spot.mantissa > strike.mantissa
        * unit) && (spot.mantissa * s < strike.mantissa * (unit * s) <==> spot.mantissa
        < strike.mantissa * unit)) by (nonlinear_arith)
        requires
            s >= 1,
    ;
    law_exercise_compares_price_and_strike(instrument, spot);
}

/// The settlement price in cash is owed wherever the strike and the underlying's price are
/// decimal numbers and the gain fits 96 bits: it can only fail to be a valid price, where the
/// rounded gain does not fit 96 bits.
pub proof fn law_cash_price_is_owed(instrument: InstrumentView, strike: Price, spot: Price)
    requires
        instrument.strike_price == Some(strike),
        strike.precision <= 28,
        spot.precision <= strike.precision,
        -79_228_162_514_264_337_593_543_950_335 <= strike.mantissa
            <= 79_228_162_514_264_337_593_543_950_335,
        -79_228_162_514_264_337_593_543_950_335 <= spot.mantissa
            <= 79_228_162_514_264_337_593_543_950_335,
        -79_228_162_514_264_337_593_543_950_335 <= spot.mantissa * pow(
            10,
            (strike.precision - spot.precision) as nat,
        ) - strike.mantissa <= 79_228_162_514_264_337_593_543_950_335,
    ensures
        gain_fits(instrument, strike, spot),
        price_of(exact_intrinsic_value(instrument, strike, spot), strike.precision as int) is Some,
{
    assert(pow(10, 0) == 1) by {
        reveal(pow);
    }
}

/// On every input, the settlement price in cash is the rounded difference that decimal
/// subtraction gives, the strike taken from the underlying's price for a call and the price
/// from the strike otherwise; zero where the difference is negative.
pub proof fn law_cash_price_is_a_decimal_difference(
    instrument: InstrumentView,
    strike: Price,
    spot: Price,
)
    requires
        instrument.strike_price == Some(strike),
    ensures
        ({
            let gain = if instrument.option_kind == Some(OptionKind::Call) {
                decimal_difference(
                    spot.mantissa,
                    spot.precision as u32,
                    strike.mantissa,
                    strike.precision as u32,
                )
            } else {
                decimal_difference(
                    strike.mantissa,
                    strike.precision as u32,
                    spot.mantissa,
                    spot.precision as u32,
                )
            };
            match gain {
                Some((mantissa, scale)) => {
                    let value = if mantissa < 0 {
                        Amount { mantissa: 0, scale: 0 }
                    } else {
                        Amount { mantissa, scale }
                    };
                    &&& intrinsic_value(instrument, strike, spot) == Some(value)
                    &&& settlement_price(instrument, spot, true) == price_of(
                        value,
                        strike.precision as int,
                    )
                },
                None => intrinsic_value(instrument, strike, spot) is None && settlement_price(
                    instrument,
                    spot,
                    true,
                ) is None,
            }
        }),
{
    let gain = if instrument.option_kind == Some(OptionKind::Call) {
        difference(spot.amount(), strike.amount())
    } else {
        difference(strike.amount(), spot.amount())
    };
    if let Some(value) = gain {
        lemma_maximum_with_zero(value);
    }
}

/// On every input, the delivered quantity is the rounded product that decimal multiplication
/// gives of the quantity and the multiplier.
pub proof fn law_delivery_is_a_decimal_product(
    instrument: InstrumentView,
    underlying: InstrumentView,
    quantity: Quantity,
)
    ensures
        delivered_quantity(instrument, underlying, quantity) == match decimal_product(
            quantity.mantissa as i128,
            quantity.precision as u32,
            instrument.multiplier.mantissa as i128,
            instrument.multiplier.precision as u32,
        ) {
            Some((mantissa, scale)) => quantity_of(
                Amount { mantissa, scale },
                underlying.size_precision as int,
            ),
            None => None,
        },
{
}

/// What keeps a settlement price in cash from being computed: no strike, a strike or a price
/// that is no decimal number, a gain that is out of range, or a gain that is no price.
pub proof fn law_cash_price_faults(instrument: InstrumentView, spot: Price)
    ensures
        (cash_price_fault(instrument, spot) == Some(SettlementFault::MissingStrike))
            == (instrument.strike_price is None),
        instrument.strike_price matches Some(strike) ==> {
            let decimal = |price: Price|
                price.precision <= 28 && -79_228_162_514_264_337_593_543_950_335 <= price.mantissa
                    <= 79_228_162_514_264_337_593_543_950_335;
            if !decimal(strike) || !decimal(spot) {
                cash_price_fault(instrument, spot) == Some(SettlementFault::AmountOutOfRange)
            } else if intrinsic_value(instrument, strike, spot) is None {
                cash_price_fault(instrument, spot) == Some(SettlementFault::AmountOutOfRange)
            } else if settlement_price(instrument, spot, true) is None {
                cash_price_fault(instrument, spot) == Some(SettlementFault::InvalidSettlementPrice)
            } else {
                cash_price_fault(instrument, spot) is None
            }
        },
{
}

/// The decision on exercise fails exactly where there is a strike, and it or the underlying's
/// price is no decimal number.
pub proof fn law_exercise_faults(instrument: InstrumentView, spot: Price)
    ensures
        match exercise_fault(instrument, spot) {
            Some(fault) => {
                &&& fault == SettlementFault::AmountOutOfRange
                &&& instrument.strike_price matches Some(strike) && (strike.precision > 28
                    || spot.precision > 28 || strike.mantissa
                    > 79_228_162_514_264_337_593_543_950_335 || strike.mantissa
                    < -79_228_162_514_264_337_593_543_950_335 || spot.mantissa
                    > 79_228_162_514_264_337_593_543_950_335 || spot.mantissa
                    < -79_228_162_514_264_337_593_543_950_335)
            },
            None => instrument.strike_price matches Some(strike) ==> {
                &&& strike.precision <= 28
                &&& spot.precision <= 28
                &&& -79_228_162_514_264_337_593_543_950_335 <= strike.mantissa
                    <= 79_228_162_514_264_337_593_543_950_335
                &&& -79_228_162_514_264_337_593_543_950_335 <= spot.mantissa
                    <= 79_228_162_514_264_337_593_543_950_335
            },
        },
{
}

/// A position delivers its quantity times the contract multiplier, whatever the option's
/// kind and the position's side. The delivered quantity has the underlying's size precision.
/// Where that has as many decimal places as the product, the delivered quantity is the
/// product; where it has fewer, it is the nearest to the product, the even one of two.
pub proof fn law_delivery_is_quantity_times_multiplier(
    instrument: InstrumentView,
    underlying: InstrumentView,
    quantity: Quantity,
    delivered: Quantity,
)
    requires
        is_delivery(instrument, underlying, quantity, delivered),
        quantity.precision + instrument.multiplier.precision <= 28,
        quantity.mantissa <= 79_228_162_514_264_337_593_543_950_335,
        instrument.multiplier.mantissa <= 79_228_162_514_264_337_593_543_950_335,
        quantity.mantissa * instrument.multiplier.mantissa
            <= 79_228_162_514_264_337_593_543_950_335,
    ensures
        delivered.precision == underlying.size_precision,
        ({
            let exact = quantity.mantissa * instrument.multiplier.mantissa;
            let places = quantity.precision + instrument.multiplier.precision;
            if places <= underlying.size_precision {
                delivered.mantissa == exact * pow(
                    10,
                    (underlying.size_precision - places) as nat,
                )
            } else {
                let unit = pow(10, (places - underlying.size_precision) as nat);
                let error = 2 * (delivered.mantissa * unit - exact);
                &&& -unit <= error <= unit
                &&& error == unit || error == -unit ==> delivered.mantissa % 2 == 0
            }
        }),
{
    let exact = exact_delivery(instrument, quantity);
    assert(0 <= quantity.mantissa * instrument.multiplier.mantissa) by (nonlinear_arith);
    law_rounding_gives_the_nearest(exact, underlying.size_precision as int);
}

/// The delivered quantity is owed wherever the quantity and the multiplier are decimal
/// numbers and the product has at most 28 places and fits 96 bits: it can only fail to be a
/// valid quantity, where the size precision has more than 28 places or the rounded product
/// does not fit 96 bits.
pub proof fn law_delivery_is_owed(
    instrument: InstrumentView,
    underlying: InstrumentView,
    quantity: Quantity,
)
    requires
        quantity.precision + instrument.multiplier.precision <= 28,
        quantity.mantissa <= 79_228_162_514_264_337_593_543_950_335,
        instrument.multiplier.mantissa <= 79_228_162_514_264_337_593_543_950_335,
        quantity.mantissa * instrument.multiplier.mantissa
            <= 79_228_162_514_264_337_593_543_950_335,
    ensures
        delivery_fits(instrument, quantity),
        quantity_of(
            exact_delivery(instrument, quantity),
            underlying.size_precision as int,
        ) is Some <==> underlying.size_precision <= 28 && rounded(
            exact_delivery(instrument, quantity),
            underlying.size_precision as int,
        ) <= 79_228_162_514_264_337_593_543_950_335,
{
    assert(0 <= quantity.mantissa * instrument.multiplier.mantissa) by (nonlinear_arith);
    let value = exact_delivery(instrument, quantity);
    crate::amounts::lemma_rounded_keeps_sign(value, underlying.size_precision as int);
}

/// What keeps a delivered quantity from being computed: a quantity or a multiplier that is no
/// decimal number, a product that is out of range, or a product that is no quantity.
pub proof fn law_delivery_faults(
    instrument: InstrumentView,
    underlying: InstrumentView,
    position: PositionView,
)
    ensures
        ({
            let decimal = |quantity: Quantity|
                quantity.precision <= 28 && quantity.mantissa
                    <= 79_228_162_514_264_337_593_543_950_335;
            let fault = delivery_fault(instrument, underlying, position);
            if !decimal(position.quantity) || !decimal(instrument.multiplier) {
                fault == Some(SettlementFault::AmountOutOfRange)
            } else if product(position.quantity.amount(), instrument.multiplier.amount()) is None {
                fault == Some(SettlementFault::AmountOutOfRange)
            } else if delivered_quantity(instrument, underlying, position.quantity) is None {
                fault == Some(SettlementFault::InvalidUnderlyingQuantity)
            } else {
                fault is None
            }
        }),
{
}

/// A position that expires out of the money can be settled exactly where identifiers can be
/// made, the position has a side, and it has a quantity.
pub proof fn law_faults_out_of_the_money(
    engine: EngineView,
    position: PositionView,
    underlying: InstrumentView,
    spot: Price,
    close: Option<Price>,
)
    ensures
        ({
            let fault = position_fault(engine, position, underlying, spot, false, close);
            let nameless = !engine.use_random_ids && engine.instrument.expiration_ns is None;
            let flat = position.side == PositionSide::Flat;
            let empty = position.quantity.mantissa == 0;
            &&& fault is None <==> !nameless && !flat && !empty
            &&& fault == Some(SettlementFault::MissingExpiration) <==> nameless
            &&& fault == Some(SettlementFault::FlatPosition) <==> !nameless && flat
            &&& fault == Some(SettlementFault::NonPositiveQuantity) <==> !nameless && !flat && empty
        }),
{
}

/// An exercised position in an option on an index can be settled exactly where identifiers
/// can be made, the settlement price can be computed or a close price is there, the position
/// has a side, and it has a quantity.
pub proof fn law_faults_in_cash(
    engine: EngineView,
    position: PositionView,
    underlying: InstrumentView,
    spot: Price,
    close: Option<Price>,
)
    requires
        underlying.is_index,
    ensures
        ({
            let fault = position_fault(engine, position, underlying, spot, true, close);
            let nameless = !engine.use_random_ids && engine.instrument.expiration_ns is None;
            let priceless = close is None && cash_price_fault(engine.instrument, spot) is Some;
            let flat = position.side == PositionSide::Flat;
            let empty = position.quantity.mantissa == 0;
            &&& fault is None <==> !nameless && !priceless && !flat && !empty
            &&& nameless ==> fault == Some(SettlementFault::MissingExpiration)
            &&& !nameless && priceless ==> fault == cash_price_fault(engine.instrument, spot)
            &&& !nameless && !priceless && flat ==> fault == Some(SettlementFault::FlatPosition)
            &&& !nameless && !priceless && !flat && empty ==> fault == Some(
                SettlementFault::NonPositiveQuantity,
            )
        }),
{
}

/// An exercised position in an option on what trades can be settled exactly where the
/// delivered quantity can be computed and is not zero, identifiers can be made, there is a
/// strike, the position has a side, and it has a quantity.
pub proof fn law_faults_by_delivery(
    engine: EngineView,
    position: PositionView,
    underlying: InstrumentView,
    spot: Price,
    close: Option<Price>,
)
    requires
        !underlying.is_index,
    ensures
        ({
            let fault = position_fault(engine, position, underlying, spot, true, close);
            let undelivered = delivery_fault(engine.instrument, underlying, position);
            let nameless = !engine.use_random_ids && engine.instrument.expiration_ns is None;
            let strikeless = engine.instrument.strike_price is None;
            let flat = position.side == PositionSide::Flat;
            let empty = position.quantity.mantissa == 0 || delivered_quantity(
                engine.instrument,
                underlying,
                position.quantity,
            )->0.mantissa == 0;
            &&& fault is None <==> undelivered is None && !nameless && !strikeless && !flat
                && !empty
            &&& undelivered is Some ==> fault == undelivered
            &&& undelivered is None && nameless ==> fault == Some(
                SettlementFault::MissingExpiration,
            )
            &&& undelivered is None && !nameless && strikeless ==> fault == Some(
                SettlementFault::MissingStrike,
            )
            &&& undelivered is None && !nameless && !strikeless && flat ==> fault == Some(
                SettlementFault::FlatPosition,
            )
            &&& undelivered is None && !nameless && !strikeless && !flat && empty ==> fault == Some(
                SettlementFault::NonPositiveQuantity,
            )
        }),
{
}

/// A list of positions can be settled exactly where each of them can. Otherwise the fault is
/// that of the first that cannot: adding a position keeps the fault of those before it, and
/// where they have none, gives that of the position.
pub proof fn law_faults_of_a_list(
    engine: EngineView,
    positions: Seq<PositionView>,
    position: PositionView,
    underlying: InstrumentView,
    spot: Price,
    exercise: bool,
    close: Option<Price>,
)
    ensures
        positions_fault(engine, seq![], underlying, spot, exercise, close) is None,
        ({
            let before = positions_fault(engine, positions, underlying, spot, exercise, close);
            let after = positions_fault(
                engine,
                positions.push(position),
                underlying,
                spot,
                exercise,
                close,
            );
            if before is Some {
                after == before
            } else {
                after == position_fault(engine, position, underlying, spot, exercise, close)
            }
        }),
{
    assert(positions.push(position).drop_last() =~= positions);
}

/// A position is closed by the opposite side, and opened by its own: a long one is opened by
/// buying and closed by selling, a short one the other way round.
pub proof fn law_sides_of_orders(side: PositionSide)
    ensures
        closing_side_of(side) == Some(OrderSide::Sell) <==> side == PositionSide::Long,
        closing_side_of(side) == Some(OrderSide::Buy) <==> side == PositionSide::Short,
        opening_side_of(side) == Some(OrderSide::Buy) <==> side == PositionSide::Long,
        opening_side_of(side) == Some(OrderSide::Sell) <==> side == PositionSide::Short,
        closing_side_of(side) is None <==> side == PositionSide::Flat,
        opening_side_of(side) is None <==> side == PositionSide::Flat,
{
}

/// A position takes two legs where it is exercised and what it is on trades, else one.
pub proof fn law_legs_of_a_position(exercise: bool, underlying: InstrumentView)
    ensures
        legs_per_position(exercise, underlying) == 2 <==> exercise && !underlying.is_index,
        legs_per_position(exercise, underlying) == 1 <==> !exercise || underlying.is_index,
{
}

} // verus!
