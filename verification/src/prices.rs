//! The price model: absolute prices as running sums of day-over-day changes,
//! and the vocabulary in which trades are judged.

use vstd::prelude::*;

verus! {

/// The absolute price on `day`: the sum of the changes of days `0..=day`.
/// The change of day 0 counts from a baseline of zero.
pub open spec fn price(deltas: Seq<i32>, day: int) -> int
    decreases day,
{
    if day <= 0 {
        deltas[0] as int
    } else {
        price(deltas, day - 1) + deltas[day]
    }
}

/// What buying on day `buy` and selling on day `sell` earns.
pub open spec fn gain(deltas: Seq<i32>, buy: int, sell: int) -> int {
    price(deltas, sell) - price(deltas, buy)
}

/// `buy` and `sell` are days of the series, the purchase first.
pub open spec fn is_trade(deltas: Seq<i32>, buy: int, sell: int) -> bool {
    0 <= buy < sell < deltas.len()
}

/// No trade of the series earns more than buying on `buy` and selling on `sell`.
pub open spec fn best_trade(deltas: Seq<i32>, buy: int, sell: int) -> bool {
    &&& is_trade(deltas, buy, sell)
    &&& forall|b: int, s: int| #[trigger]
        is_trade(deltas, b, s) ==> gain(deltas, b, s) <= gain(deltas, buy, sell)
}

/// Buying on `buy` and selling on `sell` earns something, no trade earns
/// more, and every trade that earns as much buys no earlier and sells no
/// earlier.
pub open spec fn first_best_trade(deltas: Seq<i32>, buy: int, sell: int) -> bool {
    &&& best_trade(deltas, buy, sell)
    &&& gain(deltas, buy, sell) > 0
    &&& forall|b: int, s: int| #[trigger]
        is_trade(deltas, b, s) && gain(deltas, b, s) == gain(deltas, buy, sell) ==> buy <= b
            && sell <= s
}

/// No trade of the series earns anything.
pub open spec fn no_gain(deltas: Seq<i32>) -> bool {
    forall|b: int, s: int| #[trigger] is_trade(deltas, b, s) ==> gain(deltas, b, s) <= 0
}

/// `answer` is what a search of the series for its trade has to return: the
/// first of the most profitable trades, or nothing where no trade earns
/// anything.
pub open spec fn is_answer(deltas: Seq<i32>, answer: Option<(usize, usize)>) -> bool {
    match answer {
        Some((buy, sell)) => first_best_trade(deltas, buy as int, sell as int),
        None => no_gain(deltas),
    }
}

/// Of the days before `end`, `day` is the first on which the price is
/// lowest.
pub open spec fn lowest_before(deltas: Seq<i32>, day: int, end: int) -> bool {
    &&& 0 <= day < end
    &&& forall|other: int| 0 <= other < end ==> price(deltas, day) <= #[trigger] price(deltas, other)
    &&& forall|other: int| 0 <= other < day ==> price(deltas, day) < #[trigger] price(deltas, other)
}

/// Among the days after `buy`, `sell` is the first on which the price is
/// highest, and that price is above the price paid.
pub open spec fn earliest_best_sell(deltas: Seq<i32>, buy: int, sell: int) -> bool {
    &&& is_trade(deltas, buy, sell)
    &&& price(deltas, sell) > price(deltas, buy)
    &&& forall|day: int|
        buy < day < deltas.len() ==> #[trigger] price(deltas, day) <= price(deltas, sell)
    &&& forall|day: int| buy < day < sell ==> #[trigger] price(deltas, day) < price(deltas, sell)
}

/// The price is lower on every later day than on any earlier one.
pub open spec fn strictly_falling(deltas: Seq<i32>) -> bool {
    forall|early: int, late: int|
        0 <= early < late < deltas.len() ==> #[trigger] price(deltas, late) < #[trigger] price(
            deltas,
            early,
        )
}

} // verus!
