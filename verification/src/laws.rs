//! What follows for every series from what `find_sell_buy` promises of its
//! answer.

use vstd::prelude::*;
use crate::prices::{
    earliest_best_sell, gain, is_answer, is_trade, lowest_before, no_gain, price,
    strictly_falling,
};

verus! {

/// A trade that is returned buys before it sells, earns something, and no
/// trade of the series earns more.
pub proof fn lemma_answer_is_most_profitable(deltas: Seq<i32>, buy: usize, sell: usize)
    requires
        is_answer(deltas, Some((buy, sell))),
    ensures
        buy < sell < deltas.len(),
        gain(deltas, buy as int, sell as int) > 0,
        forall|b: int, s: int|
            0 <= b < s < deltas.len() ==> #[trigger] gain(deltas, b, s) <= gain(
                deltas,
                buy as int,
                sell as int,
            ),
{
    assert forall|b: int, s: int| 0 <= b < s < deltas.len() implies #[trigger] gain(deltas, b, s)
        <= gain(deltas, buy as int, sell as int) by {
        assert(is_trade(deltas, b, s));
    }
}

/// Nothing is returned exactly when no trade earns anything.
pub proof fn lemma_none_iff_no_gain(deltas: Seq<i32>, answer: Option<(usize, usize)>)
    requires
        is_answer(deltas, answer),
    ensures
        answer is None <==> no_gain(deltas),
{
    if let Some((buy, sell)) = answer {
        assert(is_trade(deltas, buy as int, sell as int));
    }
}

/// A trade that is returned buys on the first day before the sale on which
/// the price is lowest, and sells on the first day after the purchase on
/// which it is highest.
pub proof fn lemma_answer_buys_low_sells_high(deltas: Seq<i32>, buy: usize, sell: usize)
    requires
        is_answer(deltas, Some((buy, sell))),
    ensures
        lowest_before(deltas, buy as int, sell as int),
        earliest_best_sell(deltas, buy as int, sell as int),
{
    assert forall|other: int| 0 <= other < sell implies price(deltas, buy as int)
        <= #[trigger] price(deltas, other) by {
        assert(is_trade(deltas, other, sell as int));
    }
    assert forall|other: int| 0 <= other < buy implies price(deltas, buy as int)
        < #[trigger] price(deltas, other) by {
        assert(is_trade(deltas, other, sell as int));
    }
    assert forall|day: int| buy < day < deltas.len() implies #[trigger] price(deltas, day)
        <= price(deltas, sell as int) by {
        assert(is_trade(deltas, buy as int, day));
    }
    assert forall|day: int| buy < day < sell implies #[trigger] price(deltas, day) < price(
        deltas,
        sell as int,
    ) by {
        assert(is_trade(deltas, buy as int, day));
    }
}

/// A series of at most one day has no trade to return.
pub proof fn lemma_short_series_no_answer(deltas: Seq<i32>, answer: Option<(usize, usize)>)
    requires
        deltas.len() <= 1,
        is_answer(deltas, answer),
    ensures
        answer is None,
{
}

/// Where the price falls from each day to the next, nothing is returned.
pub proof fn lemma_falling_prices_no_answer(deltas: Seq<i32>, answer: Option<(usize, usize)>)
    requires
        strictly_falling(deltas),
        is_answer(deltas, answer),
    ensures
        answer is None,
{
    if let Some((buy, sell)) = answer {
        assert(price(deltas, sell as int) < price(deltas, buy as int));
    }
}

/// Where no change after day 0 is a rise, nothing is returned.
pub proof fn lemma_no_rise_no_answer(deltas: Seq<i32>, answer: Option<(usize, usize)>)
    requires
        forall|day: int| 1 <= day < deltas.len() ==> #[trigger] deltas[day] <= 0,
        is_answer(deltas, answer),
    ensures
        answer is None,
{
    if let Some((buy, sell)) = answer {
        lemma_price_never_rises(deltas, buy as int, sell as int);
    }
}

/// Where the changes themselves fall from each day to the next and that of
/// day 1 is no rise, nothing is returned.
pub proof fn lemma_falling_changes_no_answer(deltas: Seq<i32>, answer: Option<(usize, usize)>)
    requires
        forall|early: int, late: int|
            0 <= early < late < deltas.len() ==> #[trigger] deltas[late] < #[trigger] deltas[early],
        deltas.len() >= 2 ==> deltas[1] <= 0,
        is_answer(deltas, answer),
    ensures
        answer is None,
{
    assert forall|day: int| 1 <= day < deltas.len() implies #[trigger] deltas[day] <= 0 by {
        if day > 1 {
            assert(deltas[day] < deltas[1]);
        }
    }
    lemma_no_rise_no_answer(deltas, answer);
}

/// Two answers to the same series are the same answer.
pub proof fn lemma_same_series_same_answer(
    deltas: Seq<i32>,
    first: Option<(usize, usize)>,
    second: Option<(usize, usize)>,
)
    requires
        is_answer(deltas, first),
        is_answer(deltas, second),
    ensures
        first == second,
{
    match (first, second) {
        (Some((buy, sell)), Some((other_buy, other_sell))) => {
            assert(is_trade(deltas, buy as int, sell as int));
            assert(is_trade(deltas, other_buy as int, other_sell as int));
        },
        (Some((buy, sell)), None) => {
            assert(is_trade(deltas, buy as int, sell as int));
        },
        (None, Some((buy, sell))) => {
            assert(is_trade(deltas, buy as int, sell as int));
        },
        (None, None) => {},
    }
}

proof fn lemma_price_never_rises(deltas: Seq<i32>, early: int, late: int)
    requires
        0 <= early <= late < deltas.len(),
        forall|day: int| 1 <= day < deltas.len() ==> #[trigger] deltas[day] <= 0,
    ensures
        price(deltas, late) <= price(deltas, early),
    decreases late - early,
{
    if early < late {
        lemma_price_never_rises(deltas, early, late - 1);
    }
}

} // verus!
