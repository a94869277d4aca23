//! The scan: one forward pass that keeps the best trade found so far and the
//! cheapest day to have bought on.

use vstd::prelude::*;
use crate::prices::{gain, is_answer, is_trade, lowest_before, no_gain, price};

verus! {

/// Finds the days to buy and to sell on in a series of day-over-day price
/// changes: the most profitable trade, or `None` where no trade earns
/// anything.
///
/// Among trades that earn the same, the one that is returned buys first and
/// sells first. A flat or falling series, a single day and an empty series
/// have nothing to return.
pub fn find_sell_buy(relative_stocks: Vec<i32>) -> (result: Option<(usize, usize)>)
    ensures
        is_answer(relative_stocks@, result),
        result is None <==> no_gain(relative_stocks@),
        relative_stocks.len() <= 1 ==> result is None,
{
    let days = relative_stocks.len();
    if days == 0 {
        return None;
    }
    let ghost deltas = relative_stocks@;
    let mut curr_price: i128 = relative_stocks[0] as i128;
    let mut buy_idx: usize = 0;
    let mut sell_idx: usize = 1;
    let mut profit: i128 = 0;
    // The candidate: the first day on which the price was lowest so far.
    let mut pot_buy_idx: usize = 0;
    let mut pot_buy_price: i128 = curr_price;

    let mut idx: usize = 1;
    while idx < days
        invariant
            deltas == relative_stocks@,
            days == deltas.len(),
            1 <= idx <= days,
            curr_price == price(deltas, idx - 1),
            pot_buy_price == price(deltas, pot_buy_idx as int),
            lowest_before(deltas, pot_buy_idx as int, idx as int),
            buy_idx <= pot_buy_idx,
            forall|b: int, s: int| 0 <= b < s < idx ==> #[trigger] gain(deltas, b, s) <= profit,
            profit > 0 ==> {
                &&& buy_idx < sell_idx < idx
                &&& profit == gain(deltas, buy_idx as int, sell_idx as int)
                &&& forall|b: int, s: int|
                    0 <= b < s < idx && #[trigger] gain(deltas, b, s) == profit ==> buy_idx <= b
                        && sell_idx <= s
            },
            -idx * 0x8000_0000 <= curr_price <= idx * 0x8000_0000,
            -idx * 0x8000_0000 <= pot_buy_price <= idx * 0x8000_0000,
            0 <= profit <= 2 * idx * 0x8000_0000,
        decreases days - idx,
    {
        // The absolute price, not the change since the day before.
        curr_price = curr_price + relative_stocks[idx] as i128;

        let pot_diff = curr_price - pot_buy_price;
        if pot_diff > profit {
            profit = pot_diff;
            buy_idx = pot_buy_idx;
            sell_idx = idx;
        }
        proof {
            assert forall|b: int, s: int| 0 <= b < s < idx + 1 implies #[trigger] gain(
                deltas,
                b,
                s,
            ) <= profit by {
                if s == idx {
                    assert(price(deltas, pot_buy_idx as int) <= price(deltas, b));
                }
            }
            assert forall|b: int, s: int|
                0 <= b < s < idx + 1 && #[trigger] gain(deltas, b, s) == profit && profit
                    > 0 implies buy_idx <= b && sell_idx <= s by {
                if s == idx {
                    assert(price(deltas, pot_buy_idx as int) <= price(deltas, b));
                    if b < pot_buy_idx {
                        assert(price(deltas, pot_buy_idx as int) < price(deltas, b));
                    }
                }
            }
        }
        if curr_price < pot_buy_price {
            pot_buy_idx = idx;
            pot_buy_price = curr_price;
        }
        idx = idx + 1;
    }

    proof {
        assert forall|b: int, s: int| #[trigger] is_trade(deltas, b, s) implies gain(deltas, b, s)
            <= profit by {
            assert(0 <= b < s < idx);
        }
        assert forall|b: int, s: int| #[trigger]
            is_trade(deltas, b, s) && gain(deltas, b, s) == profit && profit > 0 implies buy_idx
            <= b && sell_idx <= s by {
            assert(0 <= b < s < idx);
        }
        if profit > 0 {
            assert(is_trade(deltas, buy_idx as int, sell_idx as int));
        }
    }
    if profit == 0 {
        None
    } else {
        Some((buy_idx, sell_idx))
    }
}

} // verus!
