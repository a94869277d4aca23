use profit_scan::{create_rnd_rel_stocks, find_sell_buy};

#[test]
fn series_has_the_length_asked_for() {
    assert_eq!(create_rnd_rel_stocks(0, -50, 50).len(), 0);
    assert_eq!(create_rnd_rel_stocks(1, -50, 50).len(), 1);
    assert_eq!(create_rnd_rel_stocks(10_000, -50, 50).len(), 10_000);
}

#[test]
fn empty_series_needs_no_range() {
    assert_eq!(create_rnd_rel_stocks(0, 5, 5), Vec::<i32>::new());
}

#[test]
fn changes_stay_in_the_range() {
    let stocks = create_rnd_rel_stocks(10_000, -50, 50);
    assert!(stocks.iter().all(|change| -50 <= *change && *change < 50));
    let narrow = create_rnd_rel_stocks(100, 7, 8);
    assert!(narrow.iter().all(|change| *change == 7));
    let wide = create_rnd_rel_stocks(1_000, i32::MIN, i32::MAX);
    assert!(wide.iter().all(|change| *change < i32::MAX));
}

#[test]
fn changes_are_not_all_the_same() {
    let stocks = create_rnd_rel_stocks(10_000, -50, 50);
    assert!(stocks.iter().any(|change| *change != stocks[0]));
    assert!(stocks.iter().any(|change| *change != -50));
}

#[test]
fn random_series_can_be_scanned() {
    let stocks = create_rnd_rel_stocks(10_000, -50, 50);
    let mut prices = Vec::new();
    let mut sum: i64 = 0;
    for change in &stocks {
        sum += *change as i64;
        prices.push(sum);
    }
    match find_sell_buy(stocks) {
        Some((buy, sell)) => {
            assert!(buy < sell && sell < prices.len());
            assert!(prices[sell] > prices[buy]);
        }
        None => assert!(prices.windows(2).all(|pair| pair[1] <= pair[0])),
    }
}
