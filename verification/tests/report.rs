use profit_scan::report::decimal_text;
use profit_scan::Run;

#[test]
fn row_lists_the_runs_and_averages_them() {
    let run = Run::from_micros(10_000, &vec![12, 7, 100, 0, 3]).unwrap();
    assert_eq!(run.count, 10_000);
    assert_eq!(run.runs_in_microseconds, "12, 7, 100, 0, 3");
    assert_eq!(run.avg_time_per_10_000_elem, 24);
}

#[test]
fn times_are_scaled_to_10_000_elements() {
    // 250 * 10_000 / 1_000_000 = 2 and 199 * 10_000 / 1_000_000 = 1, mean 1
    let run = Run::from_micros(1_000_000, &vec![250, 199]).unwrap();
    assert_eq!(run.runs_in_microseconds, "250, 199");
    assert_eq!(run.avg_time_per_10_000_elem, 1);
    // 3 * 10_000 / 7 = 4285
    let one = Run::from_micros(7, &vec![3]).unwrap();
    assert_eq!(one.runs_in_microseconds, "3");
    assert_eq!(one.avg_time_per_10_000_elem, 4285);
}

#[test]
fn large_times_are_written_in_full() {
    let big = u128::MAX / 10_000;
    let run = Run::from_micros(u32::MAX, &vec![big]).unwrap();
    assert_eq!(run.runs_in_microseconds, "34028236692093846346337460743176821");
    assert_eq!(run.avg_time_per_10_000_elem, big * 10_000 / (u32::MAX as u128));
}

#[test]
fn no_row_without_elements_or_runs() {
    assert!(Run::from_micros(0, &vec![1, 2, 3]).is_none());
    assert!(Run::from_micros(10_000, &vec![]).is_none());
    assert!(Run::from_micros(0, &vec![]).is_none());
}

#[test]
fn no_row_when_the_arithmetic_leaves_128_bits() {
    assert!(Run::from_micros(1, &vec![u128::MAX / 10_000 + 1]).is_none());
    assert!(Run::from_micros(1, &vec![1, u128::MAX]).is_none());
    let big = u128::MAX / 10_000;
    assert!(Run::from_micros(1, &vec![big, big]).is_none());
    assert!(Run::from_micros(2, &vec![big, big]).is_some());
}

#[test]
fn numbers_are_written_in_decimal() {
    assert_eq!(decimal_text(0), "0");
    assert_eq!(decimal_text(7), "7");
    assert_eq!(decimal_text(10), "10");
    assert_eq!(decimal_text(1_234_567_890), "1234567890");
    assert_eq!(decimal_text(u128::MAX), "340282366920938463463374607431768211455");
    for n in 0..2_000u128 {
        assert_eq!(decimal_text(n), n.to_string());
    }
}
