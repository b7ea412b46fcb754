use tradeterm::candle::Candle;
use tradeterm::candleline::CandleLine;
use tradeterm::decimal::parse_decimal;
use tradeterm::indicators::crossover;
use tradeterm::signal::Signal;
use tradeterm::strategy::avg;
use tradeterm::strategy::cross_over;
use tradeterm::strategy::exs;
use tradeterm::strategy::moving_average;
use tradeterm::strategy::process;
use tradeterm::strategy::resolve_strategy;
use tradeterm::strategy::run_strategy;
use tradeterm::strategy::Strategy;

fn dec(text: &str) -> i64 {
    parse_decimal(text).unwrap()
}

fn amounts(values: &[&str]) -> Vec<i64> {
    values.iter().map(|v| dec(v)).collect()
}

fn bar(t: u64, o: &str, h: &str, l: &str, c: &str, v: &str) -> Candle {
    Candle::new(t, dec(o), dec(h), dec(l), dec(c), dec(v))
}

fn five_bars() -> Vec<Candle> {
    vec![
        bar(0, "10", "12", "9", "11", "100"),
        bar(1, "11", "13", "10", "12", "120"),
        bar(2, "12", "14", "11", "10", "90"),
        bar(3, "10", "11", "8", "9", "80"),
        bar(4, "9", "10", "7", "9.5", "70"),
    ]
}

#[test]
fn ma_test() {
    let base = amounts(&[
        "10.0",
        "20.0",
        "11.833333333333334",
        "20.644444444444446",
        "44.159259259259265",
    ]);
    let calculated = moving_average(amounts(&["10.0", "20.0", "5.5", "30.1", "100.0"]), 3);

    assert_eq!(base, calculated);
}

#[test]
fn mean_test() {
    let data: Vec<i64> = amounts(&["10.0", "0.0", "2.0", "5.0"]);
    assert_eq!(avg(&data), Some(dec("4.25")));
}

#[test]
fn mean_of_nothing_is_nothing() {
    assert_eq!(avg(&Vec::new()), None);
}

#[test]
fn mean_rounds_down() {
    assert_eq!(avg(&vec![1, 2]), Some(1));
    assert_eq!(avg(&vec![-1, -2]), Some(-2));
    assert_eq!(avg(&vec![i64::MAX, i64::MAX, i64::MAX]), Some(i64::MAX));
    assert_eq!(avg(&vec![i64::MIN, i64::MIN]), Some(i64::MIN));
}

#[test]
fn seeded_average_feeds_on_its_own_values() {
    // window 2: [4, (4 + 8) / 2 = 6, (6 + 2) / 2 = 4, (4 + 10) / 2 = 7]
    assert_eq!(moving_average(vec![4, 8, 2, 10], 2), vec![4, 6, 4, 7]);
    // window 1: every value is its own mean
    assert_eq!(moving_average(vec![4, 8, 2], 1), vec![4, 8, 2]);
    // window longer than the series: the raw values
    assert_eq!(moving_average(vec![4, 8, 2], 9), vec![4, 8, 2]);
}

#[test]
fn cross_over_reads_the_last_two_points() {
    assert!(cross_over(vec![1, 5], vec![2, 4]));
    // below before, above now, whatever came earlier
    assert!(cross_over(vec![9, 9, 1, 5], vec![0, 2, 4]));
    assert!(!cross_over(vec![3, 5], vec![2, 4]));
    assert!(!cross_over(vec![1, 3], vec![2, 4]));
}

#[test]
fn cross_over_is_false_on_ties() {
    // the values before tie
    assert!(!cross_over(vec![3, 5], vec![3, 4]));
    assert!(!cross_over(vec![2, 5], vec![2, 4]));
    // the newest values tie
    assert!(!cross_over(vec![1, 4], vec![2, 4]));
    // both tie
    assert!(!cross_over(vec![2, 4], vec![2, 4]));
}

#[test]
fn cross_over_agrees_with_crossover() {
    let series = [vec![1, 5], vec![2, 4], vec![3, 5], vec![3, 4], vec![0, 9, 2, 2], vec![7, 1, 6]];
    for a in &series {
        for b in &series {
            assert_eq!(cross_over(a.clone(), b.clone()), crossover(a, b));
        }
    }
}

#[test]
fn heikin_ashi_of_five_bars() {
    let ha = CandleLine::new_from_vec(five_bars()).heikinashi();
    assert_eq!(ha.len(), 5);
    assert_eq!(ha.opens(), amounts(&["10.5", "10.5", "11", "11.375", "10.4375"]));
    assert_eq!(ha.closes(), amounts(&["10.5", "11.5", "11.75", "9.5", "8.875"]));
    assert_eq!(ha.highs(), amounts(&["12", "13", "14", "11", "10"]));
    assert_eq!(ha.lows(), amounts(&["9", "10", "11", "8", "7"]));
    assert_eq!(ha.volumes(), amounts(&["100", "120", "90", "80", "70"]));
    assert_eq!(ha.timestamps(), vec![0, 1, 2, 3, 4]);
}

#[test]
fn heikin_ashi_passes_highs_and_lows_through() {
    let raw = CandleLine::new_from_vec(vec![
        bar(5, "-3", "7.5", "-8", "0.00000001", "1"),
        bar(6, "100", "0", "250", "3", "0"),
        Candle::new(7, i64::MAX, i64::MIN, i64::MAX, i64::MIN, 0),
    ]);
    let ha = raw.heikinashi();
    assert_eq!(ha.highs(), raw.highs());
    assert_eq!(ha.lows(), raw.lows());
    assert_eq!(ha.len(), raw.len());
}

#[test]
fn heikin_ashi_of_nothing_is_nothing() {
    assert_eq!(CandleLine::new().heikinashi().len(), 0);
}

#[test]
fn heikin_ashi_first_bar() {
    let ha = CandleLine::new_from_vec(vec![bar(9, "1", "4", "0", "2", "5")]).heikinashi();
    // open (1 + 2) / 2, close (1 + 4 + 0 + 2) / 4
    assert_eq!(ha.get(0), bar(9, "1.5", "4", "0", "1.75", "5"));
}

#[test]
fn heikin_ashi_rounds_down() {
    let ha = CandleLine::new_from_vec(vec![Candle::new(0, 1, 2, 0, 2, 0), Candle::new(1, -1, 0, -2, -2, 0)])
        .heikinashi();
    // first: open (1 + 2) / 2 = 1.5 -> 1, close 5 / 4 -> 1
    assert_eq!(ha.get(0), Candle::new(0, 1, 2, 0, 1, 0));
    // second: open (1 + 1) / 2 = 1, close -5 / 4 = -1.25 -> -2
    assert_eq!(ha.get(1), Candle::new(1, 1, 0, -2, -2, 0));
}

#[test]
fn exs_on_five_bars_is_long() {
    assert_eq!(exs(&five_bars()), Signal::Long);
    assert_eq!(process(&five_bars(), "exs".to_string()), Signal::Long);
}

#[test]
fn exs_short_and_sleep() {
    // close below the low: short
    assert_eq!(exs(&vec![bar(0, "10", "12", "9", "8", "1")]), Signal::Short);
    // close equal to the synthetic close: sleep
    assert_eq!(exs(&vec![bar(0, "10", "10", "10", "10", "1")]), Signal::Sleep);
    // close between the low and the synthetic close: sleep
    assert_eq!(exs(&vec![bar(0, "10", "14", "8", "9", "1")]), Signal::Sleep);
    // no bar at all: sleep
    assert_eq!(exs(&Vec::new()), Signal::Sleep);
}

#[test]
fn strategies_resolve_by_name_in_any_case() {
    assert_eq!(resolve_strategy("exs"), Strategy::Exs);
    assert_eq!(resolve_strategy("ExS"), Strategy::Exs);
    assert_eq!(resolve_strategy("EXS"), Strategy::Exs);
    assert_eq!(resolve_strategy("exs "), Strategy::Unknown);
    assert_eq!(resolve_strategy(""), Strategy::Unknown);
    assert_eq!(resolve_strategy("macd"), Strategy::Unknown);
}

#[test]
fn unknown_strategy_sleeps() {
    assert_eq!(process(&five_bars(), "nope".to_string()), Signal::Sleep);
    assert_eq!(process(&five_bars(), "ExS".to_string()), Signal::Long);
    assert_eq!(run_strategy(Strategy::Unknown, &five_bars()), Signal::Sleep);
    assert_eq!(run_strategy(Strategy::Exs, &five_bars()), Signal::Long);
}
