use tradeterm::candle::Candle;
use tradeterm::candleline::CandleLine;
use tradeterm::decimal::parse_decimal;
use tradeterm::portfolio::backtest;
use tradeterm::portfolio::position_diff;
use tradeterm::portfolio::BacktestError;
use tradeterm::portfolio::Folio;
use tradeterm::signal::Signal;

fn dec(text: &str) -> i64 {
    parse_decimal(text).unwrap()
}

fn closes(values: &[&str]) -> CandleLine {
    let mut line = CandleLine::new();
    for (i, v) in values.iter().enumerate() {
        line.push(Candle::new(i as u64, 0, 0, 0, dec(v), 0));
    }
    line
}

fn six() -> CandleLine {
    closes(&["10", "11", "12", "9", "8", "10"])
}

#[test]
fn a_round_trip_with_a_fee() {
    let signals =
        vec![Signal::Sleep, Signal::Long, Signal::Sleep, Signal::Short, Signal::Sleep, Signal::Long];
    let outcome = backtest(&six(), &signals, dec("1000"), dec("0.001")).unwrap();
    assert_eq!(outcome.result, 81_491_399_647);
    assert_eq!(outcome.percent, Some(8_149_139_964));
    assert_eq!(
        outcome.diffs,
        vec![None, None, Some(909_090_909), None, Some(1_111_111_111), None]
    );
}

#[test]
fn buy_and_hold_without_a_fee() {
    let signals =
        vec![Signal::Long, Signal::Sleep, Signal::Sleep, Signal::Sleep, Signal::Sleep, Signal::Sleep];
    let outcome = backtest(&six(), &signals, dec("1000"), 0).unwrap();
    // bought at 10, worth the same at the last close of 10
    assert_eq!(outcome.result, dec("1000"));
    assert_eq!(outcome.percent, Some(dec("100")));
    assert_eq!(
        outcome.diffs,
        vec![None, Some(dec("10")), Some(dec("20")), Some(dec("-10")), Some(dec("-20")), Some(0)]
    );
}

#[test]
fn a_sale_at_a_higher_close_gains() {
    let signals = vec![Signal::Long, Signal::Sleep, Signal::Short];
    let outcome =
        backtest(&closes(&["10", "11", "12"]), &signals, dec("100"), dec("0.01")).unwrap();
    // 100 / 10 * 0.99 = 9.9 of A, sold for 9.9 * 12 * 0.99
    assert_eq!(outcome.result, dec("117.612"));
    assert_eq!(outcome.percent, Some(dec("117.612")));
    assert_eq!(outcome.diffs, vec![None, Some(dec("10")), None]);
}

#[test]
fn sleeping_throughout_keeps_the_balance() {
    let outcome = backtest(&six(), &vec![Signal::Sleep; 6], dec("5"), dec("0.5")).unwrap();
    assert_eq!(outcome.result, dec("5"));
    assert_eq!(outcome.percent, Some(dec("100")));
    assert_eq!(outcome.diffs, vec![None; 6]);
}

#[test]
fn nothing_to_replay_keeps_the_balance() {
    let outcome = backtest(&CandleLine::new(), &Vec::new(), dec("5"), 0).unwrap();
    assert_eq!(outcome.result, dec("5"));
    assert_eq!(outcome.diffs, Vec::new());
    let broke = backtest(&CandleLine::new(), &Vec::new(), 0, 0).unwrap();
    assert_eq!(broke.result, 0);
    assert_eq!(broke.percent, None);
}

#[test]
fn signals_and_bars_must_align() {
    let r = backtest(&six(), &vec![Signal::Sleep; 5], dec("5"), 0);
    assert_eq!(r.err(), Some(BacktestError::Misaligned));
    let r = backtest(&CandleLine::new(), &vec![Signal::Sleep], dec("5"), 0);
    assert_eq!(r.err(), Some(BacktestError::Misaligned));
}

#[test]
fn balance_and_fee_must_be_in_range() {
    let s = vec![Signal::Sleep; 6];
    assert_eq!(backtest(&six(), &s, -1, 0).err(), Some(BacktestError::InvalidBalance));
    assert_eq!(backtest(&six(), &s, 1, -1).err(), Some(BacktestError::InvalidFee));
    assert_eq!(backtest(&six(), &s, 1, dec("1")).err(), Some(BacktestError::InvalidFee));
    assert!(backtest(&six(), &s, 1, dec("0.99999999")).is_ok());
    // alignment is judged first, then the balance, then the fee
    assert_eq!(backtest(&six(), &Vec::new(), -1, -1).err(), Some(BacktestError::Misaligned));
    assert_eq!(backtest(&six(), &s, -1, -1).err(), Some(BacktestError::InvalidBalance));
}

#[test]
fn a_conversion_needs_a_price() {
    let r = backtest(&closes(&["0"]), &vec![Signal::Long], dec("5"), 0);
    assert_eq!(r.err(), Some(BacktestError::NoPrice));
    let r = backtest(&closes(&["10", "-1"]), &vec![Signal::Long, Signal::Short], dec("5"), 0);
    assert_eq!(r.err(), Some(BacktestError::NoPrice));
    // held to the end, the base balance is priced at the last close
    let r = backtest(&closes(&["10", "0"]), &vec![Signal::Long, Signal::Sleep], dec("5"), 0);
    assert_eq!(r.err(), Some(BacktestError::NoPrice));
    // with nothing to convert, no price is asked for
    let r = backtest(&closes(&["0"]), &vec![Signal::Short], dec("5"), 0).unwrap();
    assert_eq!(r.result, dec("5"));
}

#[test]
fn a_balance_beyond_the_range_is_an_overflow() {
    let mut line = CandleLine::new();
    line.push(Candle::new(0, 0, 0, 0, 1, 0));
    let r = backtest(&line, &vec![Signal::Long], i64::MAX, 0);
    assert_eq!(r.err(), Some(BacktestError::Overflow));
}

#[test]
fn the_move_since_entry_follows_the_position() {
    let long = Folio { base: 1, quote: 0, entry_price: dec("8"), entry_position: Signal::Long };
    assert_eq!(position_diff(&long, dec("10")), Some(dec("25")));
    assert_eq!(position_diff(&long, dec("6")), Some(dec("-25")));
    let short = Folio { base: 0, quote: 1, entry_price: dec("8"), entry_position: Signal::Short };
    assert_eq!(position_diff(&short, dec("10")), Some(dec("-25")));
    assert_eq!(position_diff(&short, dec("6")), Some(dec("25")));
    let none = Folio { base: 0, quote: 1, entry_price: dec("8"), entry_position: Signal::Sleep };
    assert_eq!(position_diff(&none, dec("10")), None);
    let unpriced = Folio { base: 0, quote: 1, entry_price: 0, entry_position: Signal::Long };
    assert_eq!(position_diff(&unpriced, dec("10")), None);
    let tiny = Folio { base: 0, quote: 1, entry_price: 1, entry_position: Signal::Long };
    assert_eq!(position_diff(&tiny, i64::MAX), None);
}
