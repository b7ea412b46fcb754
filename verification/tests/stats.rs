use tradeterm::candle::Candle;
use tradeterm::decimal::parse_decimal;
use tradeterm::journal::Event;
use tradeterm::journal::Journal;
use tradeterm::market::Market;
use tradeterm::signal::Signal;
use tradeterm::stats::Stats;
use tradeterm::stats::StatsError;

fn dec(text: &str) -> i64 {
    parse_decimal(text).unwrap()
}

fn event(t: u64, signal: Signal, a: &str, b: &str, ratio: &str, open: &str, close: &str) -> Event {
    Event::new(
        t,
        signal,
        Market::new(dec(a), dec(b), dec(ratio), 0, 0, 0),
        Candle::new(t, dec(open), dec(close), dec(close), dec(close), 0),
    )
}

fn journal(events: Vec<Event>) -> Journal {
    let mut j = Journal::new();
    for e in events {
        j.put(e);
    }
    j
}

fn session() -> Journal {
    // worth of the wallet: 100, 100, 140, 120, 118, 118
    journal(vec![
        event(0, Signal::Sleep, "0", "100", "2", "2", "2"),
        event(1, Signal::Long, "40", "20", "2", "2", "2"),
        event(2, Signal::Sleep, "40", "20", "3", "2", "3"),
        event(3, Signal::Long, "40", "20", "2.5", "3", "2.5"),
        event(4, Signal::Short, "0", "118", "2.5", "3", "2.5"),
        event(5, Signal::Sleep, "0", "118", "2.5", "3", "4"),
    ])
}

#[test]
fn init_is_all_zero() {
    let s = Stats::init();
    assert_eq!(
        s,
        Stats {
            chg_passive: 0,
            chg_active: 0,
            avg_in_pos: 0,
            avg_gain: 0,
            avg_loss: 0,
            cum_gain: 0,
            cum_loss: 0,
            cum_fees: 0
        }
    );
}

#[test]
fn figures_of_a_session() {
    let mut s = Stats::init();
    assert_eq!(s.calculate(session()), Ok(()));
    // last close 4 over first open 2, less one
    assert_eq!(s.chg_passive, dec("1"));
    // last worth 118 over first worth 100, less one
    assert_eq!(s.chg_active, dec("0.18"));
    // a run of three ticks and a run of two; the leading sleep counts nowhere
    assert_eq!(s.avg_in_pos, dec("2.5"));
    // one gain of 40; losses of 20 and 2
    assert_eq!(s.cum_gain, dec("40"));
    assert_eq!(s.avg_gain, dec("40"));
    assert_eq!(s.cum_loss, dec("22"));
    assert_eq!(s.avg_loss, dec("11"));
    // the sale turned 40 of A, worth 100 at 2.5, into 98 of B
    assert_eq!(s.cum_fees, dec("2"));
}

#[test]
fn an_empty_journal_has_no_figures() {
    let mut s = Stats::init();
    s.cum_fees = 7;
    assert_eq!(s.calculate(Journal::new()), Err(StatsError::EmptyJournal));
    assert_eq!(s.cum_fees, 7);
}

#[test]
fn a_first_open_of_zero_has_no_passive_return() {
    let mut s = Stats::init();
    let j = journal(vec![event(0, Signal::Sleep, "0", "100", "2", "0", "2")]);
    assert_eq!(s.calculate(j), Err(StatsError::NoOpeningPrice));
    let j = journal(vec![event(0, Signal::Sleep, "0", "100", "2", "-1", "2")]);
    assert_eq!(s.calculate(j), Err(StatsError::NoOpeningPrice));
    assert_eq!(s, Stats::init());
}

#[test]
fn a_first_wallet_worth_nothing_has_no_active_return() {
    let mut s = Stats::init();
    let j = journal(vec![event(0, Signal::Sleep, "0", "0", "2", "1", "2")]);
    assert_eq!(s.calculate(j), Err(StatsError::NoOpeningWorth));
    // the opening price is judged first
    let j = journal(vec![event(0, Signal::Sleep, "0", "0", "2", "0", "2")]);
    assert_eq!(s.calculate(j), Err(StatsError::NoOpeningPrice));
}

#[test]
fn a_figure_beyond_the_range_is_an_overflow() {
    let mut s = Stats::init();
    // last close over a first open of one unit, times the scale, is no amount
    let first = Event::new(
        0,
        Signal::Sleep,
        Market::new(0, 1, 1, 0, 0, 0),
        Candle::new(0, 1, 1, 1, 1, 0),
    );
    let last = Event::new(
        1,
        Signal::Sleep,
        Market::new(0, 1, 1, 0, 0, 0),
        Candle::new(1, 1, 1, 1, i64::MAX, 0),
    );
    assert_eq!(s.calculate(journal(vec![first, last])), Err(StatsError::Overflow));
    assert_eq!(s, Stats::init());
}

#[test]
fn a_single_event_has_flat_figures() {
    let mut s = Stats::init();
    let j = journal(vec![event(0, Signal::Long, "1", "1", "2", "4", "5")]);
    assert_eq!(s.calculate(j), Ok(()));
    assert_eq!(s.chg_passive, dec("0.25"));
    assert_eq!(s.chg_active, 0);
    assert_eq!(s.avg_in_pos, dec("1"));
    assert_eq!((s.avg_gain, s.avg_loss, s.cum_gain, s.cum_loss, s.cum_fees), (0, 0, 0, 0, 0));
}

#[test]
fn sleeping_throughout_is_never_in_position() {
    let mut s = Stats::init();
    let j = journal(vec![
        event(0, Signal::Sleep, "1", "1", "2", "4", "5"),
        event(1, Signal::Sleep, "1", "1", "3", "4", "5"),
    ]);
    assert_eq!(s.calculate(j), Ok(()));
    assert_eq!(s.avg_in_pos, 0);
    // the mark to 3 lifts the worth from 3 to 4
    assert_eq!((s.cum_gain, s.avg_gain), (dec("1"), dec("1")));
    assert_eq!(s.chg_active, 33_333_333);
}

#[test]
fn run_lengths_are_averaged_and_rounded_down() {
    let mut s = Stats::init();
    let signals = [
        Signal::Long,
        Signal::Long,
        Signal::Sleep,
        Signal::Short,
        Signal::Long,
        Signal::Sleep,
        Signal::Sleep,
    ];
    let events = signals
        .iter()
        .enumerate()
        .map(|(i, s)| event(i as u64, *s, "0", "1", "1", "1", "1"))
        .collect();
    assert_eq!(s.calculate(journal(events)), Ok(()));
    // runs of 3, 1 and 3 ticks
    assert_eq!(s.avg_in_pos, 233_333_333);
}

#[test]
fn figures_of_the_five_bar_backtest() {
    let wallets = [(9_081_818_180, 10, "11"), (9_081_818_180, 10, "12"), (9_081_818_180, 10, "10"),
        (9_081_818_180, 10, "9"), (9_081_818_180, 1, "9.5")];
    let signals = [Signal::Long, Signal::Long, Signal::Short, Signal::Sleep, Signal::Long];
    let bars = [("10", "11"), ("11", "12"), ("12", "10"), ("10", "9"), ("9", "9.5")];
    let mut j = Journal::new();
    for i in 0..5 {
        j.put(Event::new(
            i as u64,
            signals[i],
            Market::new(wallets[i].0, wallets[i].1, dec(wallets[i].2), 100_000, 100_000, 100_000),
            Candle::new(i as u64, dec(bars[i].0), 0, 0, dec(bars[i].1), 0),
        ));
    }
    let mut s = Stats::init();
    assert_eq!(s.calculate(j), Ok(()));
    assert_eq!(
        s,
        Stats {
            chg_passive: -5_000_000,
            chg_active: -13_636_364,
            avg_in_pos: 166_666_666,
            avg_gain: 6_811_363_630,
            avg_loss: 13_622_727_270,
            cum_gain: 13_622_727_261,
            cum_loss: 27_245_454_540,
            cum_fees: 9
        }
    );
}
