use tradeterm::candle::BarUpdate;
use tradeterm::candle::Candle;
use tradeterm::config::Broker;
use tradeterm::config::Config;
use tradeterm::decimal::parse_decimal;
use tradeterm::journal::Event;
use tradeterm::journal::Journal;
use tradeterm::market::Market;
use tradeterm::market::OrderRejected;
use tradeterm::replay::backtrade;
use tradeterm::replay::run_backtest;
use tradeterm::replay::Session;
use tradeterm::signal::Signal;
use tradeterm::strategy::Strategy;

fn dec(text: &str) -> i64 {
    parse_decimal(text).unwrap()
}

fn bar(t: u64, o: &str, h: &str, l: &str, c: &str, v: &str) -> Candle {
    Candle::new(t, dec(o), dec(h), dec(l), dec(c), dec(v))
}

fn five_bars() -> Vec<Candle> {
    vec![
        bar(0, "10", "12", "9", "11", "100"),
        bar(1, "11", "13", "10", "12", "120"),
        bar(2, "12", "14", "11", "10", "90"),
        bar(3, "10", "11", "8", "9", "80"),
        bar(4, "9", "10", "7", "9.5", "70"),
    ]
}

fn config(window: usize, strategy: &str) -> Config {
    Config::new(
        "def_cfg".to_string(),
        "This is a default config for development purposes".to_string(),
        "BTCUSDT".to_string(),
        "1m".to_string(),
        window,
        strategy.to_string(),
        Broker::new(
            "binance".to_string(),
            "my-api-key".to_string(),
            "https://api.binance.com/api/v3/".to_string(),
            "wss://stream.binance.com:9443/ws".to_string(),
        ),
    )
}

fn wallet() -> Market {
    Market::new(0, dec("1000"), dec("1"), dec("0.001"), dec("0.001"), dec("0.001"))
}

fn wallet_at(a: i64, b: i64, ratio: &str) -> Market {
    Market::new(a, b, dec(ratio), dec("0.001"), dec("0.001"), dec("0.001"))
}

#[test]
fn golden_scenario_signal_is_long() {
    // window 5 over the five bars: the newest raw close 9.5 lies above the
    // newest synthetic close 8.875
    let mut session = Session::new(5, Strategy::Exs, wallet());
    let mut last = None;
    for candle in five_bars() {
        last = Some(session.process_tick(candle));
    }
    let report = last.unwrap();
    assert_eq!(report.event.signal, Signal::Long);
    assert!(!report.short_window);
    assert_eq!(report.event.candle, five_bars()[4]);
    assert_eq!(report.event.timestamp, 4);
}

#[test]
fn backtest_of_five_bars() {
    let mut market = wallet();
    let journal = run_backtest(&five_bars(), &config(5, "exs"), &mut market);
    assert_eq!(journal.len(), 5);
    assert_eq!(
        journal.get_signals(),
        vec![Signal::Long, Signal::Long, Signal::Short, Signal::Sleep, Signal::Long]
    );
    assert_eq!(journal.get_timestamps(), vec![0, 1, 2, 3, 4]);
    assert_eq!(journal.get_candles(), five_bars());
    assert_eq!(
        journal.get_markets(),
        vec![
            wallet_at(9_081_818_180, 10, "11"),
            wallet_at(9_081_818_180, 10, "12"),
            wallet_at(9_081_818_180, 10, "10"),
            wallet_at(9_081_818_180, 10, "9"),
            wallet_at(9_081_818_180, 1, "9.5"),
        ]
    );
    assert_eq!(market, wallet_at(9_081_818_180, 1, "9.5"));
}

#[test]
fn replay_is_deterministic() {
    let mut first_market = wallet();
    let mut second_market = wallet();
    let first = run_backtest(&five_bars(), &config(3, "ExS"), &mut first_market);
    let second = run_backtest(&five_bars(), &config(3, "ExS"), &mut second_market);
    assert_eq!(first.get_all(), second.get_all());
    assert_eq!(format!("{:?}", first), format!("{:?}", second));
    assert_eq!(first_market, second_market);
}

#[test]
fn replay_never_looks_ahead() {
    let mut whole_market = wallet();
    let whole = run_backtest(&five_bars(), &config(2, "exs"), &mut whole_market);
    let mut part_market = wallet();
    let part = run_backtest(&five_bars()[..3].to_vec(), &config(2, "exs"), &mut part_market);
    assert_eq!(part.get_all(), whole.get_all()[..3].to_vec());
}

#[test]
fn backtest_of_nothing_is_an_empty_journal() {
    let mut market = wallet();
    let journal = run_backtest(&Vec::new(), &config(5, "exs"), &mut market);
    assert_eq!(journal.len(), 0);
    assert_eq!(market, wallet());
}

#[test]
fn an_unknown_strategy_only_marks_the_wallet() {
    let mut market = wallet();
    let journal = run_backtest(&five_bars(), &config(5, "macd"), &mut market);
    assert_eq!(journal.get_signals(), vec![Signal::Sleep; 5]);
    assert_eq!(market, wallet_at(0, dec("1000"), "9.5"));
}

#[test]
fn a_tick_reports_a_short_window() {
    let mut session = Session::new(3, Strategy::Exs, wallet());
    let flags: Vec<bool> =
        five_bars().into_iter().map(|c| session.process_tick(c).short_window).collect();
    assert_eq!(flags, vec![true, true, false, false, false]);
}

#[test]
fn a_window_of_zero_sees_no_bar() {
    let mut session = Session::new(0, Strategy::Exs, wallet());
    for candle in five_bars() {
        let report = session.process_tick(candle);
        assert_eq!(report.event.signal, Signal::Sleep);
        assert!(!report.short_window);
    }
}

#[test]
fn the_strategy_reads_only_the_trailing_window() {
    // with a window of one, each bar is judged alone
    let mut session = Session::new(1, Strategy::Exs, wallet());
    let signals: Vec<Signal> =
        five_bars().into_iter().map(|c| session.process_tick(c).event.signal).collect();
    // closes against (o + h + l + c) / 4: 11 > 10.5, 12 > 11.5, 10 < low 11, 9 < 9.5 but
    // not below the low 8, 9.5 > 8.875
    assert_eq!(
        signals,
        vec![Signal::Long, Signal::Long, Signal::Short, Signal::Sleep, Signal::Long]
    );
}

#[test]
fn a_refused_order_leaves_the_wallet_and_is_reported() {
    let mut session = Session::new(5, Strategy::Exs, wallet_at(dec("2"), 0, "1"));
    // close below the low: short, which offers 2 * 8 of A for sale
    let report = session.process_tick(bar(0, "10", "12", "9", "8", "1"));
    assert_eq!(report.event.signal, Signal::Short);
    assert_eq!(report.rejection, Some(OrderRejected::InsufficientFunds));
    assert_eq!(report.event.market, wallet_at(dec("2"), 0, "8"));
    assert_eq!(session.market(), wallet_at(dec("2"), 0, "8"));
    assert_eq!(session.events().len(), 1);
}

#[test]
fn a_short_at_a_price_below_one_sells() {
    let mut session = Session::new(5, Strategy::Exs, wallet_at(dec("2"), 0, "1"));
    // close 0.5 below the low 0.6: short, which offers 2 * 0.5 = 1 of A
    let report = session.process_tick(bar(0, "0.7", "0.8", "0.6", "0.5", "1"));
    assert_eq!(report.event.signal, Signal::Short);
    assert_eq!(report.rejection, None);
    // 1 of A leaves, 1 * 0.5 * 0.999 of B arrives
    assert_eq!(report.event.market, wallet_at(dec("1"), dec("0.4995"), "0.5"));
}

#[test]
fn a_bar_without_a_price_breaks_the_wallet_for_that_tick() {
    let mut session = Session::new(5, Strategy::Exs, wallet());
    // close 0 above the synthetic close: long, but nothing is priced at zero
    let report = session.process_tick(bar(0, "-4", "0", "-4", "0", "1"));
    assert_eq!(report.event.signal, Signal::Long);
    assert_eq!(report.rejection, Some(OrderRejected::InvalidMarket));
    assert_eq!(report.event.market, wallet_at(0, dec("1000"), "0"));
    // the next bar has a price again
    let report = session.process_tick(bar(1, "10", "12", "9", "11", "1"));
    assert_eq!(report.rejection, None);
    assert_eq!(session.market().get_b_amount(), 10);
}

#[test]
fn a_forming_bar_replaces_and_a_closed_bar_appends() {
    let mut session = Session::new(5, Strategy::Exs, wallet());
    let bars = five_bars();
    session.process_update(BarUpdate::ClosedBar(bars[0]));
    assert_eq!(session.series_len(), 1);
    session.process_update(BarUpdate::FormingBar(bars[1]));
    assert_eq!(session.series_len(), 1);
    session.process_update(BarUpdate::FormingBar(bars[2]));
    assert_eq!(session.series_len(), 1);
    let report = session.process_update(BarUpdate::ClosedBar(bars[3]));
    assert_eq!(session.series_len(), 2);
    assert_eq!(report.event.candle, bars[3]);
    // every update is one tick and one event
    assert_eq!(session.events().len(), 4);
    let journal = session.into_journal();
    assert_eq!(journal.get_candles(), vec![bars[0], bars[1], bars[2], bars[3]]);
}

#[test]
fn a_forming_bar_on_an_empty_session_opens_the_series() {
    let mut session = Session::new(5, Strategy::Exs, wallet());
    let report = session.process_update(BarUpdate::FormingBar(five_bars()[0]));
    assert_eq!(session.series_len(), 1);
    assert_eq!(report.event.signal, Signal::Long);
}

#[test]
fn a_session_takes_window_and_strategy_from_its_config() {
    let mut session = Session::from_config(&config(1, "EXS"), wallet());
    let report = session.process_tick(five_bars()[0]);
    assert_eq!(report.event.signal, Signal::Long);
    assert!(!report.short_window);
    let mut idle = Session::from_config(&config(1, "other"), wallet());
    assert_eq!(idle.process_tick(five_bars()[0]).event.signal, Signal::Sleep);
}

#[test]
fn a_journal_keeps_what_is_put() {
    let mut journal = Journal::new();
    assert_eq!(journal.len(), 0);
    let first = Event::new(5, Signal::Long, wallet(), five_bars()[0]);
    let second = Event::new(6, Signal::Sleep, wallet_at(1, 2, "3"), five_bars()[1]);
    journal.put(first);
    journal.put(second);
    assert_eq!(journal.len(), 2);
    assert_eq!(journal.get(0), first);
    assert_eq!(journal.get(1), second);
    assert_eq!(journal.get_all(), vec![first, second]);
    assert_eq!(journal.get_timestamps(), vec![5, 6]);
    assert_eq!(journal.get_signals(), vec![Signal::Long, Signal::Sleep]);
    assert_eq!(journal.get_candles(), vec![five_bars()[0], five_bars()[1]]);
    assert_eq!(journal.get_markets(), vec![wallet(), wallet_at(1, 2, "3")]);
}

#[test]
fn an_event_keeps_its_fields() {
    let e = Event::new(5, Signal::Short, wallet(), five_bars()[2]);
    assert_eq!(e.get_timestamp(), 5);
    assert_eq!(e.get_signal(), Signal::Short);
    assert_eq!(e.get_market(), wallet());
    assert_eq!(e.get_candle(), five_bars()[2]);
}

#[test]
fn backtrade_reports_every_tick() {
    let mut market = wallet();
    let reports = backtrade(&five_bars(), &config(5, "exs"), &mut market);
    assert_eq!(reports.len(), 5);
    let rejections: Vec<Option<OrderRejected>> = reports.iter().map(|r| r.rejection).collect();
    assert_eq!(
        rejections,
        vec![None, None, Some(OrderRejected::InsufficientFunds), None, None]
    );
    let short: Vec<bool> = reports.iter().map(|r| r.short_window).collect();
    assert_eq!(short, vec![true, true, true, true, false]);
    let mut again = wallet();
    let journal = run_backtest(&five_bars(), &config(5, "exs"), &mut again);
    let events: Vec<Event> = reports.iter().map(|r| r.event).collect();
    assert_eq!(journal.get_all(), events);
    assert_eq!(market, again);
}

#[test]
fn a_refused_tick_is_a_sleep_but_for_its_signal() {
    let mut refused = Session::new(5, Strategy::Exs, wallet_at(dec("2"), 0, "1"));
    let mut asleep = Session::new(5, Strategy::Unknown, wallet_at(dec("2"), 0, "1"));
    let candle = bar(0, "10", "12", "9", "8", "1");
    let a = refused.process_tick(candle);
    let b = asleep.process_tick(candle);
    assert!(a.rejection.is_some());
    assert_eq!(b.rejection, None);
    assert_eq!(a.event.market, b.event.market);
    assert_eq!((a.event.signal, b.event.signal), (Signal::Short, Signal::Sleep));
}

#[test]
fn seeding_history_runs_no_tick() {
    let mut session = Session::new(5, Strategy::Exs, wallet());
    session.seed(&five_bars()[..4].to_vec());
    assert_eq!(session.series_len(), 4);
    assert_eq!(session.events().len(), 0);
    assert_eq!(session.market(), wallet());
    // the next update is judged on the seeded bars and itself
    let report = session.process_update(BarUpdate::ClosedBar(five_bars()[4]));
    assert_eq!(report.event.signal, Signal::Long);
    assert!(!report.short_window);
    assert_eq!(session.series_len(), 5);
    session.seed(&Vec::new());
    assert_eq!(session.series_len(), 5);
}
