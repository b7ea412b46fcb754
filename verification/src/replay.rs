//! The replay engine: one tick routine, driven bar by bar over a finished
//! series or update by update from a stream.

use vstd::prelude::*;
use crate::candle::BarUpdate;
use crate::candle::Candle;
use crate::candleline::ingested;
use crate::candleline::CandleLine;
use crate::config::Config;
use crate::fixed::SCALE;
use crate::journal::Event;
use crate::journal::Journal;
use crate::market::a_in_b_value;
use crate::market::after_buy;
use crate::market::after_sell;
use crate::market::b_in_a_value;
use crate::market::buy_rejection;
use crate::market::fits_amount;
use crate::market::sell_rejection;
use crate::market::Market;
use crate::market::OrderRejected;
use crate::signal::Signal;
use crate::strategy::resolve_strategy;
use crate::strategy::run_strategy;
use crate::strategy::strategy_named;
use crate::strategy::strategy_signal;
use crate::strategy::Strategy;

verus! {

/// The last `window` bars of a series, or the whole series when it holds
/// fewer.
pub open spec fn trailing_window(series: Seq<Candle>, window: int) -> Seq<Candle> {
    if series.len() <= window {
        series
    } else if window <= 0 {
        Seq::empty()
    } else {
        series.subrange(series.len() - window, series.len() as int)
    }
}

/// A wallet after a signal was acted on, with the reason if the order was
/// refused.
pub struct Settled {
    pub market: Market,
    pub rejection: Option<OrderRejected>,
}

/// Acts on a signal. `Long` buys as much A as the whole quote balance pays
/// for; `Short` sells the base balance as it is priced in B; `Sleep` trades
/// nothing. A refused order leaves the wallet as it was.
pub open spec fn settle(m: Market, signal: Signal) -> Settled {
    match signal {
        Signal::Sleep => Settled { market: m, rejection: None },
        Signal::Long => if !m.well_formed() {
            Settled { market: m, rejection: Some(OrderRejected::InvalidMarket) }
        } else if !fits_amount(b_in_a_value(m)) {
            Settled { market: m, rejection: Some(OrderRejected::OutOfRange) }
        } else {
            match buy_rejection(m, b_in_a_value(m)) {
                Some(why) => Settled { market: m, rejection: Some(why) },
                None => Settled { market: after_buy(m, b_in_a_value(m)), rejection: None },
            }
        },
        Signal::Short => if !m.well_formed() {
            Settled { market: m, rejection: Some(OrderRejected::InvalidMarket) }
        } else if !fits_amount(a_in_b_value(m)) {
            Settled { market: m, rejection: Some(OrderRejected::OutOfRange) }
        } else {
            match sell_rejection(m, a_in_b_value(m)) {
                Some(why) => Settled { market: m, rejection: Some(why) },
                None => Settled { market: after_sell(m, a_in_b_value(m)), rejection: None },
            }
        },
    }
}

/// What one tick reports: the journaled event, whether the series was
/// shorter than the window so that the strategy saw fewer bars than asked
/// for, and why the tick's order was refused, if it was.
#[derive(Debug, Clone, Copy, PartialEq, Eq, Structural)]
pub struct TickReport {
    pub event: Event,
    pub short_window: bool,
    pub rejection: Option<OrderRejected>,
}

/// One tick on a series whose newest bar is the tick's bar: the wallet is
/// marked to that bar's close, the strategy reads the trailing window, the
/// signal is acted on, and the outcome is recorded under the bar's time.
pub open spec fn tick_outcome(
    series: Seq<Candle>,
    window: int,
    strategy: Strategy,
    market: Market,
) -> TickReport
    recommends
        series.len() > 0,
{
    let candle = series.last();
    let marked = Market { ratio_a_to_b: candle.close, ..market };
    let signal = strategy_signal(strategy, trailing_window(series, window));
    let settled = settle(marked, signal);
    TickReport {
        event: Event { timestamp: candle.timestamp, signal, market: settled.market, candle },
        short_window: series.len() < window,
        rejection: settled.rejection,
    }
}

/// The wallet after the first `n` bars of a series were replayed.
pub open spec fn replay_market(
    candles: Seq<Candle>,
    window: int,
    strategy: Strategy,
    start: Market,
    n: int,
) -> Market
    decreases n,
{
    if n <= 0 {
        start
    } else {
        tick_outcome(
            candles.take(n),
            window,
            strategy,
            replay_market(candles, window, strategy, start, n - 1),
        ).event.market
    }
}

/// What the tick on the bar at position `i` reports in a replay.
pub open spec fn replay_report(
    candles: Seq<Candle>,
    window: int,
    strategy: Strategy,
    start: Market,
    i: int,
) -> TickReport {
    tick_outcome(
        candles.take(i + 1),
        window,
        strategy,
        replay_market(candles, window, strategy, start, i),
    )
}

/// The event that the bar at position `i` leaves in a replay.
pub open spec fn replay_event(
    candles: Seq<Candle>,
    window: int,
    strategy: Strategy,
    start: Market,
    i: int,
) -> Event {
    replay_report(candles, window, strategy, start, i).event
}

/// The journal of a replay: one event for each bar, in order.
pub open spec fn replay_journal(
    candles: Seq<Candle>,
    window: int,
    strategy: Strategy,
    start: Market,
) -> Seq<Event> {
    Seq::new(candles.len(), |i: int| replay_event(candles, window, strategy, start, i))
}

/// What a [`Session`] holds.
pub struct SessionView {
    pub series: Seq<Candle>,
    pub market: Market,
    pub journal: Seq<Event>,
    pub window: usize,
    pub strategy: Strategy,
}

/// One replay session: the series so far, the wallet, the journal, and the
/// window and strategy that every tick uses. The session is the only writer
/// of its wallet and journal.
#[derive(Debug, Clone)]
pub struct Session {
    series: CandleLine,
    market: Market,
    journal: Journal,
    window: usize,
    strategy: Strategy,
}

impl View for Session {
    type V = SessionView;

    closed spec fn view(&self) -> SessionView {
        SessionView {
            series: self.series@,
            market: self.market,
            journal: self.journal@,
            window: self.window,
            strategy: self.strategy,
        }
    }
}

impl Session {
    /// A session with no bars and no events yet.
    pub fn new(window: usize, strategy: Strategy, market: Market) -> (s: Session)
        ensures
            s@ == (SessionView {
                series: Seq::empty(),
                market,
                journal: Seq::empty(),
                window,
                strategy,
            }),
    {
        Session {
            series: CandleLine::new(),
            market,
            journal: Journal::new(),
            window,
            strategy,
        }
    }

    /// A session with the window and strategy that a configuration names.
    pub fn from_config(config: &Config, market: Market) -> (s: Session)
        ensures
            s@ == (SessionView {
                series: Seq::empty(),
                market,
                journal: Seq::empty(),
                window: config@.window,
                strategy: strategy_named(config@.strategy),
            }),
    {
        let name = config.get_strategy();
        Session::new(config.get_window(), resolve_strategy(name.as_str()), market)
    }

    /// Appends bars of history to the series without replaying them: no
    /// tick runs, and wallet and journal stay as they are.
    pub fn seed(&mut self, history: &Vec<Candle>)
        ensures
            final(self)@ == (SessionView {
                series: old(self)@.series + history@,
                ..old(self)@
            }),
    {
        let mut i: usize = 0;
        assert(self.series@ + history@.take(0) =~= self.series@);
        while i < history.len()
            invariant
                i <= history@.len(),
                self@ == (SessionView {
                    series: old(self)@.series + history@.take(i as int),
                    ..old(self)@
                }),
            decreases history@.len() - i,
        {
            self.series.push(history[i]);
            assert((old(self)@.series + history@.take(i as int)).push(history@[i as int])
                =~= old(self)@.series + history@.take(i + 1));
            i += 1;
        }
        assert(history@.take(history@.len() as int) =~= history@);
    }

    /// The wallet as the last tick left it.
    pub fn market(&self) -> (m: Market)
        ensures
            m == self@.market,
    {
        self.market
    }

    /// The number of bars taken in so far.
    pub fn series_len(&self) -> (n: usize)
        ensures
            n == self@.series.len(),
    {
        self.series.len()
    }

    /// The events journaled so far, oldest first.
    pub fn events(&self) -> (out: Vec<Event>)
        ensures
            out@ == self@.journal,
    {
        self.journal.get_all()
    }

    /// Gives up the session for its journal.
    pub fn into_journal(self) -> (j: Journal)
        ensures
            j@ == self@.journal,
    {
        self.journal
    }

    fn settle_signal(&mut self, signal: Signal) -> (rejection: Option<OrderRejected>)
        ensures
            final(self)@ == (SessionView {
                market: settle(old(self).market, signal).market,
                ..old(self)@
            }),
            final(self).market == settle(old(self).market, signal).market,
            rejection == settle(old(self).market, signal).rejection,
    {
        match signal {
            Signal::Sleep => None,
            Signal::Long => {
                if !self.market.is_well_formed() {
                    return Some(OrderRejected::InvalidMarket);
                }
                match self.market.b_in_a() {
                    None => Some(OrderRejected::OutOfRange),
                    Some(amount) => match self.market.buy(amount) {
                        Ok(()) => None,
                        Err(why) => Some(why),
                    },
                }
            },
            Signal::Short => {
                if !self.market.is_well_formed() {
                    return Some(OrderRejected::InvalidMarket);
                }
                match self.market.a_in_b() {
                    None => Some(OrderRejected::OutOfRange),
                    Some(amount) => match self.market.sell(amount) {
                        Ok(()) => None,
                        Err(why) => Some(why),
                    },
                }
            },
        }
    }

    fn tick(&mut self) -> (report: TickReport)
        requires
            old(self)@.series.len() > 0,
        ensures
            report == tick_outcome(
                old(self)@.series,
                old(self)@.window as int,
                old(self)@.strategy,
                old(self)@.market,
            ),
            final(self)@ == (SessionView {
                market: report.event.market,
                journal: old(self)@.journal.push(report.event),
                ..old(self)@
            }),
    {
        let n = self.series.len();
        let candle = self.series.get(n - 1);
        self.market.update_ratio(candle.close());
        let short_window = n < self.window;
        let start: usize = if n <= self.window {
            0
        } else {
            n - self.window
        };
        let window = self.series.get_range(start, n);
        assert(window@ =~= trailing_window(self.series@, self.window as int));
        let signal = run_strategy(self.strategy, &window);
        let rejection = self.settle_signal(signal);
        let event = Event::new(candle.timestamp(), signal, self.market, candle);
        self.journal.put(event);
        TickReport { event, short_window, rejection }
    }

    /// Replays one closed bar: appends it to the series and runs the tick
    /// routine on it. Series, wallet and journal move together.
    pub fn process_tick(&mut self, candle: Candle) -> (report: TickReport)
        ensures
            report == tick_outcome(
                old(self)@.series.push(candle),
                old(self)@.window as int,
                old(self)@.strategy,
                old(self)@.market,
            ),
            final(self)@ == (SessionView {
                series: old(self)@.series.push(candle),
                market: report.event.market,
                journal: old(self)@.journal.push(report.event),
                ..old(self)@
            }),
            report.event.candle == candle,
    {
        self.series.push(candle);
        self.tick()
    }

    /// Takes in one streamed update and runs the tick routine on its bar: a
    /// closed bar grows the series, a forming bar replaces the newest one.
    pub fn process_update(&mut self, update: BarUpdate) -> (report: TickReport)
        ensures
            report == tick_outcome(
                ingested(old(self)@.series, update),
                old(self)@.window as int,
                old(self)@.strategy,
                old(self)@.market,
            ),
            final(self)@ == (SessionView {
                series: ingested(old(self)@.series, update),
                market: report.event.market,
                journal: old(self)@.journal.push(report.event),
                ..old(self)@
            }),
            report.event.candle == update.candle(),
    {
        self.series.ingest(update);
        self.tick()
    }
}

/// Replays a finished series once, oldest bar first, with the window and
/// strategy that the configuration names. Returns what each tick reports,
/// a refused order included, and leaves the wallet as the last tick left
/// it.
pub fn backtrade(candles: &Vec<Candle>, cfg: &Config, market: &mut Market) -> (reports: Vec<
    TickReport,
>)
    ensures
        reports@.len() == candles@.len(),
        forall|i: int|
            0 <= i < candles@.len() ==> reports@[i] == replay_report(
                candles@,
                cfg@.window as int,
                strategy_named(cfg@.strategy),
                *old(market),
                i,
            ),
        *final(market) == replay_market(
            candles@,
            cfg@.window as int,
            strategy_named(cfg@.strategy),
            *old(market),
            candles@.len() as int,
        ),
{
    let mut session = Session::from_config(cfg, *market);
    let ghost window = cfg@.window as int;
    let ghost strategy = strategy_named(cfg@.strategy);
    let ghost start = *market;
    let mut reports: Vec<TickReport> = Vec::new();
    let mut i: usize = 0;
    while i < candles.len()
        invariant
            i <= candles@.len(),
            session@.series == candles@.take(i as int),
            session@.window == window,
            session@.strategy == strategy,
            session@.market == replay_market(candles@, window, strategy, start, i as int),
            reports@.len() == i,
            forall|k: int|
                0 <= k < i ==> reports@[k] == replay_report(candles@, window, strategy, start, k),
        decreases candles@.len() - i,
    {
        assert(candles@.take(i as int).push(candles@[i as int]) =~= candles@.take(i + 1));
        let report = session.process_tick(candles[i]);
        reports.push(report);
        i += 1;
    }
    *market = session.market();
    reports
}

/// Replays a finished series as [`backtrade`] does and returns the
/// journal: one event for each bar, in order.
pub fn run_backtest(candles: &Vec<Candle>, config: &Config, market: &mut Market) -> (journal:
    Journal)
    ensures
        journal@ == replay_journal(
            candles@,
            config@.window as int,
            strategy_named(config@.strategy),
            *old(market),
        ),
        journal@.len() == candles@.len(),
        *final(market) == replay_market(
            candles@,
            config@.window as int,
            strategy_named(config@.strategy),
            *old(market),
            candles@.len() as int,
        ),
{
    let ghost start = *market;
    let reports = backtrade(candles, config, market);
    let mut journal = Journal::new();
    let mut i: usize = 0;
    while i < reports.len()
        invariant
            i <= reports@.len(),
            journal@.len() == i,
            forall|k: int| 0 <= k < i ==> journal@[k] == reports@[k].event,
        decreases reports@.len() - i,
    {
        journal.put(reports[i].event);
        i += 1;
    }
    assert(journal@ =~= replay_journal(
        candles@,
        config@.window as int,
        strategy_named(config@.strategy),
        start,
    ));
    journal
}

/// On a well-formed wallet a `Long` always finds its funds: what the whole
/// quote balance pays for never costs more than that balance. Such an order
/// is placed, unless an amount leaves the fixed-point range.
pub proof fn lemma_long_finds_its_funds(m: Market)
    requires
        m.well_formed(),
    ensures
        0 <= b_in_a_value(m),
        b_in_a_value(m) * m.ratio_a_to_b <= m.currency_b_amount * SCALE,
        settle(m, Signal::Long).rejection is None || settle(m, Signal::Long).rejection == Some(
            OrderRejected::OutOfRange,
        ),
{
    let n = m.currency_b_amount * SCALE;
    let r = m.ratio_a_to_b as int;
    crate::fixed::lemma_div_floor_bounds(n, r);
    crate::fixed::lemma_div_floor_monotone(0, n, r);
    assert(0int / r == 0) by (nonlinear_arith)
        requires
            r > 0,
    ;
}

/// A tick whose order is refused leaves the wallet as a `Sleep` on the
/// same bar would: marked to the bar's close and otherwise untouched.
pub proof fn lemma_refused_tick_is_sleep_equivalent(
    series: Seq<Candle>,
    window: int,
    strategy: Strategy,
    market: Market,
)
    requires
        series.len() > 0,
        tick_outcome(series, window, strategy, market).rejection is Some,
    ensures
        tick_outcome(series, window, strategy, market).event.market == (Market {
            ratio_a_to_b: series.last().close,
            ..market
        }),
        tick_outcome(series, window, strategy, market).event.market == settle(
            Market { ratio_a_to_b: series.last().close, ..market },
            Signal::Sleep,
        ).market,
{
}

/// Determinism. A journal is a function of the series, the window, the
/// strategy and the starting wallet: equal inputs give equal journals, event
/// for event.
pub proof fn lemma_replay_deterministic(
    first: Seq<Candle>,
    second: Seq<Candle>,
    window: int,
    strategy: Strategy,
    start: Market,
)
    requires
        first == second,
    ensures
        replay_journal(first, window, strategy, start) == replay_journal(
            second,
            window,
            strategy,
            start,
        ),
{
}

/// A replay never looks ahead: the events of the first `n` bars are the
/// same whether or not more bars follow.
pub proof fn lemma_replay_prefix(
    candles: Seq<Candle>,
    window: int,
    strategy: Strategy,
    start: Market,
    n: int,
)
    requires
        0 <= n <= candles.len(),
    ensures
        replay_journal(candles.take(n), window, strategy, start) == replay_journal(
            candles,
            window,
            strategy,
            start,
        ).take(n),
{
    assert forall|i: int| 0 <= i < n implies replay_event(
        candles.take(n),
        window,
        strategy,
        start,
        i,
    ) == replay_event(candles, window, strategy, start, i) by {
        lemma_replay_market_prefix(candles, window, strategy, start, n, i);
        assert(candles.take(n).take(i + 1) =~= candles.take(i + 1));
    }
    assert(replay_journal(candles.take(n), window, strategy, start) =~= replay_journal(
        candles,
        window,
        strategy,
        start,
    ).take(n));
}

proof fn lemma_replay_market_prefix(
    candles: Seq<Candle>,
    window: int,
    strategy: Strategy,
    start: Market,
    n: int,
    k: int,
)
    requires
        0 <= k <= n <= candles.len(),
    ensures
        replay_market(candles.take(n), window, strategy, start, k) == replay_market(
            candles,
            window,
            strategy,
            start,
            k,
        ),
    decreases k,
{
    if k > 0 {
        lemma_replay_market_prefix(candles, window, strategy, start, n, k - 1);
        assert(candles.take(n).take(k) =~= candles.take(k));
    }
}

/// A tick on a bar that closes above zero keeps a well-formed wallet well
/// formed, whatever the signal and whether or not its order is refused.
pub proof fn lemma_tick_keeps_market_well_formed(
    series: Seq<Candle>,
    window: int,
    strategy: Strategy,
    market: Market,
)
    requires
        series.len() > 0,
        market.well_formed(),
        series.last().close > 0,
    ensures
        tick_outcome(series, window, strategy, market).event.market.well_formed(),
{
    let marked = Market { ratio_a_to_b: series.last().close, ..market };
    let signal = strategy_signal(strategy, trailing_window(series, window));
    if signal == Signal::Long && settle(marked, signal).rejection.is_none() {
        crate::market::lemma_buy_amounts(marked, b_in_a_value(marked));
    }
    if signal == Signal::Short && settle(marked, signal).rejection.is_none() {
        crate::market::lemma_sell_amounts(marked, a_in_b_value(marked));
    }
}

} // verus!
