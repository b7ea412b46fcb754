//! Heikin-Ashi smoothing and the signal strategies built on it.

use vstd::prelude::*;
use crate::candle::Candle;
use crate::candleline::CandleLine;
use crate::fixed::div_floor;
use crate::fixed::lemma_many_amounts_fit;
use crate::fixed::lemma_mean_in_range;
use crate::fixed::seq_sum;
use crate::fixed::sum_range;
use crate::signal::Signal;
use crate::text::lowercase_of;
use crate::text::to_lowercase;

verus! {

/// The synthetic close of a bar: the mean of its four prices.
pub open spec fn ha_close(c: Candle) -> int {
    (c.open + c.high + c.low + c.close) / 4
}

/// The synthetic open at position `i`. The first one is the mean of the raw
/// open and close; each later one is the mean of the synthetic open and close
/// just before it, so the whole prefix decides it.
pub open spec fn ha_open(s: Seq<Candle>, i: int) -> int
    decreases i,
{
    if i <= 0 {
        (s[0].open + s[0].close) / 2
    } else {
        (ha_open(s, i - 1) + ha_close(s[i - 1])) / 2
    }
}

/// The synthetic bar at position `i`: smoothed open and close, with the raw
/// timestamp, high, low and volume carried over.
pub open spec fn ha_candle(s: Seq<Candle>, i: int) -> Candle {
    Candle {
        timestamp: s[i].timestamp,
        open: ha_open(s, i) as i64,
        high: s[i].high,
        low: s[i].low,
        close: ha_close(s[i]) as i64,
        volume: s[i].volume,
    }
}

/// The Heikin-Ashi series of a raw series, of equal length.
pub open spec fn heikin_ashi(s: Seq<Candle>) -> Seq<Candle> {
    Seq::new(s.len(), |i: int| ha_candle(s, i))
}

/// A synthetic close is an amount: it lies between the least and the
/// greatest `i64`.
pub proof fn lemma_ha_close_in_range(c: Candle)
    ensures
        i64::MIN <= ha_close(c) <= i64::MAX,
{
}

/// A synthetic open is an amount.
pub proof fn lemma_ha_open_in_range(s: Seq<Candle>, i: int)
    requires
        0 <= i < s.len(),
    ensures
        i64::MIN <= ha_open(s, i) <= i64::MAX,
    decreases i,
{
    if i > 0 {
        lemma_ha_open_in_range(s, i - 1);
        lemma_ha_close_in_range(s[i - 1]);
    }
}

/// Highs, lows, timestamps and volumes pass through the transform unchanged,
/// at every position of every series.
pub proof fn lemma_heikin_ashi_passes_extremes(s: Seq<Candle>, i: int)
    requires
        0 <= i < s.len(),
    ensures
        heikin_ashi(s).len() == s.len(),
        heikin_ashi(s)[i].high == s[i].high,
        heikin_ashi(s)[i].low == s[i].low,
        heikin_ashi(s)[i].timestamp == s[i].timestamp,
        heikin_ashi(s)[i].volume == s[i].volume,
{
}

/// The synthetic bar at a position depends on the raw bars up to that
/// position only: bars appended later do not change it.
pub proof fn lemma_heikin_ashi_prefix(s: Seq<Candle>, t: Seq<Candle>, i: int)
    requires
        0 <= i < s.len() <= t.len(),
        forall|k: int| 0 <= k <= i ==> s[k] == t[k],
    ensures
        ha_candle(s, i) == ha_candle(t, i),
{
    lemma_ha_open_prefix(s, t, i);
}

proof fn lemma_ha_open_prefix(s: Seq<Candle>, t: Seq<Candle>, i: int)
    requires
        0 <= i < s.len() <= t.len(),
        forall|k: int| 0 <= k <= i ==> s[k] == t[k],
    ensures
        ha_open(s, i) == ha_open(t, i),
    decreases i,
{
    if i > 0 {
        lemma_ha_open_prefix(s, t, i - 1);
    }
}

fn mean_of_two(a: i64, b: i64) -> (r: i64)
    ensures
        r == (a + b) / 2,
{
    let sum: i128 = a as i128 + b as i128;
    let q = div_floor(sum, 2);
    q as i64
}

fn mean_of_four(a: i64, b: i64, c: i64, d: i64) -> (r: i64)
    ensures
        r == (a + b + c + d) / 4,
{
    let sum: i128 = a as i128 + b as i128 + c as i128 + d as i128;
    let q = div_floor(sum, 4);
    q as i64
}

impl CandleLine {
    /// The Heikin-Ashi series of this series, computed in one pass from the
    /// oldest bar to the newest. The first synthetic bar has no predecessor
    /// and is an approximation, so callers should feed some ten bars of
    /// history before they trust the newest ones.
    pub fn heikinashi(&self) -> (ha: CandleLine)
        ensures
            ha@ == heikin_ashi(self@),
            ha@.len() == self@.len(),
            forall|i: int|
                0 <= i < self@.len() ==> ha@[i].high == self@[i].high && ha@[i].low
                    == self@[i].low,
    {
        let data = self.all();
        let mut ha = CandleLine::new();
        if data.len() == 0 {
            assert(ha@ =~= heikin_ashi(self@));
            return ha;
        }
        ha.push(
            Candle::new(
                data[0].timestamp(),
                mean_of_two(data[0].open(), data[0].close()),
                data[0].high(),
                data[0].low(),
                mean_of_four(data[0].open(), data[0].high(), data[0].low(), data[0].close()),
                data[0].volume(),
            ),
        );
        let mut i: usize = 1;
        while i < data.len()
            invariant
                1 <= i <= data@.len(),
                data@ == self@,
                ha@.len() == i,
                forall|k: int| 0 <= k < i ==> ha@[k] == ha_candle(self@, k),
            decreases data@.len() - i,
        {
            let prev = ha.get(i - 1);
            proof {
                lemma_ha_open_in_range(self@, i - 1);
                lemma_ha_close_in_range(self@[i - 1]);
            }
            let kline = Candle::new(
                data[i].timestamp(),
                mean_of_two(prev.open(), prev.close()),
                data[i].high(),
                data[i].low(),
                mean_of_four(data[i].open(), data[i].high(), data[i].low(), data[i].close()),
                data[i].volume(),
            );
            ha.push(kline);
            i += 1;
        }
        assert(ha@ =~= heikin_ashi(self@));
        ha
    }
}

/// The signal of the strategy `exs` on a window of raw bars: `Long` when the
/// newest raw close lies above the newest synthetic close, else `Short` when
/// it lies below the newest synthetic low, else `Sleep`. An empty window
/// carries no bar to judge and gives `Sleep`.
pub open spec fn exs_signal(raw: Seq<Candle>) -> Signal {
    if raw.len() == 0 {
        Signal::Sleep
    } else {
        let last = raw.len() - 1;
        let smooth = heikin_ashi(raw);
        if raw[last].close > smooth[last].close {
            Signal::Long
        } else if raw[last].close < smooth[last].low {
            Signal::Short
        } else {
            Signal::Sleep
        }
    }
}

/// On a window whose newest bar is a bar of market data, `exs` never
/// signals `Short`: the synthetic low is the raw low, and no such bar
/// closes below its low.
pub proof fn lemma_exs_never_short_on_market_data(raw: Seq<Candle>)
    requires
        raw.len() > 0,
        raw.last().well_formed(),
    ensures
        exs_signal(raw) != Signal::Short,
{
}

/// The strategy `exs`: a pure function of the window it is given.
pub fn exs(candles: &Vec<Candle>) -> (signal: Signal)
    ensures
        signal == exs_signal(candles@),
{
    if candles.len() == 0 {
        return Signal::Sleep;
    }
    let mut copy: Vec<Candle> = Vec::new();
    let mut i: usize = 0;
    while i < candles.len()
        invariant
            i <= candles@.len(),
            copy@ =~= candles@.take(i as int),
        decreases candles@.len() - i,
    {
        copy.push(candles[i]);
        i += 1;
    }
    assert(candles@.take(candles@.len() as int) =~= candles@);
    let cline = CandleLine::new_from_vec(copy);
    let ha_cline = cline.heikinashi();
    let n = cline.len();
    let raw_last = cline.get(n - 1);
    let ha_last = ha_cline.get(n - 1);
    proof {
        lemma_ha_close_in_range(candles@[n - 1]);
    }
    if raw_last.close() > ha_last.close() {
        Signal::Long
    } else if raw_last.close() < ha_last.low() {
        Signal::Short
    } else {
        Signal::Sleep
    }
}

/// The mean of a series of amounts, or nothing when the series is empty.
pub fn avg(data: &Vec<i64>) -> (mean: Option<i64>)
    ensures
        data@.len() == 0 ==> mean.is_none(),
        data@.len() > 0 ==> mean == Some((seq_sum(data@) / (data@.len() as int)) as i64),
{
    let n = data.len();
    if n == 0 {
        return None;
    }
    let total = sum_range(data, 0, n);
    assert(data@.subrange(0, n as int) =~= data@);
    proof {
        lemma_mean_in_range(total as int, n as int);
    }
    Some(div_floor(total, n as i128) as i64)
}

/// Whether series `a` has just crossed above series `b`: its newest value
/// lies strictly above that of `b`, and the one before strictly below. A
/// tie at either position is no crossing. Only the last two values of each
/// series are read.
pub fn cross_over(a: Vec<i64>, b: Vec<i64>) -> (crossed: bool)
    requires
        a@.len() >= 2,
        b@.len() >= 2,
    ensures
        crossed == (a@[a@.len() - 1] > b@[b@.len() - 1] && a@[a@.len() - 2] < b@[b@.len()
            - 2]),
{
    a[a.len() - 1] > b[b.len() - 1] && a[a.len() - 2] < b[b.len() - 2]
}

/// The first `n` values of the seeded moving average. The first
/// `window - 1` values are the raw ones. Each later value is the mean of the
/// raw value at its position and the `window - 1` averaged values before it,
/// so every value feeds the ones that follow.
pub open spec fn seeded_average(data: Seq<i64>, window: int, n: int) -> Seq<i64>
    decreases n,
{
    if n <= 0 {
        Seq::empty()
    } else {
        let before = seeded_average(data, window, n - 1);
        let i = n - 1;
        let value = if i < window - 1 {
            data[i] as int
        } else {
            (seq_sum(before.subrange(i + 1 - window, i)) + data[i]) / window
        };
        before.push(value as i64)
    }
}

/// The seeded moving average of a series over a window of at least one,
/// of equal length; see [`seeded_average`].
pub fn moving_average(data: Vec<i64>, window: usize) -> (result: Vec<i64>)
    requires
        window >= 1,
    ensures
        result@ == seeded_average(data@, window as int, data@.len() as int),
        result@.len() == data@.len(),
{
    let mut result: Vec<i64> = Vec::new();
    let mut i: usize = 0;
    while i < data.len()
        invariant
            i <= data@.len(),
            window >= 1,
            result@.len() == i,
            result@ == seeded_average(data@, window as int, i as int),
        decreases data@.len() - i,
    {
        if i < window - 1 {
            result.push(data[i]);
        } else {
            let total = sum_range(&result, i + 1 - window, i);
            let with_new: i128 = total + data[i] as i128;
            proof {
                let w = window as int;
                assert((w - 1) * i64::MIN + i64::MIN == w * i64::MIN) by (nonlinear_arith);
                assert((w - 1) * i64::MAX + i64::MAX == w * i64::MAX) by (nonlinear_arith);
                lemma_mean_in_range(with_new as int, w);
                lemma_many_amounts_fit(with_new as int, w);
            }
            result.push(div_floor(with_new, window as i128) as i64);
        }
        i += 1;
    }
    result
}

/// The strategies that a session can name.
#[derive(Debug, Clone, Copy, PartialEq, Eq, Structural)]
pub enum Strategy {
    /// The Heikin-Ashi close and low strategy, [`exs`].
    Exs,
    /// A name that stands for no strategy. It trades nothing, and a caller
    /// can tell it from a strategy that chose to wait.
    Unknown,
}

/// The strategy that a name stands for, whatever its case.
pub open spec fn strategy_named(name: Seq<char>) -> Strategy {
    if lowercase_of(name) == "exs"@ {
        Strategy::Exs
    } else {
        Strategy::Unknown
    }
}

/// What a strategy signals on a window of raw bars; an unknown one always
/// signals `Sleep`.
pub open spec fn strategy_signal(strategy: Strategy, window: Seq<Candle>) -> Signal {
    match strategy {
        Strategy::Exs => exs_signal(window),
        Strategy::Unknown => Signal::Sleep,
    }
}

/// Looks a strategy up by name.
pub fn resolve_strategy(name: &str) -> (strategy: Strategy)
    ensures
        strategy == strategy_named(name@),
{
    let lowered = to_lowercase(name);
    let exs_name = String::from_str("exs");
    if lowered == exs_name {
        Strategy::Exs
    } else {
        Strategy::Unknown
    }
}

/// Runs a resolved strategy on a window of raw bars.
pub fn run_strategy(strategy: Strategy, candles: &Vec<Candle>) -> (signal: Signal)
    ensures
        signal == strategy_signal(strategy, candles@),
{
    match strategy {
        Strategy::Exs => exs(candles),
        Strategy::Unknown => Signal::Sleep,
    }
}

/// Runs the strategy of the given name on a window of raw bars. A name that
/// stands for no strategy gives `Sleep`.
pub fn process(candles: &Vec<Candle>, strategy_name: String) -> (signal: Signal)
    ensures
        signal == strategy_signal(strategy_named(strategy_name@), candles@),
{
    run_strategy(resolve_strategy(strategy_name.as_str()), candles)
}

} // verus!
