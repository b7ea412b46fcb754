//! Performance figures derived from a finished journal.
//!
//! A wallet's worth is its base balance priced in B plus its quote balance.
//! From one event to the next, a rise of the worth is a gain and a fall is
//! a loss. The fee of a tick is what the worth of the previous wallet,
//! marked to the tick's price, lost by the tick's trade. Rates and means are
//! fixed-point amounts like every other figure.

use vstd::prelude::*;
use crate::fixed::div_floor;
use crate::fixed::lemma_div_floor_bounds;
use crate::fixed::SCALE;
use crate::journal::Event;
use crate::journal::Journal;
use crate::market::fits_amount;
use crate::market::narrow;
use crate::market::wide_product;
use crate::market::Market;
use crate::signal::Signal;

verus! {

/// Why no figures could be derived.
#[derive(Debug, Clone, Copy, PartialEq, Eq, Structural)]
pub enum StatsError {
    /// The journal holds no event.
    EmptyJournal,
    /// The first bar's open is not above zero, so no passive return exists.
    NoOpeningPrice,
    /// The first wallet's worth is not above zero, so no active return exists.
    NoOpeningWorth,
    /// A figure does not fit the fixed-point range.
    Overflow,
}

/// The figures of one session.
#[derive(Debug, Clone, Copy, PartialEq, Eq, Structural)]
pub struct Stats {
    /// Buy-and-hold return: last close over first open, less one.
    pub chg_passive: i64,
    /// Return of the simulated wallet: last worth over first worth, less one.
    pub chg_active: i64,
    /// Mean length, in ticks, of the runs of one non-`Sleep` signal.
    pub avg_in_pos: i64,
    /// Mean gain over the ticks that gained.
    pub avg_gain: i64,
    /// Mean loss over the ticks that lost.
    pub avg_loss: i64,
    /// Sum of all gains.
    pub cum_gain: i64,
    /// Sum of all losses.
    pub cum_loss: i64,
    /// Sum of all fees.
    pub cum_fees: i64,
}

/// A wallet's worth in B at a given price of A.
pub open spec fn worth_at(m: Market, ratio: int) -> int {
    (m.currency_a_amount * ratio) / (SCALE as int) + m.currency_b_amount
}

/// A wallet's worth in B at its own price.
pub open spec fn worth(m: Market) -> int {
    worth_at(m, m.ratio_a_to_b as int)
}

/// The three flows of worth that are summed over a journal.
#[derive(Debug, Clone, Copy, PartialEq, Eq, Structural)]
pub enum Flow {
    Gain,
    Loss,
    Fee,
}

/// The flow from one event to the next; never negative.
pub open spec fn flow_term(kind: Flow, before: Event, after: Event) -> int {
    let moved = match kind {
        Flow::Gain => worth(after.market) - worth(before.market),
        Flow::Loss => worth(before.market) - worth(after.market),
        Flow::Fee => worth_at(before.market, after.market.ratio_a_to_b as int) - worth(
            after.market,
        ),
    };
    if moved > 0 {
        moved
    } else {
        0
    }
}

/// The sum of a flow over the first `n` events.
pub open spec fn flow_sum(kind: Flow, j: Seq<Event>, n: int) -> int
    decreases n,
{
    if n <= 1 {
        0
    } else {
        flow_sum(kind, j, n - 1) + flow_term(kind, j[n - 2], j[n - 1])
    }
}

/// The number of steps among the first `n` events on which a flow is above
/// zero.
pub open spec fn flow_count(kind: Flow, j: Seq<Event>, n: int) -> int
    decreases n,
{
    if n <= 1 {
        0
    } else {
        flow_count(kind, j, n - 1) + if flow_term(kind, j[n - 2], j[n - 1]) > 0 {
            1int
        } else {
            0int
        }
    }
}

/// The mean of a flow over the steps on which it is above zero, or zero
/// when there is no such step.
pub open spec fn flow_mean(kind: Flow, j: Seq<Event>) -> int {
    if flow_count(kind, j, j.len() as int) == 0 {
        0
    } else {
        flow_sum(kind, j, j.len() as int) / flow_count(kind, j, j.len() as int)
    }
}

/// Where the scan for runs stands: the signal of the open run (`Sleep`
/// while none has opened), the runs opened, and the ticks spent in runs.
pub struct RunState {
    pub open: Signal,
    pub runs: int,
    pub ticks: int,
}

/// The scan after the first `n` events. A `Long` or `Short` that differs
/// from the open run opens a new one; a repeated signal or a `Sleep`
/// lengthens the open run; a `Sleep` before the first run counts nowhere.
pub open spec fn run_state(j: Seq<Event>, n: int) -> RunState
    decreases n,
{
    if n <= 0 {
        RunState { open: Signal::Sleep, runs: 0, ticks: 0 }
    } else {
        let before = run_state(j, n - 1);
        let s = j[n - 1].signal;
        if s == Signal::Sleep {
            if before.open == Signal::Sleep {
                before
            } else {
                RunState { ticks: before.ticks + 1, ..before }
            }
        } else if s == before.open {
            RunState { ticks: before.ticks + 1, ..before }
        } else {
            RunState { open: s, runs: before.runs + 1, ticks: before.ticks + 1 }
        }
    }
}

/// Mean run length over a journal, or zero when no run ever opened.
pub open spec fn avg_in_pos_value(j: Seq<Event>) -> int {
    let end = run_state(j, j.len() as int);
    if end.runs == 0 {
        0
    } else {
        (end.ticks * SCALE) / end.runs
    }
}

/// Buy-and-hold return over a journal's bars.
pub open spec fn chg_passive_value(j: Seq<Event>) -> int {
    (j.last().candle.close * SCALE) / (j[0].candle.open as int) - SCALE
}

/// Return of the wallet over a journal.
pub open spec fn chg_active_value(j: Seq<Event>) -> int {
    (worth(j.last().market) * SCALE) / worth(j[0].market) - SCALE
}

/// Every figure of a journal is an amount.
pub open spec fn figures_fit(j: Seq<Event>) -> bool {
    &&& fits_amount(chg_passive_value(j))
    &&& fits_amount(chg_active_value(j))
    &&& fits_amount(avg_in_pos_value(j))
    &&& fits_amount(flow_mean(Flow::Gain, j))
    &&& fits_amount(flow_mean(Flow::Loss, j))
    &&& fits_amount(flow_sum(Flow::Gain, j, j.len() as int))
    &&& fits_amount(flow_sum(Flow::Loss, j, j.len() as int))
    &&& fits_amount(flow_sum(Flow::Fee, j, j.len() as int))
}

/// The figures of a journal, or why there are none.
pub open spec fn journal_stats(j: Seq<Event>) -> Result<Stats, StatsError> {
    if j.len() == 0 {
        Err(StatsError::EmptyJournal)
    } else if j[0].candle.open <= 0 {
        Err(StatsError::NoOpeningPrice)
    } else if worth(j[0].market) <= 0 {
        Err(StatsError::NoOpeningWorth)
    } else if !figures_fit(j) {
        Err(StatsError::Overflow)
    } else {
        Ok(
            Stats {
                chg_passive: chg_passive_value(j) as i64,
                chg_active: chg_active_value(j) as i64,
                avg_in_pos: avg_in_pos_value(j) as i64,
                avg_gain: flow_mean(Flow::Gain, j) as i64,
                avg_loss: flow_mean(Flow::Loss, j) as i64,
                cum_gain: flow_sum(Flow::Gain, j, j.len() as int) as i64,
                cum_loss: flow_sum(Flow::Loss, j, j.len() as int) as i64,
                cum_fees: flow_sum(Flow::Fee, j, j.len() as int) as i64,
            },
        )
    }
}

/// A flow never shrinks as more events are counted, and it is never
/// negative.
pub proof fn lemma_flow_sum_grows(kind: Flow, j: Seq<Event>, m: int, n: int)
    requires
        m <= n,
    ensures
        0 <= flow_sum(kind, j, m) <= flow_sum(kind, j, n),
        0 <= flow_count(kind, j, m) <= flow_count(kind, j, n),
        flow_count(kind, j, n) <= if n <= 1 { 0 } else { n - 1 },
        flow_count(kind, j, n) == 0 ==> flow_sum(kind, j, n) == 0,
    decreases n - m, n,
{
    if m < n {
        lemma_flow_sum_grows(kind, j, m, n - 1);
    } else if n > 1 {
        lemma_flow_sum_grows(kind, j, m - 1, n - 1);
    }
}

fn wide_worth_at(m: &Market, ratio: i64) -> (w: i128)
    ensures
        w == worth_at(*m, ratio as int),
        -0x4000_0000_0000_0000_0000_0000_0000_0000 - 0x1_0000_0000_0000_0000 * SCALE <= w * SCALE
            <= 0x4000_0000_0000_0000_0000_0000_0000_0000 + 0x1_0000_0000_0000_0000 * SCALE,
        -0x40_0000_0000_0000_0000_0000_0000 <= w <= 0x40_0000_0000_0000_0000_0000_0000,
{
    let p = wide_product(m.currency_a_amount, ratio);
    let priced = div_floor(p, SCALE as i128);
    proof {
        lemma_div_floor_bounds(p as int, SCALE as int);
        let b = m.currency_b_amount as int;
        assert((priced + b) * SCALE == priced * SCALE + b * SCALE) by (nonlinear_arith);
        assert(-0x8000_0000_0000_0000 * SCALE <= b * SCALE <= 0x8000_0000_0000_0000 * SCALE)
            by (nonlinear_arith)
            requires
                -0x8000_0000_0000_0000 <= b <= 0x8000_0000_0000_0000,
        ;
    }
    priced + m.currency_b_amount as i128
}

fn flow_step(kind: Flow, before: &Event, after: &Event) -> (t: i128)
    ensures
        t == flow_term(kind, *before, *after),
        0 <= t <= 0x80_0000_0000_0000_0000_0000_0000,
{
    let now = wide_worth_at(&after.market, after.market.ratio_a_to_b);
    let moved = match kind {
        Flow::Gain => now - wide_worth_at(&before.market, before.market.ratio_a_to_b),
        Flow::Loss => wide_worth_at(&before.market, before.market.ratio_a_to_b) - now,
        Flow::Fee => wide_worth_at(&before.market, after.market.ratio_a_to_b) - now,
    };
    if moved > 0 {
        moved
    } else {
        0
    }
}

/// The sum of a flow over a journal and the number of steps that carry it,
/// or nothing when the sum is no amount.
fn flow_totals(kind: Flow, journal: &Journal) -> (r: Option<(i64, usize)>)
    ensures
        match r {
            Some((sum, count)) => sum == flow_sum(kind, journal@, journal@.len() as int) && count
                == flow_count(kind, journal@, journal@.len() as int),
            None => !fits_amount(flow_sum(kind, journal@, journal@.len() as int)),
        },
{
    let n = journal.len();
    let mut sum: i64 = 0;
    let mut count: usize = 0;
    let mut i: usize = 1;
    while i < n
        invariant
            1 <= i,
            n == journal@.len(),
            i <= n || i == 1,
            sum == flow_sum(kind, journal@, i as int),
            count == flow_count(kind, journal@, i as int),
            0 <= sum,
            count <= i - 1,
        decreases n - i,
    {
        let before = journal.get(i - 1);
        let after = journal.get(i);
        let t = flow_step(kind, &before, &after);
        proof {
            lemma_flow_sum_grows(kind, journal@, i + 1, n as int);
            lemma_flow_sum_grows(kind, journal@, i as int, i + 1);
        }
        match narrow(sum as i128 + t) {
            None => {
                return None;
            },
            Some(next) => {
                sum = next;
            },
        }
        if t > 0 {
            count = count + 1;
        }
        i += 1;
    }
    Some((sum, count))
}

fn flow_average(sum: i64, count: usize) -> (mean: i64)
    requires
        0 <= sum,
    ensures
        count == 0 ==> mean == 0,
        count > 0 ==> mean == (sum as int) / (count as int),
{
    if count == 0 {
        0
    } else {
        let q = div_floor(sum as i128, count as i128);
        proof {
            lemma_div_floor_bounds(sum as int, count as int);
            crate::fixed::lemma_div_floor_monotone(0, sum as int, count as int);
            assert(0int / (count as int) == 0) by (nonlinear_arith)
                requires
                    count > 0,
            ;
            assert(q <= sum) by (nonlinear_arith)
                requires
                    q * count <= sum,
                    count >= 1,
                    q >= 0,
            ;
        }
        q as i64
    }
}

impl Stats {
    /// Figures that are all zero, before any journal was read.
    pub fn init() -> (s: Stats)
        ensures
            s == (Stats {
                chg_passive: 0,
                chg_active: 0,
                avg_in_pos: 0,
                avg_gain: 0,
                avg_loss: 0,
                cum_gain: 0,
                cum_loss: 0,
                cum_fees: 0,
            }),
    {
        Stats {
            chg_passive: 0,
            chg_active: 0,
            avg_in_pos: 0,
            avg_gain: 0,
            avg_loss: 0,
            cum_gain: 0,
            cum_loss: 0,
            cum_fees: 0,
        }
    }

    /// Buy-and-hold return over a journal with a first open above zero, or
    /// nothing when it is no amount.
    fn calc_chg_p(journal: &Journal) -> (r: Option<i64>)
        requires
            journal@.len() > 0,
            journal@[0].candle.open > 0,
        ensures
            fits_amount(chg_passive_value(journal@)) ==> r == Some(
                chg_passive_value(journal@) as i64,
            ),
            !fits_amount(chg_passive_value(journal@)) ==> r.is_none(),
    {
        let first = journal.get(0);
        let last = journal.get(journal.len() - 1);
        let scaled = wide_product(last.candle.close(), SCALE);
        let grown = div_floor(scaled, first.candle.open() as i128);
        proof {
            let x = last.candle.close * SCALE;
            let d = first.candle.open as int;
            lemma_div_floor_bounds(x, d);
            assert(-0x4000_0000_0000_0000_0000_0000_0000_0000 - 1 <= x / d
                <= 0x4000_0000_0000_0000_0000_0000_0000_0000) by (nonlinear_arith)
                requires
                    d >= 1,
                    (x / d) * d <= x < (x / d) * d + d,
                    -0x4000_0000_0000_0000_0000_0000_0000_0000 <= x
                        <= 0x4000_0000_0000_0000_0000_0000_0000_0000,
            ;
        }
        narrow(grown - SCALE as i128)
    }

    /// Return of the wallet over a journal whose first wallet is worth more
    /// than zero, or nothing when it is no amount.
    fn calc_chg_a(journal: &Journal) -> (r: Option<i64>)
        requires
            journal@.len() > 0,
            worth(journal@[0].market) > 0,
        ensures
            fits_amount(chg_active_value(journal@)) ==> r == Some(
                chg_active_value(journal@) as i64,
            ),
            !fits_amount(chg_active_value(journal@)) ==> r.is_none(),
    {
        let first = journal.get(0);
        let last = journal.get(journal.len() - 1);
        let from = wide_worth_at(&first.market, first.market.ratio_a_to_b);
        let to = wide_worth_at(&last.market, last.market.ratio_a_to_b);
        let grown = div_floor(to * SCALE as i128, from);
        proof {
            let x = to * SCALE;
            let d = from as int;
            lemma_div_floor_bounds(x, d);
            assert(-0x4000_0000_0000_0000_0000_0000_0000_0000 - 0x1_0000_0000_0000_0000 * SCALE
                - 1 <= x / d <= 0x4000_0000_0000_0000_0000_0000_0000_0000
                + 0x1_0000_0000_0000_0000 * SCALE) by (nonlinear_arith)
                requires
                    d >= 1,
                    (x / d) * d <= x < (x / d) * d + d,
                    -0x4000_0000_0000_0000_0000_0000_0000_0000 - 0x1_0000_0000_0000_0000 * SCALE
                        <= x <= 0x4000_0000_0000_0000_0000_0000_0000_0000
                        + 0x1_0000_0000_0000_0000 * SCALE,
            ;
        }
        narrow(grown - SCALE as i128)
    }

    /// Mean run length over a journal, or nothing when it is no amount.
    fn calc_avg_in_pos(journal: &Journal) -> (r: Option<i64>)
        ensures
            fits_amount(avg_in_pos_value(journal@)) ==> r == Some(
                avg_in_pos_value(journal@) as i64,
            ),
            !fits_amount(avg_in_pos_value(journal@)) ==> r.is_none(),
    {
        let n = journal.len();
        let mut open = Signal::Sleep;
        let mut runs: usize = 0;
        let mut ticks: usize = 0;
        let mut i: usize = 0;
        while i < n
            invariant
                i <= n,
                n == journal@.len(),
                run_state(journal@, i as int) == (RunState {
                    open,
                    runs: runs as int,
                    ticks: ticks as int,
                }),
                runs <= ticks <= i,
            decreases n - i,
        {
            let s = journal.get(i).get_signal();
            if s == Signal::Sleep {
                if open != Signal::Sleep {
                    ticks = ticks + 1;
                }
            } else if s == open {
                ticks = ticks + 1;
            } else {
                open = s;
                runs = runs + 1;
                ticks = ticks + 1;
            }
            i += 1;
        }
        if runs == 0 {
            Some(0)
        } else {
            proof {
                assert(0 <= ticks * SCALE <= 0xffff_ffff_ffff_ffff * SCALE) by (nonlinear_arith)
                    requires
                        0 <= ticks <= 0xffff_ffff_ffff_ffff,
                ;
            }
            narrow(div_floor(ticks as i128 * SCALE as i128, runs as i128))
        }
    }

    /// Derives every figure from a finished journal. Either all figures are
    /// set, or none is and the reason is returned.
    pub fn calculate(&mut self, journal: Journal) -> (r: Result<(), StatsError>)
        ensures
            match journal_stats(journal@) {
                Ok(s) => r is Ok && *final(self) == s,
                Err(e) => r == Err::<(), StatsError>(e) && *final(self) == *old(self),
            },
    {
        if journal.len() == 0 {
            return Err(StatsError::EmptyJournal);
        }
        let first = journal.get(0);
        if first.candle.open() <= 0 {
            return Err(StatsError::NoOpeningPrice);
        }
        if wide_worth_at(&first.market, first.market.ratio_a_to_b) <= 0 {
            return Err(StatsError::NoOpeningWorth);
        }
        let chg_passive = Stats::calc_chg_p(&journal);
        let chg_active = Stats::calc_chg_a(&journal);
        let avg_in_pos = Stats::calc_avg_in_pos(&journal);
        let gain = flow_totals(Flow::Gain, &journal);
        let loss = flow_totals(Flow::Loss, &journal);
        let fees = flow_totals(Flow::Fee, &journal);
        proof {
            let n = journal@.len() as int;
            lemma_flow_sum_grows(Flow::Gain, journal@, n, n);
            lemma_flow_sum_grows(Flow::Loss, journal@, n, n);
        }
        match (chg_passive, chg_active, avg_in_pos, gain, loss, fees) {
            (
                Some(chg_passive),
                Some(chg_active),
                Some(avg_in_pos),
                Some((cum_gain, gains)),
                Some((cum_loss, losses)),
                Some((cum_fees, _)),
            ) => {
                self.chg_passive = chg_passive;
                self.chg_active = chg_active;
                self.avg_in_pos = avg_in_pos;
                self.avg_gain = flow_average(cum_gain, gains);
                self.avg_loss = flow_average(cum_loss, losses);
                self.cum_gain = cum_gain;
                self.cum_loss = cum_loss;
                self.cum_fees = cum_fees;
                Ok(())
            },
            _ => Err(StatsError::Overflow),
        }
    }
}

} // verus!
