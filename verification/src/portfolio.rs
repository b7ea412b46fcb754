//! An all-in, all-out backtest of a finished list of signals.
//!
//! The virtual portfolio starts with a quote balance only. A `Long` turns
//! the whole quote balance into the base asset at the bar's close, a `Short`
//! turns the whole base balance back, and the fee is taken from what each
//! conversion yields. A `Sleep` trades nothing and reports how far the
//! close has moved since the position was entered.

use vstd::prelude::*;
use crate::candle::Candle;
use crate::candleline::CandleLine;
use crate::fixed::div_floor;
use crate::fixed::lemma_div_floor_bounds;
use crate::fixed::lemma_div_floor_monotone;
use crate::fixed::SCALE;
use crate::market::fits_amount;
use crate::market::narrow;
use crate::market::wide_product;
use crate::signal::Signal;

verus! {

/// Why a backtest gave no result.
#[derive(Debug, Clone, Copy, PartialEq, Eq, Structural)]
pub enum BacktestError {
    /// There is not one signal for each bar.
    Misaligned,
    /// The starting balance is below zero.
    InvalidBalance,
    /// The fee rate lies outside `[0, 1)`.
    InvalidFee,
    /// A conversion was due on a bar whose close is not above zero.
    NoPrice,
    /// A balance does not fit the fixed-point range.
    Overflow,
}

/// The virtual portfolio: the two balances, and the direction and close of
/// the last `Long` or `Short`.
#[derive(Debug, Clone, Copy, PartialEq, Eq, Structural)]
pub struct Folio {
    pub base: i64,
    pub quote: i64,
    pub entry_price: i64,
    pub entry_position: Signal,
}

/// The base amount that a quote amount buys at a price, less the fee.
pub open spec fn to_base(quote: int, price: int, keep: int) -> int {
    (((quote * SCALE) / price) * keep) / (SCALE as int)
}

/// The quote amount that a base amount sells for at a price, less the fee.
pub open spec fn to_quote(base: int, price: int, keep: int) -> int {
    (((base * price) / (SCALE as int)) * keep) / (SCALE as int)
}

/// The portfolio after one bar. `keep` is one less the fee rate.
pub open spec fn folio_step(f: Folio, signal: Signal, price: i64, keep: int) -> Result<
    Folio,
    BacktestError,
> {
    match signal {
        Signal::Sleep => Ok(f),
        Signal::Long => if f.quote == 0 {
            Ok(Folio { entry_price: price, entry_position: Signal::Long, ..f })
        } else if price <= 0 {
            Err(BacktestError::NoPrice)
        } else if !fits_amount(to_base(f.quote as int, price as int, keep)) {
            Err(BacktestError::Overflow)
        } else {
            Ok(
                Folio {
                    base: to_base(f.quote as int, price as int, keep) as i64,
                    quote: 0,
                    entry_price: price,
                    entry_position: Signal::Long,
                },
            )
        },
        Signal::Short => if f.base == 0 {
            Ok(Folio { entry_price: price, entry_position: Signal::Short, ..f })
        } else if price <= 0 {
            Err(BacktestError::NoPrice)
        } else if !fits_amount(to_quote(f.base as int, price as int, keep)) {
            Err(BacktestError::Overflow)
        } else {
            Ok(
                Folio {
                    base: 0,
                    quote: to_quote(f.base as int, price as int, keep) as i64,
                    entry_price: price,
                    entry_position: Signal::Short,
                },
            )
        },
    }
}

/// The portfolio after the first `n` bars, or the first error on the way.
pub open spec fn folio_after(
    bars: Seq<Candle>,
    signals: Seq<Signal>,
    start: Folio,
    keep: int,
    n: int,
) -> Result<Folio, BacktestError>
    decreases n,
{
    if n <= 0 {
        Ok(start)
    } else {
        match folio_after(bars, signals, start, keep, n - 1) {
            Err(e) => Err(e),
            Ok(f) => folio_step(f, signals[n - 1], bars[n - 1].close, keep),
        }
    }
}

/// How far, in percent of the entry close, a close has moved in favour of
/// the position; nothing when no position was entered, when the entry close
/// is not above zero, or when the figure is no amount.
pub open spec fn pass_diff(f: Folio, price: i64) -> Option<i64> {
    if f.entry_position == Signal::Sleep || f.entry_price <= 0 {
        None
    } else {
        let moved = if f.entry_position == Signal::Long {
            price - f.entry_price
        } else {
            f.entry_price - price
        };
        let percent = (moved * 100 * SCALE) / (f.entry_price as int);
        if fits_amount(percent) {
            Some(percent as i64)
        } else {
            None
        }
    }
}

/// What a portfolio is worth in the quote asset at the end: its quote
/// balance if it holds one, else its base balance sold at the last close.
pub open spec fn final_worth(f: Folio, bars: Seq<Candle>, keep: int) -> Result<i64, BacktestError> {
    if f.quote != 0 {
        Ok(f.quote)
    } else if f.base == 0 {
        Ok(0i64)
    } else if bars.len() == 0 || bars.last().close <= 0 {
        Err(BacktestError::NoPrice)
    } else if !fits_amount(to_quote(f.base as int, bars.last().close as int, keep)) {
        Err(BacktestError::Overflow)
    } else {
        Ok(to_quote(f.base as int, bars.last().close as int, keep) as i64)
    }
}

/// The result in percent of the starting balance; nothing when that
/// balance is zero or the figure is no amount.
pub open spec fn percent_of(result: i64, start_balance: i64) -> Option<i64> {
    if start_balance <= 0 || !fits_amount((result * 100 * SCALE) / (start_balance as int)) {
        None
    } else {
        Some(((result * 100 * SCALE) / (start_balance as int)) as i64)
    }
}

/// The portfolio that a backtest starts from.
pub open spec fn opening_folio(start_balance: i64) -> Folio {
    Folio { base: 0, quote: start_balance, entry_price: 0, entry_position: Signal::Sleep }
}

/// What a backtest reports: the final worth in the quote asset, that worth
/// in percent of the starting balance, and for each bar the move since
/// entry that a `Sleep` on it reports.
#[derive(Debug, Clone)]
pub struct BacktestOutcome {
    pub result: i64,
    pub percent: Option<i64>,
    pub diffs: Vec<Option<i64>>,
}

/// The move since entry that the bar at position `i` reports: that of a
/// `Sleep`, and nothing for any other signal.
pub open spec fn diff_at(
    bars: Seq<Candle>,
    signals: Seq<Signal>,
    start: Folio,
    keep: int,
    i: int,
) -> Option<i64> {
    match folio_after(bars, signals, start, keep, i) {
        Ok(f) => if signals[i] == Signal::Sleep {
            pass_diff(f, bars[i].close)
        } else {
            None
        },
        Err(_) => None,
    }
}

/// What a backtest comes to, as the contract of [`backtest`] states it.
pub open spec fn backtest_result(
    bars: Seq<Candle>,
    signals: Seq<Signal>,
    start_balance: i64,
    fee: i64,
) -> Result<i64, BacktestError> {
    if signals.len() != bars.len() {
        Err(BacktestError::Misaligned)
    } else if start_balance < 0 {
        Err(BacktestError::InvalidBalance)
    } else if fee < 0 || fee >= SCALE {
        Err(BacktestError::InvalidFee)
    } else {
        match folio_after(
            bars,
            signals,
            opening_folio(start_balance),
            SCALE - fee,
            bars.len() as int,
        ) {
            Err(e) => Err(e),
            Ok(f) => final_worth(f, bars, SCALE - fee),
        }
    }
}

/// Conversions of amounts that are not negative, at a price above zero and
/// with a share kept between nothing and all, give amounts that are not
/// negative.
pub proof fn lemma_conversions_not_negative(amount: int, price: int, keep: int)
    requires
        0 <= amount,
        0 < price,
        0 <= keep <= SCALE,
    ensures
        0 <= (amount * SCALE) / price,
        0 <= to_base(amount, price, keep),
        0 <= (amount * price) / (SCALE as int),
        ((amount * price) / (SCALE as int)) * keep <= amount * price,
        0 <= to_quote(amount, price, keep),
{
    let s = SCALE as int;
    assert(0 <= amount * s) by (nonlinear_arith)
        requires
            0 <= amount,
            s > 0,
    ;
    assert(0 <= amount * price) by (nonlinear_arith)
        requires
            0 <= amount,
            0 < price,
    ;
    assert(0int / price == 0) by (nonlinear_arith)
        requires
            price > 0,
    ;
    assert(0int / s == 0) by (nonlinear_arith)
        requires
            s > 0,
    ;
    lemma_div_floor_monotone(0, amount * s, price);
    lemma_div_floor_monotone(0, amount * price, s);
    let b = (amount * s) / price;
    let q = (amount * price) / s;
    assert(0 <= b * keep) by (nonlinear_arith)
        requires
            0 <= b,
            0 <= keep,
    ;
    assert(0 <= q * keep <= q * s) by (nonlinear_arith)
        requires
            0 <= q,
            0 <= keep <= s,
    ;
    lemma_div_floor_bounds(amount * price, s);
    lemma_div_floor_monotone(0, b * keep, s);
    lemma_div_floor_monotone(0, q * keep, s);
}

fn convert_to_base(quote: i64, price: i64, keep: i64) -> (r: Option<i64>)
    requires
        0 <= quote,
        0 < price,
        0 <= keep <= SCALE,
    ensures
        fits_amount(to_base(quote as int, price as int, keep as int)) ==> r == Some(
            to_base(quote as int, price as int, keep as int) as i64,
        ),
        !fits_amount(to_base(quote as int, price as int, keep as int)) ==> r.is_none(),
        r is Some ==> r->Some_0 >= 0,
{
    let bought = div_floor(wide_product(quote, SCALE), price as i128);
    proof {
        lemma_conversions_not_negative(quote as int, price as int, keep as int);
        let x = quote * SCALE;
        lemma_div_floor_bounds(x, price as int);
        assert(bought <= x) by (nonlinear_arith)
            requires
                bought * price <= x,
                price >= 1,
                bought >= 0,
        ;
        assert(x <= 0x7fff_ffff_ffff_ffff * SCALE) by (nonlinear_arith)
            requires
                x == quote * SCALE,
                quote <= 0x7fff_ffff_ffff_ffff,
        ;
        assert(0 <= bought * keep <= 0x7fff_ffff_ffff_ffff * SCALE * SCALE) by (nonlinear_arith)
            requires
                0 <= bought <= 0x7fff_ffff_ffff_ffff * SCALE,
                0 <= keep <= SCALE,
        ;
    }
    narrow(div_floor(bought * keep as i128, SCALE as i128))
}

fn convert_to_quote(base: i64, price: i64, keep: i64) -> (r: Option<i64>)
    requires
        0 <= base,
        0 < price,
        0 <= keep <= SCALE,
    ensures
        fits_amount(to_quote(base as int, price as int, keep as int)) ==> r == Some(
            to_quote(base as int, price as int, keep as int) as i64,
        ),
        !fits_amount(to_quote(base as int, price as int, keep as int)) ==> r.is_none(),
        r is Some ==> r->Some_0 >= 0,
{
    let gross = div_floor(wide_product(base, price), SCALE as i128);
    proof {
        lemma_conversions_not_negative(base as int, price as int, keep as int);
        assert(0 <= gross * keep) by (nonlinear_arith)
            requires
                0 <= gross,
                0 <= keep,
        ;
    }
    narrow(div_floor(gross * keep as i128, SCALE as i128))
}

fn step(f: Folio, signal: Signal, price: i64, keep: i64) -> (r: Result<Folio, BacktestError>)
    requires
        0 <= f.base,
        0 <= f.quote,
        0 <= keep <= SCALE,
    ensures
        r == folio_step(f, signal, price, keep as int),
        r is Ok ==> 0 <= r->Ok_0.base && 0 <= r->Ok_0.quote,
{
    match signal {
        Signal::Sleep => Ok(f),
        Signal::Long => {
            if f.quote == 0 {
                Ok(Folio { entry_price: price, entry_position: Signal::Long, ..f })
            } else if price <= 0 {
                Err(BacktestError::NoPrice)
            } else {
                match convert_to_base(f.quote, price, keep) {
                    None => Err(BacktestError::Overflow),
                    Some(base) => Ok(
                        Folio {
                            base,
                            quote: 0,
                            entry_price: price,
                            entry_position: Signal::Long,
                        },
                    ),
                }
            }
        },
        Signal::Short => {
            if f.base == 0 {
                Ok(Folio { entry_price: price, entry_position: Signal::Short, ..f })
            } else if price <= 0 {
                Err(BacktestError::NoPrice)
            } else {
                match convert_to_quote(f.base, price, keep) {
                    None => Err(BacktestError::Overflow),
                    Some(quote) => Ok(
                        Folio {
                            base: 0,
                            quote,
                            entry_price: price,
                            entry_position: Signal::Short,
                        },
                    ),
                }
            }
        },
    }
}

fn percent_moved(moved: i128, whole: i64) -> (r: Option<i64>)
    requires
        whole > 0,
        -0x1_0000_0000_0000_0000 <= moved <= 0x1_0000_0000_0000_0000,
    ensures
        fits_amount((moved * 100 * SCALE) / (whole as int)) ==> r == Some(
            ((moved * 100 * SCALE) / (whole as int)) as i64,
        ),
        !fits_amount((moved * 100 * SCALE) / (whole as int)) ==> r.is_none(),
{
    let scaled: i128 = moved * 100 * SCALE as i128;
    let q = div_floor(scaled, whole as i128);
    narrow(q)
}

/// The move since entry that a `Sleep` reports; see [`pass_diff`].
pub fn position_diff(f: &Folio, price: i64) -> (r: Option<i64>)
    ensures
        r == pass_diff(*f, price),
{
    if f.entry_position == Signal::Sleep || f.entry_price <= 0 {
        None
    } else if f.entry_position == Signal::Long {
        percent_moved(price as i128 - f.entry_price as i128, f.entry_price)
    } else {
        percent_moved(f.entry_price as i128 - price as i128, f.entry_price)
    }
}

/// Backtests a list of signals against the closes of a series, one signal
/// for each bar, from a quote balance of `start_balance` and at a fee rate
/// of `fee`. Either the whole run succeeds, or the first error is returned
/// and nothing else.
pub fn backtest(data: &CandleLine, signal: &Vec<Signal>, start_balance: i64, fee: i64) -> (r:
    Result<BacktestOutcome, BacktestError>)
    ensures
        match backtest_result(data@, signal@, start_balance, fee) {
            Err(e) => r == Err::<BacktestOutcome, BacktestError>(e),
            Ok(result) => {
                &&& r is Ok
                &&& r->Ok_0.result == result
                &&& r->Ok_0.percent == percent_of(result, start_balance)
                &&& r->Ok_0.diffs@.len() == data@.len()
                &&& forall|i: int|
                    0 <= i < data@.len() ==> r->Ok_0.diffs@[i] == diff_at(
                        data@,
                        signal@,
                        opening_folio(start_balance),
                        SCALE - fee,
                        i,
                    )
            },
        },
{
    if signal.len() != data.len() {
        return Err(BacktestError::Misaligned);
    }
    if start_balance < 0 {
        return Err(BacktestError::InvalidBalance);
    }
    if fee < 0 || fee >= SCALE {
        return Err(BacktestError::InvalidFee);
    }
    let len = signal.len();
    let keep: i64 = SCALE - fee;
    let ghost start = opening_folio(start_balance);
    let mut folio = Folio {
        base: 0,
        quote: start_balance,
        entry_price: 0,
        entry_position: Signal::Sleep,
    };
    let mut diffs: Vec<Option<i64>> = Vec::new();
    let mut i: usize = 0;
    while i < len
        invariant
            i <= len,
            len == data@.len(),
            len == signal@.len(),
            0 < keep <= SCALE,
            keep == SCALE - fee,
            0 <= start_balance,
            start == opening_folio(start_balance),
            folio_after(data@, signal@, start, keep as int, i as int) == Ok::<
                Folio,
                BacktestError,
            >(folio),
            0 <= folio.base,
            0 <= folio.quote,
            diffs@.len() == i,
            forall|k: int|
                0 <= k < i ==> diffs@[k] == diff_at(data@, signal@, start, keep as int, k),
        decreases len - i,
    {
        let price = data.get(i).close();
        let diff = match signal[i] {
            Signal::Sleep => position_diff(&folio, price),
            _ => None,
        };
        match step(folio, signal[i], price, keep) {
            Err(e) => {
                proof {
                    lemma_folio_error_stays(data@, signal@, start, keep as int, i + 1, len as int);
                }
                return Err(e);
            },
            Ok(next) => {
                folio = next;
            },
        }
        diffs.push(diff);
        i += 1;
    }
    let result = if folio.quote != 0 {
        folio.quote
    } else if folio.base == 0 {
        0
    } else if len == 0 {
        return Err(BacktestError::NoPrice);
    } else {
        let last = data.get(len - 1).close();
        if last <= 0 {
            return Err(BacktestError::NoPrice);
        }
        match convert_to_quote(folio.base, last, keep) {
            None => {
                return Err(BacktestError::Overflow);
            },
            Some(worth) => worth,
        }
    };
    let percent = if start_balance <= 0 {
        None
    } else {
        percent_moved(result as i128, start_balance)
    };
    Ok(BacktestOutcome { result, percent, diffs })
}

/// Once a bar fails, every longer run fails with that error.
pub proof fn lemma_folio_error_stays(
    bars: Seq<Candle>,
    signals: Seq<Signal>,
    start: Folio,
    keep: int,
    m: int,
    n: int,
)
    requires
        m <= n,
        folio_after(bars, signals, start, keep, m) is Err,
    ensures
        folio_after(bars, signals, start, keep, n) == folio_after(bars, signals, start, keep, m),
    decreases n - m,
{
    if m < n {
        lemma_folio_error_stays(bars, signals, start, keep, m, n - 1);
    }
}

} // verus!
