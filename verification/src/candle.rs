//! Price bars.

use vstd::prelude::*;

verus! {

/// Why a bar was refused.
#[derive(Debug, Clone, Copy, PartialEq, Eq, Structural)]
pub enum DataError {
    /// A field is absent, or is not a decimal number that fits the fixed-point range.
    Malformed,
    /// The traded volume is below zero.
    NegativeVolume,
    /// The high lies below the open or the close.
    HighBelowBody,
    /// The low lies above the open or the close.
    LowAboveBody,
}

/// A query for the first or last bar of a series that holds none.
#[derive(Debug, Clone, Copy, PartialEq, Eq, Structural)]
pub struct EmptySeriesError;

/// One OHLCV record for a fixed time interval. Prices and volume are
/// fixed-point amounts; the timestamp is the bar's opening time in
/// milliseconds.
#[derive(Debug, Clone, Copy, PartialEq, Eq, Structural)]
pub struct Candle {
    pub timestamp: u64,
    pub open: i64,
    pub high: i64,
    pub low: i64,
    pub close: i64,
    pub volume: i64,
}

/// An inbound bar from a streaming source, tagged by whether its interval
/// has ended.
#[derive(Debug, Clone, Copy, PartialEq, Eq, Structural)]
pub enum BarUpdate {
    /// The interval is over: the bar joins the series for good.
    ClosedBar(Candle),
    /// The interval is still running: the bar stands in for the one that is forming.
    FormingBar(Candle),
}

impl BarUpdate {
    /// The bar that the update carries.
    pub open spec fn candle(self) -> Candle {
        match self {
            BarUpdate::ClosedBar(c) => c,
            BarUpdate::FormingBar(c) => c,
        }
    }
}

/// The fault, if any, that keeps six raw fields from forming a bar of
/// market data: the first of negative volume, a high below the body, a low
/// above the body.
pub open spec fn candle_fault(open: int, high: int, low: int, close: int, volume: int) -> Option<
    DataError,
> {
    if volume < 0 {
        Some(DataError::NegativeVolume)
    } else if high < open || high < close {
        Some(DataError::HighBelowBody)
    } else if low > open || low > close {
        Some(DataError::LowAboveBody)
    } else {
        None
    }
}

impl Candle {
    /// A bar of market data: the high bounds the body from above, the low
    /// from below, and the volume is not negative. Synthetic bars need not
    /// satisfy this.
    pub open spec fn well_formed(self) -> bool {
        candle_fault(
            self.open as int,
            self.high as int,
            self.low as int,
            self.close as int,
            self.volume as int,
        ).is_none()
    }

    /// Builds a bar from its six fields as they are, without judging them.
    pub fn new(timestamp: u64, open: i64, high: i64, low: i64, close: i64, volume: i64) -> (c:
        Candle)
        ensures
            c == (Candle { timestamp, open, high, low, close, volume }),
    {
        Candle { timestamp, open, high, low, close, volume }
    }

    /// Builds a bar of market data, or says which rule the fields break.
    pub fn validated(
        timestamp: u64,
        open: i64,
        high: i64,
        low: i64,
        close: i64,
        volume: i64,
    ) -> (r: Result<Candle, DataError>)
        ensures
            match candle_fault(open as int, high as int, low as int, close as int, volume as int) {
                Some(e) => r == Err::<Candle, DataError>(e),
                None => r == Ok::<Candle, DataError>(
                    Candle { timestamp, open, high, low, close, volume },
                ),
            },
            r is Ok ==> r->Ok_0.well_formed(),
    {
        if volume < 0 {
            Err(DataError::NegativeVolume)
        } else if high < open || high < close {
            Err(DataError::HighBelowBody)
        } else if low > open || low > close {
            Err(DataError::LowAboveBody)
        } else {
            Ok(Candle { timestamp, open, high, low, close, volume })
        }
    }

    /// The bar whose every field is zero.
    pub fn zeros() -> (c: Candle)
        ensures
            c == (Candle { timestamp: 0, open: 0, high: 0, low: 0, close: 0, volume: 0 }),
            c.well_formed(),
    {
        Candle { timestamp: 0, open: 0, high: 0, low: 0, close: 0, volume: 0 }
    }

    pub fn timestamp(&self) -> (r: u64)
        ensures
            r == self.timestamp,
    {
        self.timestamp
    }

    pub fn open(&self) -> (r: i64)
        ensures
            r == self.open,
    {
        self.open
    }

    pub fn high(&self) -> (r: i64)
        ensures
            r == self.high,
    {
        self.high
    }

    pub fn low(&self) -> (r: i64)
        ensures
            r == self.low,
    {
        self.low
    }

    pub fn close(&self) -> (r: i64)
        ensures
            r == self.close,
    {
        self.close
    }

    pub fn volume(&self) -> (r: i64)
        ensures
            r == self.volume,
    {
        self.volume
    }
}

} // verus!
