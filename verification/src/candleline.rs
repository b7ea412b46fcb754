//! The candle time series.

use vstd::prelude::*;
use crate::candle::BarUpdate;
use crate::candle::Candle;
use crate::candle::EmptySeriesError;

verus! {

/// The bars between two positions of a series: `[start, end)` in
/// chronological order when `start <= end`, and `[end, start)` read backwards,
/// newest first, when `start > end`.
pub open spec fn range_of(s: Seq<Candle>, start: int, end: int) -> Seq<Candle> {
    if start <= end {
        s.subrange(start, end)
    } else {
        Seq::new((start - end) as nat, |i: int| s[start - 1 - i])
    }
}

/// The series after one streamed update: a closed bar is appended; a forming
/// bar takes the place of the newest bar, or opens the series when it is empty.
pub open spec fn ingested(s: Seq<Candle>, update: BarUpdate) -> Seq<Candle> {
    match update {
        BarUpdate::ClosedBar(c) => s.push(c),
        BarUpdate::FormingBar(c) => if s.len() == 0 {
            s.push(c)
        } else {
            s.update(s.len() - 1, c)
        },
    }
}

/// Timestamps never step back from one bar to the next.
pub open spec fn chronological(s: Seq<Candle>) -> bool {
    forall|i: int, j: int| 0 <= i <= j < s.len() ==> s[i].timestamp <= s[j].timestamp
}

/// A series in chronological order stays so when a bar no older than its
/// newest is appended, and when its newest bar is replaced by one no older
/// than the bar before.
pub proof fn lemma_ingest_keeps_chronological(s: Seq<Candle>, update: BarUpdate)
    requires
        chronological(s),
        match update {
            BarUpdate::ClosedBar(c) => s.len() > 0 ==> s.last().timestamp <= c.timestamp,
            BarUpdate::FormingBar(c) => s.len() > 1 ==> s[s.len() - 2].timestamp <= c.timestamp,
        },
    ensures
        chronological(ingested(s, update)),
{
    let t = ingested(s, update);
    assert forall|i: int, j: int| 0 <= i <= j < t.len() implies t[i].timestamp
        <= t[j].timestamp by {
        if j < s.len() - 1 {
            assert(s[i].timestamp <= s[j].timestamp);
        } else if i < j {
            match update {
                BarUpdate::ClosedBar(c) => {
                    if j == s.len() {
                        assert(s[i].timestamp <= s[s.len() - 1].timestamp);
                    } else {
                        assert(s[i].timestamp <= s[j].timestamp);
                    }
                },
                BarUpdate::FormingBar(c) => {
                    if s.len() > 1 {
                        assert(s[i].timestamp <= s[s.len() - 2].timestamp);
                    }
                },
            }
        }
    }
}

/// An ordered series of bars; insertion order is chronological order. Bars
/// are appended at the end, and only the newest can be replaced. Positions
/// count from zero at the oldest bar; there are no negative positions.
#[derive(Debug, Clone)]
pub struct CandleLine {
    data: Vec<Candle>,
}

impl View for CandleLine {
    type V = Seq<Candle>;

    closed spec fn view(&self) -> Seq<Candle> {
        self.data@
    }
}

impl CandleLine {
    /// The empty series.
    pub fn new() -> (line: CandleLine)
        ensures
            line@ == Seq::<Candle>::empty(),
    {
        CandleLine { data: Vec::new() }
    }

    /// The series that holds the given bars in their order.
    pub fn new_from_vec(candles: Vec<Candle>) -> (line: CandleLine)
        ensures
            line@ == candles@,
    {
        CandleLine { data: candles }
    }

    /// The series built by appending the given bars one by one.
    pub fn from_vec(kline: Vec<Candle>) -> (line: CandleLine)
        ensures
            line@ == kline@,
    {
        let mut res = CandleLine::new();
        let mut i: usize = 0;
        while i < kline.len()
            invariant
                i <= kline.len(),
                res@ == kline@.take(i as int),
            decreases kline.len() - i,
        {
            let x = kline[i];
            res.push(
                Candle {
                    timestamp: x.timestamp,
                    open: x.open,
                    high: x.high,
                    low: x.low,
                    close: x.close,
                    volume: x.volume,
                },
            );
            assert(kline@.take(i as int).push(kline@[i as int]) =~= kline@.take(i + 1));
            i += 1;
        }
        assert(kline@.take(kline@.len() as int) =~= kline@);
        res
    }

    /// The number of bars.
    pub fn len(&self) -> (n: usize)
        ensures
            n == self@.len(),
    {
        self.data.len()
    }

    /// The bar at a position.
    pub fn get(&self, index: usize) -> (c: Candle)
        requires
            index < self@.len(),
        ensures
            c == self@[index as int],
    {
        self.data[index]
    }

    /// The bars between two positions; see [`range_of`] for the order. The
    /// series itself stays as it is.
    pub fn get_range(&mut self, start_index: usize, end_index: usize) -> (out: Vec<Candle>)
        requires
            start_index <= old(self)@.len(),
            end_index <= old(self)@.len(),
        ensures
            *final(self) == *old(self),
            out@ == range_of(old(self)@, start_index as int, end_index as int),
    {
        let mut out: Vec<Candle> = Vec::new();
        if start_index > end_index {
            let mut i: usize = start_index;
            while i > end_index
                invariant
                    end_index <= i <= start_index <= self.data@.len(),
                    *self == *old(self),
                    out@.len() == start_index - i,
                    forall|k: int|
                        0 <= k < out@.len() ==> out@[k] == self.data@[start_index - 1 - k],
                decreases i,
            {
                i -= 1;
                out.push(self.data[i]);
            }
            assert(out@ =~= range_of(self@, start_index as int, end_index as int));
        } else {
            let mut i: usize = start_index;
            while i < end_index
                invariant
                    start_index <= i <= end_index <= self.data@.len(),
                    *self == *old(self),
                    out@ =~= self.data@.subrange(start_index as int, i as int),
                decreases end_index - i,
            {
                out.push(self.data[i]);
                i += 1;
            }
        }
        out
    }

    /// The oldest bar, or the error on an empty series.
    pub fn first(&self) -> (r: Result<Candle, EmptySeriesError>)
        ensures
            self@.len() == 0 ==> r == Err::<Candle, EmptySeriesError>(EmptySeriesError),
            self@.len() > 0 ==> r == Ok::<Candle, EmptySeriesError>(self@[0]),
    {
        if self.data.len() == 0 {
            Err(EmptySeriesError)
        } else {
            Ok(self.data[0])
        }
    }

    /// The newest bar, or the error on an empty series.
    pub fn last(&self) -> (r: Result<Candle, EmptySeriesError>)
        ensures
            self@.len() == 0 ==> r == Err::<Candle, EmptySeriesError>(EmptySeriesError),
            self@.len() > 0 ==> r == Ok::<Candle, EmptySeriesError>(self@[self@.len() - 1]),
    {
        if self.data.len() == 0 {
            Err(EmptySeriesError)
        } else {
            Ok(self.data[self.data.len() - 1])
        }
    }

    /// Appends a closed bar.
    pub fn push(&mut self, kline: Candle)
        ensures
            final(self)@ == old(self)@.push(kline),
    {
        self.data.push(kline);
    }

    /// Tests whether the series is in chronological order.
    pub fn is_chronological(&self) -> (ok: bool)
        ensures
            ok == chronological(self@),
    {
        let mut i: usize = 1;
        while i < self.data.len()
            invariant
                1 <= i,
                forall|a: int, b: int|
                    0 <= a <= b < i && b < self.data@.len() ==> self.data@[a].timestamp
                        <= self.data@[b].timestamp,
            decreases self.data@.len() - i,
        {
            if self.data[i - 1].timestamp > self.data[i].timestamp {
                return false;
            }
            i += 1;
        }
        true
    }

    /// Overwrites the newest bar, leaving every other bar and the length as
    /// they are; on an empty series nothing changes and the error is returned.
    pub fn replace_last(&mut self, kline: Candle) -> (r: Result<(), EmptySeriesError>)
        ensures
            old(self)@.len() == 0 ==> r is Err && final(self)@ == old(self)@,
            old(self)@.len() > 0 ==> r is Ok && final(self)@ == old(self)@.update(
                old(self)@.len() - 1,
                kline,
            ),
    {
        let n = self.data.len();
        if n == 0 {
            Err(EmptySeriesError)
        } else {
            self.data.set(n - 1, kline);
            Ok(())
        }
    }

    /// Applies one streamed update in a single step: append on a closed bar,
    /// replace the newest on a forming one. No bar before the newest is touched.
    pub fn ingest(&mut self, update: BarUpdate)
        ensures
            final(self)@ == ingested(old(self)@, update),
            final(self)@.len() > 0,
            final(self)@[final(self)@.len() - 1] == update.candle(),
            forall|i: int| 0 <= i < old(self)@.len() - 1 ==> final(self)@[i] == old(self)@[i],
    {
        match update {
            BarUpdate::ClosedBar(c) => {
                self.data.push(c);
            },
            BarUpdate::FormingBar(c) => {
                let n = self.data.len();
                if n == 0 {
                    self.data.push(c);
                } else {
                    self.data.set(n - 1, c);
                }
            },
        }
    }

    /// Every bar, oldest first.
    pub fn all(&self) -> (out: Vec<Candle>)
        ensures
            out@ == self@,
    {
        let mut out: Vec<Candle> = Vec::new();
        let mut i: usize = 0;
        while i < self.data.len()
            invariant
                i <= self.data@.len(),
                out@ =~= self.data@.take(i as int),
            decreases self.data@.len() - i,
        {
            out.push(self.data[i]);
            i += 1;
        }
        assert(self.data@.take(self.data@.len() as int) =~= self.data@);
        out
    }

    /// The opening times, parallel to the series.
    pub fn timestamps(&self) -> (out: Vec<u64>)
        ensures
            out@ == self@.map_values(|c: Candle| c.timestamp),
    {
        let mut out: Vec<u64> = Vec::new();
        let mut i: usize = 0;
        while i < self.data.len()
            invariant
                i <= self.data@.len(),
                out@.len() == i,
                forall|k: int| 0 <= k < i ==> out@[k] == self.data@[k].timestamp,
            decreases self.data@.len() - i,
        {
            out.push(self.data[i].timestamp);
            i += 1;
        }
        assert(out@ =~= self@.map_values(|c: Candle| c.timestamp));
        out
    }

    /// The opening prices, parallel to the series.
    pub fn opens(&self) -> (out: Vec<i64>)
        ensures
            out@ == self@.map_values(|c: Candle| c.open),
    {
        let mut out: Vec<i64> = Vec::new();
        let mut i: usize = 0;
        while i < self.data.len()
            invariant
                i <= self.data@.len(),
                out@.len() == i,
                forall|k: int| 0 <= k < i ==> out@[k] == self.data@[k].open,
            decreases self.data@.len() - i,
        {
            out.push(self.data[i].open);
            i += 1;
        }
        assert(out@ =~= self@.map_values(|c: Candle| c.open));
        out
    }

    /// The highs, parallel to the series.
    pub fn highs(&self) -> (out: Vec<i64>)
        ensures
            out@ == self@.map_values(|c: Candle| c.high),
    {
        let mut out: Vec<i64> = Vec::new();
        let mut i: usize = 0;
        while i < self.data.len()
            invariant
                i <= self.data@.len(),
                out@.len() == i,
                forall|k: int| 0 <= k < i ==> out@[k] == self.data@[k].high,
            decreases self.data@.len() - i,
        {
            out.push(self.data[i].high);
            i += 1;
        }
        assert(out@ =~= self@.map_values(|c: Candle| c.high));
        out
    }

    /// The lows, parallel to the series.
    pub fn lows(&self) -> (out: Vec<i64>)
        ensures
            out@ == self@.map_values(|c: Candle| c.low),
    {
        let mut out: Vec<i64> = Vec::new();
        let mut i: usize = 0;
        while i < self.data.len()
            invariant
                i <= self.data@.len(),
                out@.len() == i,
                forall|k: int| 0 <= k < i ==> out@[k] == self.data@[k].low,
            decreases self.data@.len() - i,
        {
            out.push(self.data[i].low);
            i += 1;
        }
        assert(out@ =~= self@.map_values(|c: Candle| c.low));
        out
    }

    /// The closing prices, parallel to the series.
    pub fn closes(&self) -> (out: Vec<i64>)
        ensures
            out@ == self@.map_values(|c: Candle| c.close),
    {
        let mut out: Vec<i64> = Vec::new();
        let mut i: usize = 0;
        while i < self.data.len()
            invariant
                i <= self.data@.len(),
                out@.len() == i,
                forall|k: int| 0 <= k < i ==> out@[k] == self.data@[k].close,
            decreases self.data@.len() - i,
        {
            out.push(self.data[i].close);
            i += 1;
        }
        assert(out@ =~= self@.map_values(|c: Candle| c.close));
        out
    }

    /// The volumes, parallel to the series.
    pub fn volumes(&self) -> (out: Vec<i64>)
        ensures
            out@ == self@.map_values(|c: Candle| c.volume),
    {
        let mut out: Vec<i64> = Vec::new();
        let mut i: usize = 0;
        while i < self.data.len()
            invariant
                i <= self.data@.len(),
                out@.len() == i,
                forall|k: int| 0 <= k < i ==> out@[k] == self.data@[k].volume,
            decreases self.data@.len() - i,
        {
            out.push(self.data[i].volume);
            i += 1;
        }
        assert(out@ =~= self@.map_values(|c: Candle| c.volume));
        out
    }
}

} // verus!
