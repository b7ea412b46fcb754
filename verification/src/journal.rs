//! The replay's audit trail.

use vstd::prelude::*;
use crate::candle::Candle;
use crate::market::Market;
use crate::signal::Signal;

verus! {

/// What one tick of a replay came to: the signal, the wallet after the
/// tick, and the bar that set it off, under that bar's opening time. A
/// snapshot, never changed after it is made.
#[derive(Debug, Clone, Copy, PartialEq, Eq, Structural)]
pub struct Event {
    pub timestamp: u64,
    pub signal: Signal,
    pub market: Market,
    pub candle: Candle,
}

impl Event {
    pub fn new(timestamp: u64, signal: Signal, market: Market, candle: Candle) -> (e: Event)
        ensures
            e == (Event { timestamp, signal, market, candle }),
    {
        Event { timestamp, signal, market, candle }
    }

    pub fn get_timestamp(&self) -> (r: u64)
        ensures
            r == self.timestamp,
    {
        self.timestamp
    }

    pub fn get_signal(&self) -> (r: Signal)
        ensures
            r == self.signal,
    {
        self.signal
    }

    pub fn get_market(&self) -> (r: Market)
        ensures
            r == self.market,
    {
        self.market
    }

    pub fn get_candle(&self) -> (r: Candle)
        ensures
            r == self.candle,
    {
        self.candle
    }
}

/// The ordered log of a session's events. Entries are appended and never
/// changed or removed.
#[derive(Debug, Clone)]
pub struct Journal {
    entries: Vec<Event>,
}

impl View for Journal {
    type V = Seq<Event>;

    closed spec fn view(&self) -> Seq<Event> {
        self.entries@
    }
}

impl Journal {
    /// The empty journal.
    pub fn new() -> (j: Journal)
        ensures
            j@ == Seq::<Event>::empty(),
    {
        Journal { entries: Vec::new() }
    }

    /// Appends an event; every earlier entry stays.
    pub fn put(&mut self, event: Event)
        ensures
            final(self)@ == old(self)@.push(event),
    {
        self.entries.push(event);
    }

    /// The number of entries.
    pub fn len(&self) -> (n: usize)
        ensures
            n == self@.len(),
    {
        self.entries.len()
    }

    /// The entry at a position, counted from the oldest.
    pub fn get(&self, index: usize) -> (e: Event)
        requires
            index < self@.len(),
        ensures
            e == self@[index as int],
    {
        self.entries[index]
    }

    /// Every entry, oldest first.
    pub fn get_all(&self) -> (out: Vec<Event>)
        ensures
            out@ == self@,
    {
        let mut out: Vec<Event> = Vec::new();
        let mut i: usize = 0;
        while i < self.entries.len()
            invariant
                i <= self.entries@.len(),
                out@ =~= self.entries@.take(i as int),
            decreases self.entries@.len() - i,
        {
            out.push(self.entries[i]);
            i += 1;
        }
        assert(self.entries@.take(self.entries@.len() as int) =~= self.entries@);
        out
    }

    /// The entries' timestamps, parallel to the journal.
    pub fn get_timestamps(&self) -> (out: Vec<u64>)
        ensures
            out@ == self@.map_values(|e: Event| e.timestamp),
    {
        let mut out: Vec<u64> = Vec::new();
        let mut i: usize = 0;
        while i < self.entries.len()
            invariant
                i <= self.entries@.len(),
                out@.len() == i,
                forall|k: int| 0 <= k < i ==> out@[k] == self.entries@[k].timestamp,
            decreases self.entries@.len() - i,
        {
            out.push(self.entries[i].get_timestamp());
            i += 1;
        }
        assert(out@ =~= self@.map_values(|e: Event| e.timestamp));
        out
    }

    /// The entries' signals, parallel to the journal.
    pub fn get_signals(&self) -> (out: Vec<Signal>)
        ensures
            out@ == self@.map_values(|e: Event| e.signal),
    {
        let mut out: Vec<Signal> = Vec::new();
        let mut i: usize = 0;
        while i < self.entries.len()
            invariant
                i <= self.entries@.len(),
                out@.len() == i,
                forall|k: int| 0 <= k < i ==> out@[k] == self.entries@[k].signal,
            decreases self.entries@.len() - i,
        {
            out.push(self.entries[i].get_signal());
            i += 1;
        }
        assert(out@ =~= self@.map_values(|e: Event| e.signal));
        out
    }

    /// The entries' bars, parallel to the journal.
    pub fn get_candles(&self) -> (out: Vec<Candle>)
        ensures
            out@ == self@.map_values(|e: Event| e.candle),
    {
        let mut out: Vec<Candle> = Vec::new();
        let mut i: usize = 0;
        while i < self.entries.len()
            invariant
                i <= self.entries@.len(),
                out@.len() == i,
                forall|k: int| 0 <= k < i ==> out@[k] == self.entries@[k].candle,
            decreases self.entries@.len() - i,
        {
            out.push(self.entries[i].get_candle());
            i += 1;
        }
        assert(out@ =~= self@.map_values(|e: Event| e.candle));
        out
    }

    /// The entries' wallets, parallel to the journal.
    pub fn get_markets(&self) -> (out: Vec<Market>)
        ensures
            out@ == self@.map_values(|e: Event| e.market),
    {
        let mut out: Vec<Market> = Vec::new();
        let mut i: usize = 0;
        while i < self.entries.len()
            invariant
                i <= self.entries@.len(),
                out@.len() == i,
                forall|k: int| 0 <= k < i ==> out@[k] == self.entries@[k].market,
            decreases self.entries@.len() - i,
        {
            out.push(self.entries[i].get_market());
            i += 1;
        }
        assert(out@ =~= self@.map_values(|e: Event| e.market));
        out
    }
}

} // verus!
