use tradeterm::candle::BarUpdate;
use tradeterm::candle::Candle;
use tradeterm::candle::DataError;
use tradeterm::candle::EmptySeriesError;
use tradeterm::candleline::CandleLine;

fn bar(t: u64) -> Candle {
    let p = t as i64;
    Candle::new(t, 10 + p, 20 + p, 5 + p, 15 + p, 100 + p)
}

fn line(n: u64) -> CandleLine {
    CandleLine::new_from_vec((0..n).map(bar).collect())
}

#[test]
fn a_candle_keeps_its_fields() {
    let c = Candle::new(7, 1, 4, -2, 3, 9);
    assert_eq!(c.timestamp(), 7);
    assert_eq!(c.open(), 1);
    assert_eq!(c.high(), 4);
    assert_eq!(c.low(), -2);
    assert_eq!(c.close(), 3);
    assert_eq!(c.volume(), 9);
}

#[test]
fn zeros_is_all_zero() {
    assert_eq!(Candle::zeros(), Candle::new(0, 0, 0, 0, 0, 0));
}

#[test]
fn validated_accepts_market_data() {
    assert_eq!(Candle::validated(1, 10, 12, 9, 11, 0), Ok(Candle::new(1, 10, 12, 9, 11, 0)));
    // a flat bar is fine
    assert_eq!(Candle::validated(1, 5, 5, 5, 5, 3), Ok(Candle::new(1, 5, 5, 5, 5, 3)));
}

#[test]
fn validated_names_the_broken_rule() {
    assert_eq!(Candle::validated(1, 10, 12, 9, 11, -1), Err(DataError::NegativeVolume));
    assert_eq!(Candle::validated(1, 10, 9, 9, 9, 1), Err(DataError::HighBelowBody));
    assert_eq!(Candle::validated(1, 9, 10, 8, 11, 1), Err(DataError::HighBelowBody));
    assert_eq!(Candle::validated(1, 10, 12, 11, 12, 1), Err(DataError::LowAboveBody));
    assert_eq!(Candle::validated(1, 12, 14, 11, 10, 90), Err(DataError::LowAboveBody));
    // the volume is judged first, then the high, then the low
    assert_eq!(Candle::validated(1, 10, 9, 11, 10, -1), Err(DataError::NegativeVolume));
    assert_eq!(Candle::validated(1, 10, 9, 11, 10, 1), Err(DataError::HighBelowBody));
}

#[test]
fn a_new_line_is_empty() {
    let l = CandleLine::new();
    assert_eq!(l.len(), 0);
    assert_eq!(l.all(), Vec::new());
    assert_eq!(l.first(), Err(EmptySeriesError));
    assert_eq!(l.last(), Err(EmptySeriesError));
}

#[test]
fn push_appends_in_order() {
    let mut l = CandleLine::new();
    l.push(bar(3));
    l.push(bar(1));
    l.push(bar(2));
    assert_eq!(l.len(), 3);
    assert_eq!(l.all(), vec![bar(3), bar(1), bar(2)]);
    assert_eq!(l.get(0), bar(3));
    assert_eq!(l.get(2), bar(2));
    assert_eq!(l.first(), Ok(bar(3)));
    assert_eq!(l.last(), Ok(bar(2)));
}

#[test]
fn both_constructors_keep_the_bars() {
    let bars = vec![bar(0), bar(1), bar(2)];
    assert_eq!(CandleLine::new_from_vec(bars.clone()).all(), bars);
    assert_eq!(CandleLine::from_vec(bars.clone()).all(), bars);
    assert_eq!(CandleLine::from_vec(Vec::new()).len(), 0);
}

#[test]
fn a_range_runs_forward() {
    let mut l = line(6);
    assert_eq!(l.get_range(1, 4), vec![bar(1), bar(2), bar(3)]);
    assert_eq!(l.get_range(0, 6), l.all());
    assert_eq!(l.get_range(2, 2), Vec::new());
    assert_eq!(l.get_range(6, 6), Vec::new());
    assert_eq!(l.len(), 6);
}

#[test]
fn an_inverted_range_runs_backward() {
    let mut l = line(6);
    assert_eq!(l.get_range(4, 1), vec![bar(3), bar(2), bar(1)]);
    assert_eq!(l.get_range(6, 0), vec![bar(5), bar(4), bar(3), bar(2), bar(1), bar(0)]);
    assert_eq!(l.get_range(1, 0), vec![bar(0)]);
    // the series itself is not reordered
    assert_eq!(l.all(), line(6).all());
}

#[test]
fn replace_last_overwrites_only_the_newest() {
    let mut l = line(3);
    assert_eq!(l.replace_last(bar(9)), Ok(()));
    assert_eq!(l.all(), vec![bar(0), bar(1), bar(9)]);
    let mut empty = CandleLine::new();
    assert_eq!(empty.replace_last(bar(9)), Err(EmptySeriesError));
    assert_eq!(empty.len(), 0);
}

#[test]
fn ingest_appends_a_closed_bar_and_replaces_a_forming_one() {
    let mut l = line(2);
    l.ingest(BarUpdate::FormingBar(bar(7)));
    assert_eq!(l.all(), vec![bar(0), bar(7)]);
    l.ingest(BarUpdate::FormingBar(bar(8)));
    assert_eq!(l.all(), vec![bar(0), bar(8)]);
    l.ingest(BarUpdate::ClosedBar(bar(9)));
    assert_eq!(l.all(), vec![bar(0), bar(8), bar(9)]);
    l.ingest(BarUpdate::ClosedBar(bar(9)));
    assert_eq!(l.len(), 4);
}

#[test]
fn ingest_on_an_empty_line_opens_it() {
    let mut l = CandleLine::new();
    l.ingest(BarUpdate::FormingBar(bar(4)));
    assert_eq!(l.all(), vec![bar(4)]);
    let mut m = CandleLine::new();
    m.ingest(BarUpdate::ClosedBar(bar(5)));
    assert_eq!(m.all(), vec![bar(5)]);
}

#[test]
fn projections_run_parallel_to_the_series() {
    let l = line(3);
    assert_eq!(l.timestamps(), vec![0, 1, 2]);
    assert_eq!(l.opens(), vec![10, 11, 12]);
    assert_eq!(l.highs(), vec![20, 21, 22]);
    assert_eq!(l.lows(), vec![5, 6, 7]);
    assert_eq!(l.closes(), vec![15, 16, 17]);
    assert_eq!(l.volumes(), vec![100, 101, 102]);
    let empty = CandleLine::new();
    assert_eq!(empty.timestamps(), Vec::<u64>::new());
    assert_eq!(empty.closes(), Vec::<i64>::new());
}

#[test]
fn chronological_order_is_tested() {
    assert!(CandleLine::new().is_chronological());
    assert!(line(1).is_chronological());
    assert!(line(5).is_chronological());
    // equal timestamps do not step back
    assert!(CandleLine::new_from_vec(vec![bar(1), bar(1), bar(2)]).is_chronological());
    assert!(!CandleLine::new_from_vec(vec![bar(1), bar(3), bar(2)]).is_chronological());
    assert!(!CandleLine::new_from_vec(vec![bar(2), bar(1)]).is_chronological());
    let mut l = line(3);
    l.ingest(BarUpdate::FormingBar(bar(1)));
    assert!(l.is_chronological());
    l.ingest(BarUpdate::FormingBar(bar(0)));
    assert!(!l.is_chronological());
}
