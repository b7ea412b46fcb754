//! The exchange's wire formats: turning received text into bars and
//! updates, and writing the requests that ask for them.
//!
//! A bar's numeric fields may arrive as JSON numbers or as JSON strings that
//! hold a decimal number. A bar with a field that is absent or unreadable,
//! or that breaks the rules of market data, is refused with its
//! [`DataError`]; nothing is ever replaced by zero.

use vstd::prelude::*;
use crate::candle::candle_fault;
use crate::candle::BarUpdate;
use crate::candle::Candle;
use crate::candle::DataError;
use crate::config::Config;
use crate::decimal::decimal_value;
use crate::decimal::parse_decimal;
use crate::json::json_items;
use crate::json::json_items_of;
use crate::json::json_members;
use crate::json::json_members_of;
use crate::json::json_quote;
use crate::json::json_quoted;
use crate::json::json_text;
use crate::json::json_text_of;
use crate::json::json_u64;
use crate::json::json_u64_of;
use crate::json::pairs_of;
use crate::json::texts_of;
use crate::text::lowercase_of;
use crate::text::to_lowercase;
use crate::text::to_uppercase;
use crate::text::uppercase_of;

verus! {

/// What a [`RawBar`] holds.
pub struct RawBarView {
    pub open_time: Option<u64>,
    pub open: Option<Seq<char>>,
    pub high: Option<Seq<char>>,
    pub low: Option<Seq<char>>,
    pub close: Option<Seq<char>>,
    pub volume: Option<Seq<char>>,
}

/// A bar as a source hands it over: the opening time, and the five numeric
/// fields as the text that writes them. A field that the source left out
/// is absent.
#[derive(Debug, Clone)]
pub struct RawBar {
    pub open_time: Option<u64>,
    pub open: Option<String>,
    pub high: Option<String>,
    pub low: Option<String>,
    pub close: Option<String>,
    pub volume: Option<String>,
}

/// The characters of a field, if it is there.
pub open spec fn text_view(field: Option<String>) -> Option<Seq<char>> {
    match field {
        Some(s) => Some(s@),
        None => None,
    }
}

impl View for RawBar {
    type V = RawBarView;

    open spec fn view(&self) -> RawBarView {
        RawBarView {
            open_time: self.open_time,
            open: text_view(self.open),
            high: text_view(self.high),
            low: text_view(self.low),
            close: text_view(self.close),
            volume: text_view(self.volume),
        }
    }
}

/// The amount that a field writes, if the field is there and writes one.
pub open spec fn field_amount(field: Option<Seq<char>>) -> Option<i64> {
    match field {
        Some(text) => decimal_value(text),
        None => None,
    }
}

/// The bar that a raw bar stands for. A field that is absent or writes no
/// amount makes it malformed; after that the rules of market data decide.
pub open spec fn bar_of(raw: RawBarView) -> Result<Candle, DataError> {
    if raw.open_time.is_none() || field_amount(raw.open).is_none() || field_amount(
        raw.high,
    ).is_none() || field_amount(raw.low).is_none() || field_amount(raw.close).is_none()
        || field_amount(raw.volume).is_none() {
        Err(DataError::Malformed)
    } else {
        let open = field_amount(raw.open).unwrap();
        let high = field_amount(raw.high).unwrap();
        let low = field_amount(raw.low).unwrap();
        let close = field_amount(raw.close).unwrap();
        let volume = field_amount(raw.volume).unwrap();
        match candle_fault(open as int, high as int, low as int, close as int, volume as int) {
            Some(e) => Err(e),
            None => Ok(
                Candle { timestamp: raw.open_time.unwrap(), open, high, low, close, volume },
            ),
        }
    }
}

/// The bars that the first `n` raw bars stand for, or the error of the
/// first one that is refused.
pub open spec fn bars_of(raws: Seq<RawBarView>, n: int) -> Result<Seq<Candle>, DataError>
    decreases n,
{
    if n <= 0 {
        Ok(Seq::empty())
    } else {
        match bars_of(raws, n - 1) {
            Err(e) => Err(e),
            Ok(done) => match bar_of(raws[n - 1]) {
                Err(e) => Err(e),
                Ok(c) => Ok(done.push(c)),
            },
        }
    }
}

fn read_amount(field: &Option<String>) -> (r: Option<i64>)
    ensures
        r == field_amount(text_view(*field)),
{
    match field {
        Some(text) => parse_decimal(text.as_str()),
        None => None,
    }
}

/// Reads a raw bar; see [`bar_of`].
pub fn bar_from_raw(raw: &RawBar) -> (r: Result<Candle, DataError>)
    ensures
        r == bar_of(raw@),
        r is Ok ==> r->Ok_0.well_formed(),
{
    let open = read_amount(&raw.open);
    let high = read_amount(&raw.high);
    let low = read_amount(&raw.low);
    let close = read_amount(&raw.close);
    let volume = read_amount(&raw.volume);
    match (raw.open_time, open, high, low, close, volume) {
        (Some(t), Some(o), Some(h), Some(l), Some(c), Some(v)) => Candle::validated(
            t,
            o,
            h,
            l,
            c,
            v,
        ),
        _ => Err(DataError::Malformed),
    }
}

/// Whether a vector holds what a fallible reading of bars comes to.
pub open spec fn same_bars(
    got: Result<Vec<Candle>, DataError>,
    want: Result<Seq<Candle>, DataError>,
) -> bool {
    match (got, want) {
        (Ok(v), Ok(s)) => v@ == s,
        (Err(e), Err(f)) => e == f,
        _ => false,
    }
}

/// What each raw bar of a sequence holds.
pub open spec fn raw_views(raws: Seq<RawBar>) -> Seq<RawBarView> {
    raws.map_values(|r: RawBar| r@)
}

/// Reads raw bars in order and stops at the first that is refused.
pub fn bars_from_raw(raws: &Vec<RawBar>) -> (r: Result<Vec<Candle>, DataError>)
    ensures
        same_bars(r, bars_of(raw_views(raws@), raws@.len() as int)),
{
    let mut out: Vec<Candle> = Vec::new();
    let mut i: usize = 0;
    while i < raws.len()
        invariant
            i <= raws@.len(),
            bars_of(raw_views(raws@), i as int) == Ok::<Seq<Candle>, DataError>(out@),
        decreases raws@.len() - i,
    {
        match bar_from_raw(&raws[i]) {
            Err(e) => {
                proof {
                    lemma_bars_error_stays(raw_views(raws@), i + 1, raws@.len() as int);
                }
                return Err(e);
            },
            Ok(c) => {
                out.push(c);
            },
        }
        i += 1;
    }
    Ok(out)
}

/// Once a raw bar is refused, every longer reading fails with that error.
pub proof fn lemma_bars_error_stays(raws: Seq<RawBarView>, m: int, n: int)
    requires
        m <= n,
        bars_of(raws, m) is Err,
    ensures
        bars_of(raws, n) == bars_of(raws, m),
    decreases n - m,
{
    if m < n {
        lemma_bars_error_stays(raws, m, n - 1);
    }
}

/// What [`BarCells`] holds.
pub struct BarCellsView {
    pub open_time: Option<Seq<char>>,
    pub open: Option<Seq<char>>,
    pub high: Option<Seq<char>>,
    pub low: Option<Seq<char>>,
    pub close: Option<Seq<char>>,
    pub volume: Option<Seq<char>>,
}

/// The cells of one bar, picked out of a row or an object by the field
/// that each fills, and still the JSON text that the source wrote. A cell
/// that the source left out is absent.
#[derive(Debug, Clone)]
pub struct BarCells {
    pub open_time: Option<String>,
    pub open: Option<String>,
    pub high: Option<String>,
    pub low: Option<String>,
    pub close: Option<String>,
    pub volume: Option<String>,
}

impl View for BarCells {
    type V = BarCellsView;

    open spec fn view(&self) -> BarCellsView {
        BarCellsView {
            open_time: text_view(self.open_time),
            open: text_view(self.open),
            high: text_view(self.high),
            low: text_view(self.low),
            close: text_view(self.close),
            volume: text_view(self.volume),
        }
    }
}

/// The cell at a position of a row, if the row reaches that far.
pub open spec fn cell_at(cells: Seq<Seq<char>>, at: int) -> Option<Seq<char>> {
    if 0 <= at < cells.len() {
        Some(cells[at])
    } else {
        None
    }
}

/// The layout of one row of a table of bars: the first six cells are the
/// opening time, open, high, low, close and volume, in that order. Cells
/// after the sixth are not read.
pub open spec fn kline_cells_of(cells: Seq<Seq<char>>) -> BarCellsView {
    BarCellsView {
        open_time: cell_at(cells, 0),
        open: cell_at(cells, 1),
        high: cell_at(cells, 2),
        low: cell_at(cells, 3),
        close: cell_at(cells, 4),
        volume: cell_at(cells, 5),
    }
}

fn pick_cell(cells: &Vec<String>, at: usize) -> (r: Option<String>)
    ensures
        text_view(r) == cell_at(texts_of(cells@), at as int),
{
    if at < cells.len() {
        Some(cells[at].clone())
    } else {
        None
    }
}

/// Picks the cells of a bar out of one row of a table of bars; see
/// [`kline_cells_of`].
pub fn kline_cells(cells: &Vec<String>) -> (picked: BarCells)
    ensures
        picked@ == kline_cells_of(texts_of(cells@)),
{
    BarCells {
        open_time: pick_cell(cells, 0),
        open: pick_cell(cells, 1),
        high: pick_cell(cells, 2),
        low: pick_cell(cells, 3),
        close: pick_cell(cells, 4),
        volume: pick_cell(cells, 5),
    }
}

/// The value of the first member under a key, if there is one.
pub open spec fn member_of(members: Seq<(Seq<char>, Seq<char>)>, key: Seq<char>) -> Option<
    Seq<char>,
>
    decreases members.len(),
{
    if members.len() == 0 {
        None
    } else if members[0].0 == key {
        Some(members[0].1)
    } else {
        member_of(members.drop_first(), key)
    }
}

/// Looks a member up by its key; see [`member_of`].
pub fn find_member(members: &Vec<(String, String)>, key: &str) -> (r: Option<String>)
    ensures
        text_view(r) == member_of(pairs_of(members@), key@),
{
    let wanted = String::from_str(key);
    let mut i: usize = 0;
    assert(pairs_of(members@).skip(0) =~= pairs_of(members@));
    while i < members.len()
        invariant
            i <= members@.len(),
            wanted@ == key@,
            member_of(pairs_of(members@), key@) == member_of(
                pairs_of(members@).skip(i as int),
                key@,
            ),
        decreases members@.len() - i,
    {
        let ghost rest = pairs_of(members@).skip(i as int);
        assert(rest[0] == (members@[i as int].0@, members@[i as int].1@));
        assert(rest.drop_first() =~= pairs_of(members@).skip(i + 1));
        if members[i].0 == wanted {
            return Some(members[i].1.clone());
        }
        i += 1;
    }
    None
}

/// The layout of a bar object of the stream: the opening time stands
/// under the key `t`, open, high, low, close and volume under `o`, `h`,
/// `l`, `c` and `v`.
pub open spec fn stream_cells_of(bar: Seq<(Seq<char>, Seq<char>)>) -> BarCellsView {
    BarCellsView {
        open_time: member_of(bar, "t"@),
        open: member_of(bar, "o"@),
        high: member_of(bar, "h"@),
        low: member_of(bar, "l"@),
        close: member_of(bar, "c"@),
        volume: member_of(bar, "v"@),
    }
}

/// Picks the cells of a bar out of a bar object of the stream; see
/// [`stream_cells_of`].
pub fn stream_cells(bar: &Vec<(String, String)>) -> (picked: BarCells)
    ensures
        picked@ == stream_cells_of(pairs_of(bar@)),
{
    BarCells {
        open_time: find_member(bar, "t"),
        open: find_member(bar, "o"),
        high: find_member(bar, "h"),
        low: find_member(bar, "l"),
        close: find_member(bar, "c"),
        volume: find_member(bar, "v"),
    }
}

/// Whether a bar object says that its interval has ended: its member `x`
/// is the JSON word `true`. Any other value, and a bar without the member,
/// leaves the bar forming.
pub open spec fn stream_bar_closed(bar: Seq<(Seq<char>, Seq<char>)>) -> bool {
    member_of(bar, "x"@) == Some("true"@)
}

/// Tests whether a bar object says that its interval has ended; see
/// [`stream_bar_closed`].
pub fn stream_closed(bar: &Vec<(String, String)>) -> (closed: bool)
    ensures
        closed == stream_bar_closed(pairs_of(bar@)),
{
    match find_member(bar, "x") {
        Some(cell) => cell == String::from_str("true"),
        None => false,
    }
}

/// The text that writes a numeric field: the content of a JSON string, or
/// else the JSON text of the cell itself, which for a JSON number is that
/// number as `serde_json` writes it, digits with or without an exponent.
pub open spec fn numeric_text(cell: Seq<char>) -> Seq<char> {
    match json_text_of(cell) {
        Some(content) => content,
        None => cell,
    }
}

/// The numeric field that a cell writes, if the cell is there.
pub open spec fn cell_numeric(cell: Option<Seq<char>>) -> Option<Seq<char>> {
    match cell {
        Some(text) => Some(numeric_text(text)),
        None => None,
    }
}

/// The raw bar that the cells of a bar write: the opening time is a JSON
/// number that is a `u64`, the other five are numeric fields.
pub open spec fn raw_bar_of(cells: BarCellsView) -> RawBarView {
    RawBarView {
        open_time: match cells.open_time {
            Some(text) => json_u64_of(text),
            None => None,
        },
        open: cell_numeric(cells.open),
        high: cell_numeric(cells.high),
        low: cell_numeric(cells.low),
        close: cell_numeric(cells.close),
        volume: cell_numeric(cells.volume),
    }
}

fn read_numeric(cell: &Option<String>) -> (r: Option<String>)
    ensures
        text_view(r) == cell_numeric(text_view(*cell)),
{
    match cell {
        Some(text) => match json_text(text.as_str()) {
            Some(content) => Some(content),
            None => Some(text.clone()),
        },
        None => None,
    }
}

fn read_cells(cells: &BarCells) -> (raw: RawBar)
    ensures
        raw@ == raw_bar_of(cells@),
{
    let open_time = match &cells.open_time {
        Some(text) => json_u64(text.as_str()),
        None => None,
    };
    RawBar {
        open_time,
        open: read_numeric(&cells.open),
        high: read_numeric(&cells.high),
        low: read_numeric(&cells.low),
        close: read_numeric(&cells.close),
        volume: read_numeric(&cells.volume),
    }
}

/// The raw bar that one row of a table of bars writes. A row that is no
/// JSON array has no field at all.
pub open spec fn raw_kline_of(row: Seq<char>) -> RawBarView {
    match json_items_of(row) {
        None => RawBarView {
            open_time: None,
            open: None,
            high: None,
            low: None,
            close: None,
            volume: None,
        },
        Some(cells) => raw_bar_of(kline_cells_of(cells)),
    }
}

fn read_kline_row(row: &String) -> (raw: RawBar)
    ensures
        raw@ == raw_kline_of(row@),
{
    match json_items(row.as_str()) {
        None => RawBar {
            open_time: None,
            open: None,
            high: None,
            low: None,
            close: None,
            volume: None,
        },
        Some(cells) => read_cells(&kline_cells(&cells)),
    }
}

/// The bars that a table of bars writes: a JSON array of rows, read in
/// order. A text that is no JSON array is malformed.
pub open spec fn klines_of(text: Seq<char>) -> Result<Seq<Candle>, DataError> {
    match json_items_of(text) {
        None => Err(DataError::Malformed),
        Some(rows) => bars_of(
            rows.map_values(|row: Seq<char>| raw_kline_of(row)),
            rows.len() as int,
        ),
    }
}

/// Reads the bars of a table of bars as an exchange answers a request for
/// history; see [`klines_of`].
pub fn parse_klines(text: &str) -> (r: Result<Vec<Candle>, DataError>)
    ensures
        same_bars(r, klines_of(text@)),
{
    match json_items(text) {
        None => Err(DataError::Malformed),
        Some(rows) => {
            let mut raws: Vec<RawBar> = Vec::new();
            let mut i: usize = 0;
            while i < rows.len()
                invariant
                    i <= rows@.len(),
                    raws@.len() == i,
                    forall|k: int| 0 <= k < i ==> (#[trigger] raws@[k])@ == raw_kline_of(rows@[k]@),
                decreases rows@.len() - i,
            {
                raws.push(read_kline_row(&rows[i]));
                i += 1;
            }
            assert(raw_views(raws@) =~= texts_of(rows@).map_values(
                |row: Seq<char>| raw_kline_of(row),
            ));
            bars_from_raw(&raws)
        },
    }
}

/// What one received frame of a stream comes to.
#[derive(Debug, Clone, Copy, PartialEq, Eq, Structural)]
pub enum StreamMessage {
    /// A bar event: the update to take in.
    Update(BarUpdate),
    /// A JSON object that reports no event, such as the answer to a
    /// subscription.
    Ignored,
    /// Text that is no JSON object, or an event whose bar is refused.
    Rejected(DataError),
}

/// What a raw bar of the stream comes to: refused with its error, or else
/// an append when its interval has ended and a replacement when not.
pub open spec fn update_of(raw: RawBarView, closed: bool) -> StreamMessage {
    match bar_of(raw) {
        Err(e) => StreamMessage::Rejected(e),
        Ok(c) => if closed {
            StreamMessage::Update(BarUpdate::ClosedBar(c))
        } else {
            StreamMessage::Update(BarUpdate::FormingBar(c))
        },
    }
}

/// Turns a raw bar of the stream and its closed flag into the update to
/// take in; see [`update_of`].
pub fn stream_update(raw: &RawBar, closed: bool) -> (message: StreamMessage)
    ensures
        message == update_of(raw@, closed),
{
    match bar_from_raw(raw) {
        Err(e) => StreamMessage::Rejected(e),
        Ok(c) => if closed {
            StreamMessage::Update(BarUpdate::ClosedBar(c))
        } else {
            StreamMessage::Update(BarUpdate::FormingBar(c))
        },
    }
}

/// What a frame of the bar stream comes to. A frame is an event when it is
/// a JSON object with a member `e`; its bar is the object under `k`.
pub open spec fn stream_message_of(text: Seq<char>) -> StreamMessage {
    match json_members_of(text) {
        None => StreamMessage::Rejected(DataError::Malformed),
        Some(frame) => if member_of(frame, "e"@).is_none() {
            StreamMessage::Ignored
        } else {
            match member_of(frame, "k"@) {
                None => StreamMessage::Rejected(DataError::Malformed),
                Some(bar_text) => match json_members_of(bar_text) {
                    None => StreamMessage::Rejected(DataError::Malformed),
                    Some(bar) => update_of(
                        raw_bar_of(stream_cells_of(bar)),
                        stream_bar_closed(bar),
                    ),
                },
            }
        },
    }
}

/// Reads one frame of the bar stream; see [`stream_message_of`].
pub fn decode_stream_message(text: &str) -> (message: StreamMessage)
    ensures
        message == stream_message_of(text@),
{
    let frame = match json_members(text) {
        None => {
            return StreamMessage::Rejected(DataError::Malformed);
        },
        Some(frame) => frame,
    };
    if find_member(&frame, "e").is_none() {
        return StreamMessage::Ignored;
    }
    let bar_text = match find_member(&frame, "k") {
        None => {
            return StreamMessage::Rejected(DataError::Malformed);
        },
        Some(bar_text) => bar_text,
    };
    let bar = match json_members(bar_text.as_str()) {
        None => {
            return StreamMessage::Rejected(DataError::Malformed);
        },
        Some(bar) => bar,
    };
    let raw = read_cells(&stream_cells(&bar));
    stream_update(&raw, stream_closed(&bar))
}

/// The name of the bar stream of a session: the ticker in lower case,
/// `@kline_`, and the timeframe.
pub open spec fn stream_name_of(ticker: Seq<char>, timeframe: Seq<char>) -> Seq<char> {
    lowercase_of(ticker) + "@kline_"@ + timeframe
}

/// The request that subscribes to a stream: a JSON object with the members
/// `id`, `method` and `params`, in that order and without blanks.
pub open spec fn subscription_of(stream: Seq<char>) -> Seq<char> {
    "{\"id\":1,\"method\":\"SUBSCRIBE\",\"params\":["@ + json_quoted(stream) + "]}"@
}

/// The request that subscribes a session to its bar stream.
pub fn socket_sub_payload(cfg: &Config) -> (payload: String)
    ensures
        payload@ == subscription_of(stream_name_of(cfg@.ticker, cfg@.timeframe)),
{
    let ticker = cfg.get_ticker();
    let timeframe = cfg.get_timeframe();
    let mut stream = to_lowercase(ticker.as_str());
    stream.append("@kline_");
    stream.append(timeframe.as_str());
    let quoted = json_quote(stream.as_str());
    let mut payload = String::from_str("{\"id\":1,\"method\":\"SUBSCRIBE\",\"params\":[");
    payload.append(quoted.as_str());
    payload.append("]}");
    payload
}

/// The address that answers requests for history: the broker's request
/// endpoint followed by `klines`.
pub fn klines_url(cfg: &Config) -> (url: String)
    ensures
        url@ == cfg@.broker.rest_api_url + "klines"@,
{
    let mut url = cfg.get_api_url();
    url.append("klines");
    url
}

/// The address that answers requests about the exchange: the broker's
/// request endpoint followed by `exchangeInfo`.
pub fn exchange_info_url(cfg: &Config) -> (url: String)
    ensures
        url@ == cfg@.broker.rest_api_url + "exchangeInfo"@,
{
    let mut url = cfg.get_api_url();
    url.append("exchangeInfo");
    url
}

/// The parameters of a request for history, as pairs of name and value:
/// the timeframe as `interval`, five hundred bars as `limit`, and the
/// ticker in upper case as `symbol`.
pub fn klines_query(cfg: &Config) -> (query: Vec<(String, String)>)
    ensures
        pairs_of(query@) == seq![
            ("interval"@, cfg@.timeframe),
            ("limit"@, "500"@),
            ("symbol"@, uppercase_of(cfg@.ticker)),
        ],
{
    let ticker = cfg.get_ticker();
    let mut query: Vec<(String, String)> = Vec::new();
    query.push((String::from_str("interval"), cfg.get_timeframe()));
    query.push((String::from_str("limit"), String::from_str("500")));
    query.push((String::from_str("symbol"), to_uppercase(ticker.as_str())));
    assert(pairs_of(query@) =~= seq![
        ("interval"@, cfg@.timeframe),
        ("limit"@, "500"@),
        ("symbol"@, uppercase_of(cfg@.ticker)),
    ]);
    query
}

/// The parameters of a request about one symbol: the ticker in upper case
/// as `symbol`.
pub fn symbol_query(cfg: &Config) -> (query: Vec<(String, String)>)
    ensures
        pairs_of(query@) == seq![("symbol"@, uppercase_of(cfg@.ticker))],
{
    let ticker = cfg.get_ticker();
    let mut query: Vec<(String, String)> = Vec::new();
    query.push((String::from_str("symbol"), to_uppercase(ticker.as_str())));
    assert(pairs_of(query@) =~= seq![("symbol"@, uppercase_of(cfg@.ticker))]);
    query
}

} // verus!
