//! The crate's records and containers under one path.

pub use crate::candle::BarUpdate;
pub use crate::candle::Candle;
pub use crate::candle::DataError;
pub use crate::candle::EmptySeriesError;
pub use crate::candleline::CandleLine;
pub use crate::config::Broker;
pub use crate::config::Config;
pub use crate::journal::Event;
pub use crate::journal::Journal;
pub use crate::market::Market;
pub use crate::market::OrderRejected;
pub use crate::order::Order;
pub use crate::order::OrderRespType;
pub use crate::order::OrderSide;
pub use crate::order::OrderType;
pub use crate::order::TimeInForce;
pub use crate::signal::Signal;
pub use crate::stats::Stats;
pub use crate::stats::StatsError;
