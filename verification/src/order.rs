//! Orders as an exchange takes them.

use vstd::prelude::*;

verus! {

/// Which way an order trades.
#[allow(clippy::upper_case_acronyms)]
#[derive(Debug, Clone, Copy, PartialEq, Eq, Structural)]
pub enum OrderSide {
    BUY,
    SELL,
}

/// How long an order stays in force: until cancelled, immediate or cancel,
/// fill or kill, or post only.
#[allow(clippy::upper_case_acronyms)]
#[derive(Debug, Clone, Copy, PartialEq, Eq, Structural)]
pub enum TimeInForce {
    GTC,
    IOC,
    FOK,
    GTX,
}

/// The kind of an order.
#[allow(non_camel_case_types)]
#[derive(Debug, Clone, Copy, PartialEq, Eq, Structural)]
pub enum OrderType {
    LIMIT,
    MARKET,
    STOP_LOSS,
    STOP_LOSS_LIMIT,
    TAKE_PROFIT,
    TAKE_PROFIT_LIMIT,
    LIMIT_MAKER,
}

/// How much of an order's fate the exchange reports back.
#[allow(clippy::upper_case_acronyms)]
#[derive(Debug, Clone, Copy, PartialEq, Eq, Structural)]
pub enum OrderRespType {
    ACK,
    RESULT,
    FULL,
}

/// One order: the symbol, side and kind, the optional settings, and the
/// time it was made. Quantities and prices are fixed-point amounts.
#[derive(Debug, Clone)]
pub struct Order {
    pub symbol: String,
    pub side: OrderSide,
    pub order_type: OrderType,
    pub time_in_force: Option<TimeInForce>,
    pub quantity: Option<i64>,
    pub quote_order_qty: Option<i64>,
    pub price: Option<i64>,
    pub new_client_order_id: Option<String>,
    pub stop_price: Option<i64>,
    pub iceberg_qty: Option<i64>,
    pub new_order_resp_type: Option<OrderRespType>,
    pub recv_window: Option<i64>,
    pub timestamp: u64,
}

impl Order {
    /// An order with every field as given.
    pub fn new(
        symbol: String,
        side: OrderSide,
        order_type: OrderType,
        time_in_force: Option<TimeInForce>,
        quantity: Option<i64>,
        quote_order_qty: Option<i64>,
        price: Option<i64>,
        new_client_order_id: Option<String>,
        stop_price: Option<i64>,
        iceberg_qty: Option<i64>,
        new_order_resp_type: Option<OrderRespType>,
        recv_window: Option<i64>,
        timestamp: u64,
    ) -> (order: Order)
        ensures
            order == (Order {
                symbol,
                side,
                order_type,
                time_in_force,
                quantity,
                quote_order_qty,
                price,
                new_client_order_id,
                stop_price,
                iceberg_qty,
                new_order_resp_type,
                recv_window,
                timestamp,
            }),
    {
        Order {
            symbol,
            side,
            order_type,
            time_in_force,
            quantity,
            quote_order_qty,
            price,
            new_client_order_id,
            stop_price,
            iceberg_qty,
            new_order_resp_type,
            recv_window,
            timestamp,
        }
    }
}

} // verus!
