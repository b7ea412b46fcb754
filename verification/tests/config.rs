use tradeterm::config::Broker;
use tradeterm::config::Config;
use tradeterm::order::Order;
use tradeterm::order::OrderRespType;
use tradeterm::order::OrderSide;
use tradeterm::order::OrderType;
use tradeterm::order::TimeInForce;

fn broker() -> Broker {
    Broker::new(
        "Binance".to_string(),
        "my-api-key".to_string(),
        "https://api.binance.com/api/v3/".to_string(),
        "wss://stream.binance.com:9443/ws".to_string(),
    )
}

fn config() -> Config {
    Config::new(
        "Def_CFG".to_string(),
        "This is a default config for development purposes".to_string(),
        "BTCUSDT".to_string(),
        "1m".to_string(),
        32,
        "ExS".to_string(),
        broker(),
    )
}

#[test]
fn a_broker_has_its_name_in_upper_case() {
    let b = broker();
    assert_eq!(b.get_name(), "BINANCE");
    assert_eq!(b.get_api_key(), "my-api-key");
    assert_eq!(b.get_rest_api_url(), "https://api.binance.com/api/v3/");
    assert_eq!(b.get_ws_api_url(), "wss://stream.binance.com:9443/ws");
}

#[test]
fn upper_case_reaches_beyond_ascii() {
    let b = Broker::new("straße é".to_string(), String::new(), String::new(), String::new());
    assert_eq!(b.get_name(), "STRASSE É");
}

#[test]
fn a_config_has_name_and_strategy_in_lower_case() {
    let c = config();
    assert_eq!(c.get_name(), "def_cfg");
    assert_eq!(c.get_strategy(), "exs");
    assert_eq!(c.get_description(), "This is a default config for development purposes");
    assert_eq!(c.get_ticker(), "BTCUSDT");
    assert_eq!(c.get_timeframe(), "1m");
    assert_eq!(c.get_window(), 32);
    assert_eq!(c.get_socket_url(), "wss://stream.binance.com:9443/ws");
    assert_eq!(c.get_api_url(), "https://api.binance.com/api/v3/");
    assert_eq!(c.get_broker().get_name(), "BINANCE");
    assert_eq!(c.get_broker().get_api_key(), "my-api-key");
    assert_eq!(c.get_broker().get_ws_api_url(), c.get_socket_url());
    assert_eq!(c.get_broker().get_rest_api_url(), c.get_api_url());
}

#[test]
fn lower_case_reaches_beyond_ascii() {
    let c = Config::new(
        "ÄÖÜ Σ".to_string(),
        "Kept As Given".to_string(),
        "BtcUsdt".to_string(),
        "1M".to_string(),
        0,
        "ÉXS".to_string(),
        broker(),
    );
    assert_eq!(c.get_name(), "äöü σ");
    assert_eq!(c.get_strategy(), "éxs");
    assert_eq!(c.get_description(), "Kept As Given");
    assert_eq!(c.get_ticker(), "BtcUsdt");
    assert_eq!(c.get_timeframe(), "1M");
    assert_eq!(c.get_window(), 0);
}

#[test]
fn an_order_keeps_its_fields() {
    let o = Order::new(
        "BTCUSDT".to_string(),
        OrderSide::BUY,
        OrderType::LIMIT,
        Some(TimeInForce::GTC),
        Some(150_000_000),
        None,
        Some(6_000_000_000_000),
        Some("mine".to_string()),
        None,
        None,
        Some(OrderRespType::FULL),
        Some(5_000),
        1_700_000_000_000,
    );
    assert_eq!(o.symbol, "BTCUSDT");
    assert_eq!(o.side, OrderSide::BUY);
    assert_eq!(o.order_type, OrderType::LIMIT);
    assert_eq!(o.time_in_force, Some(TimeInForce::GTC));
    assert_eq!(o.quantity, Some(150_000_000));
    assert_eq!(o.quote_order_qty, None);
    assert_eq!(o.price, Some(6_000_000_000_000));
    assert_eq!(o.new_client_order_id, Some("mine".to_string()));
    assert_eq!(o.stop_price, None);
    assert_eq!(o.iceberg_qty, None);
    assert_eq!(o.new_order_resp_type, Some(OrderRespType::FULL));
    assert_eq!(o.recv_window, Some(5_000));
    assert_eq!(o.timestamp, 1_700_000_000_000);
}

#[test]
fn order_kinds_are_distinct() {
    assert_ne!(OrderSide::BUY, OrderSide::SELL);
    assert_ne!(OrderType::STOP_LOSS, OrderType::STOP_LOSS_LIMIT);
    assert_ne!(OrderType::TAKE_PROFIT, OrderType::TAKE_PROFIT_LIMIT);
    assert_ne!(OrderType::MARKET, OrderType::LIMIT_MAKER);
    assert_ne!(TimeInForce::IOC, TimeInForce::FOK);
    assert_ne!(TimeInForce::GTC, TimeInForce::GTX);
    assert_ne!(OrderRespType::ACK, OrderRespType::RESULT);
}

#[test]
fn the_records_are_found_under_one_path() {
    let c: tradeterm::types::Candle = tradeterm::candle::Candle::zeros();
    let s: tradeterm::types::Signal = tradeterm::signal::Signal::Sleep;
    let m: tradeterm::types::Market = tradeterm::market::Market::new(0, 0, 1, 0, 0, 0);
    assert_eq!(c.close(), 0);
    assert_eq!(s, tradeterm::types::Signal::Sleep);
    assert!(m.is_well_formed());
}
