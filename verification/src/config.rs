//! Session configuration.

use vstd::prelude::*;
use crate::text::lowercase_of;
use crate::text::to_lowercase;
use crate::text::to_uppercase;
use crate::text::uppercase_of;

verus! {

/// What a [`Broker`] holds.
pub struct BrokerView {
    pub name: Seq<char>,
    pub api_key: Seq<char>,
    pub rest_api_url: Seq<char>,
    pub ws_api_url: Seq<char>,
}

/// An exchange: its name in upper case, the key and the two endpoints.
#[derive(Debug, Clone)]
pub struct Broker {
    name: String,
    api_key: String,
    rest_api_url: String,
    ws_api_url: String,
}

impl View for Broker {
    type V = BrokerView;

    closed spec fn view(&self) -> BrokerView {
        BrokerView {
            name: self.name@,
            api_key: self.api_key@,
            rest_api_url: self.rest_api_url@,
            ws_api_url: self.ws_api_url@,
        }
    }
}

impl Broker {
    /// A broker whose name is the given one in upper case; the other fields
    /// are kept as given.
    pub fn new(name: String, api_key: String, rest_api_url: String, ws_api_url: String) -> (b:
        Broker)
        ensures
            b@ == (BrokerView {
                name: uppercase_of(name@),
                api_key: api_key@,
                rest_api_url: rest_api_url@,
                ws_api_url: ws_api_url@,
            }),
    {
        Broker { name: to_uppercase(name.as_str()), api_key, rest_api_url, ws_api_url }
    }

    pub fn get_name(&self) -> (r: String)
        ensures
            r@ == self@.name,
    {
        self.name.clone()
    }

    pub fn get_api_key(&self) -> (r: String)
        ensures
            r@ == self@.api_key,
    {
        self.api_key.clone()
    }

    pub fn get_rest_api_url(&self) -> (r: String)
        ensures
            r@ == self@.rest_api_url,
    {
        self.rest_api_url.clone()
    }

    pub fn get_ws_api_url(&self) -> (r: String)
        ensures
            r@ == self@.ws_api_url,
    {
        self.ws_api_url.clone()
    }
}

/// What a [`Config`] holds.
pub struct ConfigView {
    pub name: Seq<char>,
    pub description: Seq<char>,
    pub ticker: Seq<char>,
    pub timeframe: Seq<char>,
    pub window: usize,
    pub strategy: Seq<char>,
    pub broker: BrokerView,
}

/// One session's settings: what to trade, on which timeframe, over how many
/// trailing bars, by which strategy, and where.
#[derive(Debug, Clone)]
pub struct Config {
    name: String,
    description: String,
    ticker: String,
    timeframe: String,
    window: usize,
    strategy: String,
    broker: Broker,
}

impl View for Config {
    type V = ConfigView;

    closed spec fn view(&self) -> ConfigView {
        ConfigView {
            name: self.name@,
            description: self.description@,
            ticker: self.ticker@,
            timeframe: self.timeframe@,
            window: self.window,
            strategy: self.strategy@,
            broker: self.broker@,
        }
    }
}

impl Config {
    /// A configuration whose name and strategy identifier are the given ones
    /// in lower case; the other fields are kept as given.
    pub fn new(
        name: String,
        description: String,
        ticker: String,
        timeframe: String,
        window: usize,
        strategy: String,
        broker: Broker,
    ) -> (c: Config)
        ensures
            c@ == (ConfigView {
                name: lowercase_of(name@),
                description: description@,
                ticker: ticker@,
                timeframe: timeframe@,
                window,
                strategy: lowercase_of(strategy@),
                broker: broker@,
            }),
    {
        Config {
            name: to_lowercase(name.as_str()),
            description,
            ticker,
            timeframe,
            window,
            strategy: to_lowercase(strategy.as_str()),
            broker,
        }
    }

    pub fn get_name(&self) -> (r: String)
        ensures
            r@ == self@.name,
    {
        self.name.clone()
    }

    pub fn get_description(&self) -> (r: String)
        ensures
            r@ == self@.description,
    {
        self.description.clone()
    }

    pub fn get_ticker(&self) -> (r: String)
        ensures
            r@ == self@.ticker,
    {
        self.ticker.clone()
    }

    pub fn get_timeframe(&self) -> (r: String)
        ensures
            r@ == self@.timeframe,
    {
        self.timeframe.clone()
    }

    pub fn get_window(&self) -> (r: usize)
        ensures
            r == self@.window,
    {
        self.window
    }

    pub fn get_strategy(&self) -> (r: String)
        ensures
            r@ == self@.strategy,
    {
        self.strategy.clone()
    }

    /// The session's broker.
    pub fn get_broker(&self) -> (r: Broker)
        ensures
            r@ == self@.broker,
    {
        Broker {
            name: self.broker.name.clone(),
            api_key: self.broker.api_key.clone(),
            rest_api_url: self.broker.rest_api_url.clone(),
            ws_api_url: self.broker.ws_api_url.clone(),
        }
    }

    /// The streaming endpoint of the session's broker.
    pub fn get_socket_url(&self) -> (r: String)
        ensures
            r@ == self@.broker.ws_api_url,
    {
        self.broker.get_ws_api_url()
    }

    /// The request endpoint of the session's broker.
    pub fn get_api_url(&self) -> (r: String)
        ensures
            r@ == self@.broker.rest_api_url,
    {
        self.broker.get_rest_api_url()
    }
}

} // verus!
