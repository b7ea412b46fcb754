//! The simulated two-asset wallet.

use vstd::prelude::*;
use crate::fixed::div_floor;
use crate::fixed::lemma_div_exact;
use crate::fixed::lemma_div_floor_bounds;
use crate::fixed::lemma_div_floor_monotone;
use crate::fixed::SCALE;
use vstd::arithmetic::div_mod::lemma_fundamental_div_mod;

verus! {

/// Why an order left the wallet untouched.
#[derive(Debug, Clone, Copy, PartialEq, Eq, Structural)]
pub enum OrderRejected {
    /// The wallet itself is not well formed, so nothing can be traded on it.
    InvalidMarket,
    /// The requested amount is below zero.
    NegativeAmount,
    /// The order asks for more than the wallet holds.
    InsufficientFunds,
    /// The balance that would result, or the amount to trade, does not fit
    /// the fixed-point range.
    OutOfRange,
    /// The base balance lies below the minimum transaction.
    BelowMinimum,
}

/// A wallet of a base asset A and a quote asset B, with the price of one A
/// in B and a fee rate. All six fields are fixed-point amounts.
#[derive(Debug, Clone, Copy, PartialEq, Eq, Structural)]
pub struct Market {
    pub currency_a_amount: i64,
    pub currency_b_amount: i64,
    pub ratio_a_to_b: i64,
    pub min_a_transaction: i64,
    pub step_size: i64,
    pub transaction_fee: i64,
}

/// Whether a mathematical integer is an amount.
pub open spec fn fits_amount(v: int) -> bool {
    i64::MIN <= v <= i64::MAX
}

/// What a buy of `amount` A costs in B at the wallet's price.
pub open spec fn buy_cost(m: Market, amount: int) -> int {
    (amount * m.ratio_a_to_b) / (SCALE as int)
}

/// What a buy of `amount` A adds to the base balance: the amount less the fee.
pub open spec fn buy_gain(m: Market, amount: int) -> int {
    (amount * (SCALE - m.transaction_fee)) / (SCALE as int)
}

/// What a sale of `amount` A adds to the quote balance: its price less the fee.
pub open spec fn sell_proceeds(m: Market, amount: int) -> int {
    (((amount * m.ratio_a_to_b) / (SCALE as int)) * (SCALE - m.transaction_fee)) / (SCALE as int)
}

/// Why a buy of `amount` A is refused, if it is.
pub open spec fn buy_rejection(m: Market, amount: int) -> Option<OrderRejected> {
    if !m.well_formed() {
        Some(OrderRejected::InvalidMarket)
    } else if amount < 0 {
        Some(OrderRejected::NegativeAmount)
    } else if amount * m.ratio_a_to_b > m.currency_b_amount * SCALE {
        Some(OrderRejected::InsufficientFunds)
    } else if !fits_amount(m.currency_a_amount + buy_gain(m, amount)) {
        Some(OrderRejected::OutOfRange)
    } else {
        None
    }
}

/// Why a sale of `amount` A is refused, if it is.
pub open spec fn sell_rejection(m: Market, amount: int) -> Option<OrderRejected> {
    if !m.well_formed() {
        Some(OrderRejected::InvalidMarket)
    } else if amount < 0 {
        Some(OrderRejected::NegativeAmount)
    } else if amount > m.currency_a_amount {
        Some(OrderRejected::InsufficientFunds)
    } else if !fits_amount(m.currency_b_amount + sell_proceeds(m, amount)) {
        Some(OrderRejected::OutOfRange)
    } else {
        None
    }
}

/// The wallet after an accepted buy: the fee is taken from the acquired A
/// only, the price is paid in full.
pub open spec fn after_buy(m: Market, amount: int) -> Market {
    Market {
        currency_a_amount: (m.currency_a_amount + buy_gain(m, amount)) as i64,
        currency_b_amount: (m.currency_b_amount - buy_cost(m, amount)) as i64,
        ..m
    }
}

/// The wallet after an accepted sale: the fee is taken from the acquired B
/// only, the A sold leaves in full.
pub open spec fn after_sell(m: Market, amount: int) -> Market {
    Market {
        currency_a_amount: (m.currency_a_amount - amount) as i64,
        currency_b_amount: (m.currency_b_amount + sell_proceeds(m, amount)) as i64,
        ..m
    }
}

/// The base balance priced in B.
pub open spec fn a_in_b_value(m: Market) -> int {
    (m.currency_a_amount * m.ratio_a_to_b) / (SCALE as int)
}

/// The quote balance priced in A; meaningful for a positive price.
pub open spec fn b_in_a_value(m: Market) -> int {
    (m.currency_b_amount * SCALE) / (m.ratio_a_to_b as int)
}

/// The wallet's worth in B, counted in units of `1 / SCALE^2` so that no
/// rounding enters: `balance_a * ratio + balance_b`.
pub open spec fn total_value(m: Market) -> int {
    m.currency_a_amount * m.ratio_a_to_b + m.currency_b_amount * SCALE
}

pub(crate) fn wide_product(a: i64, b: i64) -> (p: i128)
    ensures
        p == a * b,
        -0x4000_0000_0000_0000_0000_0000_0000_0000 <= p,
        p <= 0x4000_0000_0000_0000_0000_0000_0000_0000,
{
    assert(-0x4000_0000_0000_0000_0000_0000_0000_0000 <= a * b
        <= 0x4000_0000_0000_0000_0000_0000_0000_0000) by (nonlinear_arith)
        requires
            -0x8000_0000_0000_0000 <= a <= 0x7fff_ffff_ffff_ffff,
            -0x8000_0000_0000_0000 <= b <= 0x7fff_ffff_ffff_ffff,
    ;
    (a as i128) * (b as i128)
}

pub(crate) fn narrow(v: i128) -> (r: Option<i64>)
    ensures
        fits_amount(v as int) ==> r == Some(v as i64),
        !fits_amount(v as int) ==> r.is_none(),
{
    if v >= i64::MIN as i128 && v <= i64::MAX as i128 {
        Some(v as i64)
    } else {
        None
    }
}

impl Market {
    /// Both balances are at least zero, the price is above zero, the fee
    /// rate lies in `[0, 1)`, and the minimum transaction and step size are
    /// not negative.
    pub open spec fn well_formed(self) -> bool {
        &&& self.currency_a_amount >= 0
        &&& self.currency_b_amount >= 0
        &&& self.ratio_a_to_b > 0
        &&& self.min_a_transaction >= 0
        &&& self.step_size >= 0
        &&& 0 <= self.transaction_fee < SCALE
    }

    /// A wallet with the given balances, price, limits and fee, taken as
    /// they are.
    pub fn new(
        currency_a_amount: i64,
        currency_b_amount: i64,
        ratio_a_to_b: i64,
        min_a_transaction: i64,
        step_size: i64,
        transaction_fee: i64,
    ) -> (m: Market)
        ensures
            m == (Market {
                currency_a_amount,
                currency_b_amount,
                ratio_a_to_b,
                min_a_transaction,
                step_size,
                transaction_fee,
            }),
    {
        Market {
            currency_a_amount,
            currency_b_amount,
            ratio_a_to_b,
            min_a_transaction,
            step_size,
            transaction_fee,
        }
    }

    /// A wallet with the given fields if they make a well-formed one, and
    /// nothing otherwise.
    pub fn checked(
        currency_a_amount: i64,
        currency_b_amount: i64,
        ratio_a_to_b: i64,
        min_a_transaction: i64,
        step_size: i64,
        transaction_fee: i64,
    ) -> (r: Option<Market>)
        ensures
            r is Some <==> (Market {
                currency_a_amount,
                currency_b_amount,
                ratio_a_to_b,
                min_a_transaction,
                step_size,
                transaction_fee,
            }).well_formed(),
            r is Some ==> r->Some_0 == (Market {
                currency_a_amount,
                currency_b_amount,
                ratio_a_to_b,
                min_a_transaction,
                step_size,
                transaction_fee,
            }),
    {
        let m = Market::new(
            currency_a_amount,
            currency_b_amount,
            ratio_a_to_b,
            min_a_transaction,
            step_size,
            transaction_fee,
        );
        if m.is_well_formed() {
            Some(m)
        } else {
            None
        }
    }

    /// Tests [`Market::well_formed`].
    pub fn is_well_formed(&self) -> (ok: bool)
        ensures
            ok == self.well_formed(),
    {
        self.currency_a_amount >= 0 && self.currency_b_amount >= 0 && self.ratio_a_to_b > 0
            && self.min_a_transaction >= 0 && self.step_size >= 0 && self.transaction_fee >= 0
            && self.transaction_fee < SCALE
    }

    pub fn get_a_amount(&self) -> (r: i64)
        ensures
            r == self.currency_a_amount,
    {
        self.currency_a_amount
    }

    pub fn get_b_amount(&self) -> (r: i64)
        ensures
            r == self.currency_b_amount,
    {
        self.currency_b_amount
    }

    /// The price of one A in B.
    pub fn get_ratio(&self) -> (r: i64)
        ensures
            r == self.ratio_a_to_b,
    {
        self.ratio_a_to_b
    }

    pub fn get_fee(&self) -> (r: i64)
        ensures
            r == self.transaction_fee,
    {
        self.transaction_fee
    }

    pub fn get_min_a_transaction(&self) -> (r: i64)
        ensures
            r == self.min_a_transaction,
    {
        self.min_a_transaction
    }

    pub fn get_step_size(&self) -> (r: i64)
        ensures
            r == self.step_size,
    {
        self.step_size
    }

    /// The price of one B in A, derived from the price of A on every call:
    /// `1 / ratio_a_to_b`, or nothing when that price is not positive.
    pub fn ratio_b_to_a(&self) -> (r: Option<i64>)
        ensures
            self.ratio_a_to_b <= 0 ==> r.is_none(),
            self.ratio_a_to_b > 0 ==> r == Some(
                ((SCALE * SCALE) / (self.ratio_a_to_b as int)) as i64,
            ),
    {
        if self.ratio_a_to_b <= 0 {
            return None;
        }
        let one: i128 = wide_product(SCALE, SCALE);
        let q = div_floor(one, self.ratio_a_to_b as i128);
        proof {
            let r = self.ratio_a_to_b as int;
            lemma_div_floor_monotone(SCALE * SCALE, (SCALE * SCALE) * r, r);
            lemma_div_exact(SCALE * SCALE, r);
            lemma_div_floor_monotone(0, SCALE * SCALE, r);
            assert(0int / r == 0) by (nonlinear_arith)
                requires
                    r > 0,
            ;
            assert(SCALE * SCALE <= (SCALE * SCALE) * r) by (nonlinear_arith)
                requires
                    r >= 1,
            ;
        }
        Some(q as i64)
    }

    /// The base balance priced in B at the current price, or nothing when
    /// that value is no amount.
    pub fn a_in_b(&self) -> (r: Option<i64>)
        ensures
            fits_amount(a_in_b_value(*self)) ==> r == Some(a_in_b_value(*self) as i64),
            !fits_amount(a_in_b_value(*self)) ==> r.is_none(),
    {
        let p = wide_product(self.currency_a_amount, self.ratio_a_to_b);
        narrow(div_floor(p, SCALE as i128))
    }

    /// The quote balance priced in A at the current price, or nothing when
    /// the price is not positive or that value is no amount.
    pub fn b_in_a(&self) -> (r: Option<i64>)
        ensures
            self.ratio_a_to_b > 0 && fits_amount(b_in_a_value(*self)) ==> r == Some(
                b_in_a_value(*self) as i64,
            ),
            !(self.ratio_a_to_b > 0 && fits_amount(b_in_a_value(*self))) ==> r.is_none(),
    {
        if self.ratio_a_to_b <= 0 {
            return None;
        }
        let p = wide_product(self.currency_b_amount, SCALE);
        narrow(div_floor(p, self.ratio_a_to_b as i128))
    }

    /// Marks the wallet to a new price. Balances, limits and fee stay. A
    /// price above zero keeps a well-formed wallet well formed.
    pub fn update_ratio(&mut self, ratio: i64)
        ensures
            *final(self) == (Market { ratio_a_to_b: ratio, ..*old(self) }),
            old(self).well_formed() && ratio > 0 ==> final(self).well_formed(),
    {
        self.ratio_a_to_b = ratio;
    }

    /// Sets the fee rate. Balances, price and limits stay. A rate in
    /// `[0, 1)` keeps a well-formed wallet well formed.
    pub fn set_fee(&mut self, fee: i64)
        ensures
            *final(self) == (Market { transaction_fee: fee, ..*old(self) }),
            old(self).well_formed() && 0 <= fee < SCALE ==> final(self).well_formed(),
    {
        self.transaction_fee = fee;
    }

    /// Buys `amount` of A for B. A refused order changes nothing and says why.
    pub fn buy(&mut self, amount: i64) -> (r: Result<(), OrderRejected>)
        ensures
            match buy_rejection(*old(self), amount as int) {
                Some(why) => r == Err::<(), OrderRejected>(why) && *final(self) == *old(self),
                None => r is Ok && *final(self) == after_buy(*old(self), amount as int),
            },
            old(self).well_formed() ==> final(self).well_formed(),
    {
        if !self.is_well_formed() {
            return Err(OrderRejected::InvalidMarket);
        }
        if amount < 0 {
            return Err(OrderRejected::NegativeAmount);
        }
        let price = wide_product(amount, self.ratio_a_to_b);
        let funds = wide_product(self.currency_b_amount, SCALE);
        if price > funds {
            return Err(OrderRejected::InsufficientFunds);
        }
        let cost = div_floor(price, SCALE as i128);
        let keep: i64 = SCALE - self.transaction_fee;
        let gain = div_floor(wide_product(amount, keep), SCALE as i128);
        proof {
            lemma_buy_amounts(*self, amount as int);
        }
        match narrow(self.currency_a_amount as i128 + gain) {
            None => Err(OrderRejected::OutOfRange),
            Some(a) => {
                self.currency_a_amount = a;
                self.currency_b_amount = (self.currency_b_amount as i128 - cost) as i64;
                Ok(())
            },
        }
    }

    /// Sells `amount` of A for B. A refused order changes nothing and says why.
    pub fn sell(&mut self, amount: i64) -> (r: Result<(), OrderRejected>)
        ensures
            match sell_rejection(*old(self), amount as int) {
                Some(why) => r == Err::<(), OrderRejected>(why) && *final(self) == *old(self),
                None => r is Ok && *final(self) == after_sell(*old(self), amount as int),
            },
            old(self).well_formed() ==> final(self).well_formed(),
    {
        if !self.is_well_formed() {
            return Err(OrderRejected::InvalidMarket);
        }
        if amount < 0 {
            return Err(OrderRejected::NegativeAmount);
        }
        if amount > self.currency_a_amount {
            return Err(OrderRejected::InsufficientFunds);
        }
        let gross = div_floor(wide_product(amount, self.ratio_a_to_b), SCALE as i128);
        let keep: i64 = SCALE - self.transaction_fee;
        proof {
            lemma_sell_amounts(*self, amount as int);
            assert(gross * keep <= amount * self.ratio_a_to_b) by (nonlinear_arith)
                requires
                    0 <= gross,
                    gross * SCALE <= amount * self.ratio_a_to_b,
                    0 <= keep <= SCALE,
            ;
            assert(0 <= gross * keep) by (nonlinear_arith)
                requires
                    0 <= gross,
                    0 <= keep,
            ;
        }
        let net = div_floor(gross * (keep as i128), SCALE as i128);
        match narrow(self.currency_b_amount as i128 + net) {
            None => Err(OrderRejected::OutOfRange),
            Some(b) => {
                self.currency_a_amount = self.currency_a_amount - amount;
                self.currency_b_amount = b;
                Ok(())
            },
        }
    }

    /// Places one order: a buy or a sale of the amount it names.
    pub fn place(&mut self, trade: Trade) -> (r: Result<(), OrderRejected>)
        ensures
            match trade_rejection(*old(self), trade) {
                Some(why) => r == Err::<(), OrderRejected>(why) && *final(self) == *old(self),
                None => r is Ok && *final(self) == after_trade(*old(self), trade),
            },
            old(self).well_formed() ==> final(self).well_formed(),
    {
        match trade {
            Trade::Buy(amount) => self.buy(amount),
            Trade::Sell(amount) => self.sell(amount),
        }
    }

    /// The largest whole multiple of the minimum transaction that the quote
    /// balance can pay for, or nothing when the minimum is not positive or
    /// the quote balance cannot be priced in A.
    pub fn max_buy_amount(&self) -> (r: Option<i64>)
        ensures
            self.min_a_transaction > 0 && self.ratio_a_to_b > 0 && fits_amount(
                b_in_a_value(*self),
            ) && b_in_a_value(*self) >= 0 ==> r == Some(
                (self.min_a_transaction * (b_in_a_value(*self) / (self.min_a_transaction as int)))
                    as i64,
            ),
            !(self.min_a_transaction > 0 && self.ratio_a_to_b > 0 && fits_amount(
                b_in_a_value(*self),
            ) && b_in_a_value(*self) >= 0) ==> r.is_none(),
    {
        let floor = self.get_min_a_transaction();
        if floor <= 0 {
            return None;
        }
        match self.b_in_a() {
            None => None,
            Some(afford) => {
                if afford < 0 {
                    return None;
                }
                let steps: i64 = afford / floor;
                proof {
                    lemma_div_floor_bounds(afford as int, floor as int);
                    assert(0 <= steps) by {
                        lemma_div_floor_monotone(0, afford as int, floor as int);
                        assert(0int / (floor as int) == 0) by (nonlinear_arith)
                            requires
                                floor > 0,
                        ;
                    }
                    assert(floor * steps == steps * floor) by (nonlinear_arith);
                    assert(0 <= floor * steps) by (nonlinear_arith)
                        requires
                            0 <= steps,
                            0 < floor,
                    ;
                }
                Some(floor * steps)
            },
        }
    }

    /// Sizes the largest buy that the wallet affords, see
    /// [`Market::max_buy_amount`]. The order is not placed: the wallet stays
    /// as it is.
    pub fn buy_max(&mut self)
        ensures
            *final(self) == *old(self),
    {
        let _t = self.max_buy_amount();
    }

    /// Sells the whole base balance, provided it reaches the minimum
    /// transaction.
    pub fn sell_max(&mut self) -> (r: Result<(), OrderRejected>)
        ensures
            old(self).currency_a_amount < old(self).min_a_transaction ==> r == Err::<
                (),
                OrderRejected,
            >(OrderRejected::BelowMinimum) && *final(self) == *old(self),
            old(self).currency_a_amount >= old(self).min_a_transaction ==> match sell_rejection(
                *old(self),
                old(self).currency_a_amount as int,
            ) {
                Some(why) => r == Err::<(), OrderRejected>(why) && *final(self) == *old(self),
                None => r is Ok && *final(self) == after_sell(
                    *old(self),
                    old(self).currency_a_amount as int,
                ),
            },
            old(self).well_formed() ==> final(self).well_formed(),
    {
        if self.get_a_amount() >= self.get_min_a_transaction() {
            let all = self.get_a_amount();
            self.sell(all)
        } else {
            Err(OrderRejected::BelowMinimum)
        }
    }
}

/// On a well-formed wallet, a buy that the quote balance covers costs
/// between nothing and that balance, and adds between nothing and the
/// amount bought.
pub proof fn lemma_buy_amounts(m: Market, amount: int)
    requires
        m.well_formed(),
        0 <= amount,
        amount * m.ratio_a_to_b <= m.currency_b_amount * SCALE,
    ensures
        0 <= buy_cost(m, amount) <= m.currency_b_amount,
        0 <= buy_gain(m, amount) <= amount,
{
    let s = SCALE as int;
    let x = amount * m.ratio_a_to_b;
    let keep = SCALE - m.transaction_fee;
    assert(0 <= x) by (nonlinear_arith)
        requires
            0 <= amount,
            0 < m.ratio_a_to_b,
            x == amount * m.ratio_a_to_b,
    ;
    assert(0int / s == 0) by (nonlinear_arith)
        requires
            s > 0,
    ;
    lemma_div_floor_monotone(0, x, s);
    lemma_div_floor_monotone(x, m.currency_b_amount * s, s);
    lemma_div_exact(m.currency_b_amount as int, s);
    assert(0 <= amount * keep <= amount * s) by (nonlinear_arith)
        requires
            0 <= amount,
            0 <= keep <= s,
    ;
    lemma_div_floor_monotone(0, amount * keep, s);
    lemma_div_floor_monotone(amount * keep, amount * s, s);
    lemma_div_exact(amount, s);
}

/// On a well-formed wallet, a sale of a non-negative amount brings between
/// nothing and its full price.
pub proof fn lemma_sell_amounts(m: Market, amount: int)
    requires
        m.well_formed(),
        0 <= amount,
    ensures
        0 <= (amount * m.ratio_a_to_b) / (SCALE as int),
        ((amount * m.ratio_a_to_b) / (SCALE as int)) * SCALE <= amount * m.ratio_a_to_b,
        0 <= sell_proceeds(m, amount) <= (amount * m.ratio_a_to_b) / (SCALE as int),
{
    let s = SCALE as int;
    let x = amount * m.ratio_a_to_b;
    let gross = x / s;
    let keep = SCALE - m.transaction_fee;
    assert(0 <= x) by (nonlinear_arith)
        requires
            0 <= amount,
            0 < m.ratio_a_to_b,
            x == amount * m.ratio_a_to_b,
    ;
    assert(0int / s == 0) by (nonlinear_arith)
        requires
            s > 0,
    ;
    lemma_div_floor_monotone(0, x, s);
    lemma_div_floor_bounds(x, s);
    assert(0 <= gross * keep <= gross * s) by (nonlinear_arith)
        requires
            0 <= gross,
            0 <= keep <= s,
    ;
    lemma_div_floor_monotone(0, gross * keep, s);
    lemma_div_floor_monotone(gross * keep, gross * s, s);
    lemma_div_exact(gross, s);
}

/// One order of a trading sequence, with the amount of A to trade.
#[derive(Debug, Clone, Copy, PartialEq, Eq, Structural)]
pub enum Trade {
    Buy(i64),
    Sell(i64),
}

impl Trade {
    /// The amount of A that the order names.
    pub open spec fn amount(self) -> int {
        match self {
            Trade::Buy(x) => x as int,
            Trade::Sell(x) => x as int,
        }
    }
}

/// Why the order is refused on this wallet, if it is.
pub open spec fn trade_rejection(m: Market, t: Trade) -> Option<OrderRejected> {
    match t {
        Trade::Buy(x) => buy_rejection(m, x as int),
        Trade::Sell(x) => sell_rejection(m, x as int),
    }
}

/// The wallet after the order, which is taken to be accepted.
pub open spec fn after_trade(m: Market, t: Trade) -> Market {
    match t {
        Trade::Buy(x) => after_buy(m, x as int),
        Trade::Sell(x) => after_sell(m, x as int),
    }
}

/// The price of the order is a whole number of units, so that charging it
/// rounds nothing away.
pub open spec fn trade_is_exact(m: Market, t: Trade) -> bool {
    (t.amount() * m.ratio_a_to_b) % (SCALE as int) == 0
}

/// The wallet after a sequence of orders, each taken to be accepted.
pub open spec fn after_trades(m: Market, trades: Seq<Trade>) -> Market
    decreases trades.len(),
{
    if trades.len() == 0 {
        m
    } else {
        after_trades(after_trade(m, trades[0]), trades.drop_first())
    }
}

/// No order of the sequence is refused when they are placed in turn.
pub open spec fn all_accepted(m: Market, trades: Seq<Trade>) -> bool
    decreases trades.len(),
{
    trades.len() == 0 || (trade_rejection(m, trades[0]).is_none() && all_accepted(
        after_trade(m, trades[0]),
        trades.drop_first(),
    ))
}

/// Every order of the sequence has an exact price.
pub open spec fn all_exact(m: Market, trades: Seq<Trade>) -> bool {
    forall|i: int| 0 <= i < trades.len() ==> trade_is_exact(m, #[trigger] trades[i])
}

/// With a fee of zero, an accepted order moves the wallet's worth by the
/// part of its price that rounding cuts off, and by nothing else: a buy
/// keeps that part, a sale loses it. The part is less than one unit of B.
pub proof fn lemma_trade_moves_value_by_rounding(m: Market, t: Trade)
    requires
        m.transaction_fee == 0,
        trade_rejection(m, t).is_none(),
    ensures
        after_trade(m, t).well_formed(),
        after_trade(m, t).ratio_a_to_b == m.ratio_a_to_b,
        after_trade(m, t).transaction_fee == 0,
        0 <= (t.amount() * m.ratio_a_to_b) % (SCALE as int) < SCALE,
        t is Buy ==> total_value(after_trade(m, t)) == total_value(m) + (t.amount()
            * m.ratio_a_to_b) % (SCALE as int),
        t is Sell ==> total_value(after_trade(m, t)) == total_value(m) - (t.amount()
            * m.ratio_a_to_b) % (SCALE as int),
{
    let s = SCALE as int;
    let x = t.amount() * m.ratio_a_to_b;
    let r = m.ratio_a_to_b as int;
    let a = m.currency_a_amount as int;
    let b = m.currency_b_amount as int;
    lemma_fundamental_div_mod(x, s);
    assert(s * (x / s) == (x / s) * s) by (nonlinear_arith);
    match t {
        Trade::Buy(amount) => {
            lemma_buy_amounts(m, amount as int);
            lemma_div_exact(amount as int, s);
            assert((a + amount) * r == a * r + amount * r) by (nonlinear_arith);
            assert((b - x / s) * s == b * s - (x / s) * s) by (nonlinear_arith);
        },
        Trade::Sell(amount) => {
            lemma_sell_amounts(m, amount as int);
            lemma_div_exact(x / s, s);
            assert((a - amount) * r == a * r - amount * r) by (nonlinear_arith);
            assert((b + x / s) * s == b * s + (x / s) * s) by (nonlinear_arith);
        },
    }
}

/// Fund conservation. With a fee of zero, a sequence of buys and sells of
/// which none is refused and each has an exact price leaves
/// `balance_a * ratio + balance_b` as it was.
pub proof fn lemma_funds_conserved(m: Market, trades: Seq<Trade>)
    requires
        m.transaction_fee == 0,
        all_accepted(m, trades),
        all_exact(m, trades),
    ensures
        total_value(after_trades(m, trades)) == total_value(m),
    decreases trades.len(),
{
    if trades.len() > 0 {
        let next = after_trade(m, trades[0]);
        lemma_trade_moves_value_by_rounding(m, trades[0]);
        assert(trade_is_exact(m, trades[0]));
        assert forall|i: int| 0 <= i < trades.drop_first().len() implies trade_is_exact(
            next,
            #[trigger] trades.drop_first()[i],
        ) by {
            assert(trades.drop_first()[i] == trades[i + 1]);
            assert(trade_is_exact(m, trades[i + 1]));
        }
        lemma_funds_conserved(next, trades.drop_first());
    }
}

/// Fund conservation holds at every step: under the conditions of
/// [`lemma_funds_conserved`], the wallet is worth the same after each
/// order of the sequence, not only after the last.
pub proof fn lemma_funds_conserved_throughout(m: Market, trades: Seq<Trade>, k: int)
    requires
        m.transaction_fee == 0,
        all_accepted(m, trades),
        all_exact(m, trades),
        0 <= k <= trades.len(),
    ensures
        all_accepted(m, trades.take(k)),
        total_value(after_trades(m, trades.take(k))) == total_value(m),
{
    lemma_accepted_prefix(m, trades, k);
    assert forall|i: int| 0 <= i < trades.take(k).len() implies trade_is_exact(
        m,
        #[trigger] trades.take(k)[i],
    ) by {
        assert(trades.take(k)[i] == trades[i]);
    }
    lemma_funds_conserved(m, trades.take(k));
}

proof fn lemma_accepted_prefix(m: Market, trades: Seq<Trade>, k: int)
    requires
        all_accepted(m, trades),
        0 <= k <= trades.len(),
    ensures
        all_accepted(m, trades.take(k)),
    decreases k,
{
    if k > 0 {
        lemma_accepted_prefix(after_trade(m, trades[0]), trades.drop_first(), k - 1);
        assert(trades.take(k)[0] == trades[0]);
        assert(trades.take(k).drop_first() =~= trades.drop_first().take(k - 1));
    }
}

} // verus!
