//! Bitcoin Price Tracker
//!
//! Data structure which attempts to produce a BTC price reference based
//! on activity in the LX orderbook.

use crate::ledgerx::book::{book_after, without_mid, BookState, Order as BookOrder};
use crate::ledgerx::datafeed::Order;
use crate::price::BitcoinPrice;
use crate::units::decimal::{decimal_add, decimal_div};
use crate::units::{Asset, Price, UtcTime};
use vstd::prelude::*;

verus! {

/// A price reference
#[derive(Debug)]
pub struct Reference {
    /// The BTC book state, from which we obtain our price reference
    book_state: BookState,
    /// Last available best bid
    last_best_bid: Price,
    /// Last available best ask
    last_best_ask: Price,
    /// Time of the most recent update to the book
    last_update: UtcTime,
}

/// The middle of two prices: their sum halved
pub open spec fn mid_parts(a: Price, b: Price) -> (int, int) {
    let sum = Price::of_parts(decimal_add(a.mant(), a.scl(), b.mant(), b.scl()));
    decimal_div(sum.mant(), sum.scl(), 2, 0)
}

impl Reference {
    /// The order book the reference is taken from
    pub closed spec fn spec_book(self) -> BookState {
        self.book_state
    }

    /// The last best bid seen
    pub closed spec fn spec_best_bid(self) -> Price {
        self.last_best_bid
    }

    /// The last best ask seen
    pub closed spec fn spec_best_ask(self) -> Price {
        self.last_best_ask
    }

    /// The time of the last update of the best bid or ask
    pub closed spec fn spec_last_update(self) -> UtcTime {
        self.last_update
    }

    /// Create a new empty price reference, using an input price as a starting point
    pub fn new(price_ref: BitcoinPrice) -> (r: Reference)
        ensures
            r.spec_book().spec_asset() is Btc,
            r.spec_book().spec_bids().len() == 0,
            r.spec_book().spec_asks().len() == 0,
            r.spec_best_bid() == price_ref.btc_price,
            r.spec_best_ask() == price_ref.btc_price,
            r.spec_last_update() == price_ref.timestamp,
    {
        Reference {
            book_state: BookState::new(Asset::Btc),
            last_best_bid: price_ref.btc_price,
            last_best_ask: price_ref.btc_price,
            last_update: price_ref.timestamp,
        }
    }

    /// Returns the price reference, the middle of the last best bid and
    /// ask, and the time of the last update
    pub fn reference(&self) -> (r: (Price, UtcTime))
        requires
            self.spec_best_bid().can_add(self.spec_best_ask()),
        ensures
            r.0.is_parts(mid_parts(self.spec_best_bid(), self.spec_best_ask())),
            r.1 == self.spec_last_update(),
    {
        let pref = self.last_best_bid.add(&self.last_best_ask).half();
        (pref, self.last_update)
    }

    /// Returns the current best bid of the book, or 0 if none exists
    pub fn best_bid(&self) -> (p: Price)
        ensures
            self.spec_book().spec_bids().len() > 0 ==> p == self.spec_book().spec_bids().last().price,
            self.spec_book().spec_bids().len() == 0 ==> p == Price::spec_zero(),
    {
        self.book_state.best_bid_price()
    }

    /// Returns the current best ask of the book, or 0 if none exists
    pub fn best_ask(&self) -> (p: Price)
        ensures
            self.spec_book().spec_asks().len() > 0 ==> p == self.spec_book().spec_asks()[0].price,
            self.spec_book().spec_asks().len() == 0 ==> p == Price::spec_zero(),
    {
        self.book_state.best_ask_price()
    }

    /// Adds an order to the price reference: the book takes the order, and
    /// the best bid and ask are taken from the book where it has a nonzero
    /// one (with the current time as the time of the update)
    pub fn insert_order(&mut self, order: Order)
        requires
            old(self).spec_book().spec_asset() is Btc,
        ensures
            ({
                let size = order.size.spec_with_asset(Asset::Btc, 1);
                let o = BookOrder { price: order.price, size, message_id: order.message_id, timestamp: order.timestamp };
                let bids = final(self).spec_book().spec_bids();
                let asks = final(self).spec_book().spec_asks();
                let bid = if bids.len() > 0 { bids.last().price } else { Price::spec_zero() };
                let ask = if asks.len() > 0 { asks[0].price } else { Price::spec_zero() };
                &&& final(self).spec_book().spec_asset() is Btc
                &&& if size.amount() > 0 {
                    &&& bids == book_after(old(self).spec_book().spec_bids(), o)
                    &&& asks == without_mid(old(self).spec_book().spec_asks(), order.message_id.0@)
                } else {
                    &&& asks == book_after(old(self).spec_book().spec_asks(), o)
                    &&& bids == without_mid(old(self).spec_book().spec_bids(), order.message_id.0@)
                }
                &&& final(self).spec_best_bid() == if bid@ != 0 { bid } else { old(self).spec_best_bid() }
                &&& final(self).spec_best_ask() == if ask@ != 0 { ask } else { old(self).spec_best_ask() }
                &&& bid@ == 0 && ask@ == 0 ==> final(self).spec_last_update() == old(self).spec_last_update()
            }),
    {
        self.book_state.insert_order(order);
        let bid = self.book_state.best_bid_price();
        let ask = self.book_state.best_ask_price();
        // Don't return invalid data. Let the caller deal with it if
        // we're missing data.
        if !bid.is_zero() {
            self.last_best_bid = bid;
            self.stamp_update();
        }
        if !ask.is_zero() {
            self.last_best_ask = ask;
            self.stamp_update();
        }
    }

    /// Records the current time as the time of the last update; where the
    /// clock cannot be read (see [UtcTime::now]) the last update keeps its
    /// time
    fn stamp_update(&mut self)
        ensures
            final(self).spec_book() == old(self).spec_book(),
            final(self).spec_best_bid() == old(self).spec_best_bid(),
            final(self).spec_best_ask() == old(self).spec_best_ask(),
    {
        match UtcTime::now() {
            Some(t) => self.last_update = t,
            None => {},
        }
    }

    /// Clear out the order book (but retain the current "last best bid/ask" data)
    pub fn clear_book(&mut self)
        ensures
            final(self).spec_book().spec_asset() is Btc,
            final(self).spec_book().spec_bids().len() == 0,
            final(self).spec_book().spec_asks().len() == 0,
            final(self).spec_best_bid() == old(self).spec_best_bid(),
            final(self).spec_best_ask() == old(self).spec_best_ask(),
            final(self).spec_last_update() == old(self).spec_last_update(),
    {
        self.book_state = BookState::new(Asset::Btc);
    }
}

} // verus!
