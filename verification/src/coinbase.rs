//! Coinbase
//!
//! The price reference taken from the Coinbase ticker, and the guard that
//! shuts trading down when the price jumps.

use crate::price::BitcoinPrice;
use crate::units::decimal::{abs_int, decimal_add, decimal_div, lemma_one_units_positive, one_units, overflow_limit, MAX_MANTISSA};
use crate::units::{Price, UtcTime};
use crate::units::utc_time::NANOS_PER_SEC;
use vstd::prelude::*;

verus! {

/// The middle of a best bid and a best ask: the sum of their halves
pub open spec fn mid_of(bid: Price, ask: Price) -> Price {
    let b = decimal_div(bid.mant(), bid.scl(), 2, 0);
    let a = decimal_div(ask.mant(), ask.scl(), 2, 0);
    Price::of_parts(decimal_add(b.0, b.1, a.0, a.1))
}

/// The price of a ticker message: the middle of its best bid and ask, at
/// its time
pub fn ticker_price(best_bid: Price, best_ask: Price, time: UtcTime) -> (p: BitcoinPrice)
    requires
        abs_int(best_bid@ + best_ask@) <= overflow_limit(),
    ensures
        p.btc_price == mid_of(best_bid, best_ask),
        p.timestamp == time,
{
    let b = best_bid.half();
    let a = best_ask.half();
    proof {
        lemma_one_units_positive();
        assert(b.can_add(a)) by (nonlinear_arith)
            requires
                abs_int(b@ * 2 - best_bid@) < 2 * one_units(),
                abs_int(a@ * 2 - best_ask@) < 2 * one_units(),
                abs_int(best_bid@ + best_ask@) <= overflow_limit(),
                overflow_limit() == (MAX_MANTISSA - 1) * one_units(),
                one_units() > 0,
                MAX_MANTISSA > 4,
                b.can_add(a) == (abs_int(b@ + a@) <= overflow_limit()),
        ;
    }
    BitcoinPrice { btc_price: b.add(&a), timestamp: time }
}

/// The guard against rapid price movements: it keeps a reference price,
/// which moves whenever the price leaves a band around it
#[derive(Clone, Copy, Debug)]
pub struct ShutdownGuard {
    reference: Option<BitcoinPrice>,
}

impl ShutdownGuard {
    /// The reference price, once there is one
    pub closed spec fn spec_reference(self) -> Option<BitcoinPrice> {
        self.reference
    }

    /// A guard with no reference yet
    pub fn new() -> (g: ShutdownGuard)
        ensures
            g.spec_reference() is None,
    {
        ShutdownGuard { reference: None }
    }

    /// The price a new price is measured against: the reference, or the
    /// new price itself while there is none
    pub fn reference_for(&self, new_price: BitcoinPrice) -> (p: BitcoinPrice)
        ensures
            p == match self.spec_reference() {
                Some(r) => r,
                None => new_price,
            },
    {
        match self.reference {
            Some(r) => r,
            None => new_price,
        }
    }

    /// Takes a new price, given whether it left the band around the
    /// reference (more than 5% away). A price that left the band becomes
    /// the reference; it calls for an emergency shutdown when the reference
    /// it left was more than five minutes older.
    pub fn on_price(&mut self, new_price: BitcoinPrice, out_of_band: bool) -> (emergency: bool)
        ensures
            ({
                let r = match old(self).spec_reference() {
                    Some(r) => r,
                    None => new_price,
                };
                &&& emergency == (out_of_band && new_price.timestamp@ - r.timestamp@ > 300 * NANOS_PER_SEC)
                &&& final(self).spec_reference() == if out_of_band { Some(new_price) } else { old(self).spec_reference() }
            }),
    {
        let r = self.reference_for(new_price);
        let mut emergency = false;
        if out_of_band {
            emergency = new_price.timestamp.nanos_since(&r.timestamp) > 300 * 1_000_000_000;
            self.reference = Some(new_price);
        }
        emergency
    }
}

} // verus!
