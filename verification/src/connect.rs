//! Main Loop Decisions
//!
//! When connected to the exchange the tool runs indefinitely, reacting to
//! messages. The decisions it takes between messages are made here: when
//! the order books are rebuilt, and when a heartbeat runs, is delayed or
//! is dropped. Performing them (the network, the clock, the threads) is
//! left to the caller.

use crate::ledgerx::history::Event;
use crate::option::PutCall;
use crate::price::BitcoinPrice;
use crate::units::asset::budget_of_tax;
use crate::units::decimal::{decimal_add, decimal_div, decimal_mul, MAX_MANTISSA};
use crate::units::quantity::SATS_PER_CONTRACT;
use crate::units::{BudgetAsset, Price, Quantity};
use crate::units::utc_time::{market_is_open, market_open_at, new_york_offset_hours, second_of_day, TimeOfDay, MAX_TIMESTAMP, MIN_TIMESTAMP, NANOS_PER_SEC};
use crate::units::UtcTime;
use vstd::prelude::*;

verus! {

/// Whether the market is open at a time
pub open spec fn market_open(now: UtcTime) -> bool {
    market_open_at(TimeOfDay {
        secs: second_of_day(now.spec_secs() - new_york_offset_hours(now.spec_date().0, now.spec_date().3, now.spec_day()) * 3600) as u32,
        nanos: now.spec_nanos() as u32,
    })
}

/// Nanoseconds in a minute
pub open spec fn minute_nanos() -> int {
    60 * NANOS_PER_SEC
}

/// What to do with a heartbeat
#[derive(Clone, Copy, Debug)]
pub enum HeartbeatAction {
    /// It came too soon after the last one: drop it
    Drop,
    /// It came too soon after the last one: drop it, and send a delayed
    /// heartbeat that is due at the given time
    Delay { delay_til: UtcTime },
    /// Run the housekeeping: refresh the balances, then trade if the
    /// market is open, or clear the order books if it is not
    Run { market_open: bool },
}

/// The state of the main loop between messages
#[derive(Clone, Copy, Debug)]
pub struct LoopState {
    last_heartbeat_time: UtcTime,
    last_market_open: bool,
    heartbeat_price_ref: BitcoinPrice,
    current_price: BitcoinPrice,
}

impl LoopState {
    /// The time of the last heartbeat that ran
    pub closed spec fn spec_last_heartbeat(self) -> UtcTime {
        self.last_heartbeat_time
    }

    /// Whether the market was open at the last message
    pub closed spec fn spec_last_market_open(self) -> bool {
        self.last_market_open
    }

    /// The price at the last heartbeat that ran
    pub closed spec fn spec_heartbeat_price(self) -> BitcoinPrice {
        self.heartbeat_price_ref
    }

    /// The latest price
    pub closed spec fn spec_current_price(self) -> BitcoinPrice {
        self.current_price
    }

    /// The state at startup: the last heartbeat is taken to be two days
    /// ago, so that the first one runs
    pub fn new(initial_time: UtcTime, initial_price: BitcoinPrice) -> (s: LoopState)
        requires
            MIN_TIMESTAMP <= initial_time.spec_secs() - 48 * 3600,
        ensures
            s.spec_last_heartbeat() == initial_time.spec_plus_seconds(-48 * 3600),
            s.spec_last_market_open() == market_open(initial_time),
            s.spec_heartbeat_price() == initial_price,
            s.spec_current_price() == initial_price,
    {
        proof {
            UtcTime::lemma_valid(initial_time);
        }
        LoopState {
            last_heartbeat_time: initial_time.plus_seconds(-48 * 3600),
            last_market_open: market_is_open(&initial_time),
            heartbeat_price_ref: initial_price,
            current_price: initial_price,
        }
    }

    /// Notes the time of a new message; returns whether the market has just
    /// opened, so that the contracts and order books are loaded afresh
    pub fn on_message(&mut self, now: UtcTime) -> (reload: bool)
        ensures
            reload == (market_open(now) && !old(self).spec_last_market_open()),
            final(self).spec_last_market_open() == market_open(now),
            final(self).spec_last_heartbeat() == old(self).spec_last_heartbeat(),
            final(self).spec_heartbeat_price() == old(self).spec_heartbeat_price(),
            final(self).spec_current_price() == old(self).spec_current_price(),
    {
        let open = market_is_open(&now);
        let reload = open && !self.last_market_open;
        self.last_market_open = open;
        reload
    }

    /// Notes a new price reference
    pub fn on_price(&mut self, price: BitcoinPrice)
        ensures
            final(self).spec_current_price() == price,
            final(self).spec_last_market_open() == old(self).spec_last_market_open(),
            final(self).spec_last_heartbeat() == old(self).spec_last_heartbeat(),
            final(self).spec_heartbeat_price() == old(self).spec_heartbeat_price(),
    {
        self.current_price = price;
    }

    /// The latest price
    pub fn current_price(&self) -> (p: BitcoinPrice)
        ensures
            p == self.spec_current_price(),
    {
        self.current_price
    }

    /// The price at the last heartbeat that ran, against which a drift of
    /// the price is measured
    pub fn heartbeat_price(&self) -> (p: BitcoinPrice)
        ensures
            p == self.spec_heartbeat_price(),
    {
        self.heartbeat_price_ref
    }

    /// Decides what to do with a heartbeat (`delayed` for one that was
    /// delayed and is now due): within a minute of the last heartbeat that
    /// ran it is dropped, and a plain one is delayed by 75 seconds;
    /// otherwise it runs, and its time and price are kept
    pub fn on_heartbeat(&mut self, now: UtcTime, delayed: bool) -> (a: HeartbeatAction)
        requires
            now.spec_secs() + 75 <= MAX_TIMESTAMP,
        ensures
            final(self).spec_last_market_open() == old(self).spec_last_market_open(),
            final(self).spec_current_price() == old(self).spec_current_price(),
            if now@ - old(self).spec_last_heartbeat()@ < minute_nanos() {
                &&& *final(self) == *old(self)
                &&& if delayed { a is Drop } else { a == (HeartbeatAction::Delay { delay_til: now.spec_plus_seconds(75) }) }
            } else {
                &&& a == (HeartbeatAction::Run { market_open: market_open(now) })
                &&& final(self).spec_last_heartbeat() == now
                &&& final(self).spec_heartbeat_price() == old(self).spec_current_price()
            },
    {
        proof {
            UtcTime::lemma_valid(now);
        }
        if now.nanos_since(&self.last_heartbeat_time) < 60 * 1_000_000_000 {
            if delayed {
                HeartbeatAction::Drop
            } else {
                HeartbeatAction::Delay { delay_til: now.plus_seconds(75) }
            }
        } else {
            self.last_heartbeat_time = now;
            self.heartbeat_price_ref = self.current_price;
            HeartbeatAction::Run { market_open: market_is_open(&now) }
        }
    }
}

/// Whether a delayed heartbeat is due: strictly after its time
pub fn delay_is_over(now: &UtcTime, delay_til: &UtcTime) -> (ready: bool)
    ensures
        ready == (now@ > delay_til@),
{
    delay_til.lt(now)
}

/// A price times a quantity, as `Price::mul_quantity` gives it
pub open spec fn times(p: Price, q: Quantity) -> Price {
    Price::of_parts(if q is Zero { (0, 0) } else { decimal_mul(p.mant(), p.scl(), Price::quantity_factor(q).0, Price::quantity_factor(q).1) })
}

/// A negated price
pub open spec fn negated(p: Price) -> Price {
    Price::of_parts((-p.mant(), p.scl()))
}

/// The sum of two prices
pub open spec fn plus(a: Price, b: Price) -> Price {
    Price::of_parts(decimal_add(a.mant(), a.scl(), b.mant(), b.scl()))
}

/// The satoshis a quantity stands for (a contract is a million)
pub open spec fn sats_of(q: Quantity) -> int {
    if q is Contracts { q.amount() * SATS_PER_CONTRACT } else { q.amount() }
}

/// The bitcoin (in satoshis) and the dollars an event of the history
/// brought in: trades pay their price, bitcoin trades move bitcoin, and
/// assignments of bitcoin options move both at the strike
pub open spec fn sale_deltas(ev: Event) -> (int, Price) {
    match ev {
        Event::Trade { asset, price, size, .. } => (
            if budget_of_tax(asset) is Btc { sats_of(size) } else { 0 },
            negated(times(price, size)),
        ),
        Event::Assignment { option, underlying, size, .. } => if underlying is Btc {
            match option.pc {
                PutCall::Call => (-sats_of(size), times(option.strike, size)),
                PutCall::Put => (sats_of(size), negated(times(option.strike, size))),
            }
        } else {
            (0, Price::spec_zero())
        },
        _ => (0, Price::spec_zero()),
    }
}

/// An assignment of a bitcoin call delivers bitcoin and brings in dollars:
/// the net bitcoin falls by the size (in satoshis; a contract is a million)
/// and the net dollars rise by the strike times the size. An assignment of
/// a bitcoin put does the reverse: the bitcoin rises by the size and the
/// dollars fall by the strike times the size. A history made of one such
/// assignment nets just that.
pub proof fn law_assignment_moves(
    option: crate::option::Option,
    size: Quantity,
    price_ref: Option<Price>,
    time: UtcTime,
    initial: UtcTime,
)
    ensures
        ({
            let ev = Event::Assignment { option, underlying: crate::units::Underlying::Btc, size, price_ref };
            let sats = if size is Contracts { size.amount() * 1_000_000 } else { size.amount() };
            let strike_times_size = Price::of_parts(if size is Zero { (0, 0) } else {
                decimal_mul(option.strike.mant(), option.strike.scl(), Price::quantity_factor(size).0, Price::quantity_factor(size).1)
            });
            let one = sales_fold(seq![(time, ev)], 1, initial);
            &&& option.pc is Call ==> sale_deltas(ev).0 == -sats && sale_deltas(ev).1 == strike_times_size
            &&& option.pc is Put ==> sale_deltas(ev).0 == sats
                && sale_deltas(ev).1 == Price::of_parts((-strike_times_size.mant(), strike_times_size.scl()))
                && sale_deltas(ev).1@ == -strike_times_size@
            &&& option.pc is Call ==> one.0 == -sats
            &&& option.pc is Put ==> one.0 == sats
        }),
{
    let ev = Event::Assignment { option, underlying: crate::units::Underlying::Btc, size, price_ref };
    let evs = seq![(time, ev)];
    assert(evs[0].1 == ev);
    assert(sales_fold(evs, 0, initial).0 == 0);
    let p = Price::of_parts(if size is Zero { (0, 0) } else {
        decimal_mul(option.strike.mant(), option.strike.scl(), Price::quantity_factor(size).0, Price::quantity_factor(size).1)
    });
    Price::lemma_negated_view(p);
}

/// Whether the deltas of an event can be computed without a panic
pub open spec fn deltas_safe(ev: Event) -> bool {
    match ev {
        Event::Trade { price, size, .. } => {
            &&& price.can_mul_quantity(size)
            &&& size is Contracts ==> Quantity::fits(size.amount() * SATS_PER_CONTRACT)
        },
        Event::Assignment { option, underlying, size, .. } => underlying is Btc ==> {
            &&& option.strike.can_mul_quantity(size)
            &&& size is Contracts ==> Quantity::fits(size.amount() * SATS_PER_CONTRACT)
            &&& sats_of(size) != i64::MIN
        },
        _ => true,
    }
}

/// A point at which the average price of the bitcoin sold so far reached
/// a new low
#[derive(Clone, Copy, Debug)]
pub struct SalesLow {
    pub time: UtcTime,
    pub net_btc: i64,
    pub net_usd: Price,
    pub average: Price,
}

/// What the history says of past bitcoin sales: the net bitcoin (in
/// satoshis) and dollars, the same over the last 500 days, the lowest
/// average price reached, and the points where it was reached
#[derive(Clone, Debug)]
pub struct SalesSummary {
    pub net_btc: i64,
    pub net_usd: Price,
    pub recent_net_btc: i64,
    pub recent_net_usd: Price,
    pub min_average: Price,
    pub lows: Vec<SalesLow>,
}

/// The largest price, which no average exceeds
pub open spec fn max_price() -> Price {
    Price::of_parts((MAX_MANTISSA as int, 0))
}

/// The state of the summary: (net bitcoin, net dollars, recent net
/// bitcoin, recent net dollars, lowest average, lows)
pub type SalesState = (int, Price, int, Price, Price, Seq<SalesLow>);

/// Nanoseconds in 500 days
pub open spec fn recent_nanos() -> int {
    500 * 86400 * NANOS_PER_SEC
}

/// The average price of the bitcoin sold: the net dollars per net bitcoin
pub open spec fn average_of(net_usd: Price, net_btc: int) -> Price {
    Price::of_parts(decimal_div(net_usd.mant(), net_usd.scl(), if net_btc < 0 { -net_btc } else { net_btc }, 8))
}

/// The summary after one more event
pub open spec fn sales_step(st: SalesState, time: UtcTime, ev: Event, initial: UtcTime) -> SalesState {
    let (db, du) = sale_deltas(ev);
    let nb = st.0 + db;
    let nu = plus(st.1, du);
    let recent = initial@ - time@ < recent_nanos();
    let rb = if recent { st.2 + db } else { st.2 };
    let ru = if recent { plus(st.3, du) } else { st.3 };
    if nb != 0 && average_of(nu, nb)@ < st.4@ {
        let avg = average_of(nu, nb);
        (nb, nu, rb, ru, avg, st.5.push(SalesLow { time, net_btc: nb as i64, net_usd: nu, average: avg }))
    } else {
        (nb, nu, rb, ru, st.4, st.5)
    }
}

/// Whether one more event can be taken without a panic
pub open spec fn sales_step_safe(st: SalesState, time: UtcTime, ev: Event, initial: UtcTime) -> bool {
    let (db, du) = sale_deltas(ev);
    let nb = st.0 + db;
    let nu = plus(st.1, du);
    let recent = initial@ - time@ < recent_nanos();
    &&& deltas_safe(ev)
    &&& st.1.can_add(du)
    &&& Quantity::fits(nb)
    &&& recent ==> Quantity::fits(st.2 + db) && st.3.can_add(du)
    &&& nb != 0 ==> nb != i64::MIN && nu.can_div_quantity(Quantity::Bitcoin(if nb < 0 { -nb } else { nb } as i64))
}

/// The summary after the first `n` events
pub open spec fn sales_fold(evs: Seq<(UtcTime, Event)>, n: int, initial: UtcTime) -> SalesState
    decreases n,
{
    if n <= 0 || n > evs.len() {
        (0, Price::spec_zero(), 0, Price::spec_zero(), max_price(), Seq::empty())
    } else {
        sales_step(sales_fold(evs, n - 1, initial), evs[n - 1].0, evs[n - 1].1, initial)
    }
}

/// Whether the whole history can be summarized without a panic
pub open spec fn sales_safe(evs: Seq<(UtcTime, Event)>, initial: UtcTime) -> bool {
    forall|k: int| 0 <= k < evs.len() ==> sales_step_safe(#[trigger] sales_fold(evs, k, initial), evs[k].0, evs[k].1, initial)
}

/// Whether a quantity's satoshis can be counted: contracts times a million
/// must fit
fn sats_fit(q: Quantity) -> (b: bool)
    ensures
        b == (q is Contracts ==> Quantity::fits(q.amount() * SATS_PER_CONTRACT)),
{
    match q {
        Quantity::Contracts(n) => -9_223_372_036_854 <= n && n <= 9_223_372_036_854,
        _ => true,
    }
}

/// Whether the deltas of an event can be computed ([deltas_safe])
fn deltas_fit(ev: &Event) -> (b: bool)
    ensures
        b == deltas_safe(*ev),
{
    match *ev {
        Event::Trade { price, size, .. } => price.fits_mul_quantity(size) && sats_fit(size),
        Event::Assignment { option, underlying, size, .. } => {
            if underlying == crate::units::Underlying::Btc {
                if option.strike.fits_mul_quantity(size) && sats_fit(size) {
                    size.btc_equivalent() != i64::MIN
                } else {
                    false
                }
            } else {
                true
            }
        },
        _ => true,
    }
}

/// Whether a sum of satoshis fits in an `i64`
fn sats_sum_fits(a: i64, b: i64) -> (r: bool)
    ensures
        r == Quantity::fits(a + b),
{
    let s: i128 = a as i128 + b as i128;
    i64::MIN as i128 <= s && s <= i64::MAX as i128
}

/// The average price of bitcoin sold on net: `net_usd` dollars per
/// `net_btc` satoshis taken as bitcoin. Gives nothing when no bitcoin was
/// sold on net, or the quotient is out of range.
pub fn average_price(net_usd: Price, net_btc: i64) -> (r: Option<Price>)
    ensures
        r is Some <==> net_btc != 0 && net_btc != i64::MIN
            && net_usd.can_div_quantity(Quantity::Bitcoin((if net_btc < 0 { -net_btc } else { net_btc as int }) as i64)),
        r matches Some(p) ==> p == average_of(net_usd, net_btc as int),
{
    if net_btc == 0 || net_btc == i64::MIN {
        return None;
    }
    let sats = Quantity::Bitcoin(net_btc).abs();
    if !net_usd.fits_div_quantity(sats) {
        return None;
    }
    Some(net_usd.div_quantity(sats))
}

/// Summarizes the bitcoin sold over a history, as of a time. Gives nothing
/// when an amount along the way is out of range (the sums of satoshis must
/// fit in 64 bits, and those of dollars in the range of a decimal).
pub fn sales_summary(events: &Vec<(UtcTime, Event)>, initial: UtcTime) -> (r: Option<SalesSummary>)
    ensures
        r is Some <==> sales_safe(events@, initial),
        r matches Some(r) ==> ({
            let f = sales_fold(events@, events@.len() as int, initial);
            &&& r.net_btc == f.0 && r.net_usd == f.1 && r.recent_net_btc == f.2 && r.recent_net_usd == f.3
            &&& r.min_average == f.4 && r.lows@ == f.5
        }),
{
    let mut net_btc: i64 = 0;
    let mut net_usd = Price::zero();
    let mut recent_net_btc: i64 = 0;
    let mut recent_net_usd = Price::zero();
    let mut min_average = Price::from_parts(MAX_MANTISSA, 0);
    let mut lows: Vec<SalesLow> = Vec::new();
    assert(lows@ =~= Seq::<SalesLow>::empty());
    let mut i: usize = 0;
    while i < events.len()
        invariant
            i <= events@.len(),
            forall|j: int| 0 <= j < i ==> sales_step_safe(#[trigger] sales_fold(events@, j, initial), events@[j].0, events@[j].1, initial),
            sales_fold(events@, i as int, initial) == (net_btc as int, net_usd, recent_net_btc as int, recent_net_usd, min_average, lows@),
        decreases events@.len() - i,
    {
        let time = events[i].0;
        let ev = events[i].1;
        let ghost st = sales_fold(events@, i as int, initial);
        if !deltas_fit(&ev) {
            assert(!sales_step_safe(st, time, ev, initial));
            return None;
        }
        let (delta_btc, delta_usd): (i64, Price) = match ev {
            Event::Trade { asset, price, size, .. } => {
                let usd = price.mul_quantity(size).neg();
                let btc: i64 = match BudgetAsset::from(asset) {
                    BudgetAsset::Btc => size.btc_equivalent(),
                    _ => 0,
                };
                (btc, usd)
            },
            Event::Assignment { option, underlying, size, .. } => {
                if underlying == crate::units::Underlying::Btc {
                    let usd = option.strike.mul_quantity(size);
                    let sats = size.btc_equivalent();
                    match option.pc {
                        PutCall::Call => (-sats, usd),
                        PutCall::Put => (sats, usd.neg()),
                    }
                } else {
                    (0, Price::zero())
                }
            },
            _ => (0, Price::zero()),
        };
        assert(sale_deltas(ev) == (delta_btc as int, delta_usd));
        let recent = initial.nanos_since(&time) < 500 * 86400 * 1_000_000_000;
        if !net_usd.fits_add(&delta_usd) || !sats_sum_fits(net_btc, delta_btc)
            || (recent && (!sats_sum_fits(recent_net_btc, delta_btc) || !recent_net_usd.fits_add(&delta_usd))) {
            assert(!sales_step_safe(st, time, ev, initial));
            return None;
        }
        net_usd = net_usd.add(&delta_usd);
        net_btc = net_btc + delta_btc;
        if recent {
            recent_net_usd = recent_net_usd.add(&delta_usd);
            recent_net_btc = recent_net_btc + delta_btc;
        }
        if net_btc != 0 {
            if net_btc == i64::MIN || !net_usd.fits_div_quantity(Quantity::Bitcoin(net_btc).abs()) {
                assert(!sales_step_safe(st, time, ev, initial));
                return None;
            }
            let average = net_usd.div_quantity(Quantity::Bitcoin(net_btc).abs());
            assert(average == average_of(net_usd, net_btc as int));
            if average.lt(&min_average) {
                lows.push(SalesLow { time, net_btc, net_usd, average });
                min_average = average;
            }
        }
        assert(sales_step_safe(st, time, ev, initial));
        proof {
            assert(sales_fold(events@, i + 1, initial) == sales_step(sales_fold(events@, i as int, initial), time, ev, initial));
        }
        i = i + 1;
    }
    assert(sales_safe(events@, initial));
    Some(SalesSummary { net_btc, net_usd, recent_net_btc, recent_net_usd, min_average, lows })
}

} // verus!
