//! LedgerX History
//!
//! The account history and the tax lots derived from it.

pub mod budget;
pub mod config;
pub mod lot;
pub mod tax;

use crate::csv::PrintCsv;
use crate::ledgerx::history::config::LotInfo;
use crate::ledgerx::history::lot::{basis_parts, close_amounts_ok, gain_parts, gain_type_of, parts_value, proceeds_parts, txid_prefix_text, CloseType, CloseView, Id, Lot, LotView, OpenType};
use crate::ledgerx::history::tax::{GainType, OpenCloseView, EventView};
use crate::ledgerx::history::tax::{
    lot_fits, lot_step, lots_of, lx_sorted, same_direction, settle_step, trade_step, trade_tracked_as, unit_fits,
    PositionTracker, TaxDate, TaxError, TrackerState,
};
use crate::option;
use crate::price::{BitcoinPrice, Historic};
use crate::text::{chars_of, decimal, decimal_padded, push_all, push_decimal, push_str, string_from_chars};
use crate::units::price::plain_display;
use crate::timemap::{insert_all, lower_bound, upper_bound, TimeMap};
use crate::transaction::{
    address_script, first_deposit_match, first_txout, is_first_txout, lemma_first_deposit_match_unique, lemma_first_txout_unique,
    script_of_address, Database, OutPoint, Transaction,
};
use crate::units::bounds::product_fits;
use crate::units::decimal::{abs_int, decimal_add, decimal_div, decimal_mul, overflow_limit, pow10, units};
use crate::units::quantity::SATS_PER_CONTRACT;
use crate::units::utc_time::{MAX_TIMESTAMP, SECS_PER_DAY};
use crate::ledgerx::contract::{Contract, ContractView, Type as ContractType};
use crate::units::asset::asset_of_deposit;
use crate::units::utc_time::second_of_day;
use crate::units::{Asset, DepositAsset, Price, Quantity, TaxAsset, Underlying, UnknownQuantity, UtcTime};
use vstd::prelude::*;

verus! {

/// An event of the account history
#[derive(Copy, Clone, Debug)]
pub enum Event {
    /// A deposit of dollars
    UsdDeposit { amount: Quantity },
    /// A deposit of bitcoin from a coin (lot) whose date and price are known
    BtcDeposit { amount_sats: u64, outpoint: OutPoint, lot_info: LotInfo },
    /// A withdrawal
    Withdrawal { amount: Quantity, asset: DepositAsset },
    /// A trade, with its fee
    Trade { asset: TaxAsset, price: Price, size: Quantity, fee: Price },
    /// An assignment of options, with LX's bitcoin price reference if known
    Assignment { option: option::Option, underlying: Underlying, size: Quantity, price_ref: Option<Price> },
    /// An expiry of options
    Expiry { option: option::Option, underlying: Underlying, size: Quantity },
}

/// The account history
pub struct History {
    user_id: usize,
    years: Vec<i32>,
    lot_db: Vec<(Id, LotInfo)>,
    transaction_db: Database,
    lx_price_ref: Vec<(UtcTime, Price)>,
    events: TimeMap<Event>,
}

/// The lot opened by a deposit of `sats` satoshis from the coin at
/// `outpoint`, with the coin's date and price: its sort date is 100 years
/// later, so that deposits are used by the FIFO after all other lots
pub open spec fn deposit_lot(sats: u64, outpoint: OutPoint, info: LotInfo) -> LotView {
    LotView {
        id: txid_prefix_text(outpoint.txid@) + seq!['-'] + decimal_padded(outpoint.vout as nat, 2),
        asset: TaxAsset::Bitcoin,
        quantity: Quantity::Bitcoin(sats as i64),
        price: info.price,
        date: TaxDate(info.date),
        open_ty: OpenType::Deposit,
        sort_date: info.date.spec_plus_seconds(36500 * SECS_PER_DAY),
    }
}

/// The price a trade is tracked at: its price plus its fee per unit (the
/// fee divided by the signed size)
pub open spec fn adjusted_price(price: Price, fee: Price, size: Quantity) -> Price {
    let unit_fee = decimal_div(fee.mant(), fee.scl(), Price::quantity_factor(size).0, Price::quantity_factor(size).1);
    Price::of_parts(decimal_add(price.mant(), price.scl(), unit_fee.0, unit_fee.1))
}

/// A trade is tracked at its filled price plus its fee divided by its
/// signed size in bitcoin (satoshis are 10^-8 bitcoin, contracts 10^-2),
/// in decimal arithmetic: on a purchase (positive size) the fee raises the
/// price paid, on a sale (negative size) it lowers the price received. A
/// trade of the history enters the tax tracker at that price.
pub proof fn law_fee_adjusts_price(
    st: TrackerState,
    date: UtcTime,
    asset: TaxAsset,
    price: Price,
    fee: Price,
    size: Quantity,
    prices: Seq<(UtcTime, BitcoinPrice)>,
)
    ensures
        ({
            let digits = if size is Bitcoin { 8int } else { 2int };
            let unit_fee = decimal_div(fee.mant(), fee.scl(), size.amount(), digits);
            let entry_price = Price::of_parts(decimal_add(price.mant(), price.scl(), unit_fee.0, unit_fee.1));
            (size is Bitcoin || size is Contracts) ==> {
                &&& adjusted_price(price, fee, size) == entry_price
                &&& history_step(st, date, Event::Trade { asset, price, size, fee }, prices)
                    == trade_step(st, asset, size, entry_price, TaxDate(date))
            }
        }),
{
}

/// The bitcoin price used for an assignment: LX's reference when known,
/// otherwise the last recorded price before the date
pub open spec fn assignment_btc_price(price_ref: Option<Price>, date: UtcTime, prices: Seq<(UtcTime, BitcoinPrice)>) -> Price {
    match price_ref {
        Some(p) => p,
        None => prices[lower_bound(prices, date@) - 1].1.btc_price,
    }
}

/// Whether an event can be pushed into the tracker without a panic: the
/// amounts are in range and in the right units, a deposit meets no short
/// bitcoin position, a trade's fee can be spread over its size, a next-day
/// swap is on bitcoin, and an assignment has a bitcoin price
pub open spec fn step_safe(st: TrackerState, date: UtcTime, ev: Event, prices: Seq<(UtcTime, BitcoinPrice)>) -> bool {
    match ev {
        Event::BtcDeposit { amount_sats, outpoint, lot_info } => {
            let lot = deposit_lot(amount_sats, outpoint, lot_info);
            &&& amount_sats <= i64::MAX
            &&& lot_info.date.spec_secs() + 36500 * SECS_PER_DAY <= MAX_TIMESTAMP
            &&& same_direction(lots_of(st.positions, TaxAsset::Bitcoin), lot.quantity)
        },
        Event::Trade { asset, price, size, fee } => {
            let unit_fee = Price::of_parts(decimal_div(fee.mant(), fee.scl(), Price::quantity_factor(size).0, Price::quantity_factor(size).1));
            &&& fee.can_div_quantity(size)
            &&& price.can_add(unit_fee)
            &&& asset matches TaxAsset::NextDay { underlying, .. } ==> underlying is Btc
            &&& unit_fits(trade_tracked_as(asset, TaxDate(date)).0, size)
            &&& size.can_negate()
        },
        Event::Expiry { option, underlying, size } => {
            &&& unit_fits(TaxAsset::Option { underlying, option }, size)
            &&& size.can_negate()
        },
        Event::Assignment { option, underlying, size, price_ref } => {
            &&& price_ref is Some || lower_bound(prices, date@) > 0
            &&& abs_int(assignment_btc_price(price_ref, date, prices)@ - option.strike@) <= overflow_limit()
            &&& unit_fits(TaxAsset::Option { underlying, option }, size)
            &&& size.can_negate()
        },
        _ => true,
    }
}

/// One event pushed into the tracker: deposits of bitcoin insert their lot,
/// trades are pushed at their adjusted price, expiries at price zero,
/// assignments at the intrinsic value; dollar deposits and withdrawals do
/// nothing. Also whether it succeeded.
pub open spec fn history_step(st: TrackerState, date: UtcTime, ev: Event, prices: Seq<(UtcTime, BitcoinPrice)>) -> (TrackerState, bool) {
    match ev {
        Event::BtcDeposit { amount_sats, outpoint, lot_info } => (lot_step(st, deposit_lot(amount_sats, outpoint, lot_info)), true),
        Event::Trade { asset, price, size, fee } => trade_step(st, asset, size, adjusted_price(price, fee, size), TaxDate(date)),
        Event::Expiry { option, underlying, size } =>
            settle_step(st, option, underlying, size, Price::of_parts((0, 0)), CloseType::Expiry, false),
        Event::Assignment { option, underlying, size, price_ref } => settle_step(
            st,
            option,
            underlying,
            size,
            Price::of_parts(option.spec_intrinsic_parts(assignment_btc_price(price_ref, date, prices))),
            CloseType::Exercise,
            true,
        ),
        _ => (st, true),
    }
}

/// The tracker after pushing the events from index `i` on, stopping at the
/// first event of a year without a tax configuration, or at the first
/// failure (whose index is given)
pub open spec fn history_fold(
    st: TrackerState,
    evs: Seq<(UtcTime, Event)>,
    i: int,
    years: Seq<i32>,
    prices: Seq<(UtcTime, BitcoinPrice)>,
) -> (TrackerState, Option<int>)
    decreases evs.len() - i,
{
    if i < 0 || i >= evs.len() || !years.contains(evs[i].0.spec_date().0 as i32) {
        (st, None)
    } else {
        let (st2, ok) = history_step(st, evs[i].0, evs[i].1, prices);
        if !ok {
            (st2, Some(i))
        } else {
            history_fold(st2, evs, i + 1, years, prices)
        }
    }
}

/// Whether pushing the events from index `i` on never panics
pub open spec fn history_safe(
    st: TrackerState,
    evs: Seq<(UtcTime, Event)>,
    i: int,
    years: Seq<i32>,
    prices: Seq<(UtcTime, BitcoinPrice)>,
) -> bool
    decreases evs.len() - i,
{
    if i < 0 || i >= evs.len() || !years.contains(evs[i].0.spec_date().0 as i32) {
        true
    } else {
        let (st2, ok) = history_step(st, evs[i].0, evs[i].1, prices);
        step_safe(st, evs[i].0, evs[i].1, prices) && (!ok || history_safe(st2, evs, i + 1, years, prices))
    }
}

/// The empty tracker
pub open spec fn empty_tracker() -> TrackerState {
    TrackerState { positions: Seq::empty(), events: Seq::empty(), counter: 1 }
}

/// A use of a bitcoin price from the price history, for lack of an LX price
/// reference, in an assignment
#[derive(Copy, Clone, Debug)]
pub struct UnofficialPrice {
    pub date: UtcTime,
    pub btc_price: BitcoinPrice,
    pub option: option::Option,
    pub size: Quantity,
}

impl History {
    /// The events of the history, in time order
    pub closed spec fn spec_events(self) -> Seq<(UtcTime, Event)> {
        self.events@
    }

    /// The years with a tax configuration
    pub closed spec fn spec_years(self) -> Seq<i32> {
        self.years@
    }

    /// Whether the year is configured
    fn has_year(&self, y: i32) -> (b: bool)
        ensures
            b == self.spec_years().contains(y),
    {
        let mut i: usize = 0;
        while i < self.years.len()
            invariant
                i <= self.years@.len(),
                forall|j: int| 0 <= j < i ==> self.years@[j] != y,
            decreases self.years@.len() - i,
        {
            if self.years[i] == y {
                return true;
            }
            i = i + 1;
        }
        false
    }

    /// Runs the events through a position tracker, in time order, stopping
    /// at the first event of a year without a tax configuration; then sorts
    /// the tax events in LX's order. Gives the tracker and the assignments
    /// that used the price history for lack of an LX price reference, or
    /// the index of the event that failed and its error. Gives nothing when
    /// an event cannot be pushed at all: its amounts are out of range or in
    /// the wrong units, a deposit meets a short bitcoin position, or an
    /// assignment has no bitcoin price ([history_safe]).
    pub fn run_tax(&self, price_history: &Historic) -> (r: Option<Result<(PositionTracker, Vec<UnofficialPrice>), (usize, TaxError)>>)
        ensures
            r is Some <==> history_safe(empty_tracker(), self.spec_events(), 0, self.spec_years(), price_history.spec_data()),
            ({
                let f = history_fold(empty_tracker(), self.spec_events(), 0, self.spec_years(), price_history.spec_data());
                &&& r matches Some(r) ==> (r is Err <==> f.1 is Some)
                &&& r matches Some(Err((k, _))) ==> f.1 == Some(k as int)
                &&& r matches Some(Ok((t, _))) ==> t.wf() && t.spec_positions() == f.0.positions && t.spec_counter() == f.0.counter
                    && t.spec_events() == lx_sorted(f.0.events)
            }),
    {
        let ghost evs = self.events@;
        let ghost prices = price_history.spec_data();
        let ghost years = self.years@;
        let entries = self.events.entries();
        let mut tracker = PositionTracker::new();
        assert(tracker.state().positions =~= empty_tracker().positions);
        assert(tracker.state().events =~= empty_tracker().events);
        assert(tracker.state() == empty_tracker());
        let mut unofficial: Vec<UnofficialPrice> = Vec::new();
        let mut i: usize = 0;
        while i < entries.len()
            invariant
                entries@ == evs,
                evs == self.spec_events(),
                years == self.spec_years(),
                prices == price_history.spec_data(),
                i <= evs.len(),
                tracker.wf(),
                history_safe(empty_tracker(), evs, 0, years, prices) == history_safe(tracker.state(), evs, i as int, years, prices),
                history_fold(empty_tracker(), evs, 0, years, prices) == history_fold(tracker.state(), evs, i as int, years, prices),
            ensures
                history_fold(empty_tracker(), evs, 0, years, prices) == (tracker.state(), None::<int>),
                history_safe(empty_tracker(), evs, 0, years, prices),
                tracker.wf(),
            decreases evs.len() - i,
        {
            let date = entries[i].0;
            let ev = entries[i].1;
            if !self.has_year(date.year()) {
                break;
            }
            let ghost st = tracker.state();
            let res: Result<usize, TaxError> = match ev {
                Event::UsdDeposit { .. } => Ok(0),
                Event::Withdrawal { .. } => Ok(0),
                Event::BtcDeposit { amount_sats, outpoint, lot_info } => {
                    if amount_sats > i64::MAX as u64 || lot_info.date.timestamp() > MAX_TIMESTAMP - 36500 * SECS_PER_DAY
                        || !tracker.bitcoin_same_direction(Quantity::Bitcoin(amount_sats as i64)) {
                        assert(!step_safe(st, date, ev, prices));
                        return None;
                    }
                    assert(step_safe(st, date, ev, prices));
                    let lot = Lot::from_deposit(&outpoint.txid, outpoint.vout, lot_info.price, amount_sats, lot_info.date);
                    tracker.push_lot(lot);
                    Ok(0)
                },
                Event::Trade { asset, price, size, fee } => {
                    let counted_as = match asset {
                        TaxAsset::NextDay { .. } => TaxAsset::Bitcoin,
                        _ => asset,
                    };
                    let next_day_ok = match asset {
                        TaxAsset::NextDay { underlying, .. } => underlying == Underlying::Btc,
                        _ => true,
                    };
                    if !fee.fits_div_quantity(size) || !next_day_ok || !fits_unit(&counted_as, size) || !can_negate(size) {
                        assert(!step_safe(st, date, ev, prices));
                        return None;
                    }
                    let unit_fee = fee.div_quantity(size);
                    if !price.fits_add(&unit_fee) {
                        assert(!step_safe(st, date, ev, prices));
                        return None;
                    }
                    assert(step_safe(st, date, ev, prices));
                    let adj_price = price.add(&unit_fee);
                    tracker.push_trade(asset, size, adj_price, TaxDate::from_time(date))
                },
                Event::Expiry { option, underlying, size } => {
                    if !fits_unit(&TaxAsset::Option { underlying, option }, size) || !can_negate(size) {
                        assert(!step_safe(st, date, ev, prices));
                        return None;
                    }
                    assert(step_safe(st, date, ev, prices));
                    tracker.push_expiry(option, underlying, size)
                },
                Event::Assignment { option, underlying, size, price_ref } => {
                    let btc_price = match price_ref {
                        Some(p) => p,
                        None => match price_history.price_before(date) {
                            Some(p) => {
                                proof {
                                    crate::timemap::lemma_lower_bound_range(prices, date@);
                                }
                                assert(lower_bound(prices, date@) > 0);
                                assert(p.btc_price == assignment_btc_price(price_ref, date, prices));
                                unofficial.push(UnofficialPrice { date, btc_price: p, option, size });
                                p.btc_price
                            },
                            None => {
                                proof {
                                    crate::timemap::lemma_lower_bound_range(prices, date@);
                                }
                                assert(lower_bound(prices, date@) == 0);
                                assert(!step_safe(st, date, ev, prices));
                                return None;
                            },
                        },
                    };
                    assert(btc_price == assignment_btc_price(price_ref, date, prices));
                    assert(price_ref is Some || lower_bound(prices, date@) > 0);
                    if !btc_price.fits_sub(&option.strike) || !fits_unit(&TaxAsset::Option { underlying, option }, size)
                        || !can_negate(size) {
                        assert(!step_safe(st, date, ev, prices));
                        return None;
                    }
                    assert(step_safe(st, date, ev, prices));
                    tracker.push_assignment(option, underlying, size, btc_price)
                },
            };
            assert(step_safe(st, date, ev, prices));
            match res {
                Ok(_) => {},
                Err(e) => {
                    return Some(Err((i, e)));
                },
            }
            i = i + 1;
        }
        tracker.lx_sort_events();
        Some(Ok((tracker, unofficial)))
    }
}

/// Whether a quantity is in the unit an asset is counted in ([unit_fits])
fn fits_unit(asset: &TaxAsset, q: Quantity) -> (b: bool)
    ensures
        b == unit_fits(*asset, q),
{
    match q {
        Quantity::Zero => true,
        Quantity::Contracts(_) => match asset {
            TaxAsset::Option { .. } => true,
            _ => false,
        },
        Quantity::Bitcoin(_) => match asset {
            TaxAsset::Option { .. } => false,
            _ => true,
        },
        Quantity::Cents(_) => false,
    }
}

/// Whether a quantity can be negated ([Quantity::can_negate])
fn can_negate(q: Quantity) -> (b: bool)
    ensures
        b == q.can_negate(),
{
    match q {
        Quantity::Zero => true,
        Quantity::Bitcoin(n) => n != i64::MIN,
        Quantity::Cents(n) => n != i64::MIN,
        Quantity::Contracts(n) => n != i64::MIN,
    }
}

/// The totals of a tax year: the number of events, and the gains/losses
/// of the 1256, short-term and long-term closes
#[derive(Copy, Clone, Debug)]
pub struct YearTotals {
    pub n_events: usize,
    pub total_1256: Price,
    pub total_st: Price,
    pub total_lt: Price,
}

/// A price plus the gain of a close
pub open spec fn plus_gain(total: Price, c: CloseView) -> Price {
    let g = Price::of_parts(gain_parts(c));
    Price::of_parts(decimal_add(total.mant(), total.scl(), g.mant(), g.scl()))
}

/// The totals of the events of a year among the first `n` events: each
/// close adds its gain/loss to the total of its gain type
pub open spec fn year_totals_spec(evs: Seq<EventView>, year: int, n: int) -> (int, Price, Price, Price)
    decreases n,
{
    if n <= 0 {
        (0, Price::of_parts((0, 0)), Price::of_parts((0, 0)), Price::of_parts((0, 0)))
    } else {
        let t = year_totals_spec(evs, year, n - 1);
        let e = evs[n - 1];
        if e.date.0.spec_date().0 != year {
            t
        } else {
            match e.open_close {
                OpenCloseView::Close(c) => match gain_type_of(c) {
                    GainType::Option1256 => (t.0 + 1, plus_gain(t.1, c), t.2, t.3),
                    GainType::ShortTerm => (t.0 + 1, t.1, plus_gain(t.2, c), t.3),
                    GainType::LongTerm => (t.0 + 1, t.1, t.2, plus_gain(t.3, c)),
                },
                _ => (t.0 + 1, t.1, t.2, t.3),
            }
        }
    }
}

/// Whether the gains/losses of the year's closes among the first `n`
/// events can be computed and summed without overflow
pub open spec fn year_totals_safe(evs: Seq<EventView>, year: int, n: int) -> bool
    decreases n,
{
    if n <= 0 {
        true
    } else {
        let t = year_totals_spec(evs, year, n - 1);
        let e = evs[n - 1];
        &&& year_totals_safe(evs, year, n - 1)
        &&& e.date.0.spec_date().0 == year ==> match e.open_close {
            OpenCloseView::Close(c) => {
                let g = Price::of_parts(gain_parts(c));
                let total = match gain_type_of(c) {
                    GainType::Option1256 => t.1,
                    GainType::ShortTerm => t.2,
                    GainType::LongTerm => t.3,
                };
                &&& close_amounts_ok(c)
                &&& abs_int(parts_value(proceeds_parts(c)) - parts_value(basis_parts(c))) <= overflow_limit()
                &&& abs_int(total@ + g@) <= overflow_limit()
            },
            _ => true,
        }
    }
}

/// The totals of a tax year over the tax events: the number of events of
/// that year, and the gains/losses of its closes by gain type; nothing when
/// a gain/loss or a total is out of range ([year_totals_safe])
pub fn year_totals(events: &Vec<tax::Event>, year: i32) -> (r: Option<YearTotals>)
    ensures
        r is Some <==> year_totals_safe(tax::events_view(events@), year as int, events@.len() as int),
        r matches Some(r) ==> ({
            let t = year_totals_spec(tax::events_view(events@), year as int, events@.len() as int);
            r.n_events == t.0 && r.total_1256 == t.1 && r.total_st == t.2 && r.total_lt == t.3
        }),
{
    let ghost evs = tax::events_view(events@);
    let mut n_events: usize = 0;
    let mut total_1256 = Price::zero();
    let mut total_st = Price::zero();
    let mut total_lt = Price::zero();
    let mut i: usize = 0;
    while i < events.len()
        invariant
            i <= events@.len(),
            evs == tax::events_view(events@),
            year_totals_safe(evs, year as int, i as int),
            ({
                let t = year_totals_spec(evs, year as int, i as int);
                n_events == t.0 && total_1256 == t.1 && total_st == t.2 && total_lt == t.3
            }),
            n_events <= i,
        decreases events@.len() - i,
    {
        proof {
            assert(evs[i as int] == tax::event_view(events@[i as int]));
            if year_totals_safe(evs, year as int, events@.len() as int) {
                lemma_year_totals_safe_prefix(evs, year as int, events@.len() as int, i + 1);
            }
        }
        let ev = &events[i];
        if ev.date.year() == year {
            n_events = n_events + 1;
            match &ev.open_close {
                tax::OpenClose::Close(close) => {
                    if !close.gain_loss_fits() {
                        return None;
                    }
                    let g = close.gain_loss();
                    proof {
                        Price::lemma_parts_wf(g);
                    }
                    match close.gain_loss_type() {
                        GainType::Option1256 => {
                            if !total_1256.fits_add(&g) {
                                return None;
                            }
                            total_1256 = total_1256.add(&g);
                        },
                        GainType::ShortTerm => {
                            if !total_st.fits_add(&g) {
                                return None;
                            }
                            total_st = total_st.add(&g);
                        },
                        GainType::LongTerm => {
                            if !total_lt.fits_add(&g) {
                                return None;
                            }
                            total_lt = total_lt.add(&g);
                        },
                    }
                },
                _ => {},
            }
        }
        i = i + 1;
    }
    Some(YearTotals { n_events, total_1256, total_st, total_lt })
}

/// Safety of a prefix follows from safety of a longer prefix
pub proof fn lemma_year_totals_safe_prefix(evs: Seq<EventView>, year: int, n: int, m: int)
    requires
        year_totals_safe(evs, year, n),
        0 <= m <= n,
    ensures
        year_totals_safe(evs, year, m),
    decreases n - m,
{
    if m < n {
        lemma_year_totals_safe_prefix(evs, year, n - 1, m);
    }
}

/// 60% of a price, as `Price::sixty` computes it
pub open spec fn sixty_of(p: Price) -> Price {
    let m = decimal_mul(p.mant(), p.scl(), 3, 0);
    Price::of_parts(decimal_div(m.0, m.1, 5, 0))
}

/// 40% of a price, as `Price::forty` computes it
pub open spec fn forty_of(p: Price) -> Price {
    let m = decimal_mul(p.mant(), p.scl(), 2, 0);
    Price::of_parts(decimal_div(m.0, m.1, 5, 0))
}

/// The sum of two prices, as `Price::add` computes it
pub open spec fn price_sum(a: Price, b: Price) -> Price {
    Price::of_parts(decimal_add(a.mant(), a.scl(), b.mant(), b.scl()))
}

/// The long-term and short-term totals after the 60/40 split of the 1256
/// total
pub open spec fn split_60_40(t: YearTotals) -> (Price, Price) {
    (price_sum(t.total_lt, sixty_of(t.total_1256)), price_sum(t.total_st, forty_of(t.total_1256)))
}

/// The 60/40 split of section 1256 gains: the long-term total after the
/// split is the long-term total plus the 1256 total times 3 divided by 5,
/// and the short-term total is the short-term total plus the 1256 total
/// times 2 divided by 5 (all in decimal arithmetic)
pub proof fn law_split_60_40(t: YearTotals)
    ensures
        ({
            let m = t.total_1256.mant();
            let s = t.total_1256.scl();
            let three_fifths = Price::of_parts(decimal_div(decimal_mul(m, s, 3, 0).0, decimal_mul(m, s, 3, 0).1, 5, 0));
            let two_fifths = Price::of_parts(decimal_div(decimal_mul(m, s, 2, 0).0, decimal_mul(m, s, 2, 0).1, 5, 0));
            &&& split_60_40(t).0 == Price::of_parts(decimal_add(
                t.total_lt.mant(), t.total_lt.scl(), three_fifths.mant(), three_fifths.scl()))
            &&& split_60_40(t).1 == Price::of_parts(decimal_add(
                t.total_st.mant(), t.total_st.scl(), two_fifths.mant(), two_fifths.scl()))
        }),
{
}

/// The text of a price
pub open spec fn ptext(p: Price) -> Seq<char> {
    plain_display(p.mant(), p.scl())
}

/// The summary lines of a tax year: the number of events, the totals, the
/// totals after the 60/40 split, and, when there is a short-term loss, the
/// total liability after cancelling (long-term when not negative)
pub open spec fn summary_lines(t: YearTotals) -> Seq<Seq<char>> {
    let (lt, st) = split_60_40(t);
    let total = price_sum(lt, st);
    seq![
        "    Number of events: "@ + decimal(t.n_events as nat),
        "    Total LT gain/loss: "@ + ptext(t.total_lt),
        "    Total ST gain/loss: "@ + ptext(t.total_st),
        "    Total 1256 gain/loss: "@ + ptext(t.total_1256),
        "    After 60/40 splitting "@ + ptext(lt) + " LT "@ + ptext(st) + " ST"@,
    ] + if st@ < 0 {
        if total@ >= 0 {
            seq!["    Cancelling, total liability is "@ + ptext(total) + " LT"@]
        } else {
            seq!["    Cancelling, total liability is "@ + ptext(total) + " ST"@]
        }
    } else {
        Seq::empty()
    }
}

/// Whether the split and the cancelling can be computed
pub open spec fn summary_safe(t: YearTotals) -> bool {
    let (lt, st) = split_60_40(t);
    &&& abs_int(t.total_1256@ * 3) <= overflow_limit()
    &&& abs_int(t.total_lt@ + sixty_of(t.total_1256)@) <= overflow_limit()
    &&& abs_int(t.total_st@ + forty_of(t.total_1256)@) <= overflow_limit()
    &&& abs_int(lt@ + st@) <= overflow_limit()
}

/// A line made of a text and a price
fn text_price(prefix: &str, p: &Price) -> (r: String)
    ensures
        r@ == prefix@ + ptext(*p),
{
    let mut out = chars_of(prefix);
    push_string(&mut out, p.to_display_string());
    string_from_chars(&out)
}

/// Appends the characters of a string
fn push_string(out: &mut Vec<char>, s: String)
    ensures
        final(out)@ == old(out)@ + s@,
{
    let cs = chars_of(s.as_str());
    push_all(out, &cs);
}

/// The summary lines of a tax year (after its "Year" and strategy lines);
/// nothing when the split or the cancelling is out of range
/// ([summary_safe])
pub fn year_summary(t: &YearTotals) -> (r: Option<Vec<String>>)
    ensures
        r is Some <==> summary_safe(*t),
        r matches Some(lines) ==> lines@.map_values(|l: String| l@) == summary_lines(*t),
{
    proof {
        Price::lemma_parts_wf(t.total_1256);
        Price::lemma_parts_wf(t.total_lt);
        Price::lemma_parts_wf(t.total_st);
    }
    if !product_fits(t.total_1256.mantissa(), t.total_1256.scale(), 3, 0) {
        return None;
    }
    proof {
        assert(pow10(0) == 1);
        assert(abs_int(t.total_1256@ * 2) <= abs_int(t.total_1256@ * 3));
    }
    let sixty = t.total_1256.sixty();
    let forty = t.total_1256.forty();
    if !t.total_lt.fits_add(&sixty) || !t.total_st.fits_add(&forty) {
        return None;
    }
    let lt = t.total_lt.add(&sixty);
    let st = t.total_st.add(&forty);
    if !lt.fits_add(&st) {
        return None;
    }
    let mut lines: Vec<String> = Vec::new();
    let mut l0 = chars_of("    Number of events: ");
    push_decimal(&mut l0, t.n_events as u128);
    lines.push(string_from_chars(&l0));
    lines.push(text_price("    Total LT gain/loss: ", &t.total_lt));
    lines.push(text_price("    Total ST gain/loss: ", &t.total_st));
    lines.push(text_price("    Total 1256 gain/loss: ", &t.total_1256));
    let mut l4 = chars_of("    After 60/40 splitting ");
    push_string(&mut l4, lt.to_display_string());
    push_str(&mut l4, " LT ");
    push_string(&mut l4, st.to_display_string());
    push_str(&mut l4, " ST");
    lines.push(string_from_chars(&l4));
    let ghost five = lines@.map_values(|l: String| l@);
    if st.lt(&Price::zero()) {
        proof {
            Price::lemma_parts_wf(lt);
            Price::lemma_parts_wf(st);
        }
        let total = lt.add(&st);
        if !total.lt(&Price::zero()) {
            lines.push(text_price_suffix("    Cancelling, total liability is ", &total, " LT"));
        } else {
            lines.push(text_price_suffix("    Cancelling, total liability is ", &total, " ST"));
        }
        proof {
            assert(lines@.map_values(|l: String| l@) =~= five + seq![lines@[5]@]);
        }
    }
    proof {
        let (slt, sst) = split_60_40(*t);
        assert(lt == slt && st == sst);
        assert(five =~= seq![
            "    Number of events: "@ + decimal(t.n_events as nat),
            "    Total LT gain/loss: "@ + ptext(t.total_lt),
            "    Total ST gain/loss: "@ + ptext(t.total_st),
            "    Total 1256 gain/loss: "@ + ptext(t.total_1256),
            "    After 60/40 splitting "@ + ptext(lt) + " LT "@ + ptext(st) + " ST"@,
        ]);
        assert(Price::of_parts((0, 0))@ == 0);
    }
    assert(lines@.map_values(|l: String| l@) =~= summary_lines(*t));
    Some(lines)
}

/// A line made of a text, a price and a text
fn text_price_suffix(prefix: &str, p: &Price, suffix: &str) -> (r: String)
    ensures
        r@ == prefix@ + ptext(*p) + suffix@,
{
    let mut out = chars_of(prefix);
    push_string(&mut out, p.to_display_string());
    push_str(&mut out, suffix);
    string_from_chars(&out)
}

/// One event's lines in the tax reports of its year: the LX-style line (for
/// closes) and the full line
#[derive(Debug)]
pub struct ReportRow {
    pub year: i32,
    pub lx: Option<String>,
    pub full: String,
}

/// Whether the lines of a tax event can be printed
pub open spec fn report_printable(e: EventView) -> bool {
    match e.open_close {
        OpenCloseView::Open(l) => {
            &&& l.price.can_mul_quantity(l.quantity)
            &&& crate::ledgerx::history::lot::asset_displayable(l.asset)
            &&& tax::tax_date_rounded_secs(l.date.0) <= MAX_TIMESTAMP
        },
        OpenCloseView::Close(c) => {
            &&& crate::ledgerx::history::lot::lx_printable(c, e.asset, false)
            &&& crate::ledgerx::history::lot::full_printable(c, e.asset)
        },
    }
}

/// The report lines of a tax event
pub open spec fn report_row_spec(e: EventView, user_id: usize) -> (int, Option<Seq<char>>, Seq<char>) {
    (
        e.date.0.spec_date().0,
        match e.open_close {
            OpenCloseView::Open(_) => None,
            OpenCloseView::Close(c) => Some(crate::ledgerx::history::lot::lx_row(c, e.asset, user_id, false)),
        },
        match e.open_close {
            OpenCloseView::Open(l) => crate::ledgerx::history::lot::lot_row(l),
            OpenCloseView::Close(c) => crate::ledgerx::history::lot::full_row(c, e.asset),
        },
    )
}

/// The contents of a report row
pub open spec fn report_row_view(r: ReportRow) -> (int, Option<Seq<char>>, Seq<char>) {
    (r.year as int, match r.lx { Some(s) => Some(s@), None => None }, r.full@)
}

/// The header line of the LX-style report
pub fn lx_report_header() -> (s: &'static str)
    ensures
        s@ == "Reference,Description,Date Acquired,Date Sold or Disposed of,Proceeds,Cost or other basis,Gain/(Loss),Short-term/Long-term,,,Note that column C and column F reflect * where cost basis could not be obtained."@,
{
    "Reference,Description,Date Acquired,Date Sold or Disposed of,Proceeds,Cost or other basis,Gain/(Loss),Short-term/Long-term,,,Note that column C and column F reflect * where cost basis could not be obtained."
}

/// The header line of the full report
pub fn full_report_header() -> (s: &'static str)
    ensures
        s@ == "Event,Date,Quantity,Asset,Price,Lot ID,Old Lot Size,Old Lot Basis,New Lot Size,New Lot Basis,Basis,Proceeds,Gain/Loss,Gain/Loss Type"@,
{
    "Event,Date,Quantity,Asset,Price,Lot ID,Old Lot Size,Old Lot Basis,New Lot Size,New Lot Basis,Basis,Proceeds,Gain/Loss,Gain/Loss Type"
}

/// The lines of the tax reports, event by event: opens appear in the full
/// report only, closes in both
pub fn report_rows(events: &Vec<tax::Event>, user_id: usize) -> (r: Option<Vec<ReportRow>>)
    ensures
        r is Some <==> forall|i: int| 0 <= i < events@.len() ==> report_printable(#[trigger] tax::event_view(events@[i])),
        r matches Some(r) ==> r@.len() == events@.len(),
        r matches Some(r) ==> forall|i: int| 0 <= i < events@.len() ==> #[trigger] report_row_view(r@[i]) == report_row_spec(tax::event_view(events@[i]), user_id),
{
    let mut rows: Vec<ReportRow> = Vec::new();
    let mut i: usize = 0;
    while i < events.len()
        invariant
            i <= events@.len(),
            rows@.len() == i,
            forall|k: int| 0 <= k < i ==> report_printable(#[trigger] tax::event_view(events@[k])),
            forall|k: int| 0 <= k < i ==> #[trigger] report_row_view(rows@[k]) == report_row_spec(tax::event_view(events@[k]), user_id),
        decreases events@.len() - i,
    {
        let ev = &events[i];
        let printable = match &ev.open_close {
            tax::OpenClose::Open(lot) => lot.printable(),
            tax::OpenClose::Close(close) => close.printable(&ev.asset),
        };
        if !printable {
            assert(!report_printable(tax::event_view(events@[i as int])));
            return None;
        }
        let year = ev.date.year();
        let row = match &ev.open_close {
            tax::OpenClose::Open(lot) => {
                let full = lot.csv_printer().print();
                ReportRow { year, lx: None, full }
            },
            tax::OpenClose::Close(close) => {
                let lx = close.csv_printer(ev.asset, user_id, lot::PrintMode::LedgerX).print();
                let full = close.csv_printer(ev.asset, user_id, lot::PrintMode::Full).print();
                ReportRow { year, lx: Some(lx), full }
            },
        };
        proof {
            assert(report_row_view(row) == report_row_spec(tax::event_view(events@[i as int]), user_id));
        }
        rows.push(row);
        i = i + 1;
    }
    Some(rows)
}

/// A deposit as listed by the funds/deposits endpoint
#[derive(Debug)]
pub struct Deposit {
    pub amount: UnknownQuantity,
    pub asset: DepositAsset,
    pub address: String,
    pub created_at: UtcTime,
}

/// A page of deposits
#[derive(Debug)]
pub struct Deposits {
    pub data: Vec<Deposit>,
    pub next: Option<String>,
}

/// A withdrawal as listed by the funds/withdrawals endpoint
#[derive(Debug)]
pub struct Withdrawal {
    pub amount: UnknownQuantity,
    pub asset: DepositAsset,
    pub created_at: UtcTime,
}

/// A page of withdrawals
#[derive(Debug)]
pub struct Withdrawals {
    pub data: Vec<Withdrawal>,
    pub next: Option<String>,
}

/// The side of a trade
#[derive(Copy, Clone, PartialEq, Eq, Debug, Structural)]
pub enum Side {
    Bid,
    Ask,
}

/// A trade as listed by the trading/trades endpoint
#[derive(Debug)]
pub struct Trade {
    pub contract_id: String,
    pub execution_time: UtcTime,
    pub filled_price: Price,
    pub filled_size: UnknownQuantity,
    pub side: Side,
    pub fee: Price,
}

/// A page of trades
#[derive(Debug)]
pub struct Trades {
    pub data: Vec<Trade>,
    pub next: Option<String>,
}

/// A position as listed by the trading/positions endpoint
#[derive(Debug)]
pub struct Position {
    pub size: i64,
    pub assigned_size: i64,
    pub contract: Contract,
    pub has_settled: bool,
}

/// A page of positions
#[derive(Debug)]
pub struct Positions {
    pub data: Vec<Position>,
    pub next: Option<String>,
}

/// Whether a position can be imported ([position_safe])
fn position_importable(pos: &Position) -> (b: bool)
    ensures
        b == position_safe(*pos),
{
    if !pos.has_settled {
        return true;
    }
    let option = match pos.contract.as_option() {
        Some(o) => o,
        None => return true,
    };
    if pos.size == i64::MIN || pos.assigned_size == i64::MIN {
        return false;
    }
    let a: i128 = -(pos.size as i128) + pos.assigned_size as i128;
    let b: i128 = -(pos.size as i128) - pos.assigned_size as i128;
    if a < i64::MIN as i128 || a > i64::MAX as i128 || b < i64::MIN as i128 || b > i64::MAX as i128 {
        return false;
    }
    if option.expiry.year() == 2021 {
        option.expiry.second_of_day() % 3600 == 0 && option.expiry.nanosecond() == 0
    } else {
        option.expiry.timestamp() <= MAX_TIMESTAMP - 3600
    }
}

impl Positions {
    /// Whether every position of the page can be imported (see
    /// [History::import_positions])
    pub fn importable(&self) -> (b: bool)
        ensures
            b == forall|i: int| 0 <= i < self.data@.len() ==> position_safe(#[trigger] self.data@[i]),
    {
        let mut i: usize = 0;
        while i < self.data.len()
            invariant
                i <= self.data@.len(),
                forall|k: int| 0 <= k < i ==> position_safe(#[trigger] self.data@[k]),
            decreases self.data@.len() - i,
        {
            if !position_importable(&self.data[i]) {
                return false;
            }
            i = i + 1;
        }
        true
    }
}

/// The next URL of a page, if any
fn next_of(next: &Option<String>) -> (r: Option<String>)
    ensures
        r is Some <==> next is Some,
        r matches Some(u) ==> u@ == next->0@,
{
    match next {
        Some(u) => Some(u.clone()),
        None => None,
    }
}

impl Deposits {
    /// Returns the next URL, if any, to fetch
    pub fn next_url(&self) -> (r: Option<String>)
        ensures
            r is Some <==> self.next is Some,
            r matches Some(u) ==> u@ == self.next->0@,
    {
        next_of(&self.next)
    }
}

impl Withdrawals {
    /// Returns the next URL, if any, to fetch
    pub fn next_url(&self) -> (r: Option<String>)
        ensures
            r is Some <==> self.next is Some,
            r matches Some(u) ==> u@ == self.next->0@,
    {
        next_of(&self.next)
    }
}

impl Trades {
    /// Returns the next URL, if any, to fetch
    pub fn next_url(&self) -> (r: Option<String>)
        ensures
            r is Some <==> self.next is Some,
            r matches Some(u) ==> u@ == self.next->0@,
    {
        next_of(&self.next)
    }
}

impl Trades {
    /// The contract IDs of the trades that no known contract has, each once,
    /// in the order of the trades
    pub fn missing_contract_ids(&self, known: &Vec<(String, Contract)>) -> (r: Vec<String>)
        ensures
            forall|i: int| 0 <= i < r@.len() ==> contract_for(known@, #[trigger] r@[i]@) is None
                && exists|k: int| 0 <= k < self.data@.len() && self.data@[k].contract_id@ == r@[i]@,
            forall|k: int| 0 <= k < self.data@.len() && contract_for(known@, (#[trigger] self.data@[k]).contract_id@) is None
                ==> exists|i: int| 0 <= i < r@.len() && r@[i]@ == self.data@[k].contract_id@,
            forall|i: int, j: int| 0 <= i < j < r@.len() ==> (#[trigger] r@[i])@ != (#[trigger] r@[j])@,
    {
        let mut r: Vec<String> = Vec::new();
        let mut k: usize = 0;
        while k < self.data.len()
            invariant
                k <= self.data@.len(),
                forall|i: int| 0 <= i < r@.len() ==> contract_for(known@, #[trigger] r@[i]@) is None
                    && exists|k2: int| 0 <= k2 < self.data@.len() && self.data@[k2].contract_id@ == r@[i]@,
                forall|k2: int| 0 <= k2 < k && contract_for(known@, (#[trigger] self.data@[k2]).contract_id@) is None
                    ==> exists|i: int| 0 <= i < r@.len() && r@[i]@ == self.data@[k2].contract_id@,
                forall|i: int, j: int| 0 <= i < j < r@.len() ==> (#[trigger] r@[i])@ != (#[trigger] r@[j])@,
            decreases self.data@.len() - k,
        {
            let id = &self.data[k].contract_id;
            let ghost r0 = r@;
            if find_contract(known, id).is_none() {
                let mut seen = false;
                let mut i: usize = 0;
                while i < r.len()
                    invariant
                        i <= r@.len(),
                        r@ == r0,
                        seen ==> exists|j: int| 0 <= j < r@.len() && r@[j]@ == id@,
                        !seen ==> forall|j: int| 0 <= j < i ==> (#[trigger] r@[j])@ != id@,
                    decreases r@.len() - i,
                {
                    if crate::text::chars_eq(&chars_of(r[i].as_str()), &chars_of(id.as_str())) {
                        seen = true;
                    }
                    i = i + 1;
                }
                if !seen {
                    let ghost before = r@;
                    r.push(id.clone());
                    proof {
                        assert(r@[before.len() as int]@ == id@);
                        assert forall|a: int, b: int| 0 <= a < b < r@.len() implies (#[trigger] r@[a])@ != (#[trigger] r@[b])@ by {
                            if b == before.len() {
                                assert(r@[a] == before[a]);
                            } else {
                                assert(r@[a] == before[a] && r@[b] == before[b]);
                            }
                        }
                        assert forall|i2: int| 0 <= i2 < r@.len() implies contract_for(known@, #[trigger] r@[i2]@) is None
                            && exists|k2: int| 0 <= k2 < self.data@.len() && self.data@[k2].contract_id@ == r@[i2]@ by {
                            if i2 < before.len() {
                                assert(r@[i2] == before[i2]);
                            } else {
                                assert(self.data@[k as int].contract_id@ == r@[i2]@);
                            }
                        }
                    }
                }
                proof {
                    assert forall|k2: int| 0 <= k2 < k + 1 && contract_for(known@, (#[trigger] self.data@[k2]).contract_id@) is None
                        implies exists|i2: int| 0 <= i2 < r@.len() && r@[i2]@ == self.data@[k2].contract_id@ by {
                        if k2 == k {
                            if !seen {
                                assert(r@[r@.len() - 1]@ == id@);
                            } else {
                                let j = choose|j: int| 0 <= j < r@.len() && r@[j]@ == id@;
                                assert(r@[j]@ == self.data@[k2].contract_id@);
                            }
                        } else {
                            let i2 = choose|i2: int| 0 <= i2 < r0.len() && r0[i2]@ == self.data@[k2].contract_id@;
                            assert(r@[i2] == r0[i2]);
                        }
                    }
                }
            }
            k = k + 1;
        }
        r
    }
}

/// Records a contract under its ID text, replacing one already known under
/// it
pub fn store_contract(known: &mut Vec<(String, Contract)>, id: String, c: Contract)
    ensures
        contract_for(final(known)@, id@) == Some(c@),
{
    match find_contract(known, &id) {
        Some(j) => {
            let ghost before = known@;
            known.set(j, (id, c));
            proof {
                assert(known@ == before.update(j as int, known@[j as int]));
                lemma_contract_for_update(before, id@, j as int, known@[j as int]);
            }
        },
        None => {
            let ghost before = known@;
            known.push((id, c));
            proof {
                lemma_contract_for_push(before, known@[before.len() as int]);
            }
        },
    }
}

/// Updating the first entry of an ID text changes what that ID finds
proof fn lemma_contract_for_update(cs: Seq<(String, Contract)>, id: Seq<char>, j: int, e: (String, Contract))
    requires
        0 <= j < cs.len(),
        cs[j].0@ == id,
        forall|k: int| 0 <= k < j ==> (#[trigger] cs[k]).0@ != id,
        e.0@ == id,
    ensures
        contract_for(cs.update(j, e), id) == Some(e.1@),
{
    let t = cs.update(j, e);
    assert forall|k: int| 0 <= k < j implies (#[trigger] t[k]).0@ != id by {
        assert(t[k] == cs[k]);
    }
    lemma_contract_for(t, id, j);
}

/// Pushing an entry for an ID text no entry has makes that ID find it
proof fn lemma_contract_for_push(cs: Seq<(String, Contract)>, e: (String, Contract))
    requires
        contract_for(cs, e.0@) is None,
    ensures
        contract_for(cs.push(e), e.0@) == Some(e.1@),
{
    let id = e.0@;
    let t = cs.push(e);
    assert forall|k: int| 0 <= k < cs.len() implies (#[trigger] t[k]).0@ != id by {
        assert(t[k] == cs[k]);
        if cs[k].0@ == id {
            lemma_contract_for_first(cs, id, k);
        }
    }
    lemma_contract_for(t, id, cs.len() as int);
}

/// An ID text held by some entry finds a contract
proof fn lemma_contract_for_first(cs: Seq<(String, Contract)>, id: Seq<char>, k: int)
    requires
        0 <= k < cs.len(),
        cs[k].0@ == id,
    ensures
        contract_for(cs, id) is Some,
    decreases cs.len(),
{
    if cs[0].0@ != id {
        assert(cs.drop_first()[k - 1] == cs[k]);
        lemma_contract_for_first(cs.drop_first(), id, k - 1);
    }
}

impl Positions {
    /// Returns the next URL, if any, to fetch
    pub fn next_url(&self) -> (r: Option<String>)
        ensures
            r is Some <==> self.next is Some,
            r matches Some(u) ==> u@ == self.next->0@,
    {
        next_of(&self.next)
    }
}

/// The event of a withdrawal
pub open spec fn withdrawal_event(w: Withdrawal) -> (UtcTime, Event) {
    (w.created_at, Event::Withdrawal { amount: w.amount.spec_with_asset(asset_of_deposit(w.asset), 1), asset: w.asset })
}

/// The LX price reference at a date: the last one recorded for that date,
/// as a later reference replaces an earlier one
pub open spec fn price_ref_at(refs: Seq<(UtcTime, Price)>, d: UtcTime) -> Option<Price>
    decreases refs.len(),
{
    if refs.len() == 0 {
        None
    } else if refs.last().0 == d {
        Some(refs.last().1)
    } else {
        price_ref_at(refs.drop_last(), d)
    }
}

/// The assigned and expired sizes of a settled position, as net changes of
/// the contracts held (so both negative for a long position)
pub open spec fn settled_sizes(size: int, assigned_size: int) -> (int, int) {
    if size > 0 { (-assigned_size, -size + assigned_size) } else { (assigned_size, -size - assigned_size) }
}

/// The date of the events of a settled option: in 2021, the expiry date at
/// 22:00 UTC; later, an hour after expiry
pub open spec fn settle_date(option: option::Option) -> UtcTime {
    if option.expiry.spec_date().0 == 2021 {
        option.expiry.spec_at_hour(22)
    } else {
        option.expiry.spec_plus_seconds(3600)
    }
}

/// The events of a settled option position: its expiry (before the
/// assignment in 2021, after it later) and its assignment, each when
/// nonzero
pub open spec fn position_events(pos: Position, refs: Seq<(UtcTime, Price)>) -> Seq<(UtcTime, Event)> {
    if !pos.has_settled || !(pos.contract@.ty is Option) {
        Seq::empty()
    } else {
        let option = pos.contract@.ty->opt;
        let sizes = settled_sizes(pos.size as int, pos.assigned_size as int);
        let y = option.expiry.spec_date().0;
        let d = settle_date(option);
        let u = pos.contract@.underlying;
        let exp = (d, Event::Expiry { option, underlying: u, size: Quantity::Contracts(sizes.1 as i64) });
        let asg = (d, Event::Assignment { option, underlying: u, size: Quantity::Contracts(sizes.0 as i64), price_ref: price_ref_at(refs, d) });
        (if y == 2021 && sizes.1 != 0 { seq![exp] } else { Seq::empty() })
            + (if sizes.0 != 0 { seq![asg] } else { Seq::empty() })
            + (if y > 2021 && sizes.1 != 0 { seq![exp] } else { Seq::empty() })
    }
}

/// Whether a position can be imported without a panic: its sizes can be
/// negated and combined, and a 2021 expiry is on the hour (a later one is
/// an hour before the end of the supported range)
pub open spec fn position_safe(pos: Position) -> bool {
    pos.has_settled && pos.contract@.ty is Option ==> {
        let option = pos.contract@.ty->opt;
        &&& pos.size != i64::MIN
        &&& pos.assigned_size != i64::MIN
        &&& i64::MIN <= -pos.size + pos.assigned_size <= i64::MAX
        &&& i64::MIN <= -pos.size - pos.assigned_size <= i64::MAX
        &&& if option.expiry.spec_date().0 == 2021 {
            second_of_day(option.expiry.spec_secs()) % 3600 == 0 && option.expiry.spec_nanos() == 0
        } else {
            option.expiry.spec_secs() + 3600 <= MAX_TIMESTAMP
        }
    }
}

/// The events of a list of positions, in order
pub open spec fn positions_events(ps: Seq<Position>, refs: Seq<(UtcTime, Price)>) -> Seq<(UtcTime, Event)>
    decreases ps.len(),
{
    if ps.len() == 0 {
        Seq::empty()
    } else {
        positions_events(ps.drop_last(), refs) + position_events(ps.last(), refs)
    }
}

/// Inserting entries one list after another
pub proof fn lemma_insert_all_concat<V>(m: Seq<(UtcTime, V)>, a: Seq<(UtcTime, V)>, b: Seq<(UtcTime, V)>)
    ensures
        insert_all(m, a + b) == insert_all(insert_all(m, a), b),
    decreases b.len(),
{
    if b.len() == 0 {
        assert(a + b =~= a);
    } else {
        assert((a + b).drop_last() =~= a + b.drop_last());
        lemma_insert_all_concat(m, a, b.drop_last());
    }
}

impl History {
    /// Constructs a history with no events
    pub fn new(
        user_id: usize,
        years: Vec<i32>,
        lot_db: Vec<(Id, LotInfo)>,
        transaction_db: Database,
        lx_price_ref: Vec<(UtcTime, Price)>,
    ) -> (h: History)
        ensures
            h.spec_events().len() == 0,
            h.spec_years() == years@,
            h.spec_price_refs() == lx_price_ref@,
            h.spec_lots() == lot_db@,
            h.spec_txs() == transaction_db.spec_txs(),
            h.spec_user_id() == user_id,
    {
        History { user_id, years, lot_db, transaction_db, lx_price_ref, events: TimeMap::new() }
    }

    /// The LX price references
    pub closed spec fn spec_price_refs(self) -> Seq<(UtcTime, Price)> {
        self.lx_price_ref@
    }

    /// The lot information of known coins, by lot ID
    pub closed spec fn spec_lots(self) -> Seq<(Id, LotInfo)> {
        self.lot_db@
    }

    /// The known transactions
    pub closed spec fn spec_txs(self) -> Seq<Transaction> {
        self.transaction_db.spec_txs()
    }

    /// The user ID printed in the LX-style reports
    pub closed spec fn spec_user_id(self) -> usize {
        self.user_id
    }

    /// The user ID printed in the LX-style reports
    pub fn user_id(&self) -> (u: usize)
        ensures
            u == self.spec_user_id(),
    {
        self.user_id
    }

    /// The events of the history, in time order
    pub fn events(&self) -> (r: &Vec<(UtcTime, Event)>)
        ensures
            r@ == self.spec_events(),
    {
        self.events.entries()
    }

    /// Imports a list of withdrawals into the history
    #[verifier::spinoff_prover]
    #[verifier::rlimit(40)]
    pub fn import_withdrawals(&mut self, withdrawals: &Withdrawals)
        ensures
            final(self).spec_events() == insert_all(old(self).spec_events(), withdrawals.data@.map_values(|w: Withdrawal| withdrawal_event(w))),
            final(self).spec_years() == old(self).spec_years(),
            final(self).spec_user_id() == old(self).spec_user_id(),
            final(self).spec_price_refs() == old(self).spec_price_refs(),
    {
        let ws = &withdrawals.data;
        let ghost items = ws@.map_values(|w: Withdrawal| withdrawal_event(w));
        let mut i: usize = 0;
        assert(items.take(0) =~= Seq::<(UtcTime, Event)>::empty());
        while i < ws.len()
            invariant
                i <= ws@.len(),
                items == ws@.map_values(|w: Withdrawal| withdrawal_event(w)),
                self.spec_events() == insert_all(old(self).spec_events(), items.take(i as int)),
                self.spec_years() == old(self).spec_years(),
                self.spec_user_id() == old(self).spec_user_id(),
                self.spec_price_refs() == old(self).spec_price_refs(),
            decreases ws@.len() - i,
        {
            let w = &ws[i];
            let amount = w.amount.with_asset(Asset::from(w.asset));
            self.events.insert(w.created_at, Event::Withdrawal { amount, asset: w.asset });
            proof {
                assert(items.take(i + 1).drop_last() =~= items.take(i as int));
                assert(items.take(i + 1).last() == items[i as int]);
            }
            i = i + 1;
        }
        assert(items.take(ws@.len() as int) =~= items);
    }

    /// The LX price reference at a date (the last one recorded for it)
    fn price_ref(&self, d: &UtcTime) -> (r: Option<Price>)
        ensures
            r == price_ref_at(self.spec_price_refs(), *d),
    {
        let ghost refs = self.lx_price_ref@;
        let mut i: usize = self.lx_price_ref.len();
        assert(refs.take(i as int) =~= refs);
        while i > 0
            invariant
                i <= refs.len(),
                refs == self.lx_price_ref@,
                price_ref_at(refs, *d) == price_ref_at(refs.take(i as int), *d),
            decreases i,
        {
            proof {
                assert(refs.take(i as int).drop_last() =~= refs.take(i - 1));
                assert(refs.take(i as int).last() == refs[i - 1]);
            }
            if self.lx_price_ref[i - 1].0 == *d {
                return Some(self.lx_price_ref[i - 1].1);
            }
            i = i - 1;
        }
        None
    }

    /// Imports a list of positions into the history: each settled option
    /// position gives its expiry and assignment events
    pub fn import_positions(&mut self, positions: &Positions)
        requires
            forall|i: int| 0 <= i < positions.data@.len() ==> position_safe(#[trigger] positions.data@[i]),
        ensures
            final(self).spec_events() == insert_all(old(self).spec_events(), positions_events(positions.data@, old(self).spec_price_refs())),
            final(self).spec_years() == old(self).spec_years(),
            final(self).spec_user_id() == old(self).spec_user_id(),
            final(self).spec_price_refs() == old(self).spec_price_refs(),
    {
        let ps = &positions.data;
        let ghost refs = self.spec_price_refs();
        let mut i: usize = 0;
        assert(ps@.take(0) =~= Seq::<Position>::empty());
        while i < ps.len()
            invariant
                i <= ps@.len(),
                refs == self.spec_price_refs(),
                refs == old(self).spec_price_refs(),
                forall|k: int| 0 <= k < ps@.len() ==> position_safe(#[trigger] ps@[k]),
                self.spec_events() == insert_all(old(self).spec_events(), positions_events(ps@.take(i as int), refs)),
                self.spec_years() == old(self).spec_years(),
                self.spec_user_id() == old(self).spec_user_id(),
            decreases ps@.len() - i,
        {
            let pos = &ps[i];
            let ghost before = self.spec_events();
            proof {
                assert(position_safe(ps@[i as int]));
                assert(ps@.take(i + 1).drop_last() =~= ps@.take(i as int));
                assert(ps@.take(i + 1).last() == ps@[i as int]);
                lemma_insert_all_concat(old(self).spec_events(), positions_events(ps@.take(i as int), refs), position_events(*pos, refs));
            }
            self.import_position(pos);
            i = i + 1;
        }
        assert(ps@.take(ps@.len() as int) =~= ps@);
    }

    /// Imports one position
    fn import_position(&mut self, pos: &Position)
        requires
            position_safe(*pos),
        ensures
            final(self).spec_events() == insert_all(old(self).spec_events(), position_events(*pos, old(self).spec_price_refs())),
            final(self).spec_years() == old(self).spec_years(),
            final(self).spec_user_id() == old(self).spec_user_id(),
            final(self).spec_price_refs() == old(self).spec_price_refs(),
    {
        let ghost items = position_events(*pos, self.spec_price_refs());
        if !pos.has_settled {
            return;
        }
        let option = match pos.contract.as_option() {
            Some(o) => o,
            None => return,
        };
        let (assigned, expired): (i64, i64) = if pos.size > 0 {
            (-pos.assigned_size, -pos.size + pos.assigned_size)
        } else {
            (pos.assigned_size, -pos.size - pos.assigned_size)
        };
        let year = option.expiry.year();
        let date = if year == 2021 {
            option.expiry.forced_to_hour(22)
        } else {
            proof {
                UtcTime::lemma_valid(option.expiry);
            }
            option.expiry.plus_seconds(3600)
        };
        proof {
            if year == 2021 {
                assert(date == option.expiry.spec_at_hour(22));
            }
        }
        let underlying = pos.contract.underlying();
        let ghost start = self.spec_events();
        let ghost exp = (date, Event::Expiry { option, underlying, size: Quantity::Contracts(expired) });
        let ghost e1: Seq<(UtcTime, Event)> = if year == 2021 && expired != 0 { seq![exp] } else { Seq::empty() };
        if year == 2021 && expired != 0 {
            self.events.insert(date, Event::Expiry { option, underlying, size: Quantity::Contracts(expired) });
        }
        assert(self.spec_events() == insert_all(start, e1)) by {
            reveal_with_fuel(insert_all, 2);
            assert(seq![exp].drop_last() =~= Seq::<(UtcTime, Event)>::empty());
        }
        let ghost mid = self.spec_events();
        let ghost asg = (date, Event::Assignment { option, underlying, size: Quantity::Contracts(assigned), price_ref: price_ref_at(self.spec_price_refs(), date) });
        let ghost e2: Seq<(UtcTime, Event)> = if assigned != 0 { seq![asg] } else { Seq::empty() };
        if assigned != 0 {
            let price_ref = self.price_ref(&date);
            self.events.insert(date, Event::Assignment { option, underlying, size: Quantity::Contracts(assigned), price_ref });
        }
        assert(self.spec_events() == insert_all(mid, e2)) by {
            reveal_with_fuel(insert_all, 2);
            assert(seq![asg].drop_last() =~= Seq::<(UtcTime, Event)>::empty());
        }
        let ghost mid2 = self.spec_events();
        let ghost e3: Seq<(UtcTime, Event)> = if year > 2021 && expired != 0 { seq![exp] } else { Seq::empty() };
        if year > 2021 && expired != 0 {
            self.events.insert(date, Event::Expiry { option, underlying, size: Quantity::Contracts(expired) });
        }
        assert(self.spec_events() == insert_all(mid2, e3)) by {
            reveal_with_fuel(insert_all, 2);
            assert(seq![exp].drop_last() =~= Seq::<(UtcTime, Event)>::empty());
        }
        proof {
            lemma_insert_all_concat(start, e1, e2);
            lemma_insert_all_concat(start, e1 + e2, e3);
            assert(items == e1 + e2 + e3);
        }
    }
}

/// Errors importing the account history
#[derive(Clone, Copy, Debug, PartialEq, Eq, Structural)]
pub enum HistoryError {
    /// A trade (by index) is on a contract that is not known
    UnknownContract(usize),
    /// A trade (by index) is on a contract that is not tracked for taxes
    NoTaxAsset(usize),
    /// A deposit (by index) of a negative amount
    NegativeDeposit(usize),
    /// A deposit (by index) to an address that does not parse
    BadAddress(usize),
    /// A deposit (by index) that matches no known transaction output
    NoTransaction(usize),
    /// A deposit (by index) spends an output that is not known
    NoTxOut(usize),
    /// A deposit (by index) comes from a coin without lot information
    NoLotInfo(usize),
}

/// The first contract with the given ID text
pub open spec fn contract_for(cs: Seq<(String, Contract)>, id: Seq<char>) -> Option<ContractView>
    decreases cs.len(),
{
    if cs.len() == 0 {
        None
    } else if cs[0].0@ == id {
        Some(cs[0].1@)
    } else {
        contract_for(cs.drop_first(), id)
    }
}

/// The asset of a contract (for anything but a future)
pub open spec fn contract_asset(c: ContractView) -> Asset {
    match c.ty {
        ContractType::Option { opt, .. } => Asset::Option { underlying: c.underlying, option: opt },
        _ => if c.underlying is Btc { Asset::Btc } else { Asset::Eth },
    }
}

/// The tax asset of a contract, if it is tracked for taxes
pub open spec fn contract_tax_asset(c: ContractView) -> Option<TaxAsset> {
    match c.ty {
        ContractType::Option { opt, .. } => Some(TaxAsset::Option { underlying: c.underlying, option: opt }),
        ContractType::NextDay { .. } => if c.underlying is Btc { Some(TaxAsset::Bitcoin) } else { None },
        _ => None,
    }
}

/// The event of a trade on a contract: its size is in hundredths of a coin
/// for bitcoin and in contracts otherwise, positive for bids and negative
/// for asks; `None` when the contract is not tracked for taxes
pub open spec fn trade_event(t: Trade, c: ContractView) -> Option<(UtcTime, Event)> {
    match contract_tax_asset(c) {
        Some(ta) => {
            let q = t.filled_size.spec_with_asset(contract_asset(c), SATS_PER_CONTRACT as int);
            Some((t.execution_time, Event::Trade {
                asset: ta,
                price: t.filled_price,
                size: if t.side is Bid { q } else { q.spec_neg() },
                fee: t.fee,
            }))
        },
        None => None,
    }
}

/// The event of a trade given the known contracts, if any
pub open spec fn trade_outcome(t: Trade, cs: Seq<(String, Contract)>) -> Option<(UtcTime, Event)> {
    match contract_for(cs, t.contract_id@) {
        Some(c) => trade_event(t, c),
        None => None,
    }
}

/// The index of the first trade that gives no event (or the number of
/// trades)
pub open spec fn first_bad_trade(ts: Seq<Trade>, cs: Seq<(String, Contract)>, i: int) -> int
    decreases ts.len() - i,
{
    if i < 0 || i >= ts.len() {
        ts.len() as int
    } else if trade_outcome(ts[i], cs) is None {
        i
    } else {
        first_bad_trade(ts, cs, i + 1)
    }
}

/// The events of the first `n` trades
pub open spec fn trades_events(ts: Seq<Trade>, cs: Seq<(String, Contract)>, n: int) -> Seq<(UtcTime, Event)> {
    Seq::new(n as nat, |i: int| trade_outcome(ts[i], cs)->0)
}

/// Whether a trade can be imported without a panic: it is not on a future,
/// and its size can be converted and signed
pub open spec fn trade_safe(t: Trade, cs: Seq<(String, Contract)>) -> bool {
    contract_for(cs, t.contract_id@) matches Some(c) ==> {
        &&& !(c.ty is Future)
        &&& contract_tax_asset(c) is Some ==> {
            let a = contract_asset(c);
            let q = t.filled_size.spec_with_asset(a, SATS_PER_CONTRACT as int);
            &&& (a is Btc || a is NextDay) ==> Quantity::fits(t.filled_size.inner * SATS_PER_CONTRACT)
            &&& t.side is Ask ==> q.can_negate()
        }
    }
}

/// The lot information of a coin, by lot ID
pub open spec fn lot_info_for(lots: Seq<(Id, LotInfo)>, id: Seq<char>) -> Option<LotInfo>
    decreases lots.len(),
{
    if lots.len() == 0 {
        None
    } else if lots[0].0@ == id {
        Some(lots[0].1)
    } else {
        lot_info_for(lots.drop_first(), id)
    }
}

/// The lot ID of a coin
pub open spec fn outpoint_id(op: OutPoint) -> Seq<char> {
    txid_prefix_text(op.txid@) + seq!['-'] + decimal_padded(op.vout as nat, 2)
}

/// The deposit events of the inputs (from index `j`) of a single-output
/// deposit transaction: each input's coin becomes a lot of its value,
/// except that the last ones are cut down to what is left of the deposit
/// (the fee). Also the error, for deposit number `idx`, at the first input
/// whose output or lot is not known (the events before it stand).
pub open spec fn inputs_outcome(
    db: Seq<Transaction>,
    lots: Seq<(Id, LotInfo)>,
    ins: Seq<OutPoint>,
    j: int,
    remaining: u64,
    at: UtcTime,
    idx: usize,
) -> (Seq<(UtcTime, Event)>, Option<HistoryError>)
    decreases ins.len() - j,
{
    if j < 0 || j >= ins.len() {
        (Seq::empty(), None)
    } else {
        let op = ins[j];
        match first_txout(db, op) {
            None => (Seq::empty(), Some(HistoryError::NoTxOut(idx))),
            Some(t) => match lot_info_for(lots, outpoint_id(op)) {
                None => (Seq::empty(), Some(HistoryError::NoLotInfo(idx))),
                Some(info) => {
                    let value = db[t].outputs@[op.vout as int].value;
                    let amount = if value > remaining { remaining } else { value };
                    let rest = inputs_outcome(db, lots, ins, j + 1, (remaining - amount) as u64, at, idx);
                    (seq![(at, Event::BtcDeposit { amount_sats: amount, outpoint: op, lot_info: info })] + rest.0, rest.1)
                },
            },
        }
    }
}

/// The events of deposit number `idx`, and the error that stops it if
/// any: dollars are a plain deposit; bitcoin is matched with the first
/// known transaction output of its address and amount, whose coins (for a
/// single-output transaction, the coins it spends; otherwise the output
/// itself) become lots
pub open spec fn deposit_outcome(db: Seq<Transaction>, lots: Seq<(Id, LotInfo)>, d: Deposit, idx: usize) -> (Seq<(UtcTime, Event)>, Option<HistoryError>) {
    match d.asset {
        DepositAsset::Btc => if d.amount.inner < 0 {
            (Seq::empty(), Some(HistoryError::NegativeDeposit(idx)))
        } else {
            match address_script(d.address@) {
                None => (Seq::empty(), Some(HistoryError::BadAddress(idx))),
                Some(script) => match first_deposit_match(db, script, d.amount.inner as u64) {
                    None => (Seq::empty(), Some(HistoryError::NoTransaction(idx))),
                    Some(tn) => {
                        let tx = db[tn.0];
                        if tx.outputs@.len() == 1 {
                            inputs_outcome(db, lots, tx.inputs@, 0, d.amount.inner as u64, d.created_at, idx)
                        } else {
                            let op = OutPoint { txid: tx.txid, vout: tn.1 as u32 };
                            match lot_info_for(lots, outpoint_id(op)) {
                                None => (Seq::empty(), Some(HistoryError::NoLotInfo(idx))),
                                Some(info) => (seq![(d.created_at, Event::BtcDeposit {
                                    amount_sats: d.amount.inner as u64,
                                    outpoint: op,
                                    lot_info: info,
                                })], None),
                            }
                        }
                    },
                },
            }
        },
        DepositAsset::Usd => (seq![(d.created_at, Event::UsdDeposit { amount: Quantity::Cents(d.amount.inner) })], None),
        DepositAsset::Eth => (Seq::empty(), None),
    }
}

/// Whether no deposit of ether is reached from index `i` on, the import
/// stopping at the first deposit that fails
pub open spec fn no_ether_reached(db: Seq<Transaction>, lots: Seq<(Id, LotInfo)>, ds: Seq<Deposit>, i: int) -> bool
    decreases ds.len() - i,
{
    if i < 0 || i >= ds.len() || i > usize::MAX {
        true
    } else {
        &&& !(ds[i].asset is Eth)
        &&& deposit_outcome(db, lots, ds[i], i as usize).1 is None ==> no_ether_reached(db, lots, ds, i + 1)
    }
}

/// Inserting one item is one insertion
pub proof fn lemma_insert_all_one<V>(m: Seq<(UtcTime, V)>, x: (UtcTime, V))
    ensures
        insert_all(m, seq![x]) == m.insert(upper_bound(m, x.0@), x),
{
    assert(seq![x].drop_last() =~= Seq::<(UtcTime, V)>::empty());
    assert(insert_all(m, Seq::<(UtcTime, V)>::empty()) == m);
}

/// A transaction found for an outpoint is the first one
proof fn lemma_txout_found(db: Seq<Transaction>, op: OutPoint)
    requires
        exists|t: int| #[trigger] is_first_txout(db, op, t),
    ensures
        first_txout(db, op) matches Some(t) && is_first_txout(db, op, t),
{
    let t = choose|t: int| #[trigger] is_first_txout(db, op, t);
    lemma_first_txout_unique(db, op, t);
}

/// Imports the inputs (from index `j`) of a single-output deposit
/// transaction as lots, cutting the last ones down to what remains of the
/// deposit
fn import_inputs(
    events: &mut TimeMap<Event>,
    db: &Database,
    lots: &Vec<(Id, LotInfo)>,
    ins: &Vec<OutPoint>,
    j: usize,
    remaining: u64,
    at: UtcTime,
    idx: usize,
) -> (r: Result<(), HistoryError>)
    requires
        j <= ins@.len(),
    ensures
        ({
            let o = inputs_outcome(db.spec_txs(), lots@, ins@, j as int, remaining, at, idx);
            &&& final(events)@ == insert_all(old(events)@, o.0)
            &&& match r { Ok(_) => o.1 is None, Err(e) => o.1 == Some(e) }
        }),
    decreases ins@.len() - j,
{
    if j >= ins.len() {
        assert(insert_all(events@, Seq::<(UtcTime, Event)>::empty()) == events@);
        return Ok(());
    }
    let op = ins[j];
    let txout = match db.find_txout(op) {
        Some(o) => o,
        None => {
            assert(first_txout(db.spec_txs(), op) is None);
            assert(insert_all(events@, Seq::<(UtcTime, Event)>::empty()) == events@);
            return Err(HistoryError::NoTxOut(idx));
        },
    };
    proof {
        lemma_txout_found(db.spec_txs(), op);
    }
    let id = Id::from_outpoint(&op.txid, op.vout);
    let info = match find_lot(lots, &id) {
        Some(info) => info,
        None => {
            assert(insert_all(events@, Seq::<(UtcTime, Event)>::empty()) == events@);
            return Err(HistoryError::NoLotInfo(idx));
        },
    };
    let value = txout.value;
    let amount = if value > remaining { remaining } else { value };
    let ghost before = events@;
    let ev = Event::BtcDeposit { amount_sats: amount, outpoint: op, lot_info: info };
    events.insert(at, ev);
    proof {
        lemma_insert_all_one(before, (at, ev));
    }
    let r = import_inputs(events, db, lots, ins, j + 1, remaining - amount, at, idx);
    proof {
        let rest = inputs_outcome(db.spec_txs(), lots@, ins@, j + 1, (remaining - amount) as u64, at, idx);
        lemma_insert_all_concat(before, seq![(at, ev)], rest.0);
    }
    r
}

/// Imports deposit number `idx`
fn import_deposit(
    events: &mut TimeMap<Event>,
    db: &Database,
    lots: &Vec<(Id, LotInfo)>,
    d: &Deposit,
    idx: usize,
) -> (r: Result<(), HistoryError>)
    requires
        !(d.asset is Eth),
    ensures
        ({
            let o = deposit_outcome(db.spec_txs(), lots@, *d, idx);
            &&& final(events)@ == insert_all(old(events)@, o.0)
            &&& match r { Ok(_) => o.1 is None, Err(e) => o.1 == Some(e) }
        }),
{
    let ghost before = events@;
    assert(insert_all(before, Seq::<(UtcTime, Event)>::empty()) == before);
    match d.asset {
        DepositAsset::Usd => {
            let amount = d.amount.with_asset(Asset::Usd);
            events.insert(d.created_at, Event::UsdDeposit { amount });
            proof {
                lemma_insert_all_one(before, (d.created_at, Event::UsdDeposit { amount }));
            }
            Ok(())
        },
        DepositAsset::Eth => Ok(()),
        DepositAsset::Btc => {
            if d.amount.inner < 0 {
                return Err(HistoryError::NegativeDeposit(idx));
            }
            let total = d.amount.inner as u64;
            let script = match script_of_address(d.address.as_str()) {
                Some(s) => s,
                None => return Err(HistoryError::BadAddress(idx)),
            };
            let (t, vout) = match db.find_tx_for_deposit(&script, total) {
                Some(found) => found,
                None => {
                    assert(first_deposit_match(db.spec_txs(), script@, total) is None);
                    return Err(HistoryError::NoTransaction(idx));
                },
            };
            proof {
                lemma_first_deposit_match_unique(db.spec_txs(), script@, total, t as int, vout as int);
            }
            let tx = db.get(t);
            if tx.outputs.len() == 1 {
                import_inputs(events, db, lots, &tx.inputs, 0, total, d.created_at, idx)
            } else {
                let op = OutPoint { txid: tx.txid, vout };
                let id = Id::from_outpoint(&op.txid, vout);
                match find_lot(lots, &id) {
                    None => Err(HistoryError::NoLotInfo(idx)),
                    Some(info) => {
                        let ev = Event::BtcDeposit { amount_sats: total, outpoint: op, lot_info: info };
                        events.insert(d.created_at, ev);
                        proof {
                            lemma_insert_all_one(before, (d.created_at, ev));
                        }
                        Ok(())
                    },
                }
            }
        },
    }
}

/// The events of the deposits from index `i` on, up to and including the
/// first that fails, and the error of that one if any
pub open spec fn deposits_outcome(db: Seq<Transaction>, lots: Seq<(Id, LotInfo)>, ds: Seq<Deposit>, i: int) -> (Seq<(UtcTime, Event)>, Option<HistoryError>)
    decreases ds.len() - i,
{
    if i < 0 || i >= ds.len() || i > usize::MAX {
        (Seq::empty(), None)
    } else {
        let o = deposit_outcome(db, lots, ds[i], i as usize);
        if o.1 is Some {
            o
        } else {
            let rest = deposits_outcome(db, lots, ds, i + 1);
            (o.0 + rest.0, rest.1)
        }
    }
}

/// The first contract with an ID text is the one at the first index
/// holding it
pub proof fn lemma_contract_for(cs: Seq<(String, Contract)>, id: Seq<char>, j: int)
    requires
        0 <= j <= cs.len(),
        forall|k: int| 0 <= k < j ==> (#[trigger] cs[k]).0@ != id,
        j < cs.len() ==> cs[j].0@ == id,
    ensures
        contract_for(cs, id) == if j < cs.len() { Some(cs[j].1@) } else { None },
    decreases cs.len(),
{
    if cs.len() > 0 && j > 0 {
        let d = cs.drop_first();
        assert forall|k: int| 0 <= k < j - 1 implies (#[trigger] d[k]).0@ != id by {
            assert(d[k] == cs[k + 1]);
        }
        assert(cs[0].0@ != id);
        lemma_contract_for(d, id, j - 1);
    }
}

/// The first lot with an ID is the one at the first index holding it
pub proof fn lemma_lot_info_for(lots: Seq<(Id, LotInfo)>, id: Seq<char>, j: int)
    requires
        0 <= j <= lots.len(),
        forall|k: int| 0 <= k < j ==> (#[trigger] lots[k]).0@ != id,
        j < lots.len() ==> lots[j].0@ == id,
    ensures
        lot_info_for(lots, id) == if j < lots.len() { Some(lots[j].1) } else { None },
    decreases lots.len(),
{
    if lots.len() > 0 && j > 0 {
        let d = lots.drop_first();
        assert forall|k: int| 0 <= k < j - 1 implies (#[trigger] d[k]).0@ != id by {
            assert(d[k] == lots[k + 1]);
        }
        assert(lots[0].0@ != id);
        lemma_lot_info_for(d, id, j - 1);
    }
}

/// The index of the first contract with an ID
fn find_contract(cs: &Vec<(String, Contract)>, id: &String) -> (r: Option<usize>)
    ensures
        contract_for(cs@, id@) == match r { Some(j) => Some(cs@[j as int].1@), None => None },
        r matches Some(j) ==> j < cs@.len() && cs@[j as int].0@ == id@
            && forall|k: int| 0 <= k < j ==> (#[trigger] cs@[k]).0@ != id@,
{
    let mut j: usize = 0;
    while j < cs.len()
        invariant
            j <= cs@.len(),
            forall|k: int| 0 <= k < j ==> (#[trigger] cs@[k]).0@ != id@,
        decreases cs@.len() - j,
    {
        if cs[j].0 == *id {
            proof {
                lemma_contract_for(cs@, id@, j as int);
            }
            return Some(j);
        }
        j = j + 1;
    }
    proof {
        lemma_contract_for(cs@, id@, cs@.len() as int);
    }
    None
}

/// The index of the first lot with an ID
fn find_lot(lots: &Vec<(Id, LotInfo)>, id: &Id) -> (r: Option<LotInfo>)
    ensures
        r == lot_info_for(lots@, id@),
{
    let mut j: usize = 0;
    while j < lots.len()
        invariant
            j <= lots@.len(),
            forall|k: int| 0 <= k < j ==> (#[trigger] lots@[k]).0@ != id@,
        decreases lots@.len() - j,
    {
        if crate::text::chars_eq(&chars_of(lots[j].0.as_str()), &chars_of(id.as_str())) {
            proof {
                lemma_lot_info_for(lots@, id@, j as int);
            }
            return Some(lots[j].1);
        }
        j = j + 1;
    }
    proof {
        lemma_lot_info_for(lots@, id@, lots@.len() as int);
    }
    None
}

/// The index of the first bad trade moves past good trades
pub proof fn lemma_first_bad_trade(ts: Seq<Trade>, cs: Seq<(String, Contract)>, i: int)
    requires
        0 <= i <= ts.len(),
        forall|k: int| 0 <= k < i ==> trade_outcome(#[trigger] ts[k], cs) is Some,
    ensures
        first_bad_trade(ts, cs, 0) == first_bad_trade(ts, cs, i),
        i <= first_bad_trade(ts, cs, i) <= ts.len(),
    decreases i,
{
    lemma_first_bad_trade_range(ts, cs, i);
    if i > 0 {
        lemma_first_bad_trade(ts, cs, i - 1);
    }
}

/// The first bad trade from index `i` is at or after `i`
pub proof fn lemma_first_bad_trade_range(ts: Seq<Trade>, cs: Seq<(String, Contract)>, i: int)
    requires
        0 <= i <= ts.len(),
    ensures
        i <= first_bad_trade(ts, cs, i) <= ts.len(),
    decreases ts.len() - i,
{
    if i < ts.len() && trade_outcome(ts[i], cs) is Some {
        lemma_first_bad_trade_range(ts, cs, i + 1);
    }
}

impl Trades {
    /// Whether the trades can be imported without a panic, up to the first
    /// one that gives no event (see [History::import_trades]): none is on a
    /// future, and each size can be converted and signed
    pub fn importable(&self, contracts: &Vec<(String, Contract)>) -> (b: bool)
        ensures
            b == forall|i: int| 0 <= i <= first_bad_trade(self.data@, contracts@, 0) && i < self.data@.len()
                ==> trade_safe(#[trigger] self.data@[i], contracts@),
    {
        let ts = &self.data;
        let mut i: usize = 0;
        while i < ts.len()
            invariant
                i <= ts@.len(),
                ts@ == self.data@,
                forall|k: int| 0 <= k < i ==> trade_outcome(#[trigger] ts@[k], contracts@) is Some,
                forall|k: int| 0 <= k < i ==> trade_safe(#[trigger] ts@[k], contracts@),
            decreases ts@.len() - i,
        {
            proof {
                lemma_first_bad_trade(ts@, contracts@, i as int);
            }
            let trade = &ts[i];
            let j = match find_contract(contracts, &trade.contract_id) {
                Some(j) => j,
                None => {
                    assert(trade_outcome(ts@[i as int], contracts@) is None);
                    assert(first_bad_trade(ts@, contracts@, i as int) == i);
                    assert(trade_safe(ts@[i as int], contracts@));
                    return true;
                },
            };
            let contract = &contracts[j].1;
            if let ContractType::Future { .. } = contract.ty() {
                assert(!trade_safe(ts@[i as int], contracts@));
                return false;
            }
            if contract.tax_asset().is_none() {
                assert(trade_outcome(ts@[i as int], contracts@) is None);
                assert(first_bad_trade(ts@, contracts@, i as int) == i);
                assert(trade_safe(ts@[i as int], contracts@));
                return true;
            }
            let n = trade.filled_size.inner;
            let ok = match contract.asset() {
                Asset::Option { .. } => match trade.side {
                    Side::Ask => n != i64::MIN,
                    Side::Bid => true,
                },
                _ => -9_223_372_036_854 <= n && n <= 9_223_372_036_854,
            };
            if !ok {
                assert(!trade_safe(ts@[i as int], contracts@));
                return false;
            }
            assert(trade_safe(ts@[i as int], contracts@));
            assert(trade_outcome(ts@[i as int], contracts@) is Some);
            i = i + 1;
        }
        proof {
            lemma_first_bad_trade(ts@, contracts@, ts@.len() as int);
        }
        true
    }
}

impl History {
    /// Imports a list of deposits into the history: dollars as they are,
    /// bitcoin as lots from the known transactions and lot information;
    /// stops with an error at the first deposit that cannot be imported (the
    /// lots that deposit already gave stay)
    pub fn import_deposits(&mut self, deposits: &Deposits) -> (r: Option<Result<(), HistoryError>>)
        ensures
            r is Some <==> no_ether_reached(old(self).spec_txs(), old(self).spec_lots(), deposits.data@, 0),
            ({
                let o = deposits_outcome(old(self).spec_txs(), old(self).spec_lots(), deposits.data@, 0);
                &&& r is Some ==> final(self).spec_events() == insert_all(old(self).spec_events(), o.0)
                &&& r matches Some(r) ==> match r { Ok(_) => o.1 is None, Err(e) => o.1 == Some(e) }
            }),
            final(self).spec_years() == old(self).spec_years(),
            final(self).spec_user_id() == old(self).spec_user_id(),
            final(self).spec_price_refs() == old(self).spec_price_refs(),
            final(self).spec_lots() == old(self).spec_lots(),
            final(self).spec_txs() == old(self).spec_txs(),
    {
        let ds = &deposits.data;
        let ghost db = self.spec_txs();
        let ghost lots = self.spec_lots();
        let ghost mut acc: Seq<(UtcTime, Event)> = Seq::empty();
        assert(insert_all(self.spec_events(), acc) == self.spec_events());
        assert(acc + deposits_outcome(db, lots, ds@, 0).0 =~= deposits_outcome(db, lots, ds@, 0).0);
        let mut i: usize = 0;
        while i < ds.len()
            invariant
                ds@ == deposits.data@,
                i <= ds@.len(),
                db == old(self).spec_txs(),
                lots == old(self).spec_lots(),
                self.spec_txs() == db,
                self.spec_lots() == lots,
                self.spec_years() == old(self).spec_years(),
                self.spec_user_id() == old(self).spec_user_id(),
                self.spec_price_refs() == old(self).spec_price_refs(),
                self.spec_events() == insert_all(old(self).spec_events(), acc),
                deposits_outcome(db, lots, ds@, 0) == (acc + deposits_outcome(db, lots, ds@, i as int).0, deposits_outcome(db, lots, ds@, i as int).1),
                no_ether_reached(db, lots, ds@, 0) == no_ether_reached(db, lots, ds@, i as int),
            decreases ds@.len() - i,
        {
            if let DepositAsset::Eth = ds[i].asset {
                assert(!no_ether_reached(db, lots, ds@, i as int));
                return None;
            }
            let ghost o = deposit_outcome(db, lots, ds@[i as int], i);
            let ghost before = self.spec_events();
            let r = import_deposit(&mut self.events, &self.transaction_db, &self.lot_db, &ds[i], i);
            proof {
                lemma_insert_all_concat(old(self).spec_events(), acc, o.0);
            }
            match r {
                Err(e) => {
                    return Some(Err(e));
                },
                Ok(_) => {},
            }
            proof {
                let rest = deposits_outcome(db, lots, ds@, i + 1);
                assert(acc + (o.0 + rest.0) =~= (acc + o.0) + rest.0);
                acc = acc + o.0;
            }
            i = i + 1;
        }
        assert(acc + Seq::<(UtcTime, Event)>::empty() =~= acc);
        Some(Ok(()))
    }

    /// Imports a list of trades into the history, given the known
    /// contracts by ID; stops with an error at the first trade on an
    /// unknown contract or on one not tracked for taxes
    pub fn import_trades(&mut self, trades: &Trades, contracts: &Vec<(String, Contract)>) -> (r: Result<(), HistoryError>)
        requires
            forall|i: int| 0 <= i <= first_bad_trade(trades.data@, contracts@, 0) && i < trades.data@.len()
                ==> trade_safe(#[trigger] trades.data@[i], contracts@),
        ensures
            ({
                let k = first_bad_trade(trades.data@, contracts@, 0);
                &&& r is Ok <==> k == trades.data@.len()
                &&& r matches Err(e) ==> (e matches HistoryError::UnknownContract(j) && j == k
                    && contract_for(contracts@, trades.data@[k].contract_id@) is None)
                    || (e matches HistoryError::NoTaxAsset(j) && j == k
                    && contract_for(contracts@, trades.data@[k].contract_id@) is Some)
                &&& final(self).spec_events() == insert_all(old(self).spec_events(), trades_events(trades.data@, contracts@, k))
            }),
            final(self).spec_years() == old(self).spec_years(),
            final(self).spec_user_id() == old(self).spec_user_id(),
            final(self).spec_price_refs() == old(self).spec_price_refs(),
    {
        let ts = &trades.data;
        let mut i: usize = 0;
        assert(trades_events(ts@, contracts@, 0) =~= Seq::<(UtcTime, Event)>::empty());
        while i < ts.len()
            invariant
                ts@ == trades.data@,
                i <= ts@.len(),
                forall|k: int| 0 <= k < i ==> trade_outcome(#[trigger] ts@[k], contracts@) is Some,
                forall|j: int| 0 <= j <= first_bad_trade(ts@, contracts@, 0) && j < ts@.len()
                    ==> trade_safe(#[trigger] ts@[j], contracts@),
                self.spec_events() == insert_all(old(self).spec_events(), trades_events(ts@, contracts@, i as int)),
                self.spec_years() == old(self).spec_years(),
                self.spec_user_id() == old(self).spec_user_id(),
                self.spec_price_refs() == old(self).spec_price_refs(),
            decreases ts@.len() - i,
        {
            proof {
                lemma_first_bad_trade(ts@, contracts@, i as int);
            }
            let trade = &ts[i];
            let j = match find_contract(contracts, &trade.contract_id) {
                Some(j) => j,
                None => {
                    proof {
                        assert(trade_outcome(ts@[i as int], contracts@) is None);
                        assert(first_bad_trade(ts@, contracts@, i as int) == i);
                    }
                    return Err(HistoryError::UnknownContract(i));
                },
            };
            let contract = &contracts[j].1;
            proof {
                assert(trade_safe(ts@[i as int], contracts@));
            }
            let asset = contract.asset();
            let tax_asset = match contract.tax_asset() {
                Some(a) => a,
                None => {
                    proof {
                        assert(contract_tax_asset(contracts@[j as int].1@) is None);
                        assert(trade_outcome(ts@[i as int], contracts@) is None);
                        assert(first_bad_trade(ts@, contracts@, i as int) == i);
                    }
                    return Err(HistoryError::NoTaxAsset(i));
                },
            };
            let q = trade.filled_size.with_asset_trade(asset);
            let size = match trade.side {
                Side::Bid => q,
                Side::Ask => q.neg(),
            };
            self.events.insert(trade.execution_time, Event::Trade { asset: tax_asset, price: trade.filled_price, size, fee: trade.fee });
            proof {
                let te = trades_events(ts@, contracts@, i + 1);
                assert(trade_outcome(ts@[i as int], contracts@) is Some);
                assert(te.drop_last() =~= trades_events(ts@, contracts@, i as int));
                assert(te.last() == trade_outcome(ts@[i as int], contracts@)->0);
                assert(te.last() == (trade.execution_time, Event::Trade { asset: tax_asset, price: trade.filled_price, size, fee: trade.fee }));
            }
            i = i + 1;
        }
        proof {
            lemma_first_bad_trade(ts@, contracts@, ts@.len() as int);
        }
        Ok(())
    }
}

} // verus!
