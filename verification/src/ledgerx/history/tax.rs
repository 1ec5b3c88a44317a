//! LedgerX *Tax* History
//!
//! Data structures related to history of tax events, with the specific goal
//! of reproducing LX's CSV files.

use crate::csv::PrintCsv;
use crate::text::string_from_chars;
use crate::units::utc_time::{date_text_at, hms_text_at, push_hms, push_iso_date, MAX_TIMESTAMP};
use crate::ledgerx::history::lot::{generated_id_text, Close, CloseType, CloseView, Lot, LotView, OpenType};
use crate::timemap::{lemma_upper_bound_range, upper_bound, TimeMap};
use crate::option::PutCall;
use crate::units::asset::same_tax_asset;
use crate::units::decimal::{abs_int, decimal_sub, overflow_limit};
use crate::units::{Price, Quantity, TaxAsset, Underlying, UtcTime};
use vstd::prelude::*;

verus! {

/// Wrapper around a date that will output time to the nearest second in
/// RFC 3339 format
#[derive(Copy, Clone, PartialEq, Eq, Debug, Structural)]
pub struct TaxDate(pub UtcTime);

/// The time a tax date is printed at: rounded to the nearest second, where
/// a fraction of exactly half a second (to the microsecond) rounds down
pub open spec fn tax_date_rounded_secs(t: UtcTime) -> int {
    if t.spec_nanos() / 1000 > 500_000 {
        t.spec_secs() + 1
    } else {
        t.spec_secs()
    }
}

/// The text of a tax date: `YYYY-MM-DDTHH:MM:SSZ`, rounded to the second
pub open spec fn tax_date_text(t: UtcTime) -> Seq<char> {
    let secs = tax_date_rounded_secs(t);
    date_text_at(secs) + seq!['T'] + hms_text_at(secs) + seq!['Z']
}

impl TaxDate {
    /// Accessor for the internal timestamp
    pub fn bare_time(&self) -> (t: UtcTime)
        ensures
            t == self.0,
    {
        self.0
    }

    /// Year of this tax date
    pub fn year(&self) -> (y: i32)
        ensures
            y == self.0.spec_date().0,
    {
        self.0.year()
    }

    /// The signed number of nanoseconds from `other` to `self`
    pub fn sub(self, other: TaxDate) -> (d: i128)
        ensures
            d == self.0@ - other.0@,
    {
        self.0.nanos_since(&other.0)
    }

    /// Wraps a timestamp
    pub fn from_time(t: UtcTime) -> (d: TaxDate)
        ensures
            d.0 == t,
    {
        TaxDate(t)
    }

    /// The timestamp, rounded to the nearest second as printed
    pub fn rounded(&self) -> (r: UtcTime)
        requires
            tax_date_rounded_secs(self.0) <= MAX_TIMESTAMP,
        ensures
            r.spec_secs() == tax_date_rounded_secs(self.0),
            r.spec_nanos() == if self.0.spec_nanos() / 1000 > 500_000 { 0 } else { self.0.spec_nanos() },
    {
        let t = self.0;
        proof {
            UtcTime::lemma_valid(t);
        }
        if t.nanosecond() / 1000 > 500_000 {
            match UtcTime::from_parts(t.timestamp() + 1, 0) {
                Some(x) => x,
                None => t,
            }
        } else {
            t
        }
    }
}

impl PrintCsv for TaxDate {
    open spec fn can_print(&self) -> bool {
        tax_date_rounded_secs(self.0) <= MAX_TIMESTAMP
    }

    open spec fn csv_text(&self) -> Seq<char> {
        tax_date_text(self.0)
    }

    fn print(&self) -> (r: String) {
        let t = self.rounded();
        let mut out: Vec<char> = Vec::new();
        push_iso_date(&mut out, &t);
        out.push('T');
        push_hms(&mut out, &t);
        out.push('Z');
        string_from_chars(&out)
    }
}

/// Whether cap gains are short or long term, or 1256 (60% long / 40% short)
#[derive(Copy, Clone, PartialEq, Eq, Debug, Structural)]
pub enum GainType {
    ShortTerm,
    LongTerm,
    Option1256,
}

impl PrintCsv for GainType {
    open spec fn can_print(&self) -> bool {
        true
    }

    open spec fn csv_text(&self) -> Seq<char> {
        match *self {
            GainType::ShortTerm => "Short-term"@,
            GainType::LongTerm => "Long-term"@,
            GainType::Option1256 => "-1256-"@,
        }
    }

    fn print(&self) -> (r: String) {
        match *self {
            GainType::ShortTerm => String::from_str("Short-term"),
            GainType::LongTerm => String::from_str("Long-term"),
            GainType::Option1256 => String::from_str("-1256-"),
        }
    }
}

/// Whether a quantity comes in the unit of an asset's lots: contracts for
/// options, satoshis otherwise (or the unitless zero)
pub open spec fn unit_fits(asset: TaxAsset, q: Quantity) -> bool {
    q is Zero || (if asset is Option { q is Contracts } else { q is Bitcoin })
}

/// Whether a lot may stand in the queue of a position in `asset`
pub open spec fn lot_fits(asset: TaxAsset, l: LotView) -> bool {
    unit_fits(asset, l.quantity) && l.quantity.can_negate()
}

/// The contents of the lots of a queue, with their times
pub open spec fn lots_view(s: Seq<(UtcTime, Lot)>) -> Seq<(UtcTime, LotView)> {
    s.map_values(|e: (UtcTime, Lot)| (e.0, e.1@))
}

/// The contents of a list of closes
pub open spec fn closes_view(s: Seq<Close>) -> Seq<CloseView> {
    s.map_values(|c: Close| c@)
}

/// Whether a position in `quantity` would extend the queue (same sign as
/// its first lot, or the queue is empty)
pub open spec fn same_direction(queue: Seq<(UtcTime, LotView)>, q: Quantity) -> bool {
    queue.len() == 0 || queue[0].1.quantity.spec_same_sign(q)
}

/// The record of closing lot `l` with quantity `q`
pub open spec fn close_record(l: LotView, q: Quantity, price: Price, date: TaxDate, ty: CloseType) -> CloseView {
    CloseView {
        ty,
        synthetic: None,
        open_id: l.id,
        open_original_quantity: l.quantity,
        open_price: l.price,
        open_date: l.date,
        close_price: price,
        close_date: date,
        asset: l.asset,
        quantity: q,
    }
}

/// The result of closing lots from the front of a FIFO queue
pub struct FifoOutcome {
    /// The closes, in order
    pub closes: Seq<CloseView>,
    /// The queue afterwards
    pub queue: Seq<(UtcTime, LotView)>,
    /// The quantity left to close
    pub remaining: Quantity,
    /// Whether the closing stopped before the queue ran out
    pub finished: bool,
    /// Whether a lot of the same sign was met (it is consumed)
    pub failed: bool,
}

/// Closes lots from the front of the queue with quantity `q`: each lot is
/// closed in full while `q` is larger; a smaller `q` closes part of a lot,
/// whose rest goes back in the queue at the lot's time; the closing stops
/// when `q` is used up or the queue runs out. A lot of the same sign as `q`
/// stops it with a failure.
pub open spec fn fifo_close(
    queue: Seq<(UtcTime, LotView)>,
    q: Quantity,
    price: Price,
    date: TaxDate,
    ty: CloseType,
) -> FifoOutcome
    decreases queue.len(),
{
    if queue.len() == 0 {
        FifoOutcome { closes: Seq::empty(), queue, remaining: q, finished: false, failed: false }
    } else {
        let t = queue[0].0;
        let l = queue[0].1;
        let rest = queue.drop_first();
        if l.quantity.spec_same_sign(q) {
            FifoOutcome { closes: Seq::empty(), queue: rest, remaining: q, finished: true, failed: true }
        } else if Lot::is_partial(l.quantity, q) {
            let kept = LotView { quantity: l.quantity.spec_add(q), ..l };
            FifoOutcome {
                closes: seq![close_record(l, q, price, date, ty)],
                queue: rest.insert(upper_bound(rest, t@), (t, kept)),
                remaining: q,
                finished: true,
                failed: false,
            }
        } else {
            let c = close_record(l, l.quantity.spec_neg(), price, date, ty);
            let q2 = q.spec_add(l.quantity);
            if q2.amount() == 0 {
                FifoOutcome { closes: seq![c], queue: rest, remaining: q2, finished: true, failed: false }
            } else {
                let o = fifo_close(rest, q2, price, date, ty);
                FifoOutcome { closes: seq![c] + o.closes, ..o }
            }
        }
    }
}

/// The lot opened in `asset` with quantity `q`, given the ID counter
pub open spec fn new_lot_view(
    asset: TaxAsset,
    q: Quantity,
    price: Price,
    date: TaxDate,
    open_ty: OpenType,
    counter: usize,
) -> LotView {
    LotView {
        id: generated_id_text(if asset is Option { "lx-opt-"@ } else { "lx-btc-"@ }, counter as nat),
        asset,
        quantity: q,
        price,
        date,
        open_ty,
        sort_date: date.0,
    }
}

/// The counter after generating one ID
pub open spec fn counter_next(c: usize) -> usize {
    if c == usize::MAX { 0 } else { (c + 1) as usize }
}

/// A position in a specific asset, represented by a FIFO queue of opening
/// events
#[derive(Debug)]
pub struct Position {
    asset: TaxAsset,
    queue: TimeMap<Lot>,
}

impl Position {
    /// Every lot is in the position's unit; next-day swaps are tracked as
    /// bitcoin and have no positions of their own
    pub open spec fn wf(self) -> bool {
        &&& !(self.spec_asset() is NextDay)
        &&& forall|i: int| 0 <= i < self@.len() ==> lot_fits(self.spec_asset(), #[trigger] self@[i].1)
        &&& forall|i: int| 0 <= i < self@.len() ==> (#[trigger] self@[i]).0 == self@[i].1.sort_date
    }

    /// The asset of the position
    pub closed spec fn spec_asset(self) -> TaxAsset {
        self.asset
    }

    /// The lots of the position, in FIFO order, with their sort times
    pub closed spec fn spec_queue(self) -> Seq<(UtcTime, LotView)> {
        lots_view(self.queue@)
    }

    /// Creates a new empty position
    pub fn new(asset: TaxAsset) -> (p: Self)
        ensures
            p.spec_asset() == asset,
            p@.len() == 0,
    {
        Position { asset, queue: TimeMap::new() }
    }

    /// Accessor for the asset
    pub fn asset(&self) -> (a: TaxAsset)
        ensures
            a == self.spec_asset(),
    {
        self.asset
    }

    /// Whether the position holds no lots
    pub fn is_empty(&self) -> (b: bool)
        ensures
            b == (self@.len() == 0),
    {
        self.queue.is_empty()
    }

    /// Given a quantity, returns whether this position is open in the same
    /// direction, or is empty (so is "open" in both directions)
    pub fn has_same_direction(&self, quantity: Quantity) -> (b: bool)
        ensures
            b == same_direction(self@, quantity),
    {
        let direction = match self.queue.first() {
            Some(e) => e.1.quantity(),
            None => Quantity::Zero,
        };
        direction.has_same_sign(quantity)
    }

    /// Directly inserts a lot at its sort date
    pub fn insert_lot(&mut self, lot: Lot)
        ensures
            final(self).spec_asset() == old(self).spec_asset(),
            final(self)@ == old(self)@.insert(upper_bound(old(self)@, lot@.sort_date@), (lot@.sort_date, lot@)),
    {
        let ghost before = self.queue@;
        let t = lot.sort_date();
        let ghost lv = lot@;
        self.queue.insert(t, lot);
        proof {
            lemma_upper_bound_range(before, t@);
            lemma_lots_view_insert(before, upper_bound(before, t@), (t, lot));
            lemma_upper_bound_view(before, t@);
        }
    }
}

impl View for Position {
    type V = Seq<(UtcTime, LotView)>;

    /// The lots of the position, in FIFO order, with their sort times
    open spec fn view(&self) -> Seq<(UtcTime, LotView)> {
        self.spec_queue()
    }
}

/// Viewing the lots commutes with inserting one
pub proof fn lemma_lots_view_insert(s: Seq<(UtcTime, Lot)>, i: int, e: (UtcTime, Lot))
    requires
        0 <= i <= s.len(),
    ensures
        lots_view(s.insert(i, e)) == lots_view(s).insert(i, (e.0, e.1@)),
{
    assert(lots_view(s.insert(i, e)) =~= lots_view(s).insert(i, (e.0, e.1@)));
}

/// The insertion point does not depend on the lots' contents
pub proof fn lemma_upper_bound_view(s: Seq<(UtcTime, Lot)>, t: int)
    ensures
        upper_bound(s, t) == upper_bound(lots_view(s), t),
    decreases s.len(),
{
    if s.len() > 0 {
        assert(lots_view(s).drop_last() =~= lots_view(s.drop_last()));
        lemma_upper_bound_view(s.drop_last(), t);
    }
}

/// Errors of the position tracker
#[derive(Debug)]
pub enum TaxError {
    /// A lot was met with the same sign as the quantity closing it
    CloseSameSign,
    /// An expiry or assignment of an asset without an open position
    NoPosition,
    /// An expiry or assignment of more than the open position
    LeftOver,
    /// An assignment that left part of the position open
    NotFullyClosed,
}

/// The outcome of the closing so far, followed by the outcome of the rest
pub open spec fn after_closes(done: Seq<CloseView>, o: FifoOutcome) -> FifoOutcome {
    FifoOutcome { closes: done + o.closes, ..o }
}

/// Viewing the lots commutes with dropping the first one
pub proof fn lemma_lots_view_drop_first(s: Seq<(UtcTime, Lot)>)
    requires
        s.len() > 0,
    ensures
        lots_view(s.drop_first()) == lots_view(s).drop_first(),
{
    assert(lots_view(s.drop_first()) =~= lots_view(s).drop_first());
}

/// The result of adding a quantity to a position
pub struct AddOutcome {
    /// The lots afterwards
    pub queue: Seq<(UtcTime, LotView)>,
    /// The closes, in order
    pub closes: Seq<CloseView>,
    /// The lot opened, if any
    pub opened: Option<LotView>,
    /// The ID counter afterwards
    pub counter: usize,
    /// Whether a lot of the same sign stopped the closing
    pub failed: bool,
}

/// Adding `q` to the lots of a position in `asset`: a quantity in the
/// same direction opens a lot; otherwise lots are closed FIFO, and any
/// remainder left when the queue runs out opens a lot.
pub open spec fn position_add(
    queue: Seq<(UtcTime, LotView)>,
    asset: TaxAsset,
    q: Quantity,
    price: Price,
    date: TaxDate,
    open_ty: OpenType,
    close_ty: CloseType,
    counter: usize,
) -> AddOutcome {
    if same_direction(queue, q) {
        let lot = new_lot_view(asset, q, price, date, open_ty, counter);
        AddOutcome {
            queue: queue.insert(upper_bound(queue, date.0@), (date.0, lot)),
            closes: Seq::empty(),
            opened: Some(lot),
            counter: counter_next(counter),
            failed: false,
        }
    } else {
        let o = fifo_close(queue, q, price, date, close_ty);
        if o.failed {
            AddOutcome { queue: o.queue, closes: o.closes, opened: None, counter, failed: true }
        } else if !o.finished && o.remaining.amount() != 0 {
            let lot = new_lot_view(asset, o.remaining, price, date, open_ty, counter);
            AddOutcome {
                queue: o.queue.insert(upper_bound(o.queue, date.0@), (date.0, lot)),
                closes: o.closes,
                opened: Some(lot),
                counter: counter_next(counter),
                failed: false,
            }
        } else {
            AddOutcome { queue: o.queue, closes: o.closes, opened: None, counter, failed: false }
        }
    }
}

/// The contents of an optional lot
pub open spec fn opt_lot_view(l: Option<Lot>) -> Option<LotView> {
    match l {
        Some(x) => Some(x@),
        None => None,
    }
}

impl Position {
    /// Adds a given quantity to the position.
    ///
    /// If the quantity is in the same direction as the existing position,
    /// creates a new lot at the back of the FIFO queue. If it is in an
    /// opposite direction, closes out existing lots. If it runs out of lots
    /// to close, opens a new position with the remainder.
    ///
    /// Returns the close events, if any, and a copy of the new lot, if any.
    pub fn add(
        &mut self,
        quantity: Quantity,
        price: Price,
        date: TaxDate,
        open_ty: OpenType,
        close_ty: CloseType,
        counter: &mut usize,
    ) -> (r: Result<(Vec<Close>, Option<Lot>), TaxError>)
        requires
            old(self).wf(),
            unit_fits(old(self).spec_asset(), quantity),
            quantity.can_negate(),
        ensures
            final(self).wf(),
            ({
                let a = position_add(old(self)@, old(self).spec_asset(), quantity, price, date, open_ty, close_ty, *old(counter));
                &&& a.failed <==> r is Err
                &&& final(self)@ == a.queue
                &&& *final(counter) == a.counter
                &&& r matches Ok((cs, opened)) ==> closes_view(cs@) == a.closes && opt_lot_view(opened) == a.opened
            }),
            final(self).spec_asset() == old(self).spec_asset(),
            same_direction(old(self)@, quantity) ==> {
                &&& r matches Ok((cs, Some(lot)))
                &&& cs@.len() == 0
                &&& lot@ == new_lot_view(old(self).spec_asset(), quantity, price, date, open_ty, *old(counter))
                &&& final(self)@ == old(self)@.insert(upper_bound(old(self)@, date.0@), (date.0, lot@))
                &&& *final(counter) == counter_next(*old(counter))
            },
            !same_direction(old(self)@, quantity) ==> {
                let o = fifo_close(old(self)@, quantity, price, date, close_ty);
                &&& o.failed <==> r is Err
                &&& o.failed ==> final(self)@ == o.queue && *final(counter) == *old(counter)
                &&& r matches Ok((cs, opened)) ==> {
                    &&& closes_view(cs@) == o.closes
                    &&& if !o.finished && o.remaining.amount() != 0 {
                        &&& opened matches Some(lot)
                        &&& lot@ == new_lot_view(old(self).spec_asset(), o.remaining, price, date, open_ty, *old(counter))
                        &&& final(self)@ == o.queue.insert(upper_bound(o.queue, date.0@), (date.0, lot@))
                        &&& *final(counter) == counter_next(*old(counter))
                    } else {
                        &&& opened is None
                        &&& final(self)@ == o.queue
                        &&& *final(counter) == *old(counter)
                    }
                }
            },
    {
        let asset = self.asset;
        if self.has_same_direction(quantity) {
            let new_lot = Lot::new(asset, quantity, price, date, open_ty, counter);
            let copy = new_lot.clone();
            self.insert_lot(copy);
            proof {
                lemma_upper_bound_range(old(self)@, date.0@);
                assert forall|i: int| 0 <= i < self@.len() implies lot_fits(asset, #[trigger] self@[i].1) && self@[i].0 == self@[i].1.sort_date by {
                    let p = upper_bound(old(self)@, date.0@);
                    if i < p {
                        assert(self@[i] == old(self)@[i]);
                    } else if i > p {
                        assert(self@[i] == old(self)@[i - 1]);
                    }
                }
            }
            return Ok((Vec::new(), Some(new_lot)));
        }
        let ghost q0 = quantity;
        let ghost orig = self@;
        let mut remaining = quantity;
        let mut closes: Vec<Close> = Vec::new();
        proof {
            assert(closes_view(closes@) =~= Seq::<CloseView>::empty());
            assert(after_closes(Seq::empty(), fifo_close(orig, q0, price, date, close_ty)) =~= fifo_close(orig, q0, price, date, close_ty));
        }
        while !self.queue.is_empty()
            invariant
                self.wf(),
                self.spec_asset() == asset,
                old(self).spec_asset() == asset,
                unit_fits(asset, remaining),
                !(remaining is Zero),
                remaining.can_negate(),
                *counter == *old(counter),
                orig == old(self)@,
                q0 == quantity,
                !same_direction(orig, q0),
                closes_view(closes@).len() > 0 || (self@ == orig && remaining == q0),
                fifo_close(orig, q0, price, date, close_ty)
                    == after_closes(closes_view(closes@), fifo_close(self@, remaining, price, date, close_ty)),
            decreases self@.len(),
        {
            let ghost cur = self@;
            let ghost cur_raw = self.queue@;
            let popped = self.queue.pop_first();
            let (existing_date, existing_lot) = match popped {
                Some(e) => e,
                None => {
                    proof { assert(false); }
                    return Err(TaxError::CloseSameSign);
                },
            };
            proof {
                lemma_lots_view_drop_first(cur_raw);
                assert(cur[0] == (existing_date, existing_lot@));
                assert(lot_fits(asset, cur[0].1));
                if closes_view(closes@).len() == 0 {
                    assert(!cur[0].1.quantity.spec_same_sign(remaining));
                }
            }
            let existing_qty = existing_lot.quantity();
            let ghost l = existing_lot@;
            let ghost rest = self@;
            proof {
                assert forall|i: int| 0 <= i < rest.len() implies lot_fits(asset, #[trigger] rest[i].1) && rest[i].0 == rest[i].1.sort_date by {
                    assert(rest[i] == cur[i + 1]);
                }
            }
            match existing_lot.close(remaining, price, date, close_ty, None) {
                Err(_) => {
                    proof {
                        assert(closes_view(closes@) + Seq::<CloseView>::empty() =~= closes_view(closes@));
                    }
                    return Err(TaxError::CloseSameSign);
                },
                Ok((close, partial)) => {
                    let ghost before_closes = closes_view(closes@);
                    closes.push(close);
                    proof {
                        assert(closes_view(closes@) =~= before_closes.push(close@));
                    }
                    match partial {
                        Some(kept) => {
                            let ghost kv = kept@;
                            self.insert_lot(kept);
                            proof {
                                lemma_upper_bound_range(rest, existing_date@);
                                let p = upper_bound(rest, existing_date@);
                                assert(before_closes + seq![close@] =~= before_closes.push(close@));
                                assert(kv.sort_date == existing_date);
                                assert forall|i: int| 0 <= i < self@.len() implies lot_fits(asset, #[trigger] self@[i].1) && self@[i].0 == self@[i].1.sort_date by {
                                    if i < p {
                                        assert(self@[i] == rest[i]);
                                    } else if i > p {
                                        assert(self@[i] == rest[i - 1]);
                                    }
                                }
                            }
                            return Ok((closes, None));
                        },
                        None => {
                            remaining = remaining.add(existing_qty);
                            proof {
                                assert(before_closes + seq![close@] =~= before_closes.push(close@));
                            }
                            if !remaining.is_nonzero() {
                                return Ok((closes, None));
                            }
                            proof {
                                let o = fifo_close(rest, remaining, price, date, close_ty);
                                assert(before_closes + (seq![close@] + o.closes) =~= closes_view(closes@) + o.closes);
                            }
                        },
                    }
                },
            }
        }
        proof {
            assert(self@.len() == 0);
        }
        if remaining.is_nonzero() {
            let new_lot = Lot::new(asset, remaining, price, date, open_ty, counter);
            let copy = new_lot.clone();
            self.insert_lot(copy);
            proof {
                assert(closes_view(closes@) + Seq::<CloseView>::empty() =~= closes_view(closes@));
                assert(self@.len() == 1);
                assert(lot_fits(asset, self@[0].1));
            }
            Ok((closes, Some(new_lot)))
        } else {
            proof {
                assert(closes_view(closes@) + Seq::<CloseView>::empty() =~= closes_view(closes@));
            }
            Ok((closes, None))
        }
    }
}

/// The total number of base units held by the lots of a queue
pub open spec fn total_amount(s: Seq<(UtcTime, LotView)>) -> int
    decreases s.len(),
{
    if s.len() == 0 {
        0
    } else {
        s[0].1.quantity.amount() + total_amount(s.drop_first())
    }
}

/// The total number of base units closed by a list of closes
pub open spec fn closed_amount(cs: Seq<CloseView>) -> int
    decreases cs.len(),
{
    if cs.len() == 0 {
        0
    } else {
        cs[0].quantity.amount() + closed_amount(cs.drop_first())
    }
}

/// The amount of the lot opened after a FIFO closing: the remainder, when
/// the queue ran out before it was used up
pub open spec fn opened_amount(o: FifoOutcome) -> int {
    if !o.finished && o.remaining.amount() != 0 { o.remaining.amount() } else { 0 }
}

/// Inserting an entry anywhere adds its amount to the total
pub proof fn lemma_total_insert(s: Seq<(UtcTime, LotView)>, i: int, e: (UtcTime, LotView))
    requires
        0 <= i <= s.len(),
    ensures
        total_amount(s.insert(i, e)) == total_amount(s) + e.1.quantity.amount(),
    decreases s.len(),
{
    if i == 0 {
        assert(s.insert(0, e).drop_first() =~= s);
    } else {
        assert(s.insert(i, e).drop_first() =~= s.drop_first().insert(i - 1, e));
        lemma_total_insert(s.drop_first(), i - 1, e);
    }
}

/// Closes concatenate
pub proof fn lemma_closed_amount_concat(a: Seq<CloseView>, b: Seq<CloseView>)
    ensures
        closed_amount(a + b) == closed_amount(a) + closed_amount(b),
    decreases a.len(),
{
    if a.len() > 0 {
        assert((a + b).drop_first() =~= a.drop_first() + b);
        lemma_closed_amount_concat(a.drop_first(), b);
    } else {
        assert(a + b =~= b);
    }
}

/// Closing lots FIFO conserves the position: the lots left (plus the lot
/// opened with any remainder) hold exactly the old total plus the quantity
/// added, and the closed quantities (plus the opened remainder) make up the
/// quantity added.
pub proof fn law_fifo_conserves(
    queue: Seq<(UtcTime, LotView)>,
    q: Quantity,
    price: Price,
    date: TaxDate,
    ty: CloseType,
    asset: TaxAsset,
)
    requires
        forall|i: int| 0 <= i < queue.len() ==> lot_fits(asset, #[trigger] queue[i].1),
        unit_fits(asset, q),
        !(q is Zero),
        q.can_negate(),
        !fifo_close(queue, q, price, date, ty).failed,
    ensures
        total_amount(fifo_close(queue, q, price, date, ty).queue) + opened_amount(fifo_close(queue, q, price, date, ty))
            == total_amount(queue) + q.amount(),
        closed_amount(fifo_close(queue, q, price, date, ty).closes) + opened_amount(fifo_close(queue, q, price, date, ty))
            == q.amount(),
    decreases queue.len(),
{
    let o = fifo_close(queue, q, price, date, ty);
    if queue.len() > 0 {
        let t = queue[0].0;
        let l = queue[0].1;
        let rest = queue.drop_first();
        assert(lot_fits(asset, queue[0].1));
        if Lot::is_partial(l.quantity, q) {
            let kept = LotView { quantity: l.quantity.spec_add(q), ..l };
            lemma_upper_bound_range(rest, t@);
            lemma_total_insert(rest, upper_bound(rest, t@), (t, kept));
            assert(closed_amount(o.closes.drop_first()) == 0);
        } else {
            let c = close_record(l, l.quantity.spec_neg(), price, date, ty);
            let q2 = q.spec_add(l.quantity);
            if q2.amount() == 0 {
                assert(closed_amount(o.closes.drop_first()) == 0);
            } else {
                assert forall|i: int| 0 <= i < rest.len() implies lot_fits(asset, #[trigger] rest[i].1) by {
                    assert(rest[i] == queue[i + 1]);
                }
                let o2 = fifo_close(rest, q2, price, date, ty);
                law_fifo_conserves(rest, q2, price, date, ty, asset);
                assert(o.closes == seq![c] + o2.closes);
                lemma_closed_amount_concat(seq![c], o2.closes);
                assert(closed_amount(seq![c]) == c.quantity.amount()) by {
                    assert(seq![c].drop_first() =~= Seq::<CloseView>::empty());
                    reveal_with_fuel(closed_amount, 2);
                }
            }
        }
    }
}

/// Opening a lot adds its quantity to the position's total
pub proof fn law_open_adds(queue: Seq<(UtcTime, LotView)>, t: UtcTime, lot: LotView)
    ensures
        total_amount(queue.insert(upper_bound(queue, t@), (t, lot))) == total_amount(queue) + lot.quantity.amount(),
{
    lemma_upper_bound_range(queue, t@);
    lemma_total_insert(queue, upper_bound(queue, t@), (t, lot));
}

/// "Anonymous" enum covering an open or a close
#[derive(Debug)]
pub enum OpenClose {
    Open(Lot),
    Close(Close),
}

/// The contents of an open or a close
pub enum OpenCloseView {
    Open(LotView),
    Close(CloseView),
}

/// Loggable "tax event"
#[derive(Debug)]
pub struct Event {
    pub date: TaxDate,
    pub asset: TaxAsset,
    pub open_close: OpenClose,
}

/// The contents of a tax event
pub struct EventView {
    pub date: TaxDate,
    pub asset: TaxAsset,
    pub open_close: OpenCloseView,
}

/// The contents of a tax event
pub open spec fn event_view(e: Event) -> EventView {
    EventView {
        date: e.date,
        asset: e.asset,
        open_close: match e.open_close {
            OpenClose::Open(l) => OpenCloseView::Open(l@),
            OpenClose::Close(c) => OpenCloseView::Close(c@),
        },
    }
}

/// The contents of a list of tax events
pub open spec fn events_view(s: Seq<Event>) -> Seq<EventView> {
    s.map_values(|e: Event| event_view(e))
}

/// The events logged for some closes and possibly a new lot: each close at
/// its close date, then the new lot at its date
pub open spec fn close_events(closes: Seq<CloseView>, open: Option<LotView>) -> Seq<EventView> {
    closes.map_values(|c: CloseView| EventView { date: c.close_date, asset: c.asset, open_close: OpenCloseView::Close(c) })
        + match open {
            Some(l) => seq![EventView { date: l.date, asset: l.asset, open_close: OpenCloseView::Open(l) }],
            None => Seq::empty(),
        }
}

/// The keys and lots of the positions of a tracker
pub open spec fn positions_view(s: Seq<(TaxAsset, Position)>) -> Seq<(TaxAsset, Seq<(UtcTime, LotView)>)> {
    s.map_values(|e: (TaxAsset, Position)| (e.0, e.1@))
}

/// No two entries are kept under the same asset
pub open spec fn assets_unique<X>(s: Seq<(TaxAsset, X)>) -> bool {
    forall|i: int, j: int| 0 <= i < s.len() && 0 <= j < s.len() && i != j
        ==> !same_tax_asset(#[trigger] s[i].0, #[trigger] s[j].0)
}

/// Tracks positions in multiple assets, recording tax events
#[derive(Debug)]
pub struct PositionTracker {
    positions: Vec<(TaxAsset, Position)>,
    events: Vec<Event>,
    counter: usize,
}

impl PositionTracker {
    /// Every position is well formed and sits under its own asset, and no
    /// two positions are held under the same asset
    pub closed spec fn wf(self) -> bool {
        &&& forall|i: int| 0 <= i < self.positions@.len() ==> {
            &&& (#[trigger] self.positions@[i]).1.wf()
            &&& self.positions@[i].1.spec_asset() == self.positions@[i].0
        }
        &&& assets_unique(self.positions@)
    }

    /// In a well-formed tracker no two positions are held under the same
    /// asset
    pub proof fn lemma_positions_unique(self)
        requires
            self.wf(),
        ensures
            assets_unique(self.spec_positions()),
    {
        let ps = self.spec_positions();
        assert forall|i: int, j: int| 0 <= i < ps.len() && 0 <= j < ps.len() && i != j
            implies !same_tax_asset(#[trigger] ps[i].0, #[trigger] ps[j].0) by {
            assert(ps[i].0 == self.positions@[i].0 && ps[j].0 == self.positions@[j].0);
        }
    }

    /// The positions, each under its asset
    pub closed spec fn spec_positions(self) -> Seq<(TaxAsset, Seq<(UtcTime, LotView)>)> {
        positions_view(self.positions@)
    }

    /// The tax events recorded so far
    pub closed spec fn spec_events(self) -> Seq<EventView> {
        events_view(self.events@)
    }

    /// The number of the next generated lot ID
    pub closed spec fn spec_counter(self) -> usize {
        self.counter
    }

    /// Constructs a new empty position tracker; generated lot IDs start at 1
    pub fn new() -> (t: Self)
        ensures
            t.wf(),
            t.spec_positions().len() == 0,
            t.spec_events().len() == 0,
            t.spec_counter() == 1,
    {
        let t = PositionTracker { positions: Vec::new(), events: Vec::new(), counter: 1 };
        assert(t.spec_positions() =~= Seq::<(TaxAsset, Seq<(UtcTime, LotView)>)>::empty());
        assert(t.spec_events() =~= Seq::<EventView>::empty());
        t
    }

    /// The index of the position of an asset, if there is one
    fn find(&self, asset: &TaxAsset) -> (r: Option<usize>)
        ensures
            r is None <==> forall|j: int| 0 <= j < self.positions@.len() ==> !same_tax_asset(#[trigger] self.positions@[j].0, *asset),
            r matches Some(i) ==> i < self.positions@.len() && same_tax_asset(self.positions@[i as int].0, *asset)
                && forall|j: int| 0 <= j < i ==> !same_tax_asset(#[trigger] self.positions@[j].0, *asset),
    {
        let mut i: usize = 0;
        while i < self.positions.len()
            invariant
                i <= self.positions@.len(),
                forall|j: int| 0 <= j < i ==> !same_tax_asset(#[trigger] self.positions@[j].0, *asset),
            decreases self.positions@.len() - i,
        {
            if self.positions[i].0.same_as(asset) {
                return Some(i);
            }
            i = i + 1;
        }
        None
    }

    /// Logs a set of closes and a new lot, if any, as events; returns the
    /// number of closes
    fn push_events(&mut self, closes: Vec<Close>, open: Option<Lot>) -> (n: usize)
        ensures
            n == closes@.len(),
            final(self).spec_events() == old(self).spec_events() + close_events(
                closes_view(closes@),
                match open { Some(l) => Some(l@), None => None },
            ),
            final(self).spec_positions() == old(self).spec_positions(),
            final(self).spec_counter() == old(self).spec_counter(),
            final(self).wf() == old(self).wf(),
    {
        let n_ret = closes.len();
        let ghost cv = closes_view(closes@);
        let ghost start = events_view(self.events@);
        let mut closes = closes;
        let ghost mapped = cv.map_values(|c: CloseView| EventView { date: c.close_date, asset: c.asset, open_close: OpenCloseView::Close(c) });
        assert(closes_view(closes@) =~= cv.skip(0));
        assert(start =~= start + mapped.take(0));
        while closes.len() > 0
            invariant
                closes@.len() <= cv.len(),
                closes_view(closes@) == cv.skip(cv.len() - closes@.len()),
                events_view(self.events@) == start + mapped.take(cv.len() - closes@.len()),
                mapped.len() == cv.len(),
                forall|i: int| 0 <= i < cv.len() ==> #[trigger] mapped[i] == (EventView { date: cv[i].close_date, asset: cv[i].asset, open_close: OpenCloseView::Close(cv[i]) }),
                self.positions@ == old(self).positions@,
                self.counter == old(self).counter,
            decreases closes@.len(),
        {
            let ghost before_c = closes@;
            let ghost before_e = self.events@;
            let ghost k: int = cv.len() - before_c.len();
            let close = closes.remove(0);
            proof {
                assert(closes_view(before_c)[0] == close@);
                assert(cv.skip(k)[0] == cv[k]);
                assert(close@ == cv[k]);
                assert(closes_view(closes@) =~= closes_view(before_c).drop_first());
                assert(cv.skip(k + 1) =~= cv.skip(k).drop_first());
            }
            let ev = Event { date: close.close_date(), asset: close.asset(), open_close: OpenClose::Close(close) };
            let ghost evv = event_view(ev);
            self.events.push(ev);
            proof {
                assert(events_view(self.events@) =~= events_view(before_e).push(evv));
                assert(mapped.take(k + 1) =~= mapped.take(k).push(mapped[k]));
            }
        }
        assert(mapped.take(cv.len() as int) =~= mapped);
        let ghost mid = events_view(self.events@);
        let ghost ov: Option<LotView> = if open is Some { Some(open->0@) } else { None };
        match open {
            Some(lot) => {
                let ev = Event { date: lot.date(), asset: lot.asset(), open_close: OpenClose::Open(lot) };
                let ghost evv = event_view(ev);
                self.events.push(ev);
                proof {
                    assert(events_view(self.events@) =~= mid.push(evv));
                }
            },
            None => {},
        }
        proof {
            assert(close_events(cv, ov) =~= mapped + match ov {
                Some(l) => seq![EventView { date: l.date, asset: l.asset, open_close: OpenCloseView::Open(l) }],
                None => Seq::<EventView>::empty(),
            });
            assert(self.spec_events() =~= old(self).spec_events() + close_events(cv, ov));
        }
        n_ret
    }

    /// Returns the tax events that have been recorded
    pub fn events(&self) -> (r: &Vec<Event>)
        ensures
            events_view(r@) == self.spec_events(),
    {
        &self.events
    }
}

/// The index of the first position held under the same asset as `a`, or
/// the number of positions when there is none
pub open spec fn first_match<X>(ps: Seq<(TaxAsset, X)>, a: TaxAsset) -> int
    decreases ps.len(),
{
    if ps.len() == 0 {
        0
    } else if same_tax_asset(ps[0].0, a) {
        0
    } else {
        1 + first_match(ps.drop_first(), a)
    }
}

/// The first match is the first index whose key is the same asset
pub proof fn lemma_first_match<X>(ps: Seq<(TaxAsset, X)>, a: TaxAsset, i: int)
    requires
        0 <= i <= ps.len(),
        forall|j: int| 0 <= j < i ==> !same_tax_asset(#[trigger] ps[j].0, a),
        i < ps.len() ==> same_tax_asset(ps[i].0, a),
    ensures
        first_match(ps, a) == i,
    decreases ps.len(),
{
    if ps.len() > 0 && i > 0 {
        let d = ps.drop_first();
        assert forall|j: int| 0 <= j < i - 1 implies !same_tax_asset(#[trigger] d[j].0, a) by {
            assert(d[j] == ps[j + 1]);
        }
        assert(!same_tax_asset(ps[0].0, a));
        lemma_first_match(d, a, i - 1);
    }
}

/// The lots of a key's position before an operation: those of the first
/// position under the same asset, or none when there is no such position
pub open spec fn lots_of(ps: Seq<(TaxAsset, Seq<(UtcTime, LotView)>)>, a: TaxAsset) -> Seq<(UtcTime, LotView)> {
    let i = first_match(ps, a);
    if i < ps.len() { ps[i].1 } else { Seq::empty() }
}

/// The key under which an asset's position is held: the existing key of the
/// same asset, or the asset itself for a new position
pub open spec fn key_of(ps: Seq<(TaxAsset, Seq<(UtcTime, LotView)>)>, a: TaxAsset) -> TaxAsset {
    let i = first_match(ps, a);
    if i < ps.len() { ps[i].0 } else { a }
}

/// The positions with the position of asset `a` set to `queue` (added at
/// the end when there was none)
pub open spec fn set_lots(
    ps: Seq<(TaxAsset, Seq<(UtcTime, LotView)>)>,
    a: TaxAsset,
    queue: Seq<(UtcTime, LotView)>,
) -> Seq<(TaxAsset, Seq<(UtcTime, LotView)>)> {
    let i = first_match(ps, a);
    if i < ps.len() {
        ps.update(i, (ps[i].0, queue))
    } else {
        ps.push((a, queue))
    }
}

/// The positions with the position of asset `a` removed
pub open spec fn remove_lots(
    ps: Seq<(TaxAsset, Seq<(UtcTime, LotView)>)>,
    a: TaxAsset,
) -> Seq<(TaxAsset, Seq<(UtcTime, LotView)>)> {
    let i = first_match(ps, a);
    if i < ps.len() { ps.remove(i) } else { ps }
}

/// The asset and date under which a trade is tracked: a next-day swap is
/// tracked as bitcoin, dated at its expiry date at 21:00 UTC
pub open spec fn trade_tracked_as(asset: TaxAsset, date: TaxDate) -> (TaxAsset, TaxDate) {
    match asset {
        TaxAsset::NextDay { expiry, .. } => (TaxAsset::Bitcoin, TaxDate(expiry.spec_at_hour(21))),
        _ => (asset, date),
    }
}

/// Assets held under the same key have the same kind
pub proof fn lemma_same_asset_kind(k: TaxAsset, a: TaxAsset)
    requires
        same_tax_asset(k, a),
    ensures
        k is Option <==> a is Option,
        k is NextDay <==> a is NextDay,
        k is Bitcoin <==> a is Bitcoin,
{
}

/// The contents of a position tracker: its positions, its events and the
/// number of the next generated lot ID
pub struct TrackerState {
    pub positions: Seq<(TaxAsset, Seq<(UtcTime, LotView)>)>,
    pub events: Seq<EventView>,
    pub counter: usize,
}

/// A trade pushed into the tracker: a next-day swap is tracked as bitcoin
/// at its expiry date, 21:00 UTC; buys open "buy to open" lots and close
/// with "buy back", sells open "sell to open" lots and close with "sell";
/// the events of a successful add are logged. Also whether it succeeded.
pub open spec fn trade_step(st: TrackerState, asset: TaxAsset, quantity: Quantity, price: Price, date: TaxDate) -> (TrackerState, bool) {
    let a = trade_tracked_as(asset, date).0;
    let d = trade_tracked_as(asset, date).1;
    let ps = st.positions;
    let open_ty = if quantity.amount() >= 0 { OpenType::BuyToOpen } else { OpenType::SellToOpen };
    let close_ty = if quantity.amount() >= 0 { CloseType::BuyBack } else { CloseType::Sell };
    let o = position_add(lots_of(ps, a), key_of(ps, a), quantity, price, d, open_ty, close_ty, st.counter);
    (
        TrackerState {
            positions: set_lots(ps, a, o.queue),
            events: if o.failed { st.events } else { st.events + close_events(o.closes, o.opened) },
            counter: o.counter,
        },
        !o.failed,
    )
}

/// An expiry or assignment of `size` of an option at `price`, at its expiry
/// date at 22:00 UTC: there must be a position; the close must be clean and
/// open no lot (and for an assignment leave nothing); an emptied position
/// is removed. Also whether it succeeded.
pub open spec fn settle_step(
    st: TrackerState,
    option: crate::option::Option,
    underlying: Underlying,
    size: Quantity,
    price: Price,
    close_ty: CloseType,
    must_empty: bool,
) -> (TrackerState, bool) {
    let a = TaxAsset::Option { underlying, option };
    let d = TaxDate(option.expiry.spec_at_hour(22));
    let ps = st.positions;
    if first_match(ps, a) == ps.len() {
        (st, false)
    } else {
        let o = position_add(lots_of(ps, a), key_of(ps, a), size, price, d, OpenType::Unknown, close_ty, st.counter);
        if settle_ok(o, must_empty) {
            (
                TrackerState {
                    positions: if o.queue.len() == 0 { remove_lots(ps, a) } else { set_lots(ps, a, o.queue) },
                    events: st.events + close_events(o.closes, None),
                    counter: o.counter,
                },
                true,
            )
        } else {
            (TrackerState { positions: set_lots(ps, a, o.queue), events: st.events, counter: o.counter }, false)
        }
    }
}

/// A lot of bitcoin inserted directly, at its sort date
pub open spec fn lot_step(st: TrackerState, lot: LotView) -> TrackerState {
    let q = lots_of(st.positions, TaxAsset::Bitcoin);
    TrackerState {
        positions: set_lots(st.positions, TaxAsset::Bitcoin, q.insert(upper_bound(q, lot.sort_date@), (lot.sort_date, lot))),
        ..st
    }
}

impl PositionTracker {
    /// The contents of the tracker
    pub open spec fn state(self) -> TrackerState {
        TrackerState { positions: self.spec_positions(), events: self.spec_events(), counter: self.spec_counter() }
    }
}

impl PositionTracker {
    /// Takes the position of an asset out of the tracker (or makes a new
    /// one), with the index it goes back to
    fn take_position(&mut self, asset: &TaxAsset) -> (r: (usize, TaxAsset, Position))
        requires
            old(self).wf(),
            !(*asset is NextDay),
        ensures
            ({
                let ps = old(self).spec_positions();
                let i = first_match(ps, *asset);
                &&& r.0 == i
                &&& 0 <= i <= ps.len()
                &&& r.1 == key_of(ps, *asset)
                &&& r.2@ == lots_of(ps, *asset)
                &&& r.2.spec_asset() == r.1
                &&& r.2.wf()
                &&& same_tax_asset(r.1, *asset)
                &&& i < ps.len() ==> final(self).spec_positions() == ps.remove(i)
                &&& i == ps.len() ==> final(self).spec_positions() == ps
            }),
            final(self).wf(),
            forall|j: int| 0 <= j < final(self).spec_positions().len()
                ==> !same_tax_asset(#[trigger] final(self).spec_positions()[j].0, r.1),
            final(self).spec_events() == old(self).spec_events(),
            final(self).spec_counter() == old(self).spec_counter(),
    {
        let ghost ps = self.positions@;
        match self.find(asset) {
            Some(i) => {
                proof {
                    lemma_first_match(ps, *asset, i as int);
                    assert(positions_view(ps)[i as int].0 == ps[i as int].0);
                    assert forall|j: int| 0 <= j < i implies !same_tax_asset(#[trigger] positions_view(ps)[j].0, *asset) by {
                        assert(positions_view(ps)[j].0 == ps[j].0);
                    }
                    lemma_first_match(positions_view(ps), *asset, i as int);
                }
                let (k, p) = self.positions.remove(i);
                proof {
                    assert(positions_view(self.positions@) =~= positions_view(ps).remove(i as int));
                    assert forall|a: int, b: int| 0 <= a < self.positions@.len() && 0 <= b < self.positions@.len() && a != b
                        implies !same_tax_asset(#[trigger] self.positions@[a].0, #[trigger] self.positions@[b].0) by {
                        let a2 = if a < i { a } else { a + 1 };
                        let b2 = if b < i { b } else { b + 1 };
                        assert(self.positions@[a] == ps[a2] && self.positions@[b] == ps[b2]);
                    }
                    assert forall|j: int| 0 <= j < self.positions@.len() implies !same_tax_asset(#[trigger] self.positions@[j].0, k) by {
                        let j2 = if j < i { j } else { j + 1 };
                        assert(self.positions@[j] == ps[j2]);
                    }
                    assert forall|j: int| 0 <= j < positions_view(self.positions@).len() implies !same_tax_asset(#[trigger] positions_view(self.positions@)[j].0, k) by {
                        assert(positions_view(self.positions@)[j].0 == self.positions@[j].0);
                    }
                    assert forall|j: int| 0 <= j < self.positions@.len() implies {
                        &&& (#[trigger] self.positions@[j]).1.wf()
                        &&& self.positions@[j].1.spec_asset() == self.positions@[j].0
                    } by {
                        if j < i {
                            assert(self.positions@[j] == ps[j]);
                        } else {
                            assert(self.positions@[j] == ps[j + 1]);
                        }
                    }
                    assert(ps[i as int].1.wf());
                }
                (i, k, p)
            },
            None => {
                proof {
                    lemma_first_match(ps, *asset, ps.len() as int);
                    assert forall|j: int| 0 <= j < ps.len() implies !same_tax_asset(#[trigger] positions_view(ps)[j].0, *asset) by {
                        assert(positions_view(ps)[j].0 == ps[j].0);
                    }
                    lemma_first_match(positions_view(ps), *asset, ps.len() as int);
                }
                let p = Position::new(*asset);
                proof {
                    assert(p@ =~= Seq::<(UtcTime, LotView)>::empty());
                    assert forall|j: int| 0 <= j < positions_view(ps).len() implies !same_tax_asset(#[trigger] positions_view(ps)[j].0, *asset) by {
                        assert(positions_view(ps)[j].0 == ps[j].0);
                    }
                }
                (self.positions.len(), *asset, p)
            },
        }
    }

    /// Whether a lot of bitcoin with a quantity can be pushed: it runs in
    /// the direction of the bitcoin position, if there is one
    pub fn bitcoin_same_direction(&self, quantity: Quantity) -> (b: bool)
        ensures
            b == same_direction(lots_of(self.spec_positions(), TaxAsset::Bitcoin), quantity),
    {
        let ghost ps = self.positions@;
        match self.find(&TaxAsset::Bitcoin) {
            Some(i) => {
                proof {
                    assert(positions_view(ps)[i as int].0 == ps[i as int].0);
                    assert forall|j: int| 0 <= j < i implies !same_tax_asset(#[trigger] positions_view(ps)[j].0, TaxAsset::Bitcoin) by {
                        assert(positions_view(ps)[j].0 == ps[j].0);
                    }
                    lemma_first_match(positions_view(ps), TaxAsset::Bitcoin, i as int);
                    assert(positions_view(ps)[i as int].1 == ps[i as int].1@);
                }
                self.positions[i].1.has_same_direction(quantity)
            },
            None => {
                proof {
                    assert forall|j: int| 0 <= j < ps.len() implies !same_tax_asset(#[trigger] positions_view(ps)[j].0, TaxAsset::Bitcoin) by {
                        assert(positions_view(ps)[j].0 == ps[j].0);
                    }
                    lemma_first_match(positions_view(ps), TaxAsset::Bitcoin, ps.len() as int);
                }
                true
            },
        }
    }

    /// Puts a position back at index `i`
    fn put_position(&mut self, i: usize, key: TaxAsset, pos: Position)
        requires
            old(self).wf(),
            pos.wf(),
            pos.spec_asset() == key,
            i <= old(self).spec_positions().len(),
            forall|j: int| 0 <= j < old(self).spec_positions().len()
                ==> !same_tax_asset(#[trigger] old(self).spec_positions()[j].0, key),
        ensures
            final(self).wf(),
            final(self).spec_positions() == old(self).spec_positions().insert(i as int, (key, pos@)),
            final(self).spec_events() == old(self).spec_events(),
            final(self).spec_counter() == old(self).spec_counter(),
    {
        let ghost ps = self.positions@;
        let ghost pv = pos@;
        let ghost e = (key, pos);
        self.positions.insert(i, (key, pos));
        proof {
            assert(self.positions@ == ps.insert(i as int, e));
            assert(positions_view(self.positions@) =~= positions_view(ps).insert(i as int, (key, pv)));
            assert forall|j: int| 0 <= j < self.positions@.len() implies {
                &&& (#[trigger] self.positions@[j]).1.wf()
                &&& self.positions@[j].1.spec_asset() == self.positions@[j].0
            } by {
                if j < i {
                    assert(self.positions@[j] == ps[j]);
                } else if j > i {
                    assert(self.positions@[j] == ps[j - 1]);
                }
            }
            let t = self.positions@;
            assert forall|a: int, b: int| 0 <= a < t.len() && 0 <= b < t.len() && a != b
                implies !same_tax_asset(#[trigger] t[a].0, #[trigger] t[b].0) by {
                if a == i {
                    let b2 = if b < i { b } else { b - 1 };
                    assert(t[b] == ps[b2]);
                    assert(positions_view(ps)[b2].0 == ps[b2].0);
                    assert(!same_tax_asset(positions_view(ps)[b2].0, key));
                } else if b == i {
                    let a2 = if a < i { a } else { a - 1 };
                    assert(t[a] == ps[a2]);
                    assert(positions_view(ps)[a2].0 == ps[a2].0);
                    assert(!same_tax_asset(positions_view(ps)[a2].0, key));
                } else {
                    let a2 = if a < i { a } else { a - 1 };
                    let b2 = if b < i { b } else { b - 1 };
                    assert(t[a] == ps[a2] && t[b] == ps[b2]);
                }
            }
        }
    }

    /// Adds a trade of some asset to the tracker, adjusting positions as
    /// appropriate. A next-day swap is tracked as bitcoin, dated at its
    /// expiry date at 21:00 UTC.
    ///
    /// The lot may add to a position, in which case it is an "open". Or it
    /// may shrink one or more existing lots, in which case it is a "close".
    ///
    /// Returns the number of lots closed.
    pub fn push_trade(&mut self, asset: TaxAsset, quantity: Quantity, price: Price, date: TaxDate) -> (r: Result<usize, TaxError>)
        requires
            old(self).wf(),
            asset matches TaxAsset::NextDay { underlying, .. } ==> underlying is Btc,
            unit_fits(trade_tracked_as(asset, date).0, quantity),
            quantity.can_negate(),
        ensures
            final(self).wf(),
            (final(self).state(), r is Ok) == trade_step(old(self).state(), asset, quantity, price, date),
            ({
                let a = trade_tracked_as(asset, date).0;
                let d = trade_tracked_as(asset, date).1;
                let ps = old(self).spec_positions();
                let open_ty = if quantity.amount() >= 0 { OpenType::BuyToOpen } else { OpenType::SellToOpen };
                let close_ty = if quantity.amount() >= 0 { CloseType::BuyBack } else { CloseType::Sell };
                let o = position_add(lots_of(ps, a), key_of(ps, a), quantity, price, d, open_ty, close_ty, old(self).spec_counter());
                &&& final(self).spec_positions() == set_lots(ps, a, o.queue)
                &&& final(self).spec_counter() == o.counter
                &&& (o.failed <==> r is Err)
                &&& o.failed ==> final(self).spec_events() == old(self).spec_events()
                &&& !o.failed ==> r == Ok::<usize, TaxError>(o.closes.len() as usize)
                    && final(self).spec_events() == old(self).spec_events() + close_events(o.closes, o.opened)
            }),
    {
        let nonneg = quantity.is_nonnegative();
        let open_ty = if nonneg { OpenType::BuyToOpen } else { OpenType::SellToOpen };
        let close_ty = if nonneg { CloseType::BuyBack } else { CloseType::Sell };
        let (a, d) = match asset {
            TaxAsset::NextDay { expiry, .. } => (TaxAsset::Bitcoin, TaxDate::from_time(expiry.forced_to_hour(21))),
            _ => (asset, date),
        };
        let ghost ps = self.spec_positions();
        let (i, key, mut pos) = self.take_position(&a);
        proof {
            lemma_same_asset_kind(key, a);
            assert(i == first_match(ps, a));
            assert((i as int) < ps.len() ==> self.spec_positions() == ps.remove(i as int));
            assert(i as int == ps.len() ==> self.spec_positions() == ps);
        }
        let mut counter = self.counter;
        let res = pos.add(quantity, price, d, open_ty, close_ty, &mut counter);
        self.counter = counter;
        let ghost mid = self.spec_positions();
        self.put_position(i, key, pos);
        proof {
            if (i as int) < ps.len() {
                assert(mid == ps.remove(i as int));
                assert(ps.remove(i as int).insert(i as int, (key, pos@)) =~= ps.update(i as int, (key, pos@)));
            } else {
                assert(mid == ps);
                assert(ps.insert(i as int, (key, pos@)) =~= ps.push((a, pos@)));
            }
        }
        match res {
            Err(e) => Err(e),
            Ok((closes, open)) => {
                let n = self.push_events(closes, open);
                Ok(n)
            },
        }
    }

    /// Directly inserts a lot of bitcoin (a deposit) without attempting any
    /// cancelation. There must be no open position in the opposite direction.
    pub fn push_lot(&mut self, lot: Lot)
        requires
            old(self).wf(),
            lot@.asset is Bitcoin,
            lot_fits(TaxAsset::Bitcoin, lot@),
            same_direction(lots_of(old(self).spec_positions(), TaxAsset::Bitcoin), lot@.quantity),
        ensures
            final(self).wf(),
            final(self).state() == lot_step(old(self).state(), lot@),
            ({
                let ps = old(self).spec_positions();
                let q = lots_of(ps, TaxAsset::Bitcoin);
                final(self).spec_positions() == set_lots(ps, TaxAsset::Bitcoin, q.insert(upper_bound(q, lot@.sort_date@), (lot@.sort_date, lot@)))
            }),
            final(self).spec_events() == old(self).spec_events(),
            final(self).spec_counter() == old(self).spec_counter(),
    {
        let a = lot.asset();
        let ghost ps = self.spec_positions();
        let ghost lv = lot@;
        let (i, key, mut pos) = self.take_position(&a);
        proof {
            lemma_same_asset_kind(key, a);
        }
        let ghost q = pos@;
        pos.insert_lot(lot);
        proof {
            lemma_upper_bound_range(q, lv.sort_date@);
            let p = upper_bound(q, lv.sort_date@);
            assert forall|j: int| 0 <= j < pos@.len() implies lot_fits(key, #[trigger] pos@[j].1) && pos@[j].0 == pos@[j].1.sort_date by {
                if j < p {
                    assert(pos@[j] == q[j]);
                } else if j > p {
                    assert(pos@[j] == q[j - 1]);
                }
            }
        }
        let ghost mid = self.spec_positions();
        self.put_position(i, key, pos);
        proof {
            if (i as int) < ps.len() {
                assert(mid == ps.remove(i as int));
                assert(ps.remove(i as int).insert(i as int, (key, pos@)) =~= ps.update(i as int, (key, pos@)));
            } else {
                assert(mid == ps);
                assert(ps.insert(i as int, (key, pos@)) =~= ps.push((a, pos@)));
            }
        }
    }
}

/// What an expiry or assignment of `size` of an open position does, given
/// the outcome of closing it at the expiry date: the position is removed
/// when the close was clean and left nothing; an opened lot (more expired
/// than held) is an error, as is (for an assignment) a position left open.
pub open spec fn settle_ok(o: AddOutcome, must_empty: bool) -> bool {
    !o.failed && o.opened is None && (!must_empty || o.queue.len() == 0)
}

impl PositionTracker {
    /// Settles `size` of an option position at its expiry date at 22:00 UTC
    /// with price `price`
    fn settle(
        &mut self,
        option: crate::option::Option,
        underlying: Underlying,
        size: Quantity,
        price: Price,
        close_ty: CloseType,
        must_empty: bool,
    ) -> (r: Result<usize, TaxError>)
        requires
            old(self).wf(),
            unit_fits(TaxAsset::Option { underlying, option }, size),
            size.can_negate(),
        ensures
            final(self).wf(),
            (final(self).state(), r is Ok) == settle_step(old(self).state(), option, underlying, size, price, close_ty, must_empty),
            ({
                let a = TaxAsset::Option { underlying, option };
                let d = TaxDate(option.expiry.spec_at_hour(22));
                let ps = old(self).spec_positions();
                let o = position_add(lots_of(ps, a), key_of(ps, a), size, price, d, OpenType::Unknown, close_ty, old(self).spec_counter());
                if first_match(ps, a) == ps.len() {
                    &&& r matches Err(TaxError::NoPosition)
                    &&& final(self).spec_positions() == ps
                    &&& final(self).spec_counter() == old(self).spec_counter()
                    &&& final(self).spec_events() == old(self).spec_events()
                } else {
                    &&& final(self).spec_counter() == o.counter
                    &&& (settle_ok(o, must_empty) <==> r is Ok)
                    &&& !o.failed && o.opened is Some ==> (r matches Err(TaxError::LeftOver))
                    &&& !o.failed && o.opened is None && must_empty && o.queue.len() > 0 ==> (r matches Err(TaxError::NotFullyClosed))
                    &&& !settle_ok(o, must_empty) ==> final(self).spec_positions() == set_lots(ps, a, o.queue)
                        && final(self).spec_events() == old(self).spec_events()
                    &&& settle_ok(o, must_empty) ==> {
                        &&& r == Ok::<usize, TaxError>(o.closes.len() as usize)
                        &&& final(self).spec_positions() == if o.queue.len() == 0 { remove_lots(ps, a) } else { set_lots(ps, a, o.queue) }
                        &&& final(self).spec_events() == old(self).spec_events() + close_events(o.closes, None)
                    }
                }
            }),
    {
        let asset = TaxAsset::Option { underlying, option };
        let expiry = TaxDate::from_time(option.expiry.forced_to_hour(22));
        let ghost ps = self.spec_positions();
        let found = self.find(&asset);
        if found.is_none() {
            proof {
                assert forall|j: int| 0 <= j < ps.len() implies !same_tax_asset(#[trigger] ps[j].0, asset) by {
                    assert(ps[j].0 == self.positions@[j].0);
                }
                lemma_first_match(ps, asset, ps.len() as int);
            }
            return Err(TaxError::NoPosition);
        }
        let (i, key, mut pos) = self.take_position(&asset);
        proof {
            lemma_same_asset_kind(key, asset);
            assert((i as int) < ps.len()) by {
                let k = found->0 as int;
                assert(ps[k].0 == old(self).positions@[k].0);
                assert forall|j: int| 0 <= j < k implies !same_tax_asset(#[trigger] ps[j].0, asset) by {
                    assert(ps[j].0 == old(self).positions@[j].0);
                }
                lemma_first_match(ps, asset, k);
            }
        }
        let mut counter = self.counter;
        let res = pos.add(size, price, expiry, OpenType::Unknown, close_ty, &mut counter);
        self.counter = counter;
        let ghost mid = self.spec_positions();
        match res {
            Err(e) => {
                self.put_position(i, key, pos);
                proof {
                    assert(ps.remove(i as int).insert(i as int, (key, pos@)) =~= ps.update(i as int, (key, pos@)));
                }
                Err(e)
            },
            Ok((closes, open)) => {
                if open.is_some() {
                    self.put_position(i, key, pos);
                    proof {
                        assert(ps.remove(i as int).insert(i as int, (key, pos@)) =~= ps.update(i as int, (key, pos@)));
                    }
                    return Err(TaxError::LeftOver);
                }
                if pos.is_empty() {
                    let n = self.push_events(closes, open);
                    Ok(n)
                } else if must_empty {
                    self.put_position(i, key, pos);
                    proof {
                        assert(ps.remove(i as int).insert(i as int, (key, pos@)) =~= ps.update(i as int, (key, pos@)));
                    }
                    Err(TaxError::NotFullyClosed)
                } else {
                    self.put_position(i, key, pos);
                    proof {
                        assert(ps.remove(i as int).insert(i as int, (key, pos@)) =~= ps.update(i as int, (key, pos@)));
                    }
                    let n = self.push_events(closes, open);
                    Ok(n)
                }
            },
        }
    }

    /// Expires `size` of an option, at its expiry date at 22:00 UTC and
    /// price zero. Returns the number of lots closed.
    pub fn push_expiry(&mut self, option: crate::option::Option, underlying: Underlying, size: Quantity) -> (r: Result<usize, TaxError>)
        requires
            old(self).wf(),
            unit_fits(TaxAsset::Option { underlying, option }, size),
            size.can_negate(),
        ensures
            final(self).wf(),
            (final(self).state(), r is Ok) == settle_step(old(self).state(), option, underlying, size, Price::of_parts((0, 0)), CloseType::Expiry, false),
            ({
                let a = TaxAsset::Option { underlying, option };
                let d = TaxDate(option.expiry.spec_at_hour(22));
                let ps = old(self).spec_positions();
                let o = position_add(lots_of(ps, a), key_of(ps, a), size, Price::spec_zero(), d, OpenType::Unknown, CloseType::Expiry, old(self).spec_counter());
                if first_match(ps, a) == ps.len() {
                    &&& r matches Err(TaxError::NoPosition)
                    &&& final(self).spec_positions() == ps
                    &&& final(self).spec_counter() == old(self).spec_counter()
                    &&& final(self).spec_events() == old(self).spec_events()
                } else {
                    &&& final(self).spec_counter() == o.counter
                    &&& (settle_ok(o, false) <==> r is Ok)
                    &&& !o.failed && o.opened is Some ==> (r matches Err(TaxError::LeftOver))
                    &&& !settle_ok(o, false) ==> final(self).spec_positions() == set_lots(ps, a, o.queue)
                        && final(self).spec_events() == old(self).spec_events()
                    &&& settle_ok(o, false) ==> {
                        &&& r == Ok::<usize, TaxError>(o.closes.len() as usize)
                        &&& final(self).spec_positions() == if o.queue.len() == 0 { remove_lots(ps, a) } else { set_lots(ps, a, o.queue) }
                        &&& final(self).spec_events() == old(self).spec_events() + close_events(o.closes, None)
                    }
                }
            }),
    {
        self.settle(option, underlying, size, Price::zero(), CloseType::Expiry, false)
    }

    /// Assigns `size` of an option, at its expiry date at 22:00 UTC and at
    /// its intrinsic value at the given bitcoin price (from the exchange's
    /// price reference). The position must close completely. Returns the
    /// number of lots closed.
    pub fn push_assignment(
        &mut self,
        option: crate::option::Option,
        underlying: Underlying,
        size: Quantity,
        btc_price: Price,
    ) -> (r: Result<usize, TaxError>)
        requires
            old(self).wf(),
            unit_fits(TaxAsset::Option { underlying, option }, size),
            size.can_negate(),
            abs_int(btc_price@ - option.strike@) <= overflow_limit(),
        ensures
            final(self).wf(),
            (final(self).state(), r is Ok) == settle_step(
                old(self).state(),
                option,
                underlying,
                size,
                Price::of_parts(option.spec_intrinsic_parts(btc_price)),
                CloseType::Exercise,
                true,
            ),
            ({
                let a = TaxAsset::Option { underlying, option };
                let ps = old(self).spec_positions();
                first_match(ps, a) == ps.len() ==> (r matches Err(TaxError::NoPosition))
            }),
    {
        let price = option.intrinsic_value(btc_price);
        self.settle(option, underlying, size, price, CloseType::Exercise, true)
    }
}

/// Whether event `a` sorts after event `b`: both are closes on the same
/// date, and `a`'s lot was opened later. Any other pair compares equal.
pub open spec fn sorts_after(a: EventView, b: EventView) -> bool {
    &&& a.date == b.date
    &&& a.open_close matches OpenCloseView::Close(ca)
    &&& b.open_close matches OpenCloseView::Close(cb)
    &&& ca.open_date.0@ > cb.open_date.0@
}

/// The position at which an event is inserted into a sorted list: before
/// the run of last elements that sort after it
pub open spec fn sort_point(s: Seq<EventView>, e: EventView) -> int
    decreases s.len(),
{
    if s.len() > 0 && sorts_after(s.last(), e) {
        sort_point(s.drop_last(), e)
    } else {
        s.len() as int
    }
}

/// The events in LX's sort order: a stable insertion sort in which an event
/// moves before the events just before it that sort after it
pub open spec fn lx_sorted(s: Seq<EventView>) -> Seq<EventView>
    decreases s.len(),
{
    if s.len() == 0 {
        s
    } else {
        let t = lx_sorted(s.drop_last());
        t.insert(sort_point(t, s.last()), s.last())
    }
}

/// The sort point lies within the list
pub proof fn lemma_sort_point_range(s: Seq<EventView>, e: EventView)
    ensures
        0 <= sort_point(s, e) <= s.len(),
    decreases s.len(),
{
    if s.len() > 0 && sorts_after(s.last(), e) {
        lemma_sort_point_range(s.drop_last(), e);
    }
}

/// Sorting the events keeps exactly the same events: the sorted list is a
/// permutation of the original
pub proof fn law_lx_sort_permutes(s: Seq<EventView>)
    ensures
        lx_sorted(s).to_multiset() == s.to_multiset(),
        lx_sorted(s).len() == s.len(),
    decreases s.len(),
{
    broadcast use vstd::seq_lib::to_multiset_insert, vstd::seq_lib::to_multiset_build;
    if s.len() > 0 {
        let t = lx_sorted(s.drop_last());
        law_lx_sort_permutes(s.drop_last());
        lemma_sort_point_range(t, s.last());
        assert(s.drop_last().push(s.last()) =~= s);
    }
}

/// Sorting is stable: events already in LX's order (no event sorts after
/// a later one) keep their order
pub proof fn law_lx_sort_keeps_order(s: Seq<EventView>)
    requires
        forall|i: int, j: int| 0 <= i < j < s.len() ==> !sorts_after(#[trigger] s[i], #[trigger] s[j]),
    ensures
        lx_sorted(s) == s,
    decreases s.len(),
{
    if s.len() > 0 {
        let d = s.drop_last();
        assert forall|i: int, j: int| 0 <= i < j < d.len() implies !sorts_after(#[trigger] d[i], #[trigger] d[j]) by {
            assert(d[i] == s[i] && d[j] == s[j]);
        }
        law_lx_sort_keeps_order(d);
        if d.len() > 0 {
            assert(d.last() == s[s.len() - 2]);
            assert(!sorts_after(s[s.len() - 2], s[s.len() - 1]));
        }
        assert(sort_point(d, s.last()) == d.len());
        assert(d.insert(d.len() as int, s.last()) =~= s);
    }
}

/// Every event from the sort point on sorts after the inserted event
proof fn lemma_sort_point_tail(s: Seq<EventView>, e: EventView)
    ensures
        forall|i: int| sort_point(s, e) <= i < s.len() ==> sorts_after(#[trigger] s[i], e),
    decreases s.len(),
{
    if s.len() > 0 && sorts_after(s.last(), e) {
        lemma_sort_point_tail(s.drop_last(), e);
        lemma_sort_point_range(s.drop_last(), e);
        assert forall|i: int| sort_point(s, e) <= i < s.len() implies sorts_after(#[trigger] s[i], e) by {
            if i < s.len() - 1 {
                assert(s[i] == s.drop_last()[i]);
            }
        }
    }
}

/// Sorting is stable: the events of any kind that the sort never orders
/// among themselves (such as the opens of one day, or the closes on one
/// day of lots opened at the same time) keep their relative order
pub proof fn law_lx_sort_stable(s: Seq<EventView>, keep: spec_fn(EventView) -> bool)
    requires
        forall|a: EventView, b: EventView| keep(a) && keep(b) ==> !sorts_after(a, b),
    ensures
        lx_sorted(s).filter(keep) == s.filter(keep),
    decreases s.len(),
{
    broadcast use Seq::filter_distributes_over_add, Seq::lemma_filter_push;
    if s.len() > 0 {
        let d = s.drop_last();
        let x = s.last();
        let t = lx_sorted(d);
        law_lx_sort_stable(d, keep);
        let k = sort_point(t, x);
        lemma_sort_point_range(t, x);
        lemma_sort_point_tail(t, x);
        let a = t.take(k);
        let b = t.skip(k);
        assert(t.insert(k, x) =~= a + seq![x] + b);
        assert(t =~= a + b);
        assert(seq![x] =~= Seq::<EventView>::empty().push(x));
        assert(Seq::<EventView>::empty().filter(keep) =~= Seq::<EventView>::empty()) by {
            Seq::<EventView>::empty().lemma_filter_len(keep);
        }
        if keep(x) {
            assert(b.filter(keep) =~= Seq::<EventView>::empty()) by {
                assert forall|i: int| 0 <= i < b.len() implies !keep(#[trigger] b[i]) by {
                    assert(b[i] == t[k + i]);
                    assert(sorts_after(t[k + i], x));
                }
                b.lemma_all_neg_filter_empty(keep);
            }
        }
        assert(d.push(x) =~= s);
    }
}

/// Just before the sort point, the event does not sort after the inserted one
proof fn lemma_sort_point_stop(s: Seq<EventView>, e: EventView)
    ensures
        sort_point(s, e) > 0 ==> !sorts_after(s[sort_point(s, e) - 1], e),
    decreases s.len(),
{
    if s.len() > 0 && sorts_after(s.last(), e) {
        lemma_sort_point_stop(s.drop_last(), e);
        lemma_sort_point_range(s.drop_last(), e);
        let k = sort_point(s.drop_last(), e);
        if k > 0 {
            assert(s.drop_last()[k - 1] == s[k - 1]);
        }
    }
}

/// The events of each date form one unbroken run
pub open spec fn dates_contiguous(s: Seq<EventView>) -> bool {
    forall|i: int, j: int, k: int|
        #![trigger s[i], s[j], s[k]]
        0 <= i < j < k < s.len() && s[i].date == s[k].date ==> s[j].date == s[i].date
}

/// Events that share a date are all closes
pub open spec fn shared_dates_closes(s: Seq<EventView>) -> bool {
    forall|i: int, j: int|
        0 <= i < s.len() && 0 <= j < s.len() && i != j && (#[trigger] s[i]).date == (#[trigger] s[j]).date
            ==> s[i].open_close is Close && s[j].open_close is Close
}

/// No event sorts after a later one: within a date, the closes come in
/// order of the opening of their lots
pub open spec fn lx_in_order(s: Seq<EventView>) -> bool {
    forall|i: int, j: int| 0 <= i < j < s.len() ==> !sorts_after(#[trigger] s[i], #[trigger] s[j])
}

/// Where the events of each date form one run and every run of two or
/// more events is made of closes, sorting puts the closes of each date in
/// order of the opening of their lots, and the dates stay where they were
pub proof fn law_lx_sort_orders_runs(s: Seq<EventView>)
    requires
        dates_contiguous(s),
        shared_dates_closes(s),
    ensures
        lx_in_order(lx_sorted(s)),
        lx_sorted(s).len() == s.len(),
        forall|i: int| 0 <= i < s.len() ==> (#[trigger] lx_sorted(s)[i]).date == s[i].date,
    decreases s.len(),
{
    if s.len() > 0 {
        let d = s.drop_last();
        let x = s.last();
        let n = d.len() as int;
        assert forall|i: int, j: int, k: int|
            #![trigger d[i], d[j], d[k]]
            0 <= i < j < k < d.len() && d[i].date == d[k].date implies d[j].date == d[i].date by {
            assert(d[i] == s[i] && d[j] == s[j] && d[k] == s[k]);
        }
        assert forall|i: int, j: int|
            0 <= i < d.len() && 0 <= j < d.len() && i != j && (#[trigger] d[i]).date == (#[trigger] d[j]).date
            implies d[i].open_close is Close && d[j].open_close is Close by {
            assert(d[i] == s[i] && d[j] == s[j]);
        }
        law_lx_sort_orders_runs(d);
        let t = lx_sorted(d);
        let k = sort_point(t, x);
        lemma_sort_point_range(t, x);
        lemma_sort_point_tail(t, x);
        lemma_sort_point_stop(t, x);
        let u = t.insert(k, x);
        assert(lx_sorted(s) == u);
        assert forall|m: int| 0 <= m < s.len() implies (#[trigger] u[m]).date == s[m].date by {
            if m < k {
                assert(u[m] == t[m] && d[m] == s[m]);
            } else if m == k {
                if k < n {
                    assert(sorts_after(t[k], x));
                    assert(d[k] == s[k]);
                }
            } else {
                assert(u[m] == t[m - 1]);
                assert(sorts_after(t[m - 1], x));
                if m < n {
                    assert(sorts_after(t[m], x));
                    assert(d[m] == s[m]);
                }
            }
        }
        assert forall|i: int, j: int| 0 <= i < j < u.len() implies !sorts_after(#[trigger] u[i], #[trigger] u[j]) by {
            if j < k {
                assert(u[i] == t[i] && u[j] == t[j]);
                assert(!sorts_after(t[i], t[j]));
            } else if j == k {
                assert(u[i] == t[i] && u[j] == x);
                if sorts_after(t[i], x) {
                    assert(i != k - 1);
                    assert(t[i].date == s[i].date && d[i] == s[i]);
                    assert(t[k - 1].date == s[k - 1].date && d[k - 1] == s[k - 1]);
                    assert(s[i].date == s[n].date);
                    assert(s[k - 1].date == s[i].date);
                    assert(x == s[n]);
                    let e = t[k - 1];
                    assert(e.date == x.date);
                    law_lx_sort_permutes(d);
                    vstd::seq_lib::to_multiset_contains(t, e);
                    vstd::seq_lib::to_multiset_contains(d, e);
                    assert(t.contains(e));
                    assert(d.contains(e));
                    let j0 = choose|j0: int| 0 <= j0 < d.len() && d[j0] == e;
                    assert(d[j0] == s[j0]);
                    assert(s[j0].open_close is Close);
                    assert(!sorts_after(t[i], t[k - 1]));
                    assert(false);
                }
            } else if i < k {
                assert(u[i] == t[i] && u[j] == t[j - 1]);
                assert(!sorts_after(t[i], t[j - 1]));
            } else if i == k {
                assert(u[i] == x && u[j] == t[j - 1]);
                assert(sorts_after(t[j - 1], x));
            } else {
                assert(u[i] == t[i - 1] && u[j] == t[j - 1]);
                assert(!sorts_after(t[i - 1], t[j - 1]));
            }
        }
    }
}

impl PositionTracker {
    /// Whether event `a` sorts after event `b`
    fn event_sorts_after(a: &Event, b: &Event) -> (r: bool)
        ensures
            r == sorts_after(event_view(*a), event_view(*b)),
    {
        if a.date != b.date {
            return false;
        }
        match (&a.open_close, &b.open_close) {
            (OpenClose::Close(ca), OpenClose::Close(cb)) => cb.open_date().0.lt(&ca.open_date().0),
            _ => false,
        }
    }

    /// Sorts the tax events to match LX's sort order
    ///
    /// Entries are sorted by their occurence, which matches LX, but when
    /// things expire, many expiries may happen simultaneously. In this case
    /// they are sorted by the date of the expired position being *opened*.
    pub fn lx_sort_events(&mut self)
        ensures
            final(self).spec_events() == lx_sorted(old(self).spec_events()),
            final(self).spec_positions() == old(self).spec_positions(),
            final(self).spec_counter() == old(self).spec_counter(),
            final(self).wf() == old(self).wf(),
    {
        let ghost orig = events_view(self.events@);
        let mut events: Vec<Event> = Vec::new();
        std::mem::swap(&mut events, &mut self.events);
        let mut sorted: Vec<Event> = Vec::new();
        let mut n: usize = 0;
        let total = events.len();
        let mut remaining = events;
        proof {
            assert(events_view(remaining@) =~= orig.skip(0));
            assert(orig.take(0) =~= Seq::<EventView>::empty());
            assert(events_view(sorted@) =~= lx_sorted(orig.take(0)));
        }
        while remaining.len() > 0
            invariant
                total == orig.len(),
                n + remaining@.len() == total,
                events_view(remaining@) == orig.skip(n as int),
                events_view(sorted@) == lx_sorted(orig.take(n as int)),
                self.positions@ == old(self).positions@,
                self.counter == old(self).counter,
            decreases remaining@.len(),
        {
            let ghost before_r = remaining@;
            let e = remaining.remove(0);
            proof {
                assert(events_view(before_r)[0] == event_view(e));
                assert(orig.skip(n as int)[0] == orig[n as int]);
                assert(events_view(remaining@) =~= events_view(before_r).drop_first());
                assert(orig.skip(n + 1) =~= orig.skip(n as int).drop_first());
            }
            let ghost sv = events_view(sorted@);
            let ghost ev = event_view(e);
            let mut j: usize = sorted.len();
            assert(sv.take(j as int) =~= sv);
            while j > 0 && Self::event_sorts_after(&sorted[j - 1], &e)
                invariant
                    j <= sorted@.len(),
                    sv == events_view(sorted@),
                    ev == event_view(e),
                    sort_point(sv, ev) == sort_point(sv.take(j as int), ev),
                decreases j,
            {
                proof {
                    assert(sv.take(j as int).drop_last() =~= sv.take(j - 1));
                    assert(sv.take(j as int).last() == sv[j - 1]);
                }
                j = j - 1;
            }
            proof {
                if j > 0 {
                    assert(sv.take(j as int).last() == sv[j - 1]);
                }
                assert(sv.take(sv.len() as int) =~= sv);
                assert(sort_point(sv, ev) == j);
                assert(orig.take(n + 1).drop_last() =~= orig.take(n as int));
                assert(orig.take(n + 1).last() == ev);
            }
            sorted.insert(j, e);
            proof {
                assert(events_view(sorted@) =~= sv.insert(j as int, ev));
            }
            n = n + 1;
        }
        proof {
            assert(orig.take(total as int) =~= orig);
        }
        self.events = sorted;
    }
}

} // verus!
