//! LedgerX
//!
//! Data structures for the LedgerX exchange: contracts, the data feed, order
//! books, and the account history used for tax reporting.

pub mod book;
pub mod contract;
pub mod csv;
pub mod datafeed;
pub mod history;
pub mod interesting;
pub mod json;
pub mod own_orders;
pub mod price_tracker;

use crate::ledgerx::book::{book_inserted, BookState};
use crate::ledgerx::contract::{Contract, ContractId, Type};
use crate::ledgerx::datafeed::{signed_size, MessageId, Order};
use crate::ledgerx::history::contract_asset;
use crate::ledgerx::own_orders::{customer_check, order_change, tracker_step, OrderChange, Tracker};
use crate::price::BitcoinPrice;
use crate::units::{Price, Underlying, UnknownQuantity, UtcTime};
use std::collections::HashMap;
use vstd::std_specs::hash::spec_keys_iter;
use vstd::std_specs::iter::IteratorSpec;
use vstd::prelude::*;

verus! {

broadcast use vstd::std_specs::hash::group_hash_axioms;

/// What became of an order message
#[derive(Debug)]
pub enum OrderResponse {
    /// This order was our own
    OursOk,
    /// This order was our own and it was filled!
    OursFilled,
    /// Update was accepted into order book; no new interesting info
    OtherTracked,
    /// Order was ignored because it was a non-BTC order or otherwise
    /// categorically ignored.
    OtherUntracked,
    /// Order was ignored because we didn't know the contract
    UnknownContract(Order),
}

/// The key under which a contract is kept
pub open spec fn key_of(id: ContractId) -> usize {
    id.0
}

/// Whether the tracked contracts are well formed: each is kept under its
/// own ID, none is a future, and each book counts in its contract's asset
pub open spec fn entries_wf(m: Map<usize, (Contract, BookState)>) -> bool {
    &&& forall|k: usize| #[trigger] m.contains_key(k) ==> m[k].0@.id == ContractId(k)
    &&& forall|k: usize| #[trigger] m.contains_key(k) ==> !(m[k].0@.ty is Future)
    &&& forall|k: usize| #[trigger] m.contains_key(k) ==> m[k].1.spec_asset() == contract_asset(m[k].0@)
}

/// The tracker after an order message, and the response: orders on
/// unknown contracts, and on contracts of other coins than bitcoin, are
/// not taken; the order goes into the book of its contract, and an own
/// order (one with a customer ID) is tracked too
pub open spec fn ledger_step(old: LedgerX, new: LedgerX, order: Order, r: OrderResponse) -> bool {
    let s = old.spec_contracts();
    let t = new.spec_contracts();
    let k = key_of(order.contract_id);
    let tracker = old.spec_own_orders();
    &&& new.spec_price_ref() == old.spec_price_ref()
    &&& new.spec_usd() == old.spec_usd()
    &&& new.spec_btc() == old.spec_btc()
    &&& if !s.contains_key(k) {
        r matches OrderResponse::UnknownContract(o) && o == order
            && t == s && new.spec_own_orders() == tracker
    } else if !(s[k].0@.underlying is Btc) {
        r is OtherUntracked && t == s && new.spec_own_orders() == tracker
    } else {
        let change = order_change(tracker.spec_orders(), s[k].0@, order);
        &&& t.contains_key(k)
        &&& t == s.insert(k, (s[k].0, t[k].1))
        &&& book_inserted(s[k].1, t[k].1, order)
        &&& if order.customer_id is Some {
            &&& tracker_step(tracker, new.spec_own_orders(), s[k].0@, order,
                (customer_check(tracker.spec_my_id(), order.customer_id), change))
            &&& (r is OursFilled <==> change is Filled)
            &&& (r is OursFilled || r is OursOk)
        } else {
            r is OtherTracked && new.spec_own_orders() == tracker
        }
    }
}

/// The tracker with the book of a contract emptied, if it is tracked
pub open spec fn book_reset(old: LedgerX, new: LedgerX, id: ContractId) -> bool {
    let s = old.spec_contracts();
    let t = new.spec_contracts();
    let k = key_of(id);
    &&& new.spec_own_orders() == old.spec_own_orders()
    &&& new.spec_price_ref() == old.spec_price_ref()
    &&& new.spec_usd() == old.spec_usd()
    &&& new.spec_btc() == old.spec_btc()
    &&& if !s.contains_key(k) {
        t == s
    } else {
        &&& t.contains_key(k)
        &&& t == s.insert(k, (s[k].0, t[k].1))
        &&& t[k].1.spec_asset() == s[k].1.spec_asset()
        &&& t[k].1.spec_bids().len() == 0
        &&& t[k].1.spec_asks().len() == 0
    }
}

/// The order of a book-state entry seen at a given time
pub open spec fn book_state_order(b: json::BookState, time: UtcTime) -> Order {
    Order {
        size: UnknownQuantity { inner: signed_size(b.is_ask, b.size as int) as i64 },
        filled_size: UnknownQuantity { inner: 0 },
        filled_price: Price::spec_zero(),
        price: b.price,
        contract_id: b.contract_id,
        customer_id: None,
        message_id: MessageId(b.mid),
        timestamp: time,
        updated_timestamp: time,
    }
}

/// Tracker for the state of the entire LX book
#[derive(Debug)]
pub struct LedgerX {
    contracts: HashMap<usize, (Contract, BookState)>,
    price_ref: BitcoinPrice,
    own_orders: Tracker,
    available_usd: Price,
    available_btc: u64,
}

impl LedgerX {
    /// Whether the tracked contracts are well formed
    pub closed spec fn wf(self) -> bool {
        entries_wf(self.contracts@)
    }

    /// The tracked contracts, each with its order book
    pub closed spec fn spec_contracts(self) -> Map<usize, (Contract, BookState)> {
        self.contracts@
    }

    /// The own orders
    pub closed spec fn spec_own_orders(self) -> Tracker {
        self.own_orders
    }

    /// The bitcoin price reference
    pub closed spec fn spec_price_ref(self) -> BitcoinPrice {
        self.price_ref
    }

    /// The available dollars
    pub closed spec fn spec_usd(self) -> Price {
        self.available_usd
    }

    /// The available bitcoin, in satoshis
    pub closed spec fn spec_btc(self) -> u64 {
        self.available_btc
    }

    /// Create a new empty LX tracker
    pub fn new(btc_price: BitcoinPrice) -> (l: LedgerX)
        ensures
            l.wf(),
            l.spec_contracts() == Map::<usize, (Contract, BookState)>::empty(),
            l.spec_own_orders().spec_my_id() is None,
            l.spec_own_orders().spec_orders() == Map::<Seq<u8>, Order>::empty(),
            l.spec_price_ref() == btc_price,
            l.spec_usd() == Price::spec_zero(),
            l.spec_btc() == 0,
    {
        LedgerX {
            contracts: HashMap::new(),
            price_ref: btc_price,
            own_orders: Tracker::new(),
            available_usd: Price::zero(),
            available_btc: 0,
        }
    }

    /// Sets the "available balances" counters; returns whether they changed
    pub fn set_balances(&mut self, usd: Price, btc: u64) -> (changed: bool)
        ensures
            changed == (old(self).spec_usd()@ != usd@ || old(self).spec_btc() != btc),
            final(self).spec_usd() == usd,
            final(self).spec_btc() == btc,
            final(self).spec_contracts() == old(self).spec_contracts(),
            final(self).spec_own_orders() == old(self).spec_own_orders(),
            final(self).spec_price_ref() == old(self).spec_price_ref(),
            final(self).wf() == old(self).wf(),
    {
        let changed = !self.available_usd.value_eq(&usd) || self.available_btc != btc;
        self.available_usd = usd;
        self.available_btc = btc;
        changed
    }

    /// Reduces the available balances on the assumption that a
    /// recently-opened order will be taken; returns whether anything was
    /// docked. Until the next [`LedgerX::set_balances`] the balances are
    /// then too low rather than too high, which errs on the side of making
    /// fewer trades.
    pub fn preemptively_dock_balances(available_usd: &mut Price, available_btc: &mut u64, usd: Price, btc: u64) -> (docked: bool)
        requires
            old(available_usd).can_sub(usd),
            btc <= *old(available_btc),
        ensures
            *final(available_usd) == Price::of_parts(crate::units::decimal::decimal_sub(
                old(available_usd).mant(),
                old(available_usd).scl(),
                usd.mant(),
                usd.scl(),
            )),
            *final(available_btc) == *old(available_btc) - btc,
            docked == (usd@ != 0 || btc != 0),
    {
        *available_usd = available_usd.sub(&usd);
        *available_btc = *available_btc - btc;
        !usd.is_zero() || btc != 0
    }

    /// Updates the price reference.
    pub fn set_current_price(&mut self, price: BitcoinPrice)
        ensures
            final(self).spec_price_ref() == price,
            final(self).spec_contracts() == old(self).spec_contracts(),
            final(self).spec_own_orders() == old(self).spec_own_orders(),
            final(self).spec_usd() == old(self).spec_usd(),
            final(self).spec_btc() == old(self).spec_btc(),
            final(self).wf() == old(self).wf(),
    {
        self.price_ref = price;
    }

    /// Add a new contract to the tracker, with an empty book (a contract
    /// already tracked under its ID is replaced)
    pub fn add_contract(&mut self, c: Contract)
        requires
            old(self).wf(),
            !(c@.ty is Future),
        ensures
            final(self).wf(),
            ({
                let k = key_of(c@.id);
                let t = final(self).spec_contracts();
                &&& t.contains_key(k)
                &&& t == old(self).spec_contracts().insert(k, (c, t[k].1))
                &&& t[k].1.spec_asset() == contract_asset(c@)
                &&& t[k].1.spec_bids().len() == 0
                &&& t[k].1.spec_asks().len() == 0
            }),
            final(self).spec_own_orders() == old(self).spec_own_orders(),
            final(self).spec_price_ref() == old(self).spec_price_ref(),
            final(self).spec_usd() == old(self).spec_usd(),
            final(self).spec_btc() == old(self).spec_btc(),
    {
        let asset = c.asset();
        let id = c.id();
        let book = BookState::new(asset);
        let ghost entry = (c, book);
        self.contracts.insert(id.0, (c, book));
        assert(self.contracts@ =~= old(self).contracts@.insert(id.0, entry));
    }

    /// Remove a contract from the tracker; gives it back if it was tracked
    pub fn remove_contract(&mut self, c_id: ContractId) -> (r: Option<Contract>)
        requires
            old(self).wf(),
        ensures
            final(self).wf(),
            ({
                let s = old(self).spec_contracts();
                let k = key_of(c_id);
                if s.contains_key(k) {
                    r == Some(s[k].0) && final(self).spec_contracts() == s.remove(k)
                } else {
                    r is None && final(self).spec_contracts() == s
                }
            }),
            final(self).spec_own_orders() == old(self).spec_own_orders(),
            final(self).spec_price_ref() == old(self).spec_price_ref(),
            final(self).spec_usd() == old(self).spec_usd(),
            final(self).spec_btc() == old(self).spec_btc(),
    {
        match self.contracts.remove(&c_id.0) {
            Some((c, _book)) => Some(c),
            None => {
                assert(self.contracts@ =~= old(self).contracts@);
                None
            },
        }
    }

    /// Inserts a new order into the book of its contract. Orders on unknown
    /// contracts, and on contracts of other coins than bitcoin, are not
    /// taken. An own order (one with a customer ID) is tracked too.
    pub fn insert_order(&mut self, order: Order) -> (r: OrderResponse)
        requires
            old(self).wf(),
        ensures
            final(self).wf(),
            ledger_step(*old(self), *final(self), order, r),
    {
        let ghost s = self.contracts@;
        let key = order.contract_id.0;
        let (contract, mut book) = match self.contracts.remove(&key) {
            Some(entry) => entry,
            None => {
                assert(self.contracts@ =~= s);
                return OrderResponse::UnknownContract(order);
            },
        };
        if contract.underlying() != Underlying::Btc {
            self.contracts.insert(key, (contract, book));
            assert(self.contracts@ =~= s);
            return OrderResponse::OtherUntracked;
        }
        let ghost old_book = book;
        book.insert_order(order);
        let ghost tracker_before = self.own_orders;
        let response = if order.customer_id.is_some() {
            let (check, change) = self.own_orders.insert_order(&contract, order);
            let resp = match change {
                OrderChange::Filled { .. } => OrderResponse::OursFilled,
                _ => OrderResponse::OursOk,
            };
            proof {
                assert(tracker_step(tracker_before, self.own_orders, contract@, order, (check, change)));
            }
            resp
        } else {
            OrderResponse::OtherTracked
        };
        let ghost new_book = book;
        self.contracts.insert(key, (contract, book));
        proof {
            assert(s[key] == (contract, old_book));
            assert(self.contracts@ =~= s.insert(key, (s[key].0, new_book)));
        }
        response
    }

    /// The IDs of the tracked contracts, each once, in the map's order
    pub fn contract_ids(&self) -> (ids: Vec<ContractId>)
        ensures
            ids@.no_duplicates(),
            forall|j: int| 0 <= j < ids@.len() ==> self.spec_contracts().contains_key(key_of(#[trigger] ids@[j])),
            forall|k: usize| #[trigger] self.spec_contracts().contains_key(k) ==> ids@.contains(ContractId(k)),
    {
        let mut ids: Vec<ContractId> = Vec::new();
        let ghost keys = IteratorSpec::remaining(&spec_keys_iter(&self.contracts));
        for k in it: self.contracts.keys()
            invariant
                ids@.len() == it.index(),
                it.seq() == keys,
                forall|j: int| 0 <= j < it.index() ==> #[trigger] ids@[j] == ContractId(*keys[j]),
        {
            ids.push(ContractId(*k));
        }
        proof {
            let ks = keys.unref();
            assert(ks.to_set() == self.contracts@.dom());
            assert forall|j: int| 0 <= j < ids@.len() implies self.spec_contracts().contains_key(key_of(#[trigger] ids@[j])) by {
                assert(ks.contains(ks[j]));
            }
            assert forall|k: usize| #[trigger] self.spec_contracts().contains_key(k) implies ids@.contains(ContractId(k)) by {
                assert(ks.to_set().contains(k));
                let j = choose|j: int| 0 <= j < ks.len() && ks[j] == k;
                assert(ids@[j] == ContractId(k));
            }
            assert forall|a: int, b: int| 0 <= a < ids@.len() && 0 <= b < ids@.len() && a != b implies ids@[a] != ids@[b] by {
                assert(ks[a] != ks[b]);
            }
        }
        ids
    }

    /// The contract with an ID and its book, if tracked
    pub fn get(&self, id: ContractId) -> (r: Option<(&Contract, &BookState)>)
        ensures
            ({
                let s = self.spec_contracts();
                let k = key_of(id);
                if s.contains_key(k) {
                    r matches Some((c, b)) && *c == s[k].0 && *b == s[k].1
                } else {
                    r is None
                }
            }),
    {
        match self.contracts.get(&id.0) {
            Some(entry) => Some((&entry.0, &entry.1)),
            None => None,
        }
    }

    /// The own-order tracker
    pub fn own_orders(&self) -> (t: &Tracker)
        ensures
            *t == self.spec_own_orders(),
    {
        &self.own_orders
    }

    /// The bitcoin price reference
    pub fn price_ref(&self) -> (p: BitcoinPrice)
        ensures
            p == self.spec_price_ref(),
    {
        self.price_ref
    }

    /// The available dollars
    pub fn available_usd(&self) -> (p: Price)
        ensures
            p == self.spec_usd(),
    {
        self.available_usd
    }

    /// The available bitcoin, in satoshis
    pub fn available_btc(&self) -> (n: u64)
        ensures
            n == self.spec_btc(),
    {
        self.available_btc
    }

    /// Docks the available balances by what an order just opened may take
    /// (see [`LedgerX::preemptively_dock_balances`]); returns whether
    /// anything was docked
    pub fn dock_balances(&mut self, usd: Price, btc: u64) -> (docked: bool)
        requires
            old(self).spec_usd().can_sub(usd),
            btc <= old(self).spec_btc(),
        ensures
            final(self).spec_usd() == Price::of_parts(crate::units::decimal::decimal_sub(
                old(self).spec_usd().mant(),
                old(self).spec_usd().scl(),
                usd.mant(),
                usd.scl(),
            )),
            final(self).spec_btc() == old(self).spec_btc() - btc,
            docked == (usd@ != 0 || btc != 0),
            final(self).spec_contracts() == old(self).spec_contracts(),
            final(self).spec_own_orders() == old(self).spec_own_orders(),
            final(self).spec_price_ref() == old(self).spec_price_ref(),
            final(self).wf() == old(self).wf(),
    {
        Self::preemptively_dock_balances(&mut self.available_usd, &mut self.available_btc, usd, btc)
    }

    /// Empties the book of a contract, if it is tracked
    pub fn reset_book(&mut self, id: ContractId)
        requires
            old(self).wf(),
        ensures
            final(self).wf(),
            book_reset(*old(self), *final(self), id),
    {
        let ghost s = self.contracts@;
        match self.contracts.remove(&id.0) {
            Some((contract, _book)) => {
                let fresh = BookState::new(contract.asset());
                let ghost entry = (contract, fresh);
                self.contracts.insert(id.0, (contract, fresh));
                assert(self.contracts@ =~= s.insert(id.0, entry));
            },
            None => {
                assert(self.contracts@ =~= s);
            },
        }
    }

    /// Initializes the order book of a contract from a book-state message:
    /// the book is emptied, then each entry is inserted in turn as an order
    /// seen at the given time
    pub fn initialize_orderbooks(&mut self, data: json::BookStateMessage, timestamp: UtcTime)
        requires
            old(self).wf(),
            forall|k: int| 0 <= k < data.data.book_states@.len() ==> (#[trigger] data.data.book_states@[k]).size != i64::MIN,
        ensures
            final(self).wf(),
            ({
                let bs = data.data.book_states@;
                exists|chain: Seq<LedgerX>, rs: Seq<OrderResponse>| #![trigger chain.len(), rs.len()] {
                    &&& chain.len() == bs.len() + 1
                    &&& rs.len() == bs.len()
                    &&& book_reset(*old(self), chain[0], data.data.contract_id)
                    &&& chain.last() == *final(self)
                    &&& forall|k: int| 0 <= k < bs.len() ==> ledger_step(#[trigger] chain[k], chain[k + 1], book_state_order(bs[k], timestamp), rs[k])
                }
            }),
    {
        self.reset_book(data.data.contract_id);
        let ghost mut chain: Seq<LedgerX> = seq![*self];
        let ghost mut rs: Seq<OrderResponse> = Seq::empty();
        let bs = &data.data.book_states;
        let mut k: usize = 0;
        while k < bs.len()
            invariant
                k <= bs@.len(),
                bs@ == data.data.book_states@,
                forall|j: int| 0 <= j < bs@.len() ==> (#[trigger] bs@[j]).size != i64::MIN,
                self.wf(),
                chain.len() == k + 1,
                rs.len() == k,
                book_reset(*old(self), chain[0], data.data.contract_id),
                chain.last() == *self,
                forall|j: int| 0 <= j < k ==> ledger_step(#[trigger] chain[j], chain[j + 1], book_state_order(bs@[j], timestamp), rs[j]),
            decreases bs@.len() - k,
        {
            let order = Order::from_book_state(bs[k], timestamp);
            assert(order == book_state_order(bs@[k as int], timestamp));
            let ghost before = *self;
            let r = self.insert_order(order);
            proof {
                let c2 = chain.push(*self);
                let r2 = rs.push(r);
                assert forall|j: int| 0 <= j < k + 1 implies ledger_step(#[trigger] c2[j], c2[j + 1], book_state_order(bs@[j], timestamp), r2[j]) by {
                    if j < k {
                        assert(c2[j] == chain[j] && c2[j + 1] == chain[j + 1] && r2[j] == rs[j]);
                    } else {
                        assert(c2[j] == before && c2[j + 1] == *self && r2[j] == r);
                    }
                }
                chain = c2;
                rs = r2;
            }
            k = k + 1;
        }
        assert(chain.len() == bs@.len() + 1);
    }

    /// Deletes all tracked contracts and their order books
    pub fn clear_orderbooks(&mut self)
        ensures
            final(self).wf(),
            final(self).spec_contracts() == Map::<usize, (Contract, BookState)>::empty(),
            final(self).spec_own_orders() == old(self).spec_own_orders(),
            final(self).spec_price_ref() == old(self).spec_price_ref(),
            final(self).spec_usd() == old(self).spec_usd(),
            final(self).spec_btc() == old(self).spec_btc(),
    {
        self.contracts = HashMap::new();
    }
}

} // verus!
