//! LedgerX Own-Orders
//!
//! Data about orders that belong to us: the tracker decides what an order
//! message means (a fill, a deletion, an update or a new order) and keeps
//! the open orders by message ID.

use crate::ledgerx::contract::{Contract, ContractView, Type};
use crate::ledgerx::datafeed::{CustomerId, MessageId, Order};
use crate::ledgerx::history::contract_asset;
use crate::units::{Price, Quantity, UnknownQuantity};
use vstd::prelude::*;

verus! {

/// The key of an order: the bytes of its message ID
pub open spec fn order_key(o: Order) -> Seq<u8> {
    o.message_id.0@
}

/// Whether no two orders share a message ID
pub open spec fn keys_unique(s: Seq<Order>) -> bool {
    forall|i: int, j: int| 0 <= i < s.len() && 0 <= j < s.len() && i != j
        ==> order_key(#[trigger] s[i]) != order_key(#[trigger] s[j])
}

/// Whether an order with message ID `k` is at index `i`
pub open spec fn has_key_at(s: Seq<Order>, k: Seq<u8>, i: int) -> bool {
    0 <= i < s.len() && order_key(s[i]) == k
}

/// The order with a message ID, if any
pub open spec fn lookup(s: Seq<Order>, k: Seq<u8>) -> Option<Order> {
    if exists|i: int| has_key_at(s, k, i) {
        Some(s[choose|i: int| has_key_at(s, k, i)])
    } else {
        None
    }
}

/// With unique keys, an order found at an index is the one looked up
proof fn lemma_lookup_at(s: Seq<Order>, k: Seq<u8>, i: int)
    requires
        keys_unique(s),
        has_key_at(s, k, i),
    ensures
        lookup(s, k) == Some(s[i]),
{
    let j = choose|j: int| has_key_at(s, k, j);
    assert(has_key_at(s, k, j));
    if j != i {
        assert(order_key(s[i]) != order_key(s[j]));
    }
}

/// The open orders as a map from message ID to order
pub open spec fn orders_map(s: Seq<Order>) -> Map<Seq<u8>, Order> {
    Map::new(|k: Seq<u8>| lookup(s, k) is Some, |k: Seq<u8>| lookup(s, k)->0)
}

/// What the customer ID of an own-order tells
#[derive(Clone, Copy, Debug, PartialEq, Eq, Structural)]
pub enum CustomerCheck {
    /// The order has no customer ID (a bug on the exchange's side)
    Missing,
    /// Our customer ID is learned from this first own-order
    Learned(CustomerId),
    /// The order is for another customer than us
    Mismatch { me: CustomerId, them: CustomerId },
    /// The order is ours, as known
    Known,
}

/// What an own-order message changed
#[derive(Clone, Copy, Debug)]
pub enum OrderChange {
    /// The order was (partly) filled, by this size at this price
    Filled { size: Quantity, price: Price },
    /// A tracked order of this size and fill price was deleted
    Deleted { size: Quantity, price: Price },
    /// An order we were not tracking was deleted
    UnknownDeletion,
    /// A tracked order was updated to this size and price
    Updated { size: Quantity, price: Price },
    /// A tracked order was sent again with no update
    Unchanged,
    /// A new order of this size and price
    Created { size: Quantity, price: Price },
}

/// The text that starts the log line of a change, empty for a change that
/// is not logged as an order
pub open spec fn change_text(c: OrderChange) -> Seq<char> {
    match c {
        OrderChange::Filled { .. } => seq!['F', 'i', 'l', 'l', 'e', 'd', ' '],
        OrderChange::Deleted { .. } => seq!['D', 'e', 'l', 'e', 't', 'e', 'd', ' '],
        OrderChange::Updated { .. } => seq!['U', 'p', 'd', 'a', 't', 'e', 'd', ' '],
        OrderChange::Created { .. } => seq!['C', 'r', 'e', 'a', 't', 'e', 'd', ' '],
        _ => Seq::empty(),
    }
}

impl OrderChange {
    /// The text that starts the log line of the change
    pub fn message(&self) -> (s: &'static str)
        ensures
            s@ == change_text(*self),
    {
        proof {
            reveal_strlit("Filled ");
            reveal_strlit("Deleted ");
            reveal_strlit("Updated ");
            reveal_strlit("Created ");
            reveal_strlit("");
        }
        match self {
            OrderChange::Filled { .. } => "Filled ",
            OrderChange::Deleted { .. } => "Deleted ",
            OrderChange::Updated { .. } => "Updated ",
            OrderChange::Created { .. } => "Created ",
            _ => "",
        }
    }
}

/// What the customer ID of an order tells, given ours if known
pub open spec fn customer_check(me: Option<CustomerId>, them: Option<CustomerId>) -> CustomerCheck {
    match (me, them) {
        (_, None) => CustomerCheck::Missing,
        (None, Some(t)) => CustomerCheck::Learned(t),
        (Some(m), Some(t)) => if m != t { CustomerCheck::Mismatch { me: m, them: t } } else { CustomerCheck::Known },
    }
}

/// The tracker after an own-order message on a contract, and what the
/// message told: its customer ID is checked (and ours learned from the
/// first); a message of size zero is a fill (when it has a filled size) or
/// a deletion; otherwise it updates a tracked order or creates one
pub open spec fn tracker_step(old: Tracker, new: Tracker, c: ContractView, order: Order, r: (CustomerCheck, OrderChange)) -> bool {
    &&& r == (customer_check(old.spec_my_id(), order.customer_id), order_change(old.spec_orders(), c, order))
    &&& new.spec_my_id() == match (old.spec_my_id(), order.customer_id) {
        (None, Some(t)) => Some(t),
        _ => old.spec_my_id(),
    }
    &&& new.spec_orders() == orders_after(old.spec_orders(), order)
}

/// What an own-order message changes, given the tracked orders
pub open spec fn order_change(before: Map<Seq<u8>, Order>, c: ContractView, order: Order) -> OrderChange {
    let a = contract_asset(c);
    let k = order.message_id.0@;
    if order.size.inner == 0 {
        let filled = order.filled_size.spec_with_asset(a, 1);
        if filled.amount() != 0 {
            OrderChange::Filled { size: filled, price: order.filled_price }
        } else if before.contains_key(k) {
            OrderChange::Deleted { size: before[k].size.spec_with_asset(a, 1), price: before[k].filled_price }
        } else {
            OrderChange::UnknownDeletion
        }
    } else if before.contains_key(k) {
        if before[k].updated_timestamp != order.updated_timestamp {
            OrderChange::Updated { size: order.size.spec_with_asset(a, 1), price: order.price }
        } else {
            OrderChange::Unchanged
        }
    } else {
        OrderChange::Created { size: order.size.spec_with_asset(a, 1), price: order.price }
    }
}

/// The tracked orders after an own-order message: a message of size zero
/// removes the order unless it is a fill; any other is kept under its
/// message ID
pub open spec fn orders_after(before: Map<Seq<u8>, Order>, order: Order) -> Map<Seq<u8>, Order> {
    let k = order.message_id.0@;
    if order.size.inner == 0 {
        if order.filled_size.inner != 0 { before } else { before.remove(k) }
    } else {
        before.insert(k, order)
    }
}

/// Own-order tracker
#[derive(Debug)]
pub struct Tracker {
    my_id: Option<CustomerId>,
    orders: Vec<Order>,
}

impl Tracker {
    #[verifier::type_invariant]
    spec fn unique(self) -> bool {
        keys_unique(self.orders@)
    }

    /// Our customer ID, once learned
    pub closed spec fn spec_my_id(self) -> Option<CustomerId> {
        self.my_id
    }

    /// The tracked orders by message ID
    pub closed spec fn spec_orders(self) -> Map<Seq<u8>, Order> {
        orders_map(self.orders@)
    }

    /// Create a new empty order tracker
    pub fn new() -> (t: Tracker)
        ensures
            t.spec_my_id() is None,
            t.spec_orders() == Map::<Seq<u8>, Order>::empty(),
    {
        let t = Tracker { my_id: None, orders: Vec::new() };
        assert(orders_map(t.orders@) =~= Map::<Seq<u8>, Order>::empty());
        t
    }

    /// The tracked orders (each once)
    pub fn open_orders(&self) -> (r: Vec<Order>)
        ensures
            keys_unique(r@),
            forall|i: int| 0 <= i < r@.len() ==> self.spec_orders().contains_key(order_key(#[trigger] r@[i]))
                && self.spec_orders()[order_key(r@[i])] == r@[i],
            forall|k: Seq<u8>| #[trigger] self.spec_orders().contains_key(k) ==> exists|i: int| has_key_at(r@, k, i),
    {
        proof {
            use_type_invariant(self);
            assert forall|i: int| 0 <= i < self.orders@.len() implies self.spec_orders().contains_key(order_key(#[trigger] self.orders@[i]))
                && self.spec_orders()[order_key(self.orders@[i])] == self.orders@[i] by {
                lemma_lookup_at(self.orders@, order_key(self.orders@[i]), i);
            }
        }
        let mut r: Vec<Order> = Vec::new();
        let mut i: usize = 0;
        while i < self.orders.len()
            invariant
                i <= self.orders@.len(),
                r@ == self.orders@.take(i as int),
            decreases self.orders@.len() - i,
        {
            proof {
                assert(self.orders@.take(i + 1) =~= self.orders@.take(i as int).push(self.orders@[i as int]));
            }
            r.push(self.orders[i]);
            i = i + 1;
        }
        assert(self.orders@.take(self.orders@.len() as int) =~= self.orders@);
        r
    }

    /// Handles an own-order message on a contract: notes what its customer
    /// ID tells, and updates the tracked orders. A message of size zero is
    /// a fill (when it has a filled size) or a deletion; otherwise it
    /// updates a tracked order or creates one.
    pub fn insert_order(&mut self, contract: &Contract, order: Order) -> (r: (CustomerCheck, OrderChange))
        requires
            !(contract@.ty is Future),
            UnknownQuantity::asset_has_units(contract_asset(contract@)),
        ensures
            tracker_step(*old(self), *final(self), contract@, order, r),
    {
        proof {
            use_type_invariant(&*self);
        }
        let check = match (self.my_id, order.customer_id) {
            (_, None) => CustomerCheck::Missing,
            (None, Some(them)) => {
                self.my_id = Some(them);
                CustomerCheck::Learned(them)
            },
            (Some(me), Some(them)) => {
                if me != them {
                    CustomerCheck::Mismatch { me, them }
                } else {
                    CustomerCheck::Known
                }
            },
        };
        let asset = contract.asset();
        assert(asset == contract_asset(contract@));
        let mut orders: Vec<Order> = Vec::new();
        std::mem::swap(&mut orders, &mut self.orders);
        let ghost s = orders@;
        let ghost k = order.message_id.0@;
        let change = if order.size.inner == 0 {
            let filled_size = order.filled_size.with_asset(asset);
            assert(filled_size.amount() == order.filled_size.inner);
            if filled_size.is_nonzero() {
                OrderChange::Filled { size: filled_size, price: order.filled_price }
            } else {
                match find_order(&orders, &order.message_id) {
                    Some(i) => {
                        proof {
                            lemma_lookup_at(s, k, i as int);
                        }
                        let old_order = orders.remove(i);
                        proof {
                            let t = orders@;
                            assert(t =~= s.remove(i as int));
                            assert forall|a: int, b: int| 0 <= a < t.len() && 0 <= b < t.len() && a != b
                                implies order_key(#[trigger] t[a]) != order_key(#[trigger] t[b]) by {
                                let a2 = if a < i { a } else { a + 1 };
                                let b2 = if b < i { b } else { b + 1 };
                                assert(t[a] == s[a2] && t[b] == s[b2]);
                            }
                            assert forall|k2: Seq<u8>| #![auto] lookup(t, k2) == if k2 == k { None } else { lookup(s, k2) } by {
                                if exists|j: int| has_key_at(t, k2, j) {
                                    let j = choose|j: int| has_key_at(t, k2, j);
                                    let j2 = if j < i { j } else { j + 1 };
                                    assert(t[j] == s[j2]);
                                    assert(has_key_at(s, k2, j2));
                                    lemma_lookup_at(t, k2, j);
                                    lemma_lookup_at(s, k2, j2);
                                    if k2 == k {
                                        assert(order_key(s[i as int]) == order_key(s[j2]));
                                    }
                                } else if k2 != k {
                                    if exists|j: int| has_key_at(s, k2, j) {
                                        let j = choose|j: int| has_key_at(s, k2, j);
                                        assert(j != i);
                                        let j2 = if j < i { j } else { j - 1 };
                                        assert(t[j2] == s[j]);
                                        assert(has_key_at(t, k2, j2));
                                    }
                                }
                            }
                            assert(orders_map(t) =~= orders_map(s).remove(k));
                        }
                        OrderChange::Deleted { size: old_order.size.with_asset(asset), price: old_order.filled_price }
                    },
                    None => {
                        assert(orders_map(s).remove(k) =~= orders_map(s));
                        OrderChange::UnknownDeletion
                    },
                }
            }
        } else {
            match find_order(&orders, &order.message_id) {
                Some(i) => {
                    proof {
                        lemma_lookup_at(s, k, i as int);
                    }
                    let data = if orders[i].updated_timestamp != order.updated_timestamp {
                        OrderChange::Updated { size: order.size.with_asset(asset), price: order.price }
                    } else {
                        OrderChange::Unchanged
                    };
                    orders.set(i, order);
                    proof {
                        let t = orders@;
                        assert(t == s.update(i as int, order));
                        assert forall|a: int, b: int| 0 <= a < t.len() && 0 <= b < t.len() && a != b
                            implies order_key(#[trigger] t[a]) != order_key(#[trigger] t[b]) by {
                            assert(order_key(t[a]) == order_key(s[a]));
                            assert(order_key(t[b]) == order_key(s[b]));
                        }
                        assert forall|k2: Seq<u8>| #![auto] lookup(t, k2) == if k2 == k { Some(order) } else { lookup(s, k2) } by {
                            lemma_lookup_at(t, k, i as int);
                            if k2 != k {
                                if exists|j: int| has_key_at(t, k2, j) {
                                    let j = choose|j: int| has_key_at(t, k2, j);
                                    assert(j != i);
                                    assert(has_key_at(s, k2, j));
                                    lemma_lookup_at(t, k2, j);
                                    lemma_lookup_at(s, k2, j);
                                } else if exists|j: int| has_key_at(s, k2, j) {
                                    let j = choose|j: int| has_key_at(s, k2, j);
                                    assert(j != i);
                                    assert(has_key_at(t, k2, j));
                                }
                            }
                        }
                        assert(orders_map(t) =~= orders_map(s).insert(k, order));
                    }
                    data
                },
                None => {
                    let data = OrderChange::Created { size: order.size.with_asset(asset), price: order.price };
                    orders.push(order);
                    proof {
                        let t = orders@;
                        assert(t == s.push(order));
                        assert forall|a: int, b: int| 0 <= a < t.len() && 0 <= b < t.len() && a != b
                            implies order_key(#[trigger] t[a]) != order_key(#[trigger] t[b]) by {
                            if a == s.len() as int {
                                assert(!has_key_at(s, k, b));
                            } else if b == s.len() as int {
                                assert(!has_key_at(s, k, a));
                            } else {
                                assert(t[a] == s[a] && t[b] == s[b]);
                            }
                        }
                        assert forall|k2: Seq<u8>| #![auto] lookup(t, k2) == if k2 == k { Some(order) } else { lookup(s, k2) } by {
                            lemma_lookup_at(t, k, s.len() as int);
                            if k2 != k {
                                if exists|j: int| has_key_at(t, k2, j) {
                                    let j = choose|j: int| has_key_at(t, k2, j);
                                    assert(j != s.len());
                                    assert(t[j] == s[j]);
                                    assert(has_key_at(s, k2, j));
                                    lemma_lookup_at(t, k2, j);
                                    lemma_lookup_at(s, k2, j);
                                } else if exists|j: int| has_key_at(s, k2, j) {
                                    let j = choose|j: int| has_key_at(s, k2, j);
                                    assert(t[j] == s[j]);
                                    assert(has_key_at(t, k2, j));
                                }
                            }
                        }
                        assert(orders_map(t) =~= orders_map(s).insert(k, order));
                    }
                    data
                },
            }
        };
        self.orders = orders;
        (check, change)
    }
}

/// The index of the order with a message ID
fn find_order(orders: &Vec<Order>, id: &MessageId) -> (r: Option<usize>)
    ensures
        match r {
            Some(i) => i < orders@.len() && has_key_at(orders@, id.0@, i as int),
            None => lookup(orders@, id.0@) is None,
        },
{
    let mut i: usize = 0;
    while i < orders.len()
        invariant
            i <= orders@.len(),
            forall|j: int| 0 <= j < i ==> order_key(#[trigger] orders@[j]) != id.0@,
        decreases orders@.len() - i,
    {
        if bytes16_eq(&orders[i].message_id.0, &id.0) {
            return Some(i);
        }
        i = i + 1;
    }
    proof {
        if exists|j: int| has_key_at(orders@, id.0@, j) {
            let j = choose|j: int| has_key_at(orders@, id.0@, j);
            assert(order_key(orders@[j]) != id.0@);
        }
    }
    None
}

/// Whether two 16-byte arrays are equal
pub fn bytes16_eq(a: &[u8; 16], b: &[u8; 16]) -> (r: bool)
    ensures
        r == (a@ == b@),
{
    let mut i: usize = 0;
    while i < 16
        invariant
            i <= 16,
            a@.len() == 16,
            b@.len() == 16,
            forall|j: int| 0 <= j < i ==> a@[j] == b@[j],
        decreases 16 - i,
    {
        if a[i] != b[i] {
            return false;
        }
        i = i + 1;
    }
    assert(a@ =~= b@);
    true
}

/// A deletion undoes a creation: after a new order and then a message of
/// size zero and no fill under its message ID, the tracked orders are those
/// from before, without that ID
pub proof fn law_delete_undoes_create(before: Map<Seq<u8>, Order>, created: Order, deleted: Order)
    requires
        created.size.inner != 0,
        deleted.size.inner == 0,
        deleted.filled_size.inner == 0,
        deleted.message_id == created.message_id,
    ensures
        orders_after(orders_after(before, created), deleted) == before.remove(created.message_id.0@),
{
    assert(orders_after(orders_after(before, created), deleted) =~= before.remove(created.message_id.0@));
}

/// An update keeps one order per message ID: after two messages of nonzero
/// size under one ID, the second one is tracked
pub proof fn law_update_replaces(before: Map<Seq<u8>, Order>, first: Order, second: Order)
    requires
        first.size.inner != 0,
        second.size.inner != 0,
        first.message_id == second.message_id,
    ensures
        orders_after(orders_after(before, first), second) == before.insert(second.message_id.0@, second),
{
    assert(orders_after(orders_after(before, first), second) =~= before.insert(second.message_id.0@, second));
}

} // verus!
