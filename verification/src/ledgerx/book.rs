//! Book State
//!
//! Tracks the book state for a specific contract: its bids and asks, each
//! ordered by price and then by message ID.

use crate::ledgerx::datafeed::{self, MessageId};
use crate::units::{Asset, Price, Quantity, UnknownQuantity, UtcTime};
use vstd::prelude::*;

verus! {

/// An order, as recorded in the orderbook
#[derive(Clone, Copy, Debug)]
pub struct Order {
    /// The price at which the order is placed
    pub price: Price,
    /// The (signed) quantity
    pub size: Quantity,
    /// ID of the manifest
    pub message_id: MessageId,
    /// Timestamp that the order occured on
    pub timestamp: UtcTime,
}

/// The value of bytes read as a big-endian number
pub open spec fn be_value(b: Seq<u8>) -> int
    decreases b.len(),
{
    if b.len() == 0 {
        0
    } else {
        be_value(b.drop_last()) * 256 + b.last()
    }
}

/// The message ID of an order as a number: the order of message IDs as
/// byte strings
pub open spec fn mid_value(m: MessageId) -> int {
    be_value(m.0@)
}

/// Whether order `a` comes before order `b` in a book: by price value,
/// then by message ID
pub open spec fn key_lt(a: Order, b: Order) -> bool {
    a.price@ < b.price@ || (a.price@ == b.price@ && mid_value(a.message_id) < mid_value(b.message_id))
}

/// Whether the orders are in strictly increasing order of key
pub open spec fn key_sorted(s: Seq<Order>) -> bool {
    forall|i: int, j: int| 0 <= i < j < s.len() ==> key_lt(#[trigger] s[i], #[trigger] s[j])
}

/// The orders without those of a message ID
pub open spec fn without_mid(s: Seq<Order>, m: Seq<u8>) -> Seq<Order>
    decreases s.len(),
{
    if s.len() == 0 {
        Seq::empty()
    } else {
        let rest = without_mid(s.drop_last(), m);
        if s.last().message_id.0@ == m { rest } else { rest.push(s.last()) }
    }
}

/// Whether `p` is where an order goes into sorted orders
pub open spec fn is_insert_point(s: Seq<Order>, x: Order, p: int) -> bool {
    &&& 0 <= p <= s.len()
    &&& forall|j: int| 0 <= j < p ==> key_lt(#[trigger] s[j], x)
    &&& forall|j: int| p <= j < s.len() ==> key_lt(x, #[trigger] s[j])
}

/// The orders with one more put in its place
pub open spec fn insert_sorted(s: Seq<Order>, x: Order) -> Seq<Order> {
    s.insert(choose|p: int| is_insert_point(s, x, p), x)
}

/// The insertion point is the only one
proof fn lemma_insert_point(s: Seq<Order>, x: Order, p: int)
    requires
        is_insert_point(s, x, p),
    ensures
        insert_sorted(s, x) == s.insert(p, x),
{
    let q = choose|q: int| is_insert_point(s, x, q);
    assert(is_insert_point(s, x, q));
    if q < p {
        assert(key_lt(s[q], x));
        assert(key_lt(x, s[q]));
    } else if p < q {
        assert(key_lt(s[p], x));
        assert(key_lt(x, s[p]));
    }
}

/// A book after an order message: the old order of the message ID leaves,
/// and a nonzero order takes its place
pub open spec fn book_after(s: Seq<Order>, o: Order) -> Seq<Order> {
    let rest = without_mid(s, o.message_id.0@);
    if o.size.amount() != 0 { insert_sorted(rest, o) } else { rest }
}

/// The big-endian value of a 16-byte message ID
fn mid_number(m: &MessageId) -> (n: u128)
    ensures
        n == mid_value(*m),
{
    let mut n: u128 = 0;
    let mut i: usize = 0;
    while i < 16
        invariant
            i <= 16,
            m.0@.len() == 16,
            n == be_value(m.0@.take(i as int)),
            n < pow256(i as nat),
        decreases 16 - i,
    {
        proof {
            assert(m.0@.take(i + 1).drop_last() =~= m.0@.take(i as int));
            lemma_pow256_bound(i as nat);
        }
        let b = m.0[i];
        assert(n * 256 + b < pow256((i + 1) as nat)) by (nonlinear_arith)
            requires
                n < pow256(i as nat),
                b < 256,
                pow256((i + 1) as nat) == pow256(i as nat) * 256,
        ;
        n = n * 256 + b as u128;
        i = i + 1;
    }
    assert(m.0@.take(16) =~= m.0@);
    n
}

/// 256 to a power
pub open spec fn pow256(n: nat) -> int
    decreases n,
{
    if n == 0 { 1 } else { pow256((n - 1) as nat) * 256 }
}

/// Bounds on powers of 256 up to the 16th
proof fn lemma_pow256_bound(n: nat)
    requires
        n <= 15,
    ensures
        pow256(n + 1) == pow256(n) * 256,
        pow256(n) * 256 <= 0x1_0000_0000_0000_0000_0000_0000_0000_0000,
    decreases n,
{
    reveal_with_fuel(pow256, 17);
}

/// Byte strings of one length with the same value are the same
proof fn lemma_be_value_injective(a: Seq<u8>, b: Seq<u8>)
    requires
        a.len() == b.len(),
        be_value(a) == be_value(b),
    ensures
        a == b,
    decreases a.len(),
{
    if a.len() > 0 {
        let x = be_value(a.drop_last());
        let y = be_value(b.drop_last());
        assert(x * 256 + a.last() == y * 256 + b.last());
        assert(x == y);
        lemma_be_value_injective(a.drop_last(), b.drop_last());
        assert(a =~= a.drop_last().push(a.last()));
        assert(b =~= b.drop_last().push(b.last()));
    } else {
        assert(a =~= b);
    }
}

/// Whether order `a` comes before order `b`
fn key_less(a: &Order, b: &Order) -> (r: bool)
    ensures
        r == key_lt(*a, *b),
{
    if a.price.lt(&b.price) {
        true
    } else if a.price.value_eq(&b.price) {
        mid_number(&a.message_id) < mid_number(&b.message_id)
    } else {
        false
    }
}

/// Whether two message IDs are the same
fn same_mid(a: &MessageId, b: &MessageId) -> (r: bool)
    ensures
        r == (a.0@ == b.0@),
{
    crate::ledgerx::own_orders::bytes16_eq(&a.0, &b.0)
}

/// Removes the orders of a message ID from sorted orders
fn remove_mid(s: &Vec<Order>, m: &MessageId) -> (r: Vec<Order>)
    requires
        key_sorted(s@),
    ensures
        r@ == without_mid(s@, m.0@),
        key_sorted(r@),
{
    let mut out: Vec<Order> = Vec::new();
    let mut i: usize = 0;
    while i < s.len()
        invariant
            i <= s@.len(),
            key_sorted(s@),
            out@ == without_mid(s@.take(i as int), m.0@),
            key_sorted(out@),
            out@.len() > 0 ==> exists|j: int| 0 <= j < i && out@.last() == s@[j],
        decreases s@.len() - i,
    {
        proof {
            assert(s@.take(i + 1).drop_last() =~= s@.take(i as int));
        }
        if !same_mid(&s[i].message_id, m) {
            proof {
                if out@.len() > 0 {
                    let j = choose|j: int| 0 <= j < i && out@.last() == s@[j];
                    assert(key_lt(s@[j], s@[i as int]));
                    assert forall|a: int, b: int| 0 <= a < b < out@.len() + 1 implies key_lt(
                        #[trigger] out@.push(s@[i as int])[a],
                        #[trigger] out@.push(s@[i as int])[b],
                    ) by {
                        if b == out@.len() {
                            if a < out@.len() - 1 {
                                assert(key_lt(out@[a], out@[out@.len() - 1]));
                            }
                        }
                    }
                }
            }
            out.push(s[i]);
        }
        i = i + 1;
    }
    assert(s@.take(s@.len() as int) =~= s@);
    out
}

/// Puts an order into sorted orders (with no order of its message ID)
fn insert_in_place(s: &mut Vec<Order>, x: Order)
    requires
        key_sorted(old(s)@),
        forall|j: int| 0 <= j < old(s)@.len() ==> (#[trigger] old(s)@[j]).message_id.0@ != x.message_id.0@,
    ensures
        final(s)@ == insert_sorted(old(s)@, x),
        key_sorted(final(s)@),
{
    let mut p: usize = 0;
    while p < s.len() && key_less(&s[p], &x)
        invariant
            p <= s@.len(),
            forall|j: int| 0 <= j < p ==> key_lt(#[trigger] s@[j], x),
        decreases s@.len() - p,
    {
        p = p + 1;
    }
    proof {
        let t = s@;
        if p < t.len() {
            assert(!key_lt(t[p as int], x));
            assert(t[p as int].message_id.0@ != x.message_id.0@);
            if mid_value(t[p as int].message_id) == mid_value(x.message_id) {
                lemma_be_value_injective(t[p as int].message_id.0@, x.message_id.0@);
            }
            assert(key_lt(x, t[p as int]));
        }
        assert forall|j: int| p <= j < t.len() implies key_lt(x, #[trigger] t[j]) by {
            if j > p {
                assert(key_lt(t[p as int], t[j]));
            } else {
                assert(t[p as int].message_id.0@ != x.message_id.0@);
            }
        }
        assert(is_insert_point(t, x, p as int));
        lemma_insert_point(t, x, p as int);
    }
    s.insert(p, x);
    proof {
        let t = s@;
        assert forall|a: int, b: int| 0 <= a < b < t.len() implies key_lt(#[trigger] t[a], #[trigger] t[b]) by {
            let o = old(s)@;
            if b < p {
            } else if b == p {
                assert(t[a] == o[a]);
            } else if a == p {
                assert(t[b] == o[b - 1]);
            } else if a < p {
                assert(t[a] == o[a] && t[b] == o[b - 1]);
                assert(key_lt(o[a], x));
            } else {
                assert(t[a] == o[a - 1] && t[b] == o[b - 1]);
            }
        }
    }
}

/// The orders of `without_mid` are orders of the original that do not
/// have the message ID
proof fn lemma_without_mid(s: Seq<Order>, m: Seq<u8>)
    ensures
        forall|j: int| 0 <= j < without_mid(s, m).len() ==> (#[trigger] without_mid(s, m)[j]).message_id.0@ != m,
    decreases s.len(),
{
    if s.len() > 0 {
        lemma_without_mid(s.drop_last(), m);
    }
}

/// The book after an order message: the order's message ID leaves both
/// sides; then a nonzero order takes its place by price and message ID, on
/// the bid side for a positive size and on the ask side for a negative one
/// (a message of size zero is a cancel)
pub open spec fn book_inserted(old: BookState, new: BookState, order: datafeed::Order) -> bool {
    let size = order.size.spec_with_asset(old.spec_asset(), 1);
    let o = Order { price: order.price, size, message_id: order.message_id, timestamp: order.timestamp };
    let m = order.message_id.0@;
    &&& new.spec_asset() == old.spec_asset()
    &&& key_sorted(new.spec_bids()) && key_sorted(new.spec_asks())
    &&& if size.amount() > 0 {
        &&& new.spec_bids() == book_after(old.spec_bids(), o)
        &&& new.spec_asks() == without_mid(old.spec_asks(), m)
    } else {
        &&& new.spec_asks() == book_after(old.spec_asks(), o)
        &&& new.spec_bids() == without_mid(old.spec_bids(), m)
    }
}

/// Book state for a specific contract
#[derive(Debug)]
pub struct BookState {
    asset: Asset,
    bids: Vec<Order>,
    asks: Vec<Order>,
}

impl BookState {
    #[verifier::type_invariant]
    spec fn sorted(self) -> bool {
        key_sorted(self.bids@) && key_sorted(self.asks@)
    }

    /// The asset the book's sizes are counted in
    pub closed spec fn spec_asset(self) -> Asset {
        self.asset
    }

    /// The bids, from worst to best
    pub closed spec fn spec_bids(self) -> Seq<Order> {
        self.bids@
    }

    /// The asks, from best to worst
    pub closed spec fn spec_asks(self) -> Seq<Order> {
        self.asks@
    }

    /// Create a new empty book state
    pub fn new(asset: Asset) -> (b: BookState)
        ensures
            b.spec_asset() == asset,
            b.spec_bids().len() == 0,
            b.spec_asks().len() == 0,
    {
        BookState { asset, bids: Vec::new(), asks: Vec::new() }
    }

    /// Add an order to the book: the order's message ID leaves both sides
    /// (an edited or cancelled order may have moved price or side); then a
    /// nonzero order goes in, a positive size as a bid and a negative one as
    /// an ask (a cancelled order has size zero)
    pub fn insert_order(&mut self, order: datafeed::Order)
        requires
            UnknownQuantity::asset_has_units(old(self).spec_asset()),
        ensures
            book_inserted(*old(self), *final(self), order),
    {
        proof {
            use_type_invariant(&*self);
        }
        let size = order.size.with_asset(self.asset);
        let book_order = Order { price: order.price, size, message_id: order.message_id, timestamp: order.timestamp };
        let mut bids = remove_mid(&self.bids, &order.message_id);
        let mut asks = remove_mid(&self.asks, &order.message_id);
        proof {
            lemma_without_mid(self.bids@, order.message_id.0@);
            lemma_without_mid(self.asks@, order.message_id.0@);
        }
        if size.is_positive() {
            insert_in_place(&mut bids, book_order);
        } else if size.is_nonzero() {
            insert_in_place(&mut asks, book_order);
        }
        self.bids = bids;
        self.asks = asks;
    }

    /// Return the price and size of the best bid, or (0, 0) if there is none
    pub fn best_bid(&self) -> (r: (Price, Quantity))
        ensures
            self.spec_bids().len() > 0 ==> r == (self.spec_bids().last().price, self.spec_bids().last().size),
            self.spec_bids().len() == 0 ==> r.0 == Price::spec_zero() && r.1 is Zero,
    {
        if self.bids.len() > 0 {
            let last = &self.bids[self.bids.len() - 1];
            (last.price, last.size)
        } else {
            (Price::zero(), Quantity::Zero)
        }
    }

    /// The price of the best bid, or 0 if there is none
    pub fn best_bid_price(&self) -> (p: Price)
        ensures
            self.spec_bids().len() > 0 ==> p == self.spec_bids().last().price,
            self.spec_bids().len() == 0 ==> p == Price::spec_zero(),
    {
        self.best_bid().0
    }

    /// The price of the best ask, or 0 if there is none
    pub fn best_ask_price(&self) -> (p: Price)
        ensures
            self.spec_asks().len() > 0 ==> p == self.spec_asks()[0].price,
            self.spec_asks().len() == 0 ==> p == Price::spec_zero(),
    {
        if self.asks.len() > 0 {
            self.asks[0].price
        } else {
            Price::zero()
        }
    }

    /// Return the price and (positive) size of the best ask, or (0, 0) if
    /// there is none
    pub fn best_ask(&self) -> (r: (Price, Quantity))
        requires
            self.spec_asks().len() > 0 ==> self.spec_asks()[0].size.can_negate(),
        ensures
            self.spec_asks().len() > 0 ==> r == (self.spec_asks()[0].price, self.spec_asks()[0].size.spec_neg()),
            self.spec_asks().len() == 0 ==> r.0 == Price::spec_zero() && r.1 is Zero,
    {
        if self.asks.len() > 0 {
            let first = &self.asks[0];
            (first.price, first.size.neg())
        } else {
            (Price::zero(), Quantity::Zero)
        }
    }

    /// All bids, from best to worst
    pub fn bids(&self) -> (r: Vec<Order>)
        ensures
            r@ == self.spec_bids().reverse(),
            forall|i: int, j: int| 0 <= i < j < r@.len() ==> key_lt(#[trigger] r@[j], #[trigger] r@[i]),
    {
        proof {
            use_type_invariant(self);
        }
        let mut r: Vec<Order> = Vec::new();
        let mut i: usize = self.bids.len();
        while i > 0
            invariant
                i <= self.bids@.len(),
                r@ == self.bids@.skip(i as int).reverse(),
            decreases i,
        {
            i = i - 1;
            proof {
                assert(self.bids@.skip(i as int).reverse() =~= self.bids@.skip(i + 1).reverse().push(self.bids@[i as int]));
            }
            r.push(self.bids[i]);
        }
        assert(self.bids@.skip(0) =~= self.bids@);
        r
    }

    /// All asks, from best to worst
    pub fn asks(&self) -> (r: Vec<Order>)
        ensures
            r@ == self.spec_asks(),
            key_sorted(r@),
    {
        proof {
            use_type_invariant(self);
        }
        let mut r: Vec<Order> = Vec::new();
        let mut i: usize = 0;
        while i < self.asks.len()
            invariant
                i <= self.asks@.len(),
                r@ == self.asks@.take(i as int),
            decreases self.asks@.len() - i,
        {
            proof {
                assert(self.asks@.take(i + 1) =~= self.asks@.take(i as int).push(self.asks@[i as int]));
            }
            r.push(self.asks[i]);
            i = i + 1;
        }
        assert(self.asks@.take(self.asks@.len() as int) =~= self.asks@);
        r
    }
}

/// Removing a message ID twice is removing it once
proof fn lemma_without_mid_twice(s: Seq<Order>, m: Seq<u8>)
    ensures
        without_mid(without_mid(s, m), m) == without_mid(s, m),
    decreases s.len(),
{
    if s.len() > 0 {
        lemma_without_mid_twice(s.drop_last(), m);
        let rest = without_mid(s.drop_last(), m);
        if s.last().message_id.0@ != m {
            let t = rest.push(s.last());
            assert(t.drop_last() =~= rest);
        }
    }
}

/// Removing a message ID from orders with one more order of that ID
/// inserted anywhere gives the same as from the orders alone
proof fn lemma_without_mid_insert(t: Seq<Order>, p: int, x: Order, m: Seq<u8>)
    requires
        0 <= p <= t.len(),
        x.message_id.0@ == m,
    ensures
        without_mid(t.insert(p, x), m) == without_mid(t, m),
    decreases t.len(),
{
    if p == t.len() {
        assert(t.insert(p, x).drop_last() =~= t);
    } else {
        let u = t.insert(p, x);
        assert(u.drop_last() =~= t.drop_last().insert(p, x));
        assert(u.last() == t.last());
        lemma_without_mid_insert(t.drop_last(), p, x, m);
    }
}

/// On one side of a book, a cancellation undoes an order: after an order
/// and then a message of size zero under its message ID, the side holds
/// what it held before without that ID
proof fn lemma_cancel_undoes_order_side(s: Seq<Order>, o: Order, cancel: Order)
    requires
        key_sorted(s),
        o.size.amount() != 0,
        cancel.size.amount() == 0,
        cancel.message_id == o.message_id,
    ensures
        book_after(book_after(s, o), cancel) == without_mid(s, o.message_id.0@),
{
    let m = o.message_id.0@;
    let t = without_mid(s, m);
    lemma_without_mid(s, m);
    let p = choose|p: int| is_insert_point(t, o, p);
    lemma_without_mid_twice(s, m);
    lemma_without_mid_sorted(s, m);
    lemma_insert_point_exists(t, o);
    assert(is_insert_point(t, o, p));
    lemma_insert_point(t, o, p);
    lemma_without_mid_insert(t, p, o, m);
}

/// A cancellation undoes an order: after an order (a bid or an ask) and
/// then a message of size zero under its message ID, both sides of the book
/// hold what they held before without that ID
pub proof fn law_cancel_undoes_order(b0: BookState, b1: BookState, b2: BookState, o: datafeed::Order, cancel: datafeed::Order)
    requires
        key_sorted(b0.spec_bids()),
        key_sorted(b0.spec_asks()),
        o.size.spec_with_asset(b0.spec_asset(), 1).amount() != 0,
        cancel.size.spec_with_asset(b0.spec_asset(), 1).amount() == 0,
        cancel.message_id == o.message_id,
        book_inserted(b0, b1, o),
        book_inserted(b1, b2, cancel),
    ensures
        b2.spec_bids() == without_mid(b0.spec_bids(), o.message_id.0@),
        b2.spec_asks() == without_mid(b0.spec_asks(), o.message_id.0@),
{
    let m = o.message_id.0@;
    let so = o.size.spec_with_asset(b0.spec_asset(), 1);
    let x = Order { price: o.price, size: so, message_id: o.message_id, timestamp: o.timestamp };
    let sc = cancel.size.spec_with_asset(b0.spec_asset(), 1);
    let y = Order { price: cancel.price, size: sc, message_id: cancel.message_id, timestamp: cancel.timestamp };
    lemma_without_mid_twice(b0.spec_bids(), m);
    lemma_without_mid_twice(b0.spec_asks(), m);
    if so.amount() > 0 {
        lemma_cancel_undoes_order_side(b0.spec_bids(), x, y);
    } else {
        lemma_cancel_undoes_order_side(b0.spec_asks(), x, y);
    }
}

/// The orders kept by `without_mid` are orders of the original, in order
proof fn lemma_without_mid_from(s: Seq<Order>, m: Seq<u8>)
    ensures
        without_mid(s, m).len() <= s.len(),
        forall|j: int| 0 <= j < without_mid(s, m).len() ==> exists|k: int| 0 <= k < s.len() && #[trigger] without_mid(s, m)[j] == s[k],
    decreases s.len(),
{
    if s.len() > 0 {
        let d = s.drop_last();
        lemma_without_mid_from(d, m);
        let rest = without_mid(d, m);
        assert forall|j: int| 0 <= j < without_mid(s, m).len() implies exists|k: int| 0 <= k < s.len() && #[trigger] without_mid(s, m)[j] == s[k] by {
            if j < rest.len() {
                let k = choose|k: int| 0 <= k < d.len() && rest[j] == d[k];
                assert(without_mid(s, m)[j] == s[k]);
            } else {
                assert(without_mid(s, m)[j] == s[s.len() - 1]);
            }
        }
    }
}

/// The orders kept by `without_mid` stay in order
proof fn lemma_without_mid_sorted(s: Seq<Order>, m: Seq<u8>)
    requires
        key_sorted(s),
    ensures
        key_sorted(without_mid(s, m)),
    decreases s.len(),
{
    if s.len() > 0 {
        let d = s.drop_last();
        assert(key_sorted(d)) by {
            assert forall|i: int, j: int| 0 <= i < j < d.len() implies key_lt(#[trigger] d[i], #[trigger] d[j]) by {
                assert(d[i] == s[i] && d[j] == s[j]);
            }
        }
        lemma_without_mid_sorted(d, m);
        lemma_without_mid_from(d, m);
        let rest = without_mid(d, m);
        if s.last().message_id.0@ != m {
            let t = rest.push(s.last());
            assert forall|i: int, j: int| 0 <= i < j < t.len() implies key_lt(#[trigger] t[i], #[trigger] t[j]) by {
                if j == rest.len() {
                    let k = choose|k: int| 0 <= k < d.len() && rest[i] == d[k];
                    assert(key_lt(s[k], s[s.len() - 1]));
                } else {
                    assert(t[i] == rest[i] && t[j] == rest[j]);
                }
            }
        }
    }
}

/// Sorted orders with no order of a message ID have a place for an order
/// of that ID
proof fn lemma_insert_point_exists(t: Seq<Order>, x: Order)
    requires
        key_sorted(t),
        forall|j: int| 0 <= j < t.len() ==> (#[trigger] t[j]).message_id.0@ != x.message_id.0@,
    ensures
        exists|p: int| is_insert_point(t, x, p),
    decreases t.len(),
{
    if t.len() == 0 {
        assert(is_insert_point(t, x, 0));
    } else {
        let d = t.drop_last();
        let last = t[t.len() - 1];
        assert(key_sorted(d)) by {
            assert forall|i: int, j: int| 0 <= i < j < d.len() implies key_lt(#[trigger] d[i], #[trigger] d[j]) by {
                assert(d[i] == t[i] && d[j] == t[j]);
            }
        }
        assert forall|j: int| 0 <= j < d.len() implies (#[trigger] d[j]).message_id.0@ != x.message_id.0@ by {
            assert(d[j] == t[j]);
        }
        lemma_insert_point_exists(d, x);
        let q = choose|q: int| is_insert_point(d, x, q);
        if key_lt(last, x) {
            assert forall|j: int| 0 <= j < t.len() implies key_lt(#[trigger] t[j], x) by {
                if j < t.len() - 1 {
                    assert(key_lt(t[j], last));
                }
            }
            assert(is_insert_point(t, x, t.len() as int));
        } else {
            if mid_value(last.message_id) == mid_value(x.message_id) {
                lemma_be_value_injective(last.message_id.0@, x.message_id.0@);
            }
            assert(key_lt(x, last));
            assert forall|j: int| 0 <= j < q implies key_lt(#[trigger] t[j], x) by {
                assert(t[j] == d[j]);
            }
            assert forall|j: int| q <= j < t.len() implies key_lt(x, #[trigger] t[j]) by {
                if j < t.len() - 1 {
                    assert(t[j] == d[j]);
                }
            }
            assert(is_insert_point(t, x, q));
        }
    }
}

} // verus!
