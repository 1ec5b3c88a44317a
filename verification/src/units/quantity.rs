//! Quantities
//!
//! A tradeable quantity of some object: bitcoin (in satoshis), US dollars (in
//! cents), or a number of contracts. A unitless zero is compatible with all
//! of them.

use crate::text::{decimal, decimal_padded, push_decimal, push_decimal_padded, push_signed_decimal, push_str, signed_decimal, string_from_chars};
use crate::units::decimal::abs_int;
use crate::units::Asset;
use vstd::prelude::*;

verus! {

/// Satoshis per 1/100th of a bitcoin, the size of one contract.
pub const SATS_PER_CONTRACT: i64 = 1_000_000;

/// A tradeable quantity of some object
#[derive(Copy, Clone, PartialEq, Eq, Debug, Hash, Structural)]
pub enum Quantity {
    /// A unitless zero
    Zero,
    /// A (signed) amount of bitcoin, in satoshis
    Bitcoin(i64),
    /// A (signed) number of US dollars, represented in cents
    Cents(i64),
    /// A (signed) number of contracts
    Contracts(i64),
}

impl Quantity {
    /// The signed number of base units (satoshis, cents, contracts; 0 for `Zero`)
    pub open spec fn amount(self) -> int {
        match self {
            Quantity::Zero => 0,
            Quantity::Bitcoin(n) => n as int,
            Quantity::Cents(n) => n as int,
            Quantity::Contracts(n) => n as int,
        }
    }

    /// The same unit as `self`, holding `n` base units (`Zero` stays `Zero`)
    pub open spec fn with_amount(self, n: int) -> Quantity {
        match self {
            Quantity::Zero => Quantity::Zero,
            Quantity::Bitcoin(_) => Quantity::Bitcoin(n as i64),
            Quantity::Cents(_) => Quantity::Cents(n as i64),
            Quantity::Contracts(_) => Quantity::Contracts(n as i64),
        }
    }

    /// Whether the two quantities carry the same unit, counting `Zero` as
    /// compatible with every unit
    pub open spec fn spec_same_unit(self, other: Quantity) -> bool {
        match (self, other) {
            (Quantity::Zero, _) => true,
            (_, Quantity::Zero) => true,
            (Quantity::Bitcoin(_), Quantity::Bitcoin(_)) => true,
            (Quantity::Contracts(_), Quantity::Contracts(_)) => true,
            (Quantity::Cents(_), Quantity::Cents(_)) => true,
            _ => false,
        }
    }

    /// Whether `n` fits in the range of an `i64`
    pub open spec fn fits(n: int) -> bool {
        i64::MIN <= n <= i64::MAX
    }

    /// Whether the quantity can be negated without overflow
    pub open spec fn can_negate(self) -> bool {
        self.amount() != i64::MIN
    }

    /// The negated quantity
    pub open spec fn spec_neg(self) -> Quantity {
        self.with_amount(-self.amount())
    }

    /// Whether `self + other` succeeds: the unitless zero on either side is
    /// an identity, otherwise both sides must carry the same unit and the sum
    /// must not overflow
    pub open spec fn can_add(self, other: Quantity) -> bool {
        match (self, other) {
            (Quantity::Zero, _) => true,
            (_, Quantity::Zero) => true,
            (Quantity::Bitcoin(a), Quantity::Bitcoin(b)) => Self::fits(a + b),
            (Quantity::Contracts(a), Quantity::Contracts(b)) => Self::fits(a + b),
            (Quantity::Cents(a), Quantity::Cents(b)) => Self::fits(a + b),
            _ => false,
        }
    }

    /// The sum of two quantities (meaningful when `can_add` holds)
    pub open spec fn spec_add(self, other: Quantity) -> Quantity {
        if self is Zero {
            other
        } else {
            self.with_amount(self.amount() + other.amount())
        }
    }

    /// Whether `self - other` succeeds (computed as `self + -other`)
    pub open spec fn can_sub(self, other: Quantity) -> bool {
        other.can_negate() && self.can_add(other.spec_neg())
    }

    /// The difference of two quantities
    pub open spec fn spec_sub(self, other: Quantity) -> Quantity {
        self.spec_add(other.spec_neg())
    }

    /// Whether the quantity is nonnegative
    pub open spec fn spec_is_nonnegative(self) -> bool {
        self.amount() >= 0
    }

    /// Whether two quantities have the same sign, counting zero as either sign
    pub open spec fn spec_same_sign(self, other: Quantity) -> bool {
        self.amount() == 0 || other.amount() == 0 || (self.amount() >= 0) == (other.amount() >= 0)
    }

    /// Constructs a quantity of bitcoin from a number of contracts (1/100 BTC each)
    pub fn btc_from_contracts(n: i64) -> (q: Quantity)
        requires
            Self::fits(n * SATS_PER_CONTRACT),
        ensures
            q == Quantity::Bitcoin((n * SATS_PER_CONTRACT) as i64),
    {
        Quantity::Bitcoin(n * SATS_PER_CONTRACT)
    }

    /// Constructs a quantity of contracts from an unsigned amount of bitcoin
    /// (in satoshis), rounding toward zero
    pub fn contracts_from_btc(sats: u64) -> (q: Quantity)
        requires
            sats <= i64::MAX,
        ensures
            q == Quantity::Contracts((sats / 1_000_000) as i64),
    {
        let s: i64 = sats as i64;
        Quantity::Contracts(s / SATS_PER_CONTRACT)
    }

    /// Constructs a quantity of contracts from a signed amount of bitcoin
    /// (in satoshis), rounding toward zero
    pub fn contracts_from_signed_btc(sats: i64) -> (q: Quantity)
        ensures
            q is Contracts,
            q.amount() * SATS_PER_CONTRACT <= sats || sats < 0,
            sats >= 0 ==> q.amount() == sats / 1_000_000,
            sats < 0 ==> q.amount() == -((-sats) / 1_000_000),
    {
        if sats >= 0 {
            Quantity::Contracts(sats / SATS_PER_CONTRACT)
        } else {
            let pos: i64 = if sats == i64::MIN { i64::MAX } else { -sats };
            let q: i64 = pos / SATS_PER_CONTRACT;
            // i64::MIN and i64::MAX have the same quotient by 10^6
            assert(sats == i64::MIN ==> (i64::MAX as int) / 1_000_000 == (-(i64::MIN as int)) / 1_000_000);
            Quantity::Contracts(-q)
        }
    }

    /// Constructs a quantity from a number of contracts
    pub fn from_contracts(n: i64) -> (q: Quantity)
        ensures
            q == Quantity::Contracts(n),
    {
        Quantity::Contracts(n)
    }

    /// Constructs a quantity from a (signed) number of satoshis
    pub fn from_sats(sats: i64) -> (q: Quantity)
        ensures
            q == Quantity::Bitcoin(sats),
    {
        Quantity::Bitcoin(sats)
    }

    /// Constructs a quantity from an unsigned number of satoshis
    pub fn from_unsigned_sats(sats: u64) -> (q: Quantity)
        requires
            sats <= i64::MAX,
        ensures
            q == Quantity::Bitcoin(sats as i64),
    {
        Quantity::Bitcoin(sats as i64)
    }

    /// The absolute value of a quantity
    pub fn abs(&self) -> (q: Quantity)
        requires
            self.can_negate(),
        ensures
            q == self.with_amount(if self.amount() < 0 { -self.amount() } else { self.amount() }),
            q.amount() >= 0,
    {
        match *self {
            Quantity::Bitcoin(n) => Quantity::Bitcoin(if n < 0 { -n } else { n }),
            Quantity::Contracts(n) => Quantity::Contracts(if n < 0 { -n } else { n }),
            Quantity::Cents(n) => Quantity::Cents(if n < 0 { -n } else { n }),
            Quantity::Zero => Quantity::Zero,
        }
    }

    /// Returns the number of satoshis for a Bitcoin quantity, or the number of
    /// contracts times a million satoshis (one contract is 1/100 BTC)
    pub fn btc_equivalent(&self) -> (sats: i64)
        requires
            !(self is Cents),
            self is Contracts ==> Self::fits(self.amount() * SATS_PER_CONTRACT),
        ensures
            self is Contracts ==> sats == self.amount() * SATS_PER_CONTRACT,
            !(self is Contracts) ==> sats == self.amount(),
    {
        match *self {
            Quantity::Bitcoin(btc) => btc,
            Quantity::Contracts(n) => n * SATS_PER_CONTRACT,
            Quantity::Cents(_) => 0,
            Quantity::Zero => 0,
        }
    }

    /// Whether this is a nonnegative number
    pub fn is_nonnegative(&self) -> (b: bool)
        ensures
            b == (self.amount() >= 0),
    {
        match *self {
            Quantity::Bitcoin(btc) => btc >= 0,
            Quantity::Contracts(n) => n >= 0,
            Quantity::Cents(n) => n >= 0,
            Quantity::Zero => true,
        }
    }

    /// Whether this is a negative number
    pub fn is_negative(&self) -> (b: bool)
        ensures
            b == (self.amount() < 0),
    {
        !self.is_nonnegative()
    }

    /// Whether this is a positive number
    pub fn is_positive(&self) -> (b: bool)
        ensures
            b == (self.amount() > 0),
    {
        match *self {
            Quantity::Bitcoin(btc) => btc > 0,
            Quantity::Contracts(n) => n > 0,
            Quantity::Cents(n) => n > 0,
            Quantity::Zero => false,
        }
    }

    /// Whether this is a nonzero number
    pub fn is_nonzero(&self) -> (b: bool)
        ensures
            b == (self.amount() != 0),
    {
        match *self {
            Quantity::Bitcoin(btc) => btc != 0,
            Quantity::Contracts(n) => n != 0,
            Quantity::Cents(n) => n != 0,
            Quantity::Zero => false,
        }
    }

    /// Whether this represents zero
    pub fn is_zero(&self) -> (b: bool)
        ensures
            b == (self.amount() == 0),
    {
        !self.is_nonzero()
    }

    /// Whether this has the same sign as some other quantity
    ///
    /// Considers the unitless zero to be the same as either sign.
    pub fn has_same_sign(&self, other: Quantity) -> (b: bool)
        ensures
            b == self.spec_same_sign(other),
    {
        if self.raw_amount() == 0 || other.raw_amount() == 0 {
            true
        } else {
            self.is_nonnegative() == other.is_nonnegative()
        }
    }

    /// Whether this is the unitless zero
    pub fn is_unitless_zero(&self) -> (b: bool)
        ensures
            b == (*self is Zero),
    {
        match *self {
            Quantity::Zero => true,
            _ => false,
        }
    }

    /// Whether this quantity has the same units as some other quantity
    ///
    /// Considers zero to have the same units as any quantity
    pub fn has_same_unit(&self, other: Quantity) -> (b: bool)
        ensures
            b == self.spec_same_unit(other),
    {
        match (*self, other) {
            (Quantity::Zero, _) | (_, Quantity::Zero) => true,
            (Quantity::Bitcoin(_), Quantity::Bitcoin(_)) => true,
            (Quantity::Contracts(_), Quantity::Contracts(_)) => true,
            (Quantity::Cents(_), Quantity::Cents(_)) => true,
            _ => false,
        }
    }

    /// The smaller of two quantities of the same unit (the unitless zero
    /// counting as zero of any unit); the first on a tie
    pub open spec fn spec_min(self, other: Quantity) -> Quantity {
        if self.amount() <= other.amount() { self } else { other }
    }

    /// The smaller of two quantities; the two must have the same unit (see
    /// [Quantity::has_same_unit]), the unitless zero going with any unit
    pub fn min(&self, other: Quantity) -> (q: Quantity)
        requires
            self.spec_same_unit(other),
        ensures
            q == self.spec_min(other),
    {
        if self.raw_amount() <= other.raw_amount() {
            *self
        } else {
            other
        }
    }

    /// Compares two quantities of compatible units
    ///
    /// Returns `None` when the units differ (a unitless zero compares with
    /// anything; two unitless zeros do not compare). Otherwise returns
    /// `Some(-1)`, `Some(0)` or `Some(1)`.
    pub fn compare(&self, other: &Quantity) -> (c: Option<i8>)
        ensures
            c is Some <==> (self.spec_same_unit(*other) && !(*self is Zero && *other is Zero)),
            c == Some(-1i8) ==> self.amount() < other.amount(),
            c == Some(0i8) ==> self.amount() == other.amount(),
            c == Some(1i8) ==> self.amount() > other.amount(),
            c matches Some(x) ==> (x == -1 || x == 0 || x == 1),
    {
        let comparable = match (*self, *other) {
            (Quantity::Zero, Quantity::Zero) => false,
            _ => self.has_same_unit(*other),
        };
        if !comparable {
            return None;
        }
        let a: i64 = self.raw_amount();
        let b: i64 = other.raw_amount();
        if a < b {
            Some(-1)
        } else if a == b {
            Some(0)
        } else {
            Some(1)
        }
    }

    /// Whether `self` is strictly greater than `other`, for compatible units
    /// (`false` when the two cannot be compared)
    pub fn gt(&self, other: &Quantity) -> (b: bool)
        ensures
            b == (self.spec_same_unit(*other) && !(*self is Zero && *other is Zero)
                && self.amount() > other.amount()),
    {
        match self.compare(other) {
            Some(c) => c == 1,
            None => false,
        }
    }

    /// The number of base units as a plain integer
    pub fn raw_amount(&self) -> (n: i64)
        ensures
            n == self.amount(),
    {
        match *self {
            Quantity::Bitcoin(n) => n,
            Quantity::Contracts(n) => n,
            Quantity::Cents(n) => n,
            Quantity::Zero => 0,
        }
    }

    /// Negates the quantity
    pub fn neg(self) -> (q: Quantity)
        requires
            self.can_negate(),
        ensures
            q == self.spec_neg(),
    {
        match self {
            Quantity::Zero => Quantity::Zero,
            Quantity::Bitcoin(btc) => Quantity::Bitcoin(-btc),
            Quantity::Contracts(n) => Quantity::Contracts(-n),
            Quantity::Cents(n) => Quantity::Cents(-n),
        }
    }

    /// Whether `self + other` can be formed ([Quantity::can_add])
    pub fn fits_add(&self, other: Quantity) -> (b: bool)
        ensures
            b == self.can_add(other),
    {
        let sum_fits = |a: i64, b: i64| -> (r: bool)
            ensures
                r == Self::fits(a + b),
        {
            let s: i128 = a as i128 + b as i128;
            i64::MIN as i128 <= s && s <= i64::MAX as i128
        };
        match (*self, other) {
            (Quantity::Zero, _) => true,
            (_, Quantity::Zero) => true,
            (Quantity::Bitcoin(a), Quantity::Bitcoin(b)) => sum_fits(a, b),
            (Quantity::Contracts(a), Quantity::Contracts(b)) => sum_fits(a, b),
            (Quantity::Cents(a), Quantity::Cents(b)) => sum_fits(a, b),
            _ => false,
        }
    }

    /// Adds two quantities
    ///
    /// A unitless zero on the left yields the right-hand side unchanged;
    /// otherwise the units must agree.
    pub fn add(self, other: Quantity) -> (q: Quantity)
        requires
            self.can_add(other),
        ensures
            q == self.spec_add(other),
    {
        match self {
            Quantity::Zero => other,
            Quantity::Bitcoin(a) => match other {
                Quantity::Bitcoin(b) => Quantity::Bitcoin(a + b),
                _ => self,
            },
            Quantity::Contracts(a) => match other {
                Quantity::Contracts(b) => Quantity::Contracts(a + b),
                _ => self,
            },
            Quantity::Cents(a) => match other {
                Quantity::Cents(b) => Quantity::Cents(a + b),
                _ => self,
            },
        }
    }

    /// Subtracts two quantities, as `self + -other`
    pub fn sub(self, other: Quantity) -> (q: Quantity)
        requires
            self.can_sub(other),
        ensures
            q == self.spec_sub(other),
    {
        self.add(other.neg())
    }

    /// Adds `other` in place
    pub fn add_assign(&mut self, other: Quantity)
        requires
            old(self).can_add(other),
        ensures
            *final(self) == old(self).spec_add(other),
    {
        *self = self.add(other);
    }

    /// Subtracts `other` in place
    pub fn sub_assign(&mut self, other: Quantity)
        requires
            old(self).can_sub(other),
        ensures
            *final(self) == old(self).spec_sub(other),
    {
        *self = self.sub(other);
    }
}

/// The sum of a sequence of quantities, folding from the unitless zero
pub open spec fn spec_sum(qs: Seq<Quantity>) -> Quantity
    decreases qs.len(),
{
    if qs.len() == 0 {
        Quantity::Zero
    } else {
        spec_sum(qs.drop_last()).spec_add(qs.last())
    }
}

/// Whether every partial sum of the fold is defined
pub open spec fn can_sum(qs: Seq<Quantity>) -> bool
    decreases qs.len(),
{
    qs.len() == 0 || (can_sum(qs.drop_last()) && spec_sum(qs.drop_last()).can_add(qs.last()))
}

/// Sums a list of quantities, starting from the unitless zero
pub fn sum(qs: &Vec<Quantity>) -> (total: Quantity)
    requires
        can_sum(qs@),
    ensures
        total == spec_sum(qs@),
{
    let mut total = Quantity::Zero;
    let mut i: usize = 0;
    while i < qs.len()
        invariant
            i <= qs.len(),
            can_sum(qs@),
            total == spec_sum(qs@.take(i as int)),
        decreases qs.len() - i,
    {
        proof {
            lemma_can_sum_prefix(qs@, (i + 1) as int);
            assert(qs@.take(i as int + 1).drop_last() == qs@.take(i as int));
        }
        total = total.add(qs[i]);
        i = i + 1;
    }
    assert(qs@.take(qs.len() as int) == qs@);
    total
}

/// Every prefix of a summable sequence is summable
pub proof fn lemma_can_sum_prefix(qs: Seq<Quantity>, n: int)
    requires
        can_sum(qs),
        0 <= n <= qs.len(),
    ensures
        can_sum(qs.take(n)),
    decreases qs.len(),
{
    if n < qs.len() {
        assert(qs.drop_last().take(n) == qs.take(n));
        lemma_can_sum_prefix(qs.drop_last(), n);
    } else {
        assert(qs.take(n) == qs);
    }
}

/// Negating a quantity twice gives it back
pub proof fn law_neg_involutive(q: Quantity)
    requires
        q.can_negate(),
    ensures
        q.spec_neg().can_negate(),
        q.spec_neg().spec_neg() == q,
{
}

/// The unitless zero is an identity for addition, on either side
pub proof fn law_zero_add(q: Quantity)
    ensures
        Quantity::Zero.can_add(q),
        Quantity::Zero.spec_add(q) == q,
        q.can_add(Quantity::Zero),
        q.spec_add(Quantity::Zero) == q,
{
}

/// Addition of two quantities of the same (non-zero) unit commutes
pub proof fn law_add_commutes(a: Quantity, b: Quantity)
    requires
        !(a is Zero),
        !(b is Zero),
        a.can_add(b),
    ensures
        b.can_add(a),
        a.spec_add(b) == b.spec_add(a),
{
}

/// Adding a quantity and then subtracting it again gives back the original
pub proof fn law_add_then_sub(a: Quantity, b: Quantity)
    requires
        !(a is Zero),
        a.can_add(b),
        b.can_negate(),
    ensures
        a.spec_add(b).can_sub(b),
        a.spec_add(b).spec_sub(b) == a,
{
}

/// Having the same sign is a symmetric relation
pub proof fn law_same_sign_symmetric(a: Quantity, b: Quantity)
    ensures
        a.spec_same_sign(b) == b.spec_same_sign(a),
{
}

/// A quantity of unknown units (just a signed integer number of base units)
///
/// There is not much you can do with this object without first determining
/// its units.
#[derive(Copy, Clone, PartialEq, Eq, Debug, Default, Hash, Structural)]
pub struct UnknownQuantity {
    pub inner: i64,
}

impl UnknownQuantity {
    /// Constructs an unknown quantity from an integer number of base units
    pub fn from_i64(n: i64) -> (q: Self)
        ensures
            q.inner == n,
    {
        UnknownQuantity { inner: n }
    }

    /// Whether this quantity is nonzero
    pub fn is_nonzero(&self) -> (b: bool)
        ensures
            b == (self.inner != 0),
    {
        self.inner != 0
    }

    /// Interprets the number as bitcoins, in satoshis
    pub fn as_sats(&self) -> (sats: i64)
        ensures
            sats == self.inner,
    {
        self.inner
    }

    /// Adds two unknown quantities
    pub fn add(self, other: Self) -> (q: Self)
        requires
            Quantity::fits(self.inner + other.inner),
        ensures
            q.inner == self.inner + other.inner,
    {
        UnknownQuantity { inner: self.inner + other.inner }
    }

    /// Subtracts two unknown quantities
    pub fn sub(self, other: Self) -> (q: Self)
        requires
            Quantity::fits(self.inner - other.inner),
        ensures
            q.inner == self.inner - other.inner,
    {
        UnknownQuantity { inner: self.inner - other.inner }
    }

    /// Negates an unknown quantity
    pub fn neg(self) -> (q: Self)
        requires
            self.inner != i64::MIN,
        ensures
            q.inner == -self.inner,
    {
        UnknownQuantity { inner: -self.inner }
    }
    /// Whether the units of an asset are known: everything but ether
    pub open spec fn asset_has_units(asset: Asset) -> bool {
        match asset {
            Asset::Eth => false,
            Asset::NextDay { underlying, .. } => underlying is Btc,
            _ => true,
        }
    }

    /// The quantity in the base units of an asset: satoshis for bitcoin (and
    /// bitcoin next-day swaps), cents for dollars, contracts otherwise
    pub open spec fn spec_with_asset(self, asset: Asset, per_unit: int) -> Quantity {
        match asset {
            Asset::Usd => Quantity::Cents(self.inner),
            Asset::Option { .. } => Quantity::Contracts(self.inner),
            Asset::Future { .. } => Quantity::Contracts(self.inner),
            _ => Quantity::Bitcoin((self.inner * per_unit) as i64),
        }
    }

    /// Defines the quantity based on a given asset
    pub fn with_asset(&self, asset: Asset) -> (q: Quantity)
        requires
            Self::asset_has_units(asset),
        ensures
            q == self.spec_with_asset(asset, 1),
    {
        match asset {
            Asset::Btc => Quantity::Bitcoin(self.inner),
            Asset::NextDay { .. } => Quantity::Bitcoin(self.inner),
            Asset::Eth => Quantity::Zero,
            Asset::Usd => Quantity::Cents(self.inner),
            Asset::Option { .. } => Quantity::Contracts(self.inner),
            Asset::Future { .. } => Quantity::Contracts(self.inner),
        }
    }

    /// Defines the quantity based on a given asset, counting bitcoin in
    /// 1/100th-of-a-coin units rather than satoshis
    pub fn with_asset_trade(&self, asset: Asset) -> (q: Quantity)
        requires
            Self::asset_has_units(asset),
            (asset is Btc || asset is NextDay) ==> Quantity::fits(self.inner * SATS_PER_CONTRACT),
        ensures
            q == self.spec_with_asset(asset, SATS_PER_CONTRACT as int),
    {
        match asset {
            Asset::Btc => Quantity::Bitcoin(self.inner * SATS_PER_CONTRACT),
            Asset::NextDay { .. } => Quantity::Bitcoin(self.inner * SATS_PER_CONTRACT),
            Asset::Eth => Quantity::Zero,
            Asset::Usd => Quantity::Cents(self.inner),
            Asset::Option { .. } => Quantity::Contracts(self.inner),
            Asset::Future { .. } => Quantity::Contracts(self.inner),
        }
    }
}

/// The decimal digits of `n`, zero-padded to `width`, without trailing zeros
pub open spec fn strip_trailing_zeros(s: Seq<char>) -> Seq<char>
    decreases s.len(),
{
    if s.len() > 0 && s.last() == '0' {
        strip_trailing_zeros(s.drop_last())
    } else {
        s
    }
}

/// An amount of bitcoin as `bitcoin::SignedAmount` displays it: a minus
/// sign when negative, the whole coins, the fractional digits without
/// trailing zeros (and no point when there are none), then " BTC"
pub open spec fn btc_amount_text(sats: int) -> Seq<char> {
    let mag = abs_int(sats);
    let frac = mag % 100_000_000;
    (if sats < 0 { seq!['-'] } else { Seq::<char>::empty() })
        + decimal((mag / 100_000_000) as nat)
        + (if frac == 0 { Seq::<char>::empty() } else { seq!['.'] + strip_trailing_zeros(decimal_padded(frac as nat, 8)) })
        + seq![' ', 'B', 'T', 'C']
}

/// Displays an amount of bitcoin, given in satoshis, with
/// `bitcoin::SignedAmount`'s `Display`.
///
/// Claims of the crate (`fmt_satoshi_in` with the bitcoin denomination and
/// default options): the text is the sign, the whole coins, the fractional
/// digits with trailing zeros stripped, and the suffix " BTC".
#[verifier::external_body]
fn signed_amount_text(sats: i64) -> (r: String)
    ensures
        r@ == btc_amount_text(sats as int),
{
    bitcoin::SignedAmount::from_sat(sats).to_string()
}

/// The display of a quantity
pub open spec fn quantity_text(q: Quantity) -> Seq<char> {
    match q {
        Quantity::Bitcoin(sats) => btc_amount_text(sats as int),
        Quantity::Contracts(n) => signed_decimal(n as int) + seq![' ', 'c', 't', 's'],
        Quantity::Cents(n) => {
            let r = n as int - (n as int / 100) * 100;
            let whole = if n < 0 { -(abs_int(n as int) / 100) } else { n as int / 100 };
            let rem = if n < 0 { -(abs_int(n as int) % 100) } else { n as int % 100 };
            seq!['$'] + signed_decimal(whole) + seq!['.']
                + (if rem < 0 { seq!['-'] + decimal((-rem) as nat) } else { decimal_padded(rem as nat, 2) })
        },
        Quantity::Zero => seq!['Z', 'E', 'R', 'O'],
    }
}

impl Quantity {
    /// Displays the quantity: bitcoin as "0.01 BTC", contracts as "5 cts",
    /// dollars as "$12.34" and the unitless zero as "ZERO"
    pub fn to_display_string(&self) -> (r: String)
        ensures
            r@ == quantity_text(*self),
    {
        match *self {
            Quantity::Bitcoin(sats) => signed_amount_text(sats),
            Quantity::Contracts(n) => {
                let mut out: Vec<char> = Vec::new();
                push_signed_decimal(&mut out, n);
                push_str(&mut out, " cts");
                proof { reveal_strlit(" cts"); }
                string_from_chars(&out)
            },
            Quantity::Cents(n) => {
                let mut out: Vec<char> = Vec::new();
                out.push('$');
                // Rust's division and remainder round toward zero
                let whole: i64 = n / 100;
                let rem: i64 = n % 100;
                proof {
                    if n < 0 {
                        assert(whole == -(abs_int(n as int) / 100));
                        assert(rem == -(abs_int(n as int) % 100));
                    } else {
                        assert(whole == n as int / 100);
                        assert(rem == n as int % 100);
                    }
                }
                push_signed_decimal(&mut out, whole);
                out.push('.');
                if rem < 0 {
                    out.push('-');
                    push_decimal(&mut out, (-rem) as u128);
                } else {
                    push_decimal_padded(&mut out, rem as u128, 2);
                }
                proof {
                    let w = whole as int;
                    let rr = rem as int;
                    assert(out@ =~= seq!['$'] + signed_decimal(w) + seq!['.']
                        + (if rr < 0 { seq!['-'] + decimal((-rr) as nat) } else { decimal_padded(rr as nat, 2) }));
                }
                string_from_chars(&out)
            },
            Quantity::Zero => {
                proof { reveal_strlit("ZERO"); }
                String::from_str("ZERO")
            },
        }
    }
}

} // verus!
