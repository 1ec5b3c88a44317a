//! Lot Management
//!
//! Tax lots: the open positions of the FIFO queues, and the records of
//! (partially) closing them.

use crate::csv::{csv_escape, push_escaped, PrintCsv};
use crate::ledgerx::history::tax::{GainType, TaxDate};
use crate::option::PutCall;
use crate::text::{chars_of, decimal, decimal_padded, push_all, push_decimal, push_decimal_padded, push_str, string_from_chars};
use crate::units::quantity::SATS_PER_CONTRACT;
use crate::units::utc_time::{MAX_TIMESTAMP, NANOS_PER_SEC, SECS_PER_DAY};
use crate::ledgerx::history::tax::{tax_date_rounded_secs, tax_date_text};
use crate::units::asset::{strike_displayable, tax_asset_2022_text, tax_asset_text};
use crate::units::decimal::{abs_int, add_exact, decimal_add, decimal_mul, decimal_sub, overflow_limit, pow10, units};
use crate::units::price::{alt_display, frac_cents, plain_display, trunc_value, whole_dollars};
use crate::units::quantity::quantity_text;
use crate::units::utc_time::{date_text_at, hms_text_at, push_hms, push_iso_date};
use crate::units::TaxAsset2022;
use crate::units::{Price, Quantity, TaxAsset, UtcTime};
use vstd::prelude::*;

verus! {

/// Unique lot IDs
#[derive(Debug)]
pub struct Id(String);

impl Clone for Id {
    fn clone(&self) -> (r: Id)
        ensures
            r@ == self@,
    {
        Id(self.0.clone())
    }
}

impl View for Id {
    type V = Seq<char>;

    /// The text of the ID
    closed spec fn view(&self) -> Seq<char> {
        self.0@
    }
}

/// The text of the `idx`-th generated lot ID with a given prefix
pub open spec fn generated_id_text(prefix: Seq<char>, idx: nat) -> Seq<char> {
    prefix + decimal_padded(idx, 4)
}

impl Id {
    /// An ID with the given text
    pub fn from_str(s: &str) -> (id: Id)
        ensures
            id@ == s@,
    {
        Id(s.to_string())
    }

    /// The text of the ID
    pub fn as_str(&self) -> (s: &str)
        ensures
            s@ == self@,
    {
        self.0.as_str()
    }

    /// Constructor for the next generated BTC lot ID, "lx-btc-0001" and so
    /// on; the counter moves on (wrapping around at its maximum)
    pub fn next_btc(counter: &mut usize) -> (id: Id)
        ensures
            id@ == generated_id_text("lx-btc-"@, *old(counter) as nat),
            *final(counter) == (if *old(counter) == usize::MAX { 0 } else { *old(counter) + 1 }),
    {
        let idx = *counter;
        *counter = counter.wrapping_add(1);
        let mut out: Vec<char> = Vec::new();
        push_str(&mut out, "lx-btc-");
        push_decimal_padded(&mut out, idx as u128, 4);
        Id(string_from_chars(&out))
    }

    /// Constructor for the next generated option lot ID, "lx-opt-0001" and
    /// so on; the counter moves on (wrapping around at its maximum)
    pub fn next_opt(counter: &mut usize) -> (id: Id)
        ensures
            id@ == generated_id_text("lx-opt-"@, *old(counter) as nat),
            *final(counter) == (if *old(counter) == usize::MAX { 0 } else { *old(counter) + 1 }),
    {
        let idx = *counter;
        *counter = counter.wrapping_add(1);
        let mut out: Vec<char> = Vec::new();
        push_str(&mut out, "lx-opt-");
        push_decimal_padded(&mut out, idx as u128, 4);
        Id(string_from_chars(&out))
    }

    /// Constructor for a lot ID that comes from a UTXO: the first eight hex
    /// digits of the txid, a hyphen and the output index (at least two
    /// digits)
    pub fn from_outpoint(txid: &[u8; 32], vout: u32) -> (id: Id)
        ensures
            id@ == txid_prefix_text(txid@) + seq!['-'] + decimal_padded(vout as nat, 2),
    {
        let mut out = chars_of(txid_prefix(txid).as_str());
        out.push('-');
        push_decimal_padded(&mut out, vout as u128, 2);
        Id(string_from_chars(&out))
    }
}

impl PrintCsv for Id {
    open spec fn can_print(&self) -> bool {
        true
    }

    open spec fn csv_text(&self) -> Seq<char> {
        csv_escape(self@)
    }

    fn print(&self) -> (r: String) {
        let cs = chars_of(self.0.as_str());
        let mut out: Vec<char> = Vec::new();
        push_escaped(&mut out, &cs);
        assert(out@ == Seq::<char>::empty() + csv_escape(self@));
        string_from_chars(&out)
    }
}

/// A lowercase hexadecimal digit
pub open spec fn hex_digit(d: int) -> char {
    if d < 10 {
        ((d + 48) as u8) as char
    } else {
        ((d - 10 + 97) as u8) as char
    }
}

/// A byte in two lowercase hexadecimal digits
pub open spec fn hex_byte(b: u8) -> Seq<char> {
    seq![hex_digit(b as int / 16), hex_digit(b as int % 16)]
}

/// The first eight hex digits of a txid as bitcoin displays it: the bytes
/// in reverse order, so the last four bytes come first
pub open spec fn txid_prefix_text(txid: Seq<u8>) -> Seq<char> {
    hex_byte(txid[31]) + hex_byte(txid[30]) + hex_byte(txid[29]) + hex_byte(txid[28])
}

/// The first eight hex digits of a txid, with `format!("{:.8}", txid)` on
/// `bitcoin::Txid`.
///
/// Claims of the crate (`format_hex_reverse` with precision 8): the text is
/// the bytes 31, 30, 29 and 28 in two lowercase hex digits each.
#[verifier::external_body]
fn txid_prefix(txid: &[u8; 32]) -> (s: String)
    ensures
        s@ == txid_prefix_text(txid@),
{
    format!("{:.8}", <bitcoin::Txid as bitcoin::hashes::Hash>::from_inner(*txid))
}

/// The nature of a taxable "open position" event
#[derive(Copy, Clone, PartialEq, Eq, Debug, Structural)]
pub enum OpenType {
    BuyToOpen,
    SellToOpen,
    Deposit,
    /// Only used for expiries and assignments which are events that can't
    /// produce new lots, but the functions require an `OpenType` nonetheless.
    Unknown,
}

impl PrintCsv for OpenType {
    open spec fn can_print(&self) -> bool {
        true
    }

    open spec fn csv_text(&self) -> Seq<char> {
        match *self {
            OpenType::BuyToOpen => "Buy To Open"@,
            OpenType::SellToOpen => "Sell To Open"@,
            OpenType::Deposit => "Deposit"@,
            OpenType::Unknown => "UNKNOWN THIS IS A BUG"@,
        }
    }

    fn print(&self) -> (r: String) {
        match *self {
            OpenType::BuyToOpen => String::from_str("Buy To Open"),
            OpenType::SellToOpen => String::from_str("Sell To Open"),
            OpenType::Deposit => String::from_str("Deposit"),
            OpenType::Unknown => String::from_str("UNKNOWN THIS IS A BUG"),
        }
    }
}

/// The nature of a taxable "close position" event
#[derive(Copy, Clone, PartialEq, Eq, Debug, Structural)]
pub enum CloseType {
    BuyBack,
    Sell,
    Expiry,
    Exercise,
    TxFee,
}

impl PrintCsv for CloseType {
    open spec fn can_print(&self) -> bool {
        true
    }

    open spec fn csv_text(&self) -> Seq<char> {
        match *self {
            CloseType::BuyBack => "Buy Back"@,
            CloseType::Sell => "Sell"@,
            CloseType::Expiry => "Expired"@,
            CloseType::Exercise => "Exercised"@,
            CloseType::TxFee => "Transaction Fee"@,
        }
    }

    fn print(&self) -> (r: String) {
        match *self {
            CloseType::BuyBack => String::from_str("Buy Back"),
            CloseType::Sell => String::from_str("Sell"),
            CloseType::Expiry => String::from_str("Expired"),
            CloseType::Exercise => String::from_str("Exercised"),
            CloseType::TxFee => String::from_str("Transaction Fee"),
        }
    }
}

/// Tax Lot
#[derive(Debug)]
pub struct Lot {
    id: Id,
    asset: TaxAsset,
    quantity: Quantity,
    price: Price,
    date: TaxDate,
    open_ty: OpenType,
    sort_date: UtcTime,
}

/// The contents of a lot
pub struct LotView {
    pub id: Seq<char>,
    pub asset: TaxAsset,
    pub quantity: Quantity,
    pub price: Price,
    pub date: TaxDate,
    pub open_ty: OpenType,
    pub sort_date: UtcTime,
}

impl View for Lot {
    type V = LotView;

    closed spec fn view(&self) -> LotView {
        LotView {
            id: self.id@,
            asset: self.asset,
            quantity: self.quantity,
            price: self.price,
            date: self.date,
            open_ty: self.open_ty,
            sort_date: self.sort_date,
        }
    }
}

impl Clone for Lot {
    fn clone(&self) -> (r: Lot)
        ensures
            r@ == self@,
    {
        Lot {
            id: self.id.clone(),
            asset: self.asset,
            quantity: self.quantity,
            price: self.price,
            date: self.date,
            open_ty: self.open_ty,
            sort_date: self.sort_date,
        }
    }
}

/// Errors closing a lot
#[derive(Debug)]
pub enum LotError {
    /// The closing quantity has the same sign as the lot
    SameSign,
}

impl Lot {
    /// Constructs a lot from a given asset/quantity/price/date, with a fresh
    /// generated ID. Next-day swaps are tracked as their underlying and
    /// never make lots of their own.
    pub fn new(
        asset: TaxAsset,
        quantity: Quantity,
        price: Price,
        date: TaxDate,
        open_ty: OpenType,
        counter: &mut usize,
    ) -> (lot: Lot)
        requires
            !(asset is NextDay),
        ensures
            asset is Bitcoin ==> lot@.id == generated_id_text("lx-btc-"@, *old(counter) as nat),
            asset is Option ==> lot@.id == generated_id_text("lx-opt-"@, *old(counter) as nat),
            *final(counter) == (if *old(counter) == usize::MAX { 0 } else { *old(counter) + 1 }),
            lot@.asset == asset,
            lot@.quantity == quantity,
            lot@.price == price,
            lot@.date == date,
            lot@.open_ty == open_ty,
            lot@.sort_date == date.0,
    {
        let id = match asset {
            TaxAsset::Option { .. } => Id::next_opt(counter),
            _ => Id::next_btc(counter),
        };
        Lot { id, asset, quantity, price, date, open_ty, sort_date: date.bare_time() }
    }

    /// Directly constructs a lot from a deposit of `sats` satoshis. Its sort
    /// date is 100 years (36500 days) after the deposit, so that it is used
    /// by the FIFO only after all other lots.
    pub fn from_deposit(txid: &[u8; 32], vout: u32, price: Price, sats: u64, date: UtcTime) -> (lot: Lot)
        requires
            sats <= i64::MAX,
            date.spec_secs() + 36500 * SECS_PER_DAY <= MAX_TIMESTAMP,
        ensures
            lot@.id == txid_prefix_text(txid@) + seq!['-'] + decimal_padded(vout as nat, 2),
            lot@.asset is Bitcoin,
            lot@.quantity == Quantity::Bitcoin(sats as i64),
            lot@.price == price,
            lot@.date == TaxDate(date),
            lot@.open_ty == OpenType::Deposit,
            lot@.sort_date == date.spec_plus_seconds(36500 * SECS_PER_DAY),
    {
        proof {
            UtcTime::lemma_valid(date);
        }
        Lot {
            id: Id::from_outpoint(txid, vout),
            asset: TaxAsset::Bitcoin,
            quantity: Quantity::from_unsigned_sats(sats),
            price,
            date: TaxDate::from_time(date),
            open_ty: OpenType::Deposit,
            sort_date: date.plus_seconds(36500 * SECS_PER_DAY),
        }
    }

    /// Accessor for the ID
    pub fn id(&self) -> (id: &Id)
        ensures
            id@ == self@.id,
    {
        &self.id
    }

    /// Accessor for the asset
    pub fn asset(&self) -> (a: TaxAsset)
        ensures
            a == self@.asset,
    {
        self.asset
    }

    /// Accessor for the date
    pub fn date(&self) -> (d: TaxDate)
        ensures
            d == self@.date,
    {
        self.date
    }

    /// Accessor for the sort date of the lot. This is normally the same as
    /// the actual date, but for deposits it is 100 years later.
    pub fn sort_date(&self) -> (d: UtcTime)
        ensures
            d == self@.sort_date,
    {
        self.sort_date
    }

    /// Accessor for the basis unit price (the basis is this times the
    /// quantity)
    pub fn price(&self) -> (p: Price)
        ensures
            p == self@.price,
    {
        self.price
    }

    /// Accessor for the quantity
    pub fn quantity(&self) -> (q: Quantity)
        ensures
            q == self@.quantity,
    {
        self.quantity
    }

    /// Accessor for the open type
    pub fn open_ty(&self) -> (t: OpenType)
        ensures
            t == self@.open_ty,
    {
        self.open_ty
    }

    /// Whether closing a lot of quantity `lot_q` with `q` is a partial
    /// close: the closing quantity is smaller in magnitude
    pub open spec fn is_partial(lot_q: Quantity, q: Quantity) -> bool {
        lot_q.spec_same_unit(q) && !(lot_q is Zero && q is Zero) && abs_q(lot_q) > abs_q(q)
    }

    /// Consumes the lot by closing it with `quantity` (of the opposite sign)
    /// at `price`. On a partial close, also returns the reduced lot.
    pub fn close(
        self,
        quantity: Quantity,
        price: Price,
        date: TaxDate,
        ty: CloseType,
        synthetic: Option<PutCall>,
    ) -> (r: Result<(Close, Option<Lot>), LotError>)
        requires
            !self@.quantity.spec_same_sign(quantity) ==> self@.quantity.can_negate() && quantity.can_negate(),
        ensures
            r is Err <==> self@.quantity.spec_same_sign(quantity),
            r matches Ok((c, rest)) ==> {
                &&& c@.ty == ty
                &&& c@.synthetic == synthetic
                &&& c@.open_id == self@.id
                &&& c@.open_original_quantity == self@.quantity
                &&& c@.open_price == self@.price
                &&& c@.open_date == self@.date
                &&& c@.close_price == price
                &&& c@.close_date == date
                &&& c@.asset == self@.asset
                &&& if Self::is_partial(self@.quantity, quantity) {
                    &&& c@.quantity == quantity
                    &&& rest matches Some(l) && l@ == (LotView { quantity: self@.quantity.spec_add(quantity), ..self@ })
                } else {
                    &&& c@.quantity == self@.quantity.spec_neg()
                    &&& rest is None
                }
            },
    {
        if self.quantity.has_same_sign(quantity) {
            return Err(LotError::SameSign);
        }
        let open_original_quantity = self.quantity;
        let partial = self.quantity.abs().gt(&quantity.abs());
        let close_quantity = if partial { quantity } else { self.quantity.neg() };
        let close = Close {
            ty,
            synthetic,
            open_id: self.id.clone(),
            open_original_quantity,
            open_price: self.price,
            open_date: self.date,
            close_price: price,
            close_date: date,
            asset: self.asset,
            quantity: close_quantity,
        };
        if partial {
            let mut rest = self;
            rest.quantity = rest.quantity.add(quantity);
            Ok((close, Some(rest)))
        } else {
            Ok((close, None))
        }
    }
}

/// The magnitude of a quantity's amount
pub open spec fn abs_q(q: Quantity) -> int {
    if q.amount() < 0 { -q.amount() } else { q.amount() }
}

/// Data structure representing the closing of a lot
#[derive(Debug)]
pub struct Close {
    ty: CloseType,
    synthetic: Option<PutCall>,
    open_id: Id,
    open_original_quantity: Quantity,
    open_price: Price,
    open_date: TaxDate,
    close_price: Price,
    close_date: TaxDate,
    asset: TaxAsset,
    quantity: Quantity,
}

/// The contents of a close
pub struct CloseView {
    pub ty: CloseType,
    pub synthetic: Option<PutCall>,
    pub open_id: Seq<char>,
    pub open_original_quantity: Quantity,
    pub open_price: Price,
    pub open_date: TaxDate,
    pub close_price: Price,
    pub close_date: TaxDate,
    pub asset: TaxAsset,
    pub quantity: Quantity,
}

impl View for Close {
    type V = CloseView;

    closed spec fn view(&self) -> CloseView {
        CloseView {
            ty: self.ty,
            synthetic: self.synthetic,
            open_id: self.open_id@,
            open_original_quantity: self.open_original_quantity,
            open_price: self.open_price,
            open_date: self.open_date,
            close_price: self.close_price,
            close_date: self.close_date,
            asset: self.asset,
            quantity: self.quantity,
        }
    }
}

impl Clone for Close {
    fn clone(&self) -> (r: Close)
        ensures
            r@ == self@,
    {
        Close {
            ty: self.ty,
            synthetic: self.synthetic,
            open_id: self.open_id.clone(),
            open_original_quantity: self.open_original_quantity,
            open_price: self.open_price,
            open_date: self.open_date,
            close_price: self.close_price,
            close_date: self.close_date,
            asset: self.asset,
            quantity: self.quantity,
        }
    }
}

/// One year, in nanoseconds: closes within this long of the open are
/// short-term
pub open spec fn one_year_nanos() -> int {
    365 * SECS_PER_DAY * NANOS_PER_SEC
}

/// The gain type of a close: 1256 for options, otherwise short-term when
/// held at most 365 days and long-term beyond
pub open spec fn gain_type_of(c: CloseView) -> GainType {
    if c.asset is Option {
        GainType::Option1256
    } else if c.close_date.0@ - c.open_date.0@ <= one_year_nanos() {
        GainType::ShortTerm
    } else {
        GainType::LongTerm
    }
}

/// An option's close is a 1256 gain/loss. For any other asset the gain/loss
/// is short-term when the lot was closed at most 365 days after it was
/// opened, and long-term when it was closed later than that.
pub proof fn law_gain_type_by_holding_period(c: CloseView)
    ensures
        c.asset is Option ==> gain_type_of(c) is Option1256,
        !(c.asset is Option) && c.close_date.0@ <= c.open_date.0@ + 365 * 86_400 * 1_000_000_000
            ==> gain_type_of(c) is ShortTerm,
        !(c.asset is Option) && c.close_date.0@ > c.open_date.0@ + 365 * 86_400 * 1_000_000_000
            ==> gain_type_of(c) is LongTerm,
{
}

impl Close {
    /// Type of the close (sell, buy, expiry, assignment)
    pub fn ty(&self) -> (t: CloseType)
        ensures
            t == self@.ty,
    {
        self.ty
    }

    /// The size of the lot prior to this close
    pub fn old_lot_size(&self) -> (q: Quantity)
        ensures
            q == self@.open_original_quantity,
    {
        self.open_original_quantity
    }

    /// The basis of the lot at its size prior to this close
    pub fn old_lot_basis(&self) -> (p: Price)
        requires
            self@.open_price.can_mul_quantity(self@.open_original_quantity),
        ensures
            is_price_times(p, self@.open_price, self@.open_original_quantity),
    {
        self.open_price.mul_quantity(self.open_original_quantity)
    }

    /// The size of the lot *after* this close
    pub fn new_lot_size(&self) -> (q: Quantity)
        requires
            self@.open_original_quantity.can_add(self@.quantity),
        ensures
            q == self@.open_original_quantity.spec_add(self@.quantity),
    {
        self.open_original_quantity.add(self.quantity)
    }

    /// The basis of the lot at its size *after* this close: the old basis
    /// less the basis of the closed quantity
    pub fn new_lot_basis(&self) -> (p: Price)
        requires
            close_amounts_ok(self@),
            self@.open_price.can_mul_quantity(self@.open_original_quantity),
            abs_int(parts_value(times_parts(self@.open_price, self@.open_original_quantity)) - parts_value(basis_parts(self@))) <= overflow_limit(),
        ensures
            p.is_parts(new_lot_basis_parts(self@)),
            ({
                let ob = times_parts(self@.open_price, self@.open_original_quantity);
                let b = basis_parts(self@);
                add_exact(ob.0, ob.1, -b.0, b.1) ==> p@ == parts_value(ob) - parts_value(b)
            }),
    {
        let old_basis = self.old_lot_basis();
        let basis = self.basis();
        proof {
            Price::lemma_parts_wf(old_basis);
            Price::lemma_parts_wf(basis);
        }
        old_basis.sub(&basis)
    }

    /// The basis of the closed quantity of the original lot
    pub fn basis(&self) -> (p: Price)
        requires
            self@.quantity.can_negate(),
            self@.open_price.can_mul_quantity(self@.quantity.spec_neg()),
        ensures
            is_price_times(p, self@.open_price, self@.quantity.spec_neg()),
    {
        self.open_price.mul_quantity(self.quantity.neg())
    }

    /// The amount the closed quantity actually closed for
    pub fn proceeds(&self) -> (p: Price)
        requires
            self@.quantity.can_negate(),
            self@.close_price.can_mul_quantity(self@.quantity.spec_neg()),
        ensures
            is_price_times(p, self@.close_price, self@.quantity.spec_neg()),
    {
        self.close_price.mul_quantity(self.quantity.neg())
    }

    /// Whether the gain/loss of this closure can be computed: the basis
    /// and proceeds, and their difference, are in range
    pub fn gain_loss_fits(&self) -> (b: bool)
        ensures
            b == (close_amounts_ok(self@) && abs_int(parts_value(proceeds_parts(self@)) - parts_value(basis_parts(self@))) <= overflow_limit()),
    {
        if self.quantity.raw_amount() == i64::MIN {
            return false;
        }
        let neg = self.quantity.neg();
        if !self.open_price.fits_mul_quantity(neg) || !self.close_price.fits_mul_quantity(neg) {
            return false;
        }
        let proceeds = self.proceeds();
        let basis = self.basis();
        proceeds.fits_sub(&basis)
    }

    /// The gain/loss caused by this closure: proceeds less basis
    pub fn gain_loss(&self) -> (p: Price)
        requires
            close_amounts_ok(self@),
            abs_int(parts_value(proceeds_parts(self@)) - parts_value(basis_parts(self@))) <= overflow_limit(),
        ensures
            p == Price::of_parts(gain_parts(self@)),
    {
        let proceeds = self.proceeds();
        let basis = self.basis();
        proof {
            Price::lemma_parts_wf(proceeds);
            Price::lemma_parts_wf(basis);
        }
        proceeds.sub(&basis)
    }

    /// The gain type of this closure
    pub fn gain_loss_type(&self) -> (g: GainType)
        ensures
            g == gain_type_of(self@),
    {
        if self.asset.is_1256() {
            GainType::Option1256
        } else if self.close_date.sub(self.open_date) <= 365 * (SECS_PER_DAY as i128) * (NANOS_PER_SEC as i128) {
            GainType::ShortTerm
        } else {
            GainType::LongTerm
        }
    }

    /// The date the closed lot was created
    pub fn open_date(&self) -> (d: TaxDate)
        ensures
            d == self@.open_date,
    {
        self.open_date
    }

    /// The date the lot was (partially) closed
    pub fn close_date(&self) -> (d: TaxDate)
        ensures
            d == self@.close_date,
    {
        self.close_date
    }

    /// The asset of the closed lot
    pub fn asset(&self) -> (a: TaxAsset)
        ensures
            a == self@.asset,
    {
        self.asset
    }

    /// The ID of the closed lot
    pub fn open_id(&self) -> (id: &Id)
        ensures
            id@ == self@.open_id,
    {
        &self.open_id
    }

    /// The closed quantity (of the opposite sign to the lot)
    pub fn quantity(&self) -> (q: Quantity)
        ensures
            q == self@.quantity,
    {
        self.quantity
    }
}

/// The decimal of the price `a` times the quantity `q`, as
/// `Price::mul_quantity` computes it
pub open spec fn times_parts(a: Price, q: Quantity) -> (int, int) {
    if q is Zero {
        (0, 0)
    } else {
        decimal_mul(a.mant(), a.scl(), Price::quantity_factor(q).0, Price::quantity_factor(q).1)
    }
}

/// Whether `p` is the price `a` times the quantity `q`
pub open spec fn is_price_times(p: Price, a: Price, q: Quantity) -> bool {
    p.is_parts(times_parts(a, q))
}

/// Output style of a close
#[derive(Copy, Clone, PartialEq, Eq, Debug, Structural)]
pub enum PrintMode {
    /// Try to exactly match the LX output, so 'diff' can confirm that the
    /// same data is interpreted in the same way
    LedgerX,
    /// LedgerX format, but annotated with lot IDs
    LedgerXAnnotated,
    /// A format that shows where the lots come from, at the same totals
    Full,
}

/// The magnitude of a decimal, at the same scale
pub open spec fn abs_parts(ms: (int, int)) -> (int, int) {
    (abs_int(ms.0), ms.1)
}

/// The basis of the closed quantity of the original lot
pub open spec fn basis_parts(c: CloseView) -> (int, int) {
    times_parts(c.open_price, c.quantity.spec_neg())
}

/// The amount the closed quantity actually closed for
pub open spec fn proceeds_parts(c: CloseView) -> (int, int) {
    times_parts(c.close_price, c.quantity.spec_neg())
}

/// The gain/loss of a close: proceeds less basis
pub open spec fn gain_parts(c: CloseView) -> (int, int) {
    decimal_sub(proceeds_parts(c).0, proceeds_parts(c).1, basis_parts(c).0, basis_parts(c).1)
}

/// In the LX formats a negative close swaps the dates and the basis and
/// proceeds columns
pub open spec fn lx_swapped(c: CloseView) -> bool {
    c.quantity.amount() < 0
}

/// The "basis" column of the LX formats
pub open spec fn lx_basis(c: CloseView) -> (int, int) {
    abs_parts(if lx_swapped(c) { proceeds_parts(c) } else { basis_parts(c) })
}

/// The "proceeds" column of the LX formats
pub open spec fn lx_proceeds(c: CloseView) -> (int, int) {
    abs_parts(if lx_swapped(c) { basis_parts(c) } else { proceeds_parts(c) })
}

/// The "disposed" date of the LX formats
pub open spec fn lx_close_date(c: CloseView) -> TaxDate {
    if lx_swapped(c) { c.open_date } else { c.close_date }
}

/// The "acquired" date of the LX formats
pub open spec fn lx_open_date(c: CloseView) -> TaxDate {
    if lx_swapped(c) { c.close_date } else { c.open_date }
}

/// The "gain/loss" column of the LX formats: basis less proceeds
pub open spec fn lx_diff(c: CloseView) -> (int, int) {
    decimal_sub(lx_basis(c).0, lx_basis(c).1, lx_proceeds(c).0, lx_proceeds(c).1)
}

/// An amount of bitcoin (its magnitude) as the LX formats write it: with
/// two decimals when it is a whole number of hundredths, otherwise eight
pub open spec fn lx_btc_text(sats: int) -> Seq<char> {
    let m = abs_int(sats);
    if m % 1_000_000 == 0 {
        decimal((m / 100_000_000) as nat) + seq!['.'] + decimal_padded((m / 1_000_000 % 100) as nat, 2)
    } else {
        decimal((m / 100_000_000) as nat) + seq!['.'] + decimal_padded((m % 100_000_000) as nat, 8)
    }
}

/// The description column of the 2021 LX format
pub open spec fn lx_description_2021(q: Quantity, asset: TaxAsset) -> Seq<char> {
    match q {
        Quantity::Bitcoin(b) => lx_btc_text(b as int) + seq![',', ' '] + tax_asset_text(asset),
        Quantity::Contracts(n) => decimal(abs_int(n as int) as nat) + seq![',', ' '] + tax_asset_text(asset),
        _ => seq!['0'],
    }
}

/// The quantity column of the 2022 LX format
pub open spec fn lx_quantity_2022(q: Quantity) -> Seq<char> {
    match q {
        Quantity::Bitcoin(b) => lx_btc_text(b as int),
        Quantity::Contracts(n) => decimal(abs_int(n as int) as nat) + seq!['.', '0', '0'],
        _ => seq!['0', '.', '0', '0'],
    }
}

/// The first half of the reference column of the 2022 LX format
pub open spec fn lx_reference_1(c: CloseView) -> Seq<char> {
    if c.asset is Bitcoin {
        "Exercise"@
    } else {
        match c.ty {
            CloseType::BuyBack => "Buy to Close"@,
            CloseType::Sell => "Sell to Close"@,
            CloseType::Expiry => "Expire"@,
            CloseType::Exercise => "Exercise"@,
            CloseType::TxFee => "TX Fee"@,
        }
    }
}

/// The second half of the reference column of the 2022 LX format
pub open spec fn lx_reference_2(c: CloseView) -> Seq<char> {
    match c.synthetic {
        Some(PutCall::Call) => "1256 Option - Call"@,
        Some(PutCall::Put) => "1256 Option - Put"@,
        None => match c.asset {
            TaxAsset::Option { option, .. } =>
                if c.ty == CloseType::Expiry || c.ty == CloseType::Exercise {
                    match option.pc {
                        PutCall::Call => "1256 Option - Call"@,
                        PutCall::Put => "1256 Option - Put"@,
                    }
                } else {
                    "1256 Option"@
                },
            _ => "Non-1256 - Future"@,
        },
    }
}

/// A timestamp as the 2022 LX format writes it: to the millisecond
pub open spec fn millis_text(t: UtcTime) -> Seq<char> {
    date_text_at(t.spec_secs()) + seq!['T'] + hms_text_at(t.spec_secs()) + seq!['.']
        + decimal_padded((t.spec_nanos() / 1_000_000) as nat, 3) + seq!['Z']
}

/// The gain type column of the 2022 LX format
pub open spec fn lx_gain_text_2022(g: GainType) -> Seq<char> {
    match g {
        GainType::LongTerm => "Long-Term"@,
        GainType::ShortTerm => "Short-Term"@,
        GainType::Option1256 => "- 1256 - "@,
    }
}

/// Whether an option strike can be shown in the texts of an asset
pub open spec fn asset_displayable(a: TaxAsset) -> bool {
    a is Option ==> strike_displayable(a->option.strike)
}

/// Whether a decimal can be shown with thousands separators
pub open spec fn parts_alt_displayable(ms: (int, int)) -> bool {
    whole_dollars(ms.0, ms.1) < 1_000_000_000
        || (whole_dollars(ms.0, ms.1) == 1_000_000_000 && frac_cents(ms.0, ms.1) == 0 && abs_int(ms.0) % pow10(ms.1 as nat) == 0)
}

/// The value of a decimal, in units of 10^-28
pub open spec fn parts_value(ms: (int, int)) -> int {
    units(ms.0, ms.1)
}

/// Whether the basis and proceeds of a close can be computed
pub open spec fn close_amounts_ok(c: CloseView) -> bool {
    &&& c.quantity.can_negate()
    &&& c.open_price.can_mul_quantity(c.quantity.spec_neg())
    &&& c.close_price.can_mul_quantity(c.quantity.spec_neg())
}

/// Whether the LX rows of a close can be printed
pub open spec fn lx_printable(c: CloseView, asset: TaxAsset, annotated: bool) -> bool {
    &&& close_amounts_ok(c)
    &&& !(c.quantity is Cents)
    &&& abs_int(parts_value(lx_basis(c)) - parts_value(lx_proceeds(c))) <= overflow_limit()
    &&& if c.close_date.0.spec_date().0 == 2021 {
        &&& asset_displayable(asset)
        &&& tax_date_rounded_secs(lx_close_date(c).0) <= MAX_TIMESTAMP
        &&& tax_date_rounded_secs(lx_open_date(c).0) <= MAX_TIMESTAMP
    } else {
        &&& parts_alt_displayable(lx_basis(c))
        &&& parts_alt_displayable(lx_proceeds(c))
        &&& parts_alt_displayable(lx_diff(c))
        &&& asset is Option ==> i64::MIN <= trunc_value(asset->option.strike.mant(), asset->option.strike.scl()) <= i64::MAX
    }
}

/// The row of a close in the 2021 LX format
pub open spec fn lx_row_2021_text(c: CloseView, asset: TaxAsset) -> Seq<char> {
    CloseType::csv_text(&c.ty) + seq![','] + csv_escape(lx_description_2021(c.quantity, asset)) + seq![',']
        + tax_date_text(lx_close_date(c).0) + seq![','] + tax_date_text(lx_open_date(c).0) + seq![',']
        + plain_display(lx_basis(c).0, lx_basis(c).1) + seq![',']
        + plain_display(lx_proceeds(c).0, lx_proceeds(c).1) + seq![',']
        + plain_display(lx_diff(c).0, lx_diff(c).1) + seq![',']
        + GainType::csv_text(&gain_type_of(c)) + seq![',', ',', ',']
}

/// The user ID and reference columns of the 2022 LX format
#[verifier::opaque]
pub open spec fn lx_head_2022(c: CloseView, user_id: usize) -> Seq<char> {
    decimal(user_id as nat) + seq![','] + csv_escape(lx_reference_1(c) + seq![' ', '-', ' '] + lx_reference_2(c)) + seq![',']
}

/// The date columns of the 2022 LX format
#[verifier::opaque]
pub open spec fn lx_dates_2022(c: CloseView) -> Seq<char> {
    millis_text(lx_close_date(c).0) + seq![','] + millis_text(lx_open_date(c).0) + seq![',']
}

/// The amount columns of the 2022 LX format, with thousands separators
#[verifier::opaque]
pub open spec fn lx_amounts_2022(c: CloseView) -> Seq<char> {
    csv_escape(alt_display(lx_basis(c).0, lx_basis(c).1)) + seq![',']
        + csv_escape(alt_display(lx_proceeds(c).0, lx_proceeds(c).1)) + seq![',']
        + csv_escape(alt_display(lx_diff(c).0, lx_diff(c).1)) + seq![',']
}

/// The row of a close in the 2022 LX format
pub open spec fn lx_row_2022_text(c: CloseView, asset: TaxAsset, user_id: usize) -> Seq<char> {
    lx_head_2022(c, user_id) + lx_quantity_2022(c.quantity) + seq![','] + tax_asset_2022_text(asset) + seq![',']
        + lx_dates_2022(c) + lx_amounts_2022(c) + lx_gain_text_2022(gain_type_of(c))
}

/// The LX row of a close: the 2021 format for closes in 2021, the 2022
/// format otherwise, followed by the lot ID when annotated
pub open spec fn lx_row(c: CloseView, asset: TaxAsset, user_id: usize, annotated: bool) -> Seq<char> {
    let row = if c.close_date.0.spec_date().0 == 2021 { lx_row_2021_text(c, asset) } else { lx_row_2022_text(c, asset, user_id) };
    if annotated { row + seq![','] + csv_escape(c.open_id) } else { row }
}

/// In the annotated LX mode a row is the plain LX row, a comma and the lot
/// ID (quoted when it holds a comma, as it is unchanged otherwise)
pub proof fn law_annotated_row(c: CloseView, asset: TaxAsset, user_id: usize)
    ensures
        lx_row(c, asset, user_id, true) == lx_row(c, asset, user_id, false) + seq![','] + csv_escape(c.open_id),
        !c.open_id.contains(',') ==> lx_row(c, asset, user_id, true) == lx_row(c, asset, user_id, false) + seq![','] + c.open_id,
{
}

/// The size of the lot after a close
pub open spec fn new_lot_size_of(c: CloseView) -> Quantity {
    c.open_original_quantity.spec_add(c.quantity)
}

/// The basis of the lot after a close: the old basis less the basis of the
/// closed quantity
pub open spec fn new_lot_basis_parts(c: CloseView) -> (int, int) {
    let old_basis = times_parts(c.open_price, c.open_original_quantity);
    let basis = basis_parts(c);
    decimal_sub(old_basis.0, old_basis.1, basis.0, basis.1)
}

/// Whether the full row of a close can be printed
pub open spec fn full_printable(c: CloseView, asset: TaxAsset) -> bool {
    let old_basis = times_parts(c.open_price, c.open_original_quantity);
    &&& close_amounts_ok(c)
    &&& c.open_price.can_mul_quantity(c.open_original_quantity)
    &&& c.open_original_quantity.can_add(c.quantity)
    &&& abs_int(parts_value(old_basis) - parts_value(basis_parts(c))) <= overflow_limit()
    &&& abs_int(parts_value(proceeds_parts(c)) - parts_value(basis_parts(c))) <= overflow_limit()
    &&& asset_displayable(asset)
    &&& tax_date_rounded_secs(c.close_date.0) <= MAX_TIMESTAMP
}

/// The first columns of the full row: event, date, quantity, asset, price
/// and lot ID
#[verifier::opaque]
pub open spec fn full_head(c: CloseView, asset: TaxAsset) -> Seq<char> {
    CloseType::csv_text(&c.ty) + seq![','] + tax_date_text(c.close_date.0) + seq![',']
        + quantity_text(c.quantity) + seq![','] + tax_asset_text(asset) + seq![',']
        + plain_display(c.close_price.mant(), c.close_price.scl()) + seq![','] + csv_escape(c.open_id) + seq![',']
}

/// The lot columns of the full row: old lot size and basis, new lot size
/// and basis
#[verifier::opaque]
pub open spec fn full_lot_cells(c: CloseView) -> Seq<char> {
    let old_basis = times_parts(c.open_price, c.open_original_quantity);
    let new_basis = new_lot_basis_parts(c);
    quantity_text(c.open_original_quantity) + seq![','] + plain_display(old_basis.0, old_basis.1) + seq![',']
        + quantity_text(new_lot_size_of(c)) + seq![','] + plain_display(new_basis.0, new_basis.1) + seq![',']
}

/// The amount columns of the full row: basis, proceeds and gain/loss
#[verifier::opaque]
pub open spec fn full_amount_cells(c: CloseView) -> Seq<char> {
    let basis = basis_parts(c);
    let proceeds = proceeds_parts(c);
    let gain = decimal_sub(proceeds.0, proceeds.1, basis.0, basis.1);
    plain_display(basis.0, basis.1) + seq![','] + plain_display(proceeds.0, proceeds.1) + seq![',']
        + plain_display(gain.0, gain.1) + seq![',']
}

/// The full row of a close: event, date, quantity, asset, price, lot ID,
/// old lot size and basis, new lot size and basis, basis, proceeds,
/// gain/loss and its type
pub open spec fn full_row(c: CloseView, asset: TaxAsset) -> Seq<char> {
    full_head(c, asset) + full_lot_cells(c) + full_amount_cells(c) + GainType::csv_text(&gain_type_of(c))
}

/// The row of a lot in the full report: open type, date, quantity, asset,
/// price, lot ID, two empty cells, the quantity again, the basis and four
/// empty cells
pub open spec fn lot_row(l: LotView) -> Seq<char> {
    let basis = times_parts(l.price, l.quantity);
    OpenType::csv_text(&l.open_ty) + seq![','] + tax_date_text(l.date.0) + seq![',']
        + quantity_text(l.quantity) + seq![','] + tax_asset_text(l.asset) + seq![',']
        + plain_display(l.price.mant(), l.price.scl()) + seq![','] + csv_escape(l.id) + seq![',', ',', ',']
        + quantity_text(l.quantity) + seq![','] + plain_display(basis.0, basis.1) + seq![',', ',', ',', ',']
}

/// Appends an amount of bitcoin as the LX formats write it
fn push_lx_btc(out: &mut Vec<char>, sats: i64)
    ensures
        final(out)@ == old(out)@ + lx_btc_text(sats as int),
{
    let m: u128 = if sats < 0 { (0i128 - sats as i128) as u128 } else { sats as u128 };
    push_decimal(out, m / 100_000_000);
    out.push('.');
    if m % 1_000_000 == 0 {
        push_decimal_padded(out, m / 1_000_000 % 100, 2);
    } else {
        push_decimal_padded(out, m % 100_000_000, 8);
    }
    proof {
        let mi = abs_int(sats as int);
        assert(m == mi);
        if mi % 1_000_000 == 0 {
            assert(out@ =~= old(out)@ + (decimal((mi / 100_000_000) as nat) + seq!['.'] + decimal_padded((mi / 1_000_000 % 100) as nat, 2)));
        } else {
            assert(out@ =~= old(out)@ + (decimal((mi / 100_000_000) as nat) + seq!['.'] + decimal_padded((mi % 100_000_000) as nat, 8)));
        }
    }
}

/// Appends a timestamp to the millisecond
fn push_millis(out: &mut Vec<char>, t: &UtcTime)
    ensures
        final(out)@ == old(out)@ + millis_text(*t),
{
    push_iso_date(out, t);
    out.push('T');
    push_hms(out, t);
    out.push('.');
    push_decimal_padded(out, (t.nanosecond() / 1_000_000) as u128, 3);
    out.push('Z');
    proof {
        assert(out@ =~= old(out)@ + (date_text_at(t.spec_secs()) + seq!['T'] + hms_text_at(t.spec_secs()) + seq!['.']
            + decimal_padded((t.spec_nanos() / 1_000_000) as nat, 3) + seq!['Z']));
    }
}

/// Appends the characters of a string
fn push_string(out: &mut Vec<char>, s: String)
    ensures
        final(out)@ == old(out)@ + s@,
{
    let cs = chars_of(s.as_str());
    push_all(out, &cs);
}

/// Appends a string as a CSV cell
fn push_string_escaped(out: &mut Vec<char>, s: String)
    ensures
        final(out)@ == old(out)@ + csv_escape(s@),
{
    let cs = chars_of(s.as_str());
    push_escaped(out, &cs);
}

/// CSV printer for a close
pub struct CloseCsv<'close> {
    user_id: usize,
    asset: TaxAsset,
    close: &'close Close,
    mode: PrintMode,
}

impl Close {
    /// Constructs a CSV printer for this close
    pub fn csv_printer(&self, asset: TaxAsset, user_id: usize, mode: PrintMode) -> (p: CloseCsv<'_>)
        ensures
            p.spec_close() == self@,
            p.spec_asset() == asset,
            p.spec_user_id() == user_id,
            p.spec_mode() == mode,
    {
        CloseCsv { user_id, asset, close: self, mode }
    }
}

impl<'close> CloseCsv<'close> {
    /// The close printed
    pub closed spec fn spec_close(self) -> CloseView {
        self.close@
    }

    /// The asset printed
    pub closed spec fn spec_asset(self) -> TaxAsset {
        self.asset
    }

    /// The user ID printed in the 2022 format
    pub closed spec fn spec_user_id(self) -> usize {
        self.user_id
    }

    /// The output style
    pub closed spec fn spec_mode(self) -> PrintMode {
        self.mode
    }

    /// Prints the LX row
    fn print_lx(&self, annotated: bool) -> (r: String)
        requires
            lx_printable(self.close@, self.asset, annotated),
        ensures
            r@ == lx_row(self.close@, self.asset, self.user_id, annotated),
    {
        let c = self.close;
        let ghost cv = c@;
        let mut out = if c.close_date.year() == 2021 {
            lx_row_2021(c, self.asset)
        } else {
            lx_row_2022(c, self.asset, self.user_id)
        };
        if annotated {
            out.push(',');
            push_string(&mut out, c.open_id.print());
        }
        string_from_chars(&out)
    }
}

/// The columns of a close that the LX formats show: basis, proceeds,
/// basis less proceeds, disposed date and acquired date
fn lx_amounts(c: &Close) -> (r: (Price, Price, Price, TaxDate, TaxDate))
    requires
        close_amounts_ok(c@),
        abs_int(parts_value(lx_basis(c@)) - parts_value(lx_proceeds(c@))) <= overflow_limit(),
    ensures
        r.0.is_parts(lx_basis(c@)),
        r.1.is_parts(lx_proceeds(c@)),
        r.2.is_parts(lx_diff(c@)),
        r.3 == lx_close_date(c@),
        r.4 == lx_open_date(c@),
{
    let mut proceeds = c.proceeds();
    let mut basis = c.basis();
    let mut close_date = c.close_date;
    let mut open_date = c.open_date;
    if c.quantity.is_negative() {
        let t = close_date;
        close_date = open_date;
        open_date = t;
        let p = basis;
        basis = proceeds;
        proceeds = p;
    }
    proceeds = proceeds.abs();
    basis = basis.abs();
    proof {
        Price::lemma_parts_wf(basis);
        Price::lemma_parts_wf(proceeds);
    }
    let diff = basis.sub(&proceeds);
    (basis, proceeds, diff, close_date, open_date)
}

/// The description column of the 2021 LX format
fn lx_description(q: Quantity, asset: TaxAsset) -> (r: Vec<char>)
    requires
        !(q is Zero) && !(q is Cents) ==> asset_displayable(asset),
    ensures
        r@ == lx_description_2021(q, asset),
{
    let mut desc: Vec<char> = Vec::new();
    proof { reveal_strlit(", "); }
    match q {
        Quantity::Bitcoin(btc) => {
            push_lx_btc(&mut desc, btc);
            push_str(&mut desc, ", ");
            push_string(&mut desc, asset.to_display_string());
        },
        Quantity::Contracts(n) => {
            let m: u128 = if n < 0 { (0i128 - n as i128) as u128 } else { n as u128 };
            push_decimal(&mut desc, m);
            push_str(&mut desc, ", ");
            push_string(&mut desc, asset.to_display_string());
        },
        _ => {
            desc.push('0');
        },
    }
    proof {
        assert(desc@ =~= lx_description_2021(q, asset));
    }
    desc
}

/// The row of a close in the 2021 LX format
#[verifier::rlimit(80)]
fn lx_row_2021(c: &Close, asset: TaxAsset) -> (r: Vec<char>)
    requires
        lx_printable(c@, asset, false),
        c@.close_date.0.spec_date().0 == 2021,
    ensures
        r@ == lx_row_2021_text(c@, asset),
{
    let (basis, proceeds, diff, close_date, open_date) = lx_amounts(c);
    let ghost cv = c@;
    let mut out: Vec<char> = Vec::new();
    push_string(&mut out, c.ty.print());
    out.push(',');
    let desc = lx_description(c.quantity, asset);
    push_escaped(&mut out, &desc);
    out.push(',');
    assert(out@ =~= CloseType::csv_text(&cv.ty) + seq![','] + csv_escape(lx_description_2021(cv.quantity, asset)) + seq![',']);
    let ghost a1 = out@;
    push_string(&mut out, close_date.print());
    out.push(',');
    push_string(&mut out, open_date.print());
    out.push(',');
    assert(out@ =~= a1 + tax_date_text(lx_close_date(cv).0) + seq![','] + tax_date_text(lx_open_date(cv).0) + seq![',']);
    let ghost a2 = out@;
    push_string(&mut out, basis.to_display_string());
    out.push(',');
    push_string(&mut out, proceeds.to_display_string());
    out.push(',');
    assert(out@ =~= a2 + plain_display(lx_basis(cv).0, lx_basis(cv).1) + seq![',']
        + plain_display(lx_proceeds(cv).0, lx_proceeds(cv).1) + seq![',']);
    let ghost a3 = out@;
    push_string(&mut out, diff.to_display_string());
    out.push(',');
    push_string(&mut out, c.gain_loss_type().print());
    out.push(',');
    out.push(',');
    out.push(',');
    assert(out@ =~= a3 + plain_display(lx_diff(cv).0, lx_diff(cv).1) + seq![',']
        + GainType::csv_text(&gain_type_of(cv)) + seq![',', ',', ',']);
    out
}

/// The reference column of the 2022 LX format
fn lx_reference(c: &Close) -> (r: Vec<char>)
    ensures
        r@ == lx_reference_1(c@) + seq![' ', '-', ' '] + lx_reference_2(c@),
{
    let mut reference: Vec<char> = Vec::new();
    match c.asset {
        TaxAsset::Bitcoin => push_str(&mut reference, "Exercise"),
        _ => match c.ty {
            CloseType::BuyBack => push_str(&mut reference, "Buy to Close"),
            CloseType::Sell => push_str(&mut reference, "Sell to Close"),
            CloseType::Expiry => push_str(&mut reference, "Expire"),
            CloseType::Exercise => push_str(&mut reference, "Exercise"),
            CloseType::TxFee => push_str(&mut reference, "TX Fee"),
        },
    }
    let ghost first = reference@;
    assert(first == lx_reference_1(c@));
    push_str(&mut reference, " - ");
    let ghost mid = reference@;
    match c.synthetic {
        Some(PutCall::Call) => push_str(&mut reference, "1256 Option - Call"),
        Some(PutCall::Put) => push_str(&mut reference, "1256 Option - Put"),
        None => match c.asset {
            TaxAsset::Option { option, .. } => {
                if c.ty == CloseType::Expiry || c.ty == CloseType::Exercise {
                    match option.pc {
                        PutCall::Call => push_str(&mut reference, "1256 Option - Call"),
                        PutCall::Put => push_str(&mut reference, "1256 Option - Put"),
                    }
                } else {
                    push_str(&mut reference, "1256 Option");
                }
            },
            _ => push_str(&mut reference, "Non-1256 - Future"),
        },
    }
    proof {
        reveal_strlit(" - ");
        assert(reference@ =~= first + seq![' ', '-', ' '] + lx_reference_2(c@));
    }
    reference
}

/// The row of a close in the 2022 LX format
#[verifier::rlimit(80)]
fn lx_row_2022(c: &Close, asset: TaxAsset, user_id: usize) -> (r: Vec<char>)
    requires
        lx_printable(c@, asset, false),
        c@.close_date.0.spec_date().0 != 2021,
    ensures
        r@ == lx_row_2022_text(c@, asset, user_id),
{
    let (basis, proceeds, diff, close_date, open_date) = lx_amounts(c);
    let ghost cv = c@;
    let mut out: Vec<char> = Vec::new();
    push_decimal(&mut out, user_id as u128);
    out.push(',');
    let reference = lx_reference(c);
    push_escaped(&mut out, &reference);
    out.push(',');
    let ghost q_start = out@;
    assert(q_start == lx_head_2022(cv, user_id)) by {
        reveal(lx_head_2022);
        assert(q_start =~= decimal(user_id as nat) + seq![',']
            + csv_escape(lx_reference_1(cv) + seq![' ', '-', ' '] + lx_reference_2(cv)) + seq![',']);
    }
    match c.quantity {
        Quantity::Bitcoin(btc) => push_lx_btc(&mut out, btc),
        Quantity::Contracts(n) => {
            let m: u128 = if n < 0 { (0i128 - n as i128) as u128 } else { n as u128 };
            push_decimal(&mut out, m);
            push_str(&mut out, ".00");
            proof { reveal_strlit(".00"); }
        },
        _ => {
            push_str(&mut out, "0.00");
            proof { reveal_strlit("0.00"); }
        },
    }
    assert(out@ =~= q_start + lx_quantity_2022(cv.quantity));
    out.push(',');
    push_string(&mut out, TaxAsset2022(asset).to_display_string());
    out.push(',');
    let ghost a1 = out@;
    let dates = lx_date_cells_2022(&close_date.0, &open_date.0);
    proof {
        reveal(lx_dates_2022);
    }
    push_all(&mut out, &dates);
    let ghost a2 = out@;
    let amounts = lx_amount_cells_2022(&basis, &proceeds, &diff, Ghost(cv));
    push_all(&mut out, &amounts);
    let ghost g_start = out@;
    match c.gain_loss_type() {
        GainType::LongTerm => push_str(&mut out, "Long-Term"),
        GainType::ShortTerm => push_str(&mut out, "Short-Term"),
        GainType::Option1256 => push_str(&mut out, "- 1256 - "),
    }
    assert(out@ =~= g_start + lx_gain_text_2022(gain_type_of(cv)));
    assert(out@ =~= lx_head_2022(cv, user_id) + lx_quantity_2022(cv.quantity) + seq![','] + tax_asset_2022_text(asset) + seq![',']
        + lx_dates_2022(cv) + lx_amounts_2022(cv) + lx_gain_text_2022(gain_type_of(cv)));
    out
}

/// The date cells of the 2022 LX format
fn lx_date_cells_2022(close_date: &UtcTime, open_date: &UtcTime) -> (r: Vec<char>)
    ensures
        r@ == millis_text(*close_date) + seq![','] + millis_text(*open_date) + seq![','],
{
    let mut out: Vec<char> = Vec::new();
    push_millis(&mut out, close_date);
    out.push(',');
    push_millis(&mut out, open_date);
    out.push(',');
    assert(out@ =~= millis_text(*close_date) + seq![','] + millis_text(*open_date) + seq![',']);
    out
}

/// The amount cells of the 2022 LX format
fn lx_amount_cells_2022(basis: &Price, proceeds: &Price, diff: &Price, Ghost(cv): Ghost<CloseView>) -> (r: Vec<char>)
    requires
        basis.is_parts(lx_basis(cv)),
        proceeds.is_parts(lx_proceeds(cv)),
        diff.is_parts(lx_diff(cv)),
        parts_alt_displayable(lx_basis(cv)),
        parts_alt_displayable(lx_proceeds(cv)),
        parts_alt_displayable(lx_diff(cv)),
    ensures
        r@ == lx_amounts_2022(cv),
{
    let mut out: Vec<char> = Vec::new();
    push_string_escaped(&mut out, basis.to_alt_string());
    out.push(',');
    push_string_escaped(&mut out, proceeds.to_alt_string());
    out.push(',');
    push_string_escaped(&mut out, diff.to_alt_string());
    out.push(',');
    proof {
        reveal(lx_amounts_2022);
        assert(out@ =~= csv_escape(alt_display(lx_basis(cv).0, lx_basis(cv).1)) + seq![',']
            + csv_escape(alt_display(lx_proceeds(cv).0, lx_proceeds(cv).1)) + seq![',']
            + csv_escape(alt_display(lx_diff(cv).0, lx_diff(cv).1)) + seq![',']);
    }
    out
}

/// The first cells of the full row
fn full_head_cells(c: &Close, asset: TaxAsset) -> (r: Vec<char>)
    requires
        asset_displayable(asset),
        tax_date_rounded_secs(c@.close_date.0) <= MAX_TIMESTAMP,
    ensures
        r@ == full_head(c@, asset),
{
    let mut out: Vec<char> = Vec::new();
    push_string(&mut out, c.ty.print());
    out.push(',');
    push_string(&mut out, c.close_date.print());
    out.push(',');
    push_string(&mut out, c.quantity.to_display_string());
    out.push(',');
    push_string(&mut out, asset.to_display_string());
    out.push(',');
    push_string(&mut out, c.close_price.to_display_string());
    out.push(',');
    push_string(&mut out, c.open_id.print());
    out.push(',');
    proof {
        reveal(full_head);
        let cv = c@;
        assert(out@ =~= CloseType::csv_text(&cv.ty) + seq![','] + tax_date_text(cv.close_date.0) + seq![',']
            + quantity_text(cv.quantity) + seq![','] + tax_asset_text(asset) + seq![',']
            + plain_display(cv.close_price.mant(), cv.close_price.scl()) + seq![','] + csv_escape(cv.open_id) + seq![',']);
    }
    out
}

/// The lot cells of the full row
fn full_lot_cells_of(c: &Close) -> (r: Vec<char>)
    requires
        close_amounts_ok(c@),
        c@.open_price.can_mul_quantity(c@.open_original_quantity),
        c@.open_original_quantity.can_add(c@.quantity),
        abs_int(parts_value(times_parts(c@.open_price, c@.open_original_quantity)) - parts_value(basis_parts(c@))) <= overflow_limit(),
    ensures
        r@ == full_lot_cells(c@),
{
    let old_basis = c.old_lot_basis();
    proof {
        Price::lemma_parts_wf(old_basis);
    }
    let new_basis = c.new_lot_basis();
    let mut out: Vec<char> = Vec::new();
    push_string(&mut out, c.open_original_quantity.to_display_string());
    out.push(',');
    push_string(&mut out, old_basis.to_display_string());
    out.push(',');
    push_string(&mut out, c.new_lot_size().to_display_string());
    out.push(',');
    push_string(&mut out, new_basis.to_display_string());
    out.push(',');
    proof {
        reveal(full_lot_cells);
        let cv = c@;
        let ob = times_parts(cv.open_price, cv.open_original_quantity);
        let nb = new_lot_basis_parts(cv);
        assert(out@ =~= quantity_text(cv.open_original_quantity) + seq![','] + plain_display(ob.0, ob.1) + seq![',']
            + quantity_text(new_lot_size_of(cv)) + seq![','] + plain_display(nb.0, nb.1) + seq![',']);
    }
    out
}

/// The amount cells of the full row
fn full_amount_cells_of(c: &Close) -> (r: Vec<char>)
    requires
        close_amounts_ok(c@),
        abs_int(parts_value(proceeds_parts(c@)) - parts_value(basis_parts(c@))) <= overflow_limit(),
    ensures
        r@ == full_amount_cells(c@),
{
    let basis = c.basis();
    let proceeds = c.proceeds();
    proof {
        Price::lemma_parts_wf(basis);
        Price::lemma_parts_wf(proceeds);
    }
    let gain = proceeds.sub(&basis);
    let mut out: Vec<char> = Vec::new();
    push_string(&mut out, basis.to_display_string());
    out.push(',');
    push_string(&mut out, proceeds.to_display_string());
    out.push(',');
    push_string(&mut out, gain.to_display_string());
    out.push(',');
    proof {
        reveal(full_amount_cells);
        let cv = c@;
        let b = basis_parts(cv);
        let p = proceeds_parts(cv);
        let g = decimal_sub(p.0, p.1, b.0, b.1);
        assert(out@ =~= plain_display(b.0, b.1) + seq![','] + plain_display(p.0, p.1) + seq![',']
            + plain_display(g.0, g.1) + seq![',']);
    }
    out
}

impl<'close> CloseCsv<'close> {
    /// Prints the full row
    fn print_full(&self) -> (r: String)
        requires
            full_printable(self.close@, self.asset),
        ensures
            r@ == full_row(self.close@, self.asset),
    {
        let c = self.close;
        let mut out = full_head_cells(c, self.asset);
        let lot_cells = full_lot_cells_of(c);
        push_all(&mut out, &lot_cells);
        let amount_cells = full_amount_cells_of(c);
        push_all(&mut out, &amount_cells);
        push_string(&mut out, c.gain_loss_type().print());
        string_from_chars(&out)
    }
}

/// The text of a close in a given print mode
pub open spec fn close_csv_text(c: CloseView, asset: TaxAsset, user_id: usize, mode: PrintMode) -> Seq<char> {
    match mode {
        PrintMode::LedgerX => lx_row(c, asset, user_id, false),
        PrintMode::LedgerXAnnotated => lx_row(c, asset, user_id, true),
        PrintMode::Full => full_row(c, asset),
    }
}

impl<'close> PrintCsv for CloseCsv<'close> {
    open spec fn can_print(&self) -> bool {
        match self.spec_mode() {
            PrintMode::LedgerX => lx_printable(self.spec_close(), self.spec_asset(), false),
            PrintMode::LedgerXAnnotated => lx_printable(self.spec_close(), self.spec_asset(), true),
            PrintMode::Full => full_printable(self.spec_close(), self.spec_asset()),
        }
    }

    open spec fn csv_text(&self) -> Seq<char> {
        close_csv_text(self.spec_close(), self.spec_asset(), self.spec_user_id(), self.spec_mode())
    }

    fn print(&self) -> (r: String) {
        match self.mode {
            PrintMode::LedgerX => self.print_lx(false),
            PrintMode::LedgerXAnnotated => self.print_lx(true),
            PrintMode::Full => self.print_full(),
        }
    }
}

/// CSV printer for a lot, consistent with the full CSV output for closes
pub struct LotCsv<'lot> {
    lot: &'lot Lot,
}

impl Lot {
    /// Constructs a CSV printer for this lot
    pub fn csv_printer(&self) -> (p: LotCsv<'_>)
        ensures
            p.spec_lot() == self@,
    {
        LotCsv { lot: self }
    }
}

impl<'lot> LotCsv<'lot> {
    /// The lot printed
    pub closed spec fn spec_lot(self) -> LotView {
        self.lot@
    }
}

impl<'lot> PrintCsv for LotCsv<'lot> {
    open spec fn can_print(&self) -> bool {
        &&& self.spec_lot().price.can_mul_quantity(self.spec_lot().quantity)
        &&& asset_displayable(self.spec_lot().asset)
        &&& tax_date_rounded_secs(self.spec_lot().date.0) <= MAX_TIMESTAMP
    }

    open spec fn csv_text(&self) -> Seq<char> {
        lot_row(self.spec_lot())
    }

    #[verifier::rlimit(40)]
    fn print(&self) -> (r: String) {
        let l = self.lot;
        let basis = l.price.mul_quantity(l.quantity);
        let mut out: Vec<char> = Vec::new();
        push_string(&mut out, l.open_ty.print());
        out.push(',');
        push_string(&mut out, l.date.print());
        out.push(',');
        push_string(&mut out, l.quantity.to_display_string());
        out.push(',');
        push_string(&mut out, l.asset.to_display_string());
        out.push(',');
        assert(out@ =~= OpenType::csv_text(&l@.open_ty) + seq![','] + tax_date_text(l@.date.0) + seq![',']
            + quantity_text(l@.quantity) + seq![','] + tax_asset_text(l@.asset) + seq![',']);
        let ghost a1 = out@;
        push_string(&mut out, l.price.to_display_string());
        out.push(',');
        push_string(&mut out, l.id.print());
        out.push(',');
        out.push(',');
        out.push(',');
        push_string(&mut out, l.quantity.to_display_string());
        out.push(',');
        push_string(&mut out, basis.to_display_string());
        out.push(',');
        out.push(',');
        out.push(',');
        out.push(',');
        proof {
            let lv = l@;
            let b = times_parts(lv.price, lv.quantity);
            assert(out@ =~= a1 + plain_display(lv.price.mant(), lv.price.scl()) + seq![','] + csv_escape(lv.id) + seq![',', ',', ',']
                + quantity_text(lv.quantity) + seq![','] + plain_display(b.0, b.1) + seq![',', ',', ',', ',']);
        }
        string_from_chars(&out)
    }
}

/// Whether a decimal's magnitude can be written with thousands separators
/// ([parts_alt_displayable]: at most a billion dollars)
fn alt_fits(p: &Price) -> (b: bool)
    ensures
        b == parts_alt_displayable((p.mant(), p.scl())),
{
    proof {
        Price::lemma_parts_wf(*p);
        crate::units::decimal::lemma_pow10_positive(p.scl() as nat);
        crate::units::decimal::lemma_pow10_increases(p.scl() as nat, 28);
        crate::units::decimal::lemma_pow10_28();
    }
    let m = p.mantissa();
    let mag: u128 = if m < 0 { (-m) as u128 } else { m as u128 };
    let k: u128 = crate::units::price::pow10_i128(p.scale()) as u128;
    let t: u128 = mag / k;
    let fm: u128 = mag % k;
    proof {
        assert(fm * 100 < k * 100) by (nonlinear_arith) requires fm < k;
    }
    let f: u128 = fm * 100 / k;
    t < 1_000_000_000 || (t == 1_000_000_000 && f == 0 && fm == 0)
}

/// Whether a tax date, rounded to the second, is in range
fn rounded_fits(d: &TaxDate) -> (b: bool)
    ensures
        b == (tax_date_rounded_secs(d.0) <= MAX_TIMESTAMP),
{
    if d.0.nanosecond() / 1000 > 500_000 {
        d.0.timestamp() < MAX_TIMESTAMP
    } else {
        proof {
            UtcTime::lemma_valid(d.0);
        }
        true
    }
}

/// Whether the strike of an option asset can be written ([asset_displayable])
fn displayable(a: &TaxAsset) -> (b: bool)
    ensures
        b == asset_displayable(*a),
{
    match a {
        TaxAsset::Option { option, .. } => alt_fits(&option.strike),
        _ => true,
    }
}

/// Whether a price rounded toward zero to whole dollars fits an `i64`
fn whole_fits(p: &Price) -> (b: bool)
    ensures
        b == (i64::MIN <= trunc_value(p.mant(), p.scl()) <= i64::MAX),
{
    proof {
        Price::lemma_parts_wf(*p);
        crate::units::decimal::lemma_pow10_positive(p.scl() as nat);
    }
    let m = p.mantissa();
    let k: i128 = crate::units::price::pow10_i128(p.scale());
    let q: i128 = if m >= 0 { m / k } else { -((-m) / k) };
    i64::MIN as i128 <= q && q <= i64::MAX as i128
}

impl Lot {
    /// Whether the lot can be written in the full tax report: its cost is
    /// in range, its strike (for an option) can be written, and its date
    /// rounded to the second is in range
    pub fn printable(&self) -> (b: bool)
        ensures
            b == (self@.price.can_mul_quantity(self@.quantity) && asset_displayable(self@.asset)
                && tax_date_rounded_secs(self@.date.0) <= MAX_TIMESTAMP),
    {
        self.price.fits_mul_quantity(self.quantity) && displayable(&self.asset) && rounded_fits(&self.date)
    }
}

impl Close {
    /// Whether the close can be written in both the LX and the full tax
    /// reports ([lx_printable], [full_printable])
    pub fn printable(&self, asset: &TaxAsset) -> (b: bool)
        ensures
            b == (lx_printable(self@, *asset, false) && full_printable(self@, *asset)),
    {
        let ghost c = self@;
        if self.quantity.raw_amount() == i64::MIN {
            return false;
        }
        let neg = self.quantity.neg();
        if !self.open_price.fits_mul_quantity(neg) || !self.close_price.fits_mul_quantity(neg) {
            return false;
        }
        if let Quantity::Cents(_) = self.quantity {
            return false;
        }
        let basis = self.basis();
        let proceeds = self.proceeds();
        let swapped = self.quantity.raw_amount() < 0;
        let (lb, lp) = if swapped { (proceeds.abs(), basis.abs()) } else { (basis.abs(), proceeds.abs()) };
        assert(lb.is_parts(lx_basis(c)) && lp.is_parts(lx_proceeds(c)));
        if !lb.fits_sub(&lp) {
            return false;
        }
        let lx_ok = if self.close_date.0.year() == 2021 {
            let (close_d, open_d) = if swapped { (&self.open_date, &self.close_date) } else { (&self.close_date, &self.open_date) };
            displayable(asset) && rounded_fits(close_d) && rounded_fits(open_d)
        } else {
            let diff = lb.sub(&lp);
            let strike_ok = match asset {
                TaxAsset::Option { option, .. } => whole_fits(&option.strike),
                _ => true,
            };
            alt_fits(&lb) && alt_fits(&lp) && alt_fits(&diff) && strike_ok
        };
        if !lx_ok {
            return false;
        }
        if !self.open_price.fits_mul_quantity(self.open_original_quantity) || !self.open_original_quantity.fits_add(self.quantity) {
            return false;
        }
        let old_basis = self.open_price.mul_quantity(self.open_original_quantity);
        old_basis.fits_sub(&basis) && proceeds.fits_sub(&basis) && displayable(asset) && rounded_fits(&self.close_date)
    }
}

} // verus!
