//! Assets
//!
//! The different asset types that are supported by this library.

use crate::option::{same_option, Option, PutCall};
use crate::text::{decimal_padded, push_all, push_decimal_padded, push_signed_decimal, push_str, signed_decimal, string_from_chars};
use crate::units::price::{alt_display, frac_cents, trunc_value, whole_dollars};
use crate::units::utc_time::{iso_date_text, push_iso_date};
use crate::units::decimal::{abs_int, pow10};
use crate::units::{Price, UtcTime};
use vstd::prelude::*;

verus! {

/// A kind of asset which may be the "underlying" for a put or call option
#[derive(Copy, Clone, PartialEq, Eq, Debug, Hash, Structural)]
pub enum Underlying {
    /// Bitcoin
    Btc,
    /// Ethereum
    Eth,
}

impl Underlying {
    /// The ticker of the underlying, "BTC" or "ETH"
    pub fn as_str(self) -> (s: &'static str)
        ensures
            s@ == underlying_text(self),
    {
        proof {
            reveal_strlit("BTC");
            reveal_strlit("ETH");
        }
        match self {
            Underlying::Btc => "BTC",
            Underlying::Eth => "ETH",
        }
    }
}

/// The ticker of an underlying
pub open spec fn underlying_text(u: Underlying) -> Seq<char> {
    match u {
        Underlying::Btc => seq!['B', 'T', 'C'],
        Underlying::Eth => seq!['E', 'T', 'H'],
    }
}

/// A kind of asset that can be deposited or withdrawn
#[derive(Copy, Clone, PartialEq, Eq, Debug, Hash, Structural)]
pub enum DepositAsset {
    /// Bitcoin
    Btc,
    /// Ethereum
    Eth,
    /// US Dollars
    Usd,
}

/// The primary "asset" type which covers every kind of asset supported by
/// the software.
#[derive(Copy, Clone, Debug)]
pub enum Asset {
    /// Bitcoin
    Btc,
    /// Ethereum
    Eth,
    /// US Dollars
    Usd,
    /// A day-ahead swap (differs from the underlying only in some
    /// date-handling contexts)
    NextDay { underlying: Underlying, expiry: UtcTime },
    /// A put or call option
    Option { underlying: Underlying, option: Option },
    /// A future
    Future { underlying: Underlying, expiry: UtcTime },
}

/// A kind of asset which is reflected in the end-of-year tax CSVs
#[derive(Copy, Clone, Debug)]
pub enum TaxAsset {
    /// Actual deposited BTC
    Bitcoin,
    /// Next-Day Bitcoin
    NextDay { underlying: Underlying, expiry: UtcTime },
    /// A put or call option
    Option { underlying: Underlying, option: Option },
}

/// A kind of asset which is reflected in the budget spreadsheet
#[derive(Copy, Clone, Debug)]
pub enum BudgetAsset {
    /// Bitcoin
    Btc,
    /// Ethereum
    Eth,
    /// US Dollars
    Usd,
    /// A put or call option
    Option { underlying: Underlying, option: Option },
}

/// Wrapper around a tax asset to format it in the 2022 format
#[derive(Copy, Clone, Debug)]
pub struct TaxAsset2022(pub TaxAsset);

/// Whether two tax assets are the same asset: same kind, same underlying,
/// options equal by value
pub open spec fn same_tax_asset(a: TaxAsset, b: TaxAsset) -> bool {
    match (a, b) {
        (TaxAsset::Bitcoin, TaxAsset::Bitcoin) => true,
        (TaxAsset::NextDay { underlying: ua, expiry: ea }, TaxAsset::NextDay { underlying: ub, expiry: eb }) =>
            ua == ub && ea == eb,
        (TaxAsset::Option { underlying: ua, option: oa }, TaxAsset::Option { underlying: ub, option: ob }) =>
            ua == ub && same_option(oa, ob),
        _ => false,
    }
}

impl TaxAsset {
    /// Whether this asset is functionally identical to bitcoin
    pub fn is_bitcoin_like(&self) -> (b: bool)
        ensures
            b == !(*self is Option),
    {
        match *self {
            TaxAsset::Bitcoin => true,
            TaxAsset::NextDay { .. } => true,
            TaxAsset::Option { .. } => false,
        }
    }

    /// Whether this asset gets sec. 1256 tax treatment
    pub fn is_1256(&self) -> (b: bool)
        ensures
            b == (*self is Option),
    {
        match *self {
            TaxAsset::Bitcoin => false,
            TaxAsset::NextDay { .. } => false,
            TaxAsset::Option { .. } => true,
        }
    }

    /// Whether two tax assets are the same asset
    pub fn same_as(&self, other: &TaxAsset) -> (b: bool)
        ensures
            b == same_tax_asset(*self, *other),
    {
        match (*self, *other) {
            (TaxAsset::Bitcoin, TaxAsset::Bitcoin) => true,
            (TaxAsset::NextDay { underlying: ua, expiry: ea }, TaxAsset::NextDay { underlying: ub, expiry: eb }) =>
                ua == ub && ea == eb,
            (TaxAsset::Option { underlying: ua, option: oa }, TaxAsset::Option { underlying: ub, option: ob }) =>
                ua == ub && oa.same_as(&ob),
            _ => false,
        }
    }

    /// The asset as it is written in the tax CSVs, e.g.
    /// "BTC Mini 2021-06-25 Call 40,000.00"
    pub fn to_display_string(&self) -> (r: String)
        requires
            self is Option ==> strike_displayable(self->option.strike),
        ensures
            r@ == tax_asset_text(*self),
    {
        let mut out: Vec<char> = Vec::new();
        match *self {
            TaxAsset::Bitcoin => {
                push_str(&mut out, "BTC");
                proof { reveal_strlit("BTC"); }
            },
            TaxAsset::NextDay { .. } => {
                push_str(&mut out, "BTC");
                proof { reveal_strlit("BTC"); }
            },
            TaxAsset::Option { underlying, option } => {
                push_str(&mut out, underlying.as_str());
                push_str(&mut out, " Mini ");
                push_iso_date(&mut out, &option.expiry);
                out.push(' ');
                push_str(&mut out, option.pc.as_str());
                out.push(' ');
                let strike = option.strike.to_alt_string();
                let cs = crate::text::chars_of(strike.as_str());
                push_all(&mut out, &cs);
                proof {
                    reveal_strlit(" Mini ");
                    reveal_strlit("Call");
                    reveal_strlit("Put");
                    assert(out@ =~= underlying_text(underlying) + seq![' ', 'M', 'i', 'n', 'i', ' '] + iso_date_text(option.expiry)
                        + seq![' '] + put_call_text(option.pc) + seq![' '] + alt_display(option.strike.mant(), option.strike.scl()));
                }
            },
        }
        string_from_chars(&out)
    }
}

/// "Call" or "Put"
pub open spec fn put_call_text(pc: PutCall) -> Seq<char> {
    match pc {
        PutCall::Call => seq!['C', 'a', 'l', 'l'],
        PutCall::Put => seq!['P', 'u', 't'],
    }
}

/// Whether a strike is small enough for the thousands-separated display
/// (at most a billion dollars)
pub open spec fn strike_displayable(p: Price) -> bool {
    whole_dollars(p.mant(), p.scl()) < 1_000_000_000
        || (whole_dollars(p.mant(), p.scl()) == 1_000_000_000 && frac_cents(p.mant(), p.scl()) == 0
            && abs_int(p.mant()) % pow10(p.scl() as nat) == 0)
}

/// The text of a tax asset in the tax CSVs
pub open spec fn tax_asset_text(a: TaxAsset) -> Seq<char> {
    match a {
        TaxAsset::Bitcoin => seq!['B', 'T', 'C'],
        TaxAsset::NextDay { .. } => seq!['B', 'T', 'C'],
        TaxAsset::Option { underlying, option } =>
            underlying_text(underlying) + seq![' ', 'M', 'i', 'n', 'i', ' '] + iso_date_text(option.expiry)
                + seq![' '] + put_call_text(option.pc) + seq![' '] + alt_display(option.strike.mant(), option.strike.scl()),
    }
}

/// The three-letter abbreviation of a month (1 to 12)
pub open spec fn month_abbrev(m: int) -> Seq<char> {
    if m == 1 { seq!['J', 'A', 'N'] }
    else if m == 2 { seq!['F', 'E', 'B'] }
    else if m == 3 { seq!['M', 'A', 'R'] }
    else if m == 4 { seq!['A', 'P', 'R'] }
    else if m == 5 { seq!['M', 'A', 'Y'] }
    else if m == 6 { seq!['J', 'U', 'N'] }
    else if m == 7 { seq!['J', 'U', 'L'] }
    else if m == 8 { seq!['A', 'U', 'G'] }
    else if m == 9 { seq!['S', 'E', 'P'] }
    else if m == 10 { seq!['O', 'C', 'T'] }
    else if m == 11 { seq!['N', 'O', 'V'] }
    else { seq!['D', 'E', 'C'] }
}

/// The three-letter abbreviation of a month (1 to 12)
pub fn month_abbrev_str(m: u32) -> (s: &'static str)
    requires
        1 <= m <= 12,
    ensures
        s@ == month_abbrev(m as int),
{
    proof {
        reveal_strlit("JAN"); reveal_strlit("FEB"); reveal_strlit("MAR"); reveal_strlit("APR");
        reveal_strlit("MAY"); reveal_strlit("JUN"); reveal_strlit("JUL"); reveal_strlit("AUG");
        reveal_strlit("SEP"); reveal_strlit("OCT"); reveal_strlit("NOV"); reveal_strlit("DEC");
    }
    if m == 1 { "JAN" }
    else if m == 2 { "FEB" }
    else if m == 3 { "MAR" }
    else if m == 4 { "APR" }
    else if m == 5 { "MAY" }
    else if m == 6 { "JUN" }
    else if m == 7 { "JUL" }
    else if m == 8 { "AUG" }
    else if m == 9 { "SEP" }
    else if m == 10 { "OCT" }
    else if m == 11 { "NOV" }
    else { "DEC" }
}

/// The text of a tax asset in the 2022 tax CSVs, e.g.
/// "BTC-Mini-30DEC2022-20000-Call"
pub open spec fn tax_asset_2022_text(a: TaxAsset) -> Seq<char> {
    match a {
        TaxAsset::Bitcoin => seq!['B', 'T', 'C'],
        TaxAsset::NextDay { .. } => seq!['B', 'T', 'C'],
        TaxAsset::Option { underlying, option } => {
            let d = option.expiry.spec_date();
            underlying_text(underlying) + seq!['-', 'M', 'i', 'n', 'i', '-'] + decimal_padded(d.2 as nat, 2)
                + month_abbrev(d.1) + signed_decimal(d.0) + seq!['-']
                + signed_decimal(trunc_value(option.strike.mant(), option.strike.scl())) + seq!['-']
                + put_call_text(option.pc)
        },
    }
}

impl TaxAsset2022 {
    /// The asset as it is written in the 2022 tax CSVs
    pub fn to_display_string(&self) -> (r: String)
        requires
            self.0 is Option ==> i64::MIN <= trunc_value(self.0->option.strike.mant(), self.0->option.strike.scl()) <= i64::MAX,
        ensures
            r@ == tax_asset_2022_text(self.0),
    {
        let mut out: Vec<char> = Vec::new();
        match self.0 {
            TaxAsset::Bitcoin => {
                push_str(&mut out, "BTC");
                proof { reveal_strlit("BTC"); }
            },
            TaxAsset::NextDay { .. } => {
                push_str(&mut out, "BTC");
                proof { reveal_strlit("BTC"); }
            },
            TaxAsset::Option { underlying, option } => {
                push_str(&mut out, underlying.as_str());
                push_str(&mut out, "-Mini-");
                push_decimal_padded(&mut out, option.expiry.day() as u128, 2);
                push_str(&mut out, month_abbrev_str(option.expiry.month()));
                push_signed_decimal(&mut out, option.expiry.year() as i64);
                out.push('-');
                push_signed_decimal(&mut out, option.strike.to_int());
                out.push('-');
                push_str(&mut out, option.pc.as_str());
                proof {
                    reveal_strlit("-Mini-");
                    reveal_strlit("Call");
                    reveal_strlit("Put");
                    let d = option.expiry.spec_date();
                    assert(out@ =~= underlying_text(underlying) + seq!['-', 'M', 'i', 'n', 'i', '-'] + decimal_padded(d.2 as nat, 2)
                        + month_abbrev(d.1) + signed_decimal(d.0) + seq!['-']
                        + signed_decimal(trunc_value(option.strike.mant(), option.strike.scl())) + seq!['-']
                        + put_call_text(option.pc));
                }
            },
        }
        string_from_chars(&out)
    }
}

/// The asset a deposit asset stands for. Note that deposited ether counts as
/// bitcoin here.
pub open spec fn asset_of_deposit(dep: DepositAsset) -> Asset {
    match dep {
        DepositAsset::Btc => Asset::Btc,
        DepositAsset::Eth => Asset::Btc,
        DepositAsset::Usd => Asset::Usd,
    }
}

impl From<DepositAsset> for Asset {
    fn from(dep: DepositAsset) -> (a: Asset) {
        match dep {
            DepositAsset::Btc => Asset::Btc,
            DepositAsset::Eth => Asset::Btc,
            DepositAsset::Usd => Asset::Usd,
        }
    }
}

impl vstd::std_specs::convert::FromSpecImpl<DepositAsset> for Asset {
    open spec fn obeys_from_spec() -> bool {
        true
    }

    open spec fn from_spec(v: DepositAsset) -> Asset {
        asset_of_deposit(v)
    }
}

/// The asset a tax asset stands for
pub open spec fn asset_of_tax(t: TaxAsset) -> Asset {
    match t {
        TaxAsset::Bitcoin => Asset::Btc,
        TaxAsset::NextDay { underlying, expiry } => Asset::NextDay { underlying, expiry },
        TaxAsset::Option { underlying, option } => Asset::Option { underlying, option },
    }
}

impl From<TaxAsset> for Asset {
    fn from(t: TaxAsset) -> (a: Asset) {
        match t {
            TaxAsset::Bitcoin => Asset::Btc,
            TaxAsset::NextDay { underlying, expiry } => Asset::NextDay { underlying, expiry },
            TaxAsset::Option { underlying, option } => Asset::Option { underlying, option },
        }
    }
}

impl vstd::std_specs::convert::FromSpecImpl<TaxAsset> for Asset {
    open spec fn obeys_from_spec() -> bool {
        true
    }

    open spec fn from_spec(v: TaxAsset) -> Asset {
        asset_of_tax(v)
    }
}

/// The budget asset a tax asset stands for
pub open spec fn budget_of_tax(t: TaxAsset) -> BudgetAsset {
    match t {
        TaxAsset::Bitcoin => BudgetAsset::Btc,
        TaxAsset::NextDay { .. } => BudgetAsset::Btc,
        TaxAsset::Option { underlying, option } => BudgetAsset::Option { underlying, option },
    }
}

impl From<TaxAsset> for BudgetAsset {
    fn from(t: TaxAsset) -> (a: BudgetAsset) {
        match t {
            TaxAsset::Bitcoin => BudgetAsset::Btc,
            TaxAsset::NextDay { .. } => BudgetAsset::Btc,
            TaxAsset::Option { underlying, option } => BudgetAsset::Option { underlying, option },
        }
    }
}

impl vstd::std_specs::convert::FromSpecImpl<TaxAsset> for BudgetAsset {
    open spec fn obeys_from_spec() -> bool {
        true
    }

    open spec fn from_spec(v: TaxAsset) -> BudgetAsset {
        budget_of_tax(v)
    }
}

/// The budget asset a deposit asset stands for
pub open spec fn budget_of_deposit(d: DepositAsset) -> BudgetAsset {
    match d {
        DepositAsset::Btc => BudgetAsset::Btc,
        DepositAsset::Usd => BudgetAsset::Usd,
        DepositAsset::Eth => BudgetAsset::Eth,
    }
}

impl From<DepositAsset> for BudgetAsset {
    fn from(d: DepositAsset) -> (a: BudgetAsset) {
        match d {
            DepositAsset::Btc => BudgetAsset::Btc,
            DepositAsset::Usd => BudgetAsset::Usd,
            DepositAsset::Eth => BudgetAsset::Eth,
        }
    }
}

impl vstd::std_specs::convert::FromSpecImpl<DepositAsset> for BudgetAsset {
    open spec fn obeys_from_spec() -> bool {
        true
    }

    open spec fn from_spec(v: DepositAsset) -> BudgetAsset {
        budget_of_deposit(v)
    }
}

/// The asset a budget asset stands for
pub open spec fn asset_of_budget(b: BudgetAsset) -> Asset {
    match b {
        BudgetAsset::Btc => Asset::Btc,
        BudgetAsset::Eth => Asset::Eth,
        BudgetAsset::Usd => Asset::Usd,
        BudgetAsset::Option { underlying, option } => Asset::Option { underlying, option },
    }
}

impl From<BudgetAsset> for Asset {
    fn from(b: BudgetAsset) -> (a: Asset) {
        match b {
            BudgetAsset::Btc => Asset::Btc,
            BudgetAsset::Eth => Asset::Eth,
            BudgetAsset::Usd => Asset::Usd,
            BudgetAsset::Option { underlying, option } => Asset::Option { underlying, option },
        }
    }
}

impl vstd::std_specs::convert::FromSpecImpl<BudgetAsset> for Asset {
    open spec fn obeys_from_spec() -> bool {
        true
    }

    open spec fn from_spec(v: BudgetAsset) -> Asset {
        asset_of_budget(v)
    }
}

/// The asset an underlying stands for
pub open spec fn asset_of_underlying(u: Underlying) -> Asset {
    match u {
        Underlying::Btc => Asset::Btc,
        Underlying::Eth => Asset::Eth,
    }
}

impl From<Underlying> for Asset {
    fn from(u: Underlying) -> (a: Asset) {
        match u {
            Underlying::Btc => Asset::Btc,
            Underlying::Eth => Asset::Eth,
        }
    }
}

impl vstd::std_specs::convert::FromSpecImpl<Underlying> for Asset {
    open spec fn obeys_from_spec() -> bool {
        true
    }

    open spec fn from_spec(v: Underlying) -> Asset {
        asset_of_underlying(v)
    }
}

/// Converting a tax asset to a budget asset and then to an asset gives the
/// same asset as converting it directly, except that a next-day swap
/// becomes bitcoin.
pub proof fn law_tax_budget_asset(t: TaxAsset)
    ensures
        !(t is NextDay) ==> asset_of_budget(budget_of_tax(t)) == asset_of_tax(t),
        t is NextDay ==> asset_of_budget(budget_of_tax(t)) == Asset::Btc,
{
}

} // verus!
