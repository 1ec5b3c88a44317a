//! Budget rows
//!
//! The events of the account history as rows of a budgeting spreadsheet.

use crate::ledgerx::history::{Event, History};
use crate::option;
use crate::price::Historic;
use crate::price::BitcoinPrice;
use crate::timemap::lower_bound;
use crate::units::asset::{budget_of_deposit, budget_of_tax};
use crate::units::{BudgetAsset, Price, Quantity, TaxAsset, UtcTime};
use vstd::prelude::*;

verus! {

/// What a budget row records
#[derive(Clone, Copy, Debug, PartialEq, Eq, Structural)]
pub enum BudgetKind {
    /// A deposit of dollars or bitcoin
    Deposit,
    /// A withdrawal
    Withdraw,
    /// A trade
    Trade,
    /// The expiry of an option position
    Expiry,
    /// The assignment of an option position
    Assignment,
}

/// The text of a budget row's kind
pub open spec fn budget_kind_text(k: BudgetKind) -> Seq<char> {
    match k {
        BudgetKind::Deposit => seq!['D', 'e', 'p', 'o', 's', 'i', 't'],
        BudgetKind::Withdraw => seq!['W', 'i', 't', 'h', 'd', 'r', 'a', 'w'],
        BudgetKind::Trade => seq!['T', 'r', 'a', 'd', 'e'],
        BudgetKind::Expiry => seq!['E', 'x', 'p', 'i', 'r', 'y'],
        BudgetKind::Assignment => seq!['A', 's', 's', 'i', 'g', 'n', 'm', 'e', 'n', 't'],
    }
}

impl BudgetKind {
    /// The text of the kind, as the first cell of a row
    pub fn as_str(&self) -> (s: &'static str)
        ensures
            s@ == budget_kind_text(*self),
    {
        proof {
            reveal_strlit("Deposit");
            reveal_strlit("Withdraw");
            reveal_strlit("Trade");
            reveal_strlit("Expiry");
            reveal_strlit("Assignment");
        }
        match self {
            BudgetKind::Deposit => "Deposit",
            BudgetKind::Withdraw => "Withdraw",
            BudgetKind::Trade => "Trade",
            BudgetKind::Expiry => "Expiry",
            BudgetKind::Assignment => "Assignment",
        }
    }
}

/// A row of the budget spreadsheet: what happened, when, to which asset,
/// at which price (for trades) and size, and the bitcoin price at the
/// time. For a trade of an option, the option is given too, for the
/// implied volatility and return columns.
#[derive(Clone, Copy, Debug)]
pub struct BudgetRow {
    pub kind: BudgetKind,
    pub date: UtcTime,
    pub asset: BudgetAsset,
    pub price: Option<Price>,
    pub size: Quantity,
    pub btc_price: Price,
    pub option: Option<option::Option>,
}

/// The budget row of an event, given the bitcoin price at its date
pub open spec fn budget_row(date: UtcTime, ev: Event, btc_price: Price) -> BudgetRow {
    match ev {
        Event::UsdDeposit { amount } => BudgetRow {
            kind: BudgetKind::Deposit,
            date,
            asset: BudgetAsset::Usd,
            price: None,
            size: amount,
            btc_price,
            option: None,
        },
        Event::BtcDeposit { amount_sats, .. } => BudgetRow {
            kind: BudgetKind::Deposit,
            date,
            asset: BudgetAsset::Btc,
            price: None,
            size: Quantity::Bitcoin(amount_sats as i64),
            btc_price,
            option: None,
        },
        Event::Withdrawal { amount, asset } => BudgetRow {
            kind: BudgetKind::Withdraw,
            date,
            asset: budget_of_deposit(asset),
            price: None,
            size: amount,
            btc_price,
            option: None,
        },
        Event::Trade { asset, price, size, .. } => BudgetRow {
            kind: BudgetKind::Trade,
            date,
            asset: budget_of_tax(asset),
            price: Some(price),
            size,
            btc_price,
            option: match asset {
                TaxAsset::Option { option, .. } => Some(option),
                _ => None,
            },
        },
        Event::Expiry { option, underlying, size } => BudgetRow {
            kind: BudgetKind::Expiry,
            date,
            asset: BudgetAsset::Option { underlying, option },
            price: None,
            size,
            btc_price,
            option: None,
        },
        Event::Assignment { option, underlying, size, .. } => BudgetRow {
            kind: BudgetKind::Assignment,
            date,
            asset: BudgetAsset::Option { underlying, option },
            price: None,
            size,
            btc_price,
            option: None,
        },
    }
}

/// The bitcoin price recorded last before a time
pub open spec fn price_before(prices: Seq<(UtcTime, BitcoinPrice)>, t: UtcTime) -> Price {
    prices[lower_bound(prices, t@) - 1].1.btc_price
}

/// Whether an event is in a year with a tax configuration
pub open spec fn in_years(years: Seq<i32>, date: UtcTime) -> bool {
    years.contains(date.spec_date().0 as i32)
}

/// The budget rows of the first `n` events: those of the years with a tax
/// configuration, in order
pub open spec fn budget_rows_of(
    evs: Seq<(UtcTime, Event)>,
    n: int,
    years: Seq<i32>,
    prices: Seq<(UtcTime, BitcoinPrice)>,
) -> Seq<BudgetRow>
    decreases n,
{
    if n <= 0 || n > evs.len() {
        Seq::empty()
    } else {
        let rest = budget_rows_of(evs, n - 1, years, prices);
        let (date, ev) = evs[n - 1];
        if in_years(years, date) {
            rest.push(budget_row(date, ev, price_before(prices, date)))
        } else {
            rest
        }
    }
}

/// Whether the rows can be made without a panic: every event of a
/// configured year has a bitcoin price before it, and every bitcoin
/// deposit fits a signed amount
pub open spec fn budget_safe(evs: Seq<(UtcTime, Event)>, years: Seq<i32>, prices: Seq<(UtcTime, BitcoinPrice)>) -> bool {
    forall|i: int| 0 <= i < evs.len() && #[trigger] in_years(years, evs[i].0) ==> {
        &&& lower_bound(prices, evs[i].0@) > 0
        &&& evs[i].1 matches Event::BtcDeposit { amount_sats, .. } ==> amount_sats <= i64::MAX
    }
}

impl History {
    /// The rows of the budget spreadsheet: one per event of a year with a
    /// tax configuration, in time order. Gives nothing when such an event
    /// has no bitcoin price before it, or is a deposit of more bitcoin than
    /// a signed amount holds ([budget_safe]).
    pub fn budget_rows(&self, price_history: &Historic) -> (r: Option<Vec<BudgetRow>>)
        ensures
            r is Some <==> budget_safe(self.spec_events(), self.spec_years(), price_history.spec_data()),
            r matches Some(rows) ==> rows@ == budget_rows_of(self.spec_events(), self.spec_events().len() as int, self.spec_years(), price_history.spec_data()),
    {
        let entries = self.events.entries();
        let ghost evs = self.spec_events();
        let ghost years = self.spec_years();
        let ghost prices = price_history.spec_data();
        let mut rows: Vec<BudgetRow> = Vec::new();
        let mut i: usize = 0;
        while i < entries.len()
            invariant
                entries@ == evs,
                evs == self.spec_events(),
                years == self.spec_years(),
                prices == price_history.spec_data(),
                i <= evs.len(),
                forall|j: int| 0 <= j < i && #[trigger] in_years(years, evs[j].0) ==> {
                    &&& lower_bound(prices, evs[j].0@) > 0
                    &&& evs[j].1 matches Event::BtcDeposit { amount_sats, .. } ==> amount_sats <= i64::MAX
                },
                rows@ == budget_rows_of(evs, i as int, years, prices),
            decreases evs.len() - i,
        {
            let date = entries[i].0;
            let ev = entries[i].1;
            if !self.has_year(date.year()) {
                i = i + 1;
                continue;
            }
            assert(in_years(years, evs[i as int].0));
            proof {
                crate::timemap::lemma_lower_bound_range(prices, date@);
            }
            let btc_price = match price_history.price_before(date) {
                Some(p) => p.btc_price,
                None => {
                    assert(!budget_safe(evs, years, prices));
                    return None;
                },
            };
            if let Event::BtcDeposit { amount_sats, .. } = ev {
                if amount_sats > i64::MAX as u64 {
                    assert(!budget_safe(evs, years, prices));
                    return None;
                }
            }
            let row = match ev {
                Event::UsdDeposit { amount } => BudgetRow {
                    kind: BudgetKind::Deposit,
                    date,
                    asset: BudgetAsset::Usd,
                    price: None,
                    size: amount,
                    btc_price,
                    option: None,
                },
                Event::BtcDeposit { amount_sats, .. } => BudgetRow {
                    kind: BudgetKind::Deposit,
                    date,
                    asset: BudgetAsset::Btc,
                    price: None,
                    size: Quantity::Bitcoin(amount_sats as i64),
                    btc_price,
                    option: None,
                },
                Event::Withdrawal { amount, asset } => BudgetRow {
                    kind: BudgetKind::Withdraw,
                    date,
                    asset: BudgetAsset::from(asset),
                    price: None,
                    size: amount,
                    btc_price,
                    option: None,
                },
                Event::Trade { asset, price, size, .. } => BudgetRow {
                    kind: BudgetKind::Trade,
                    date,
                    asset: BudgetAsset::from(asset),
                    price: Some(price),
                    size,
                    btc_price,
                    option: match asset {
                        TaxAsset::Option { option, .. } => Some(option),
                        _ => None,
                    },
                },
                Event::Expiry { option, underlying, size } => BudgetRow {
                    kind: BudgetKind::Expiry,
                    date,
                    asset: BudgetAsset::Option { underlying, option },
                    price: None,
                    size,
                    btc_price,
                    option: None,
                },
                Event::Assignment { option, underlying, size, .. } => BudgetRow {
                    kind: BudgetKind::Assignment,
                    date,
                    asset: BudgetAsset::Option { underlying, option },
                    price: None,
                    size,
                    btc_price,
                    option: None,
                },
            };
            rows.push(row);
            i = i + 1;
        }
        Some(rows)
    }
}

} // verus!
