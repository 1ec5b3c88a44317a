//! LedgerX contracts
//!
//! The contracts traded on the exchange: options, next-day swaps and
//! futures.

use crate::ledgerx::json;
use crate::option;
use crate::units::{Asset, BudgetAsset, Price, TaxAsset, Underlying, UtcTime};
use vstd::prelude::*;

verus! {

/// Type of contract
#[derive(Copy, Clone, Debug)]
pub enum Type {
    /// A put or call option
    Option {
        /// Time at which exercise choice must be made
        exercise_date: UtcTime,
        /// The underlying option
        opt: option::Option,
    },
    /// A next-day swap
    NextDay {
        /// The next day
        expiry: UtcTime,
    },
    /// A future
    Future {
        /// Date at which the future expires
        expiry: UtcTime,
    },
}

/// The exchange's ID of a contract
#[derive(Copy, Clone, PartialEq, Eq, Hash, Debug, Structural)]
pub struct ContractId(pub usize);

impl ContractId {
    /// Wraps a number
    pub fn from_usize(u: usize) -> (c: ContractId)
        ensures
            c.0 == u,
    {
        ContractId(u)
    }

    /// The number
    pub fn as_usize(&self) -> (u: usize)
        ensures
            u == self.0,
    {
        self.0
    }
}

impl From<usize> for ContractId {
    fn from(u: usize) -> (c: ContractId) {
        ContractId(u)
    }
}

impl vstd::std_specs::convert::FromSpecImpl<usize> for ContractId {
    open spec fn obeys_from_spec() -> bool {
        true
    }

    open spec fn from_spec(v: usize) -> ContractId {
        ContractId(v)
    }
}

/// Structure representing a contract
#[derive(Debug)]
pub struct Contract {
    /// Contract ID
    id: ContractId,
    /// Whether the contract is active
    active: bool,
    /// Whether the contract is a put or a call
    ty: Type,
    /// Underlying physical asset
    underlying: Underlying,
    /// Human-readable label
    label: String,
    /// Multiplier (100 for BTC options, 10 for ETH options)
    multiplier: usize,
    /// Most recent "interesting contract" log date
    pub last_log: Option<UtcTime>,
}

/// The contents of a contract
pub struct ContractView {
    pub id: ContractId,
    pub active: bool,
    pub ty: Type,
    pub underlying: Underlying,
    pub label: Seq<char>,
    pub multiplier: usize,
    pub last_log: Option<UtcTime>,
}

impl View for Contract {
    type V = ContractView;

    closed spec fn view(&self) -> ContractView {
        ContractView {
            id: self.id,
            active: self.active,
            ty: self.ty,
            underlying: self.underlying,
            label: self.label@,
            multiplier: self.multiplier,
            last_log: self.last_log,
        }
    }
}

impl Clone for Contract {
    fn clone(&self) -> (c: Contract)
        ensures
            c@ == self@,
    {
        Contract {
            id: self.id,
            active: self.active,
            ty: self.ty,
            underlying: self.underlying,
            label: self.label.clone(),
            multiplier: self.multiplier,
            last_log: self.last_log,
        }
    }
}

/// Why a contract record was refused
pub open spec fn contract_error(js: json::Contract) -> Option<Seq<char>> {
    if js.date_expires is None {
        Some("missing field 'date_expires'"@)
    } else if js.derivative_type == json::DerivativeType::OptionsContract {
        if js.date_exercise is None {
            Some("missing field 'date_exercise'"@)
        } else if js.ty is None {
            Some("missing field 'type'"@)
        } else if js.strike_price is None {
            Some("missing field 'strike_price'"@)
        } else {
            None
        }
    } else {
        None
    }
}

/// The type of contract a record describes (when it is not refused)
pub open spec fn contract_type(js: json::Contract) -> Type {
    let expiry = js.date_expires->0;
    match js.derivative_type {
        json::DerivativeType::OptionsContract => Type::Option {
            exercise_date: js.date_exercise->0,
            opt: option::Option {
                pc: if js.ty == Some(json::Type::Call) { option::PutCall::Call } else { option::PutCall::Put },
                strike: js.strike_price->0,
                expiry,
            },
        },
        json::DerivativeType::FutureContract => Type::Future { expiry },
        json::DerivativeType::DayAheadSwap => Type::NextDay { expiry },
    }
}

impl Contract {
    /// Accessor for contract ID
    pub fn id(&self) -> (i: ContractId)
        ensures
            i == self@.id,
    {
        self.id
    }

    /// Whether the contract is active
    pub fn active(&self) -> (b: bool)
        ensures
            b == self@.active,
    {
        self.active
    }

    /// Type of the contract
    pub fn ty(&self) -> (t: Type)
        ensures
            t == self@.ty,
    {
        self.ty
    }

    /// The asset of the contract, for positions tracking. Futures are not
    /// supported.
    pub fn asset(&self) -> (a: Asset)
        requires
            !(self@.ty is Future),
        ensures
            self@.ty matches Type::Option { opt, .. } ==> a == (Asset::Option { underlying: self@.underlying, option: opt }),
            self@.ty is NextDay && self@.underlying is Btc ==> a is Btc,
            self@.ty is NextDay && self@.underlying is Eth ==> a is Eth,
    {
        match self.ty {
            Type::Option { opt, .. } => Asset::Option { underlying: self.underlying, option: opt },
            _ => match self.underlying {
                Underlying::Btc => Asset::Btc,
                Underlying::Eth => Asset::Eth,
            },
        }
    }

    /// If this contract represents an asset tracked for tax purposes, return it
    pub fn tax_asset(&self) -> (a: Option<TaxAsset>)
        ensures
            self@.ty matches Type::Option { opt, .. } ==> a == Some(TaxAsset::Option { underlying: self@.underlying, option: opt }),
            self@.ty is NextDay && self@.underlying is Btc ==> a == Some(TaxAsset::Bitcoin),
            self@.ty is NextDay && self@.underlying is Eth ==> a is None,
            self@.ty is Future ==> a is None,
    {
        match self.ty {
            Type::Option { opt, .. } => Some(TaxAsset::Option { underlying: self.underlying, option: opt }),
            Type::NextDay { .. } => match self.underlying {
                Underlying::Btc => Some(TaxAsset::Bitcoin),
                Underlying::Eth => None,
            },
            _ => None,
        }
    }

    /// If this contract represents an asset tracked for budgeting purposes,
    /// return it
    pub fn budget_asset(&self) -> (a: Option<BudgetAsset>)
        ensures
            self@.ty matches Type::Option { opt, .. } ==> a == Some(BudgetAsset::Option { underlying: self@.underlying, option: opt }),
            self@.ty is NextDay && self@.underlying is Btc ==> a == Some(BudgetAsset::Btc),
            self@.ty is NextDay && self@.underlying is Eth ==> a is None,
            self@.ty is Future ==> a is None,
    {
        match self.ty {
            Type::Option { opt, .. } => Some(BudgetAsset::Option { underlying: self.underlying, option: opt }),
            Type::NextDay { .. } => match self.underlying {
                Underlying::Btc => Some(BudgetAsset::Btc),
                Underlying::Eth => None,
            },
            _ => None,
        }
    }

    /// Underlying asset type
    pub fn underlying(&self) -> (u: Underlying)
        ensures
            u == self@.underlying,
    {
        self.underlying
    }

    /// Contract label
    pub fn label(&self) -> (s: &str)
        ensures
            s@ == self@.label,
    {
        self.label.as_str()
    }

    /// Multiplier
    pub fn multiplier(&self) -> (m: usize)
        ensures
            m == self@.multiplier,
    {
        self.multiplier
    }

    /// Expiry date
    pub fn expiry(&self) -> (t: UtcTime)
        ensures
            self@.ty matches Type::Option { opt, .. } ==> t == opt.expiry,
            self@.ty matches Type::NextDay { expiry } ==> t == expiry,
            self@.ty matches Type::Future { expiry } ==> t == expiry,
    {
        match self.ty {
            Type::Option { opt, .. } => opt.expiry,
            Type::NextDay { expiry } => expiry,
            Type::Future { expiry } => expiry,
        }
    }

    /// For a put or a call, return the option
    pub fn as_option(&self) -> (o: Option<option::Option>)
        ensures
            self@.ty matches Type::Option { opt, .. } ==> o == Some(opt),
            !(self@.ty is Option) ==> o is None,
    {
        match self.ty {
            Type::Option { opt, .. } => Some(opt),
            _ => None,
        }
    }

    /// Builds a contract from the exchange's record of it
    pub fn try_from(js: json::Contract) -> (r: Result<Contract, &'static str>)
        ensures
            r is Err <==> contract_error(js) is Some,
            r matches Err(e) ==> Some(e@) == contract_error(js),
            r matches Ok(c) ==> c@ == (ContractView {
                id: ContractId(js.id),
                active: js.active,
                ty: contract_type(js),
                underlying: js.underlying_asset,
                label: js.label@,
                multiplier: js.multiplier,
                last_log: None,
            }),
    {
        proof {
            reveal_strlit("missing field 'date_expires'");
            reveal_strlit("missing field 'date_exercise'");
            reveal_strlit("missing field 'type'");
            reveal_strlit("missing field 'strike_price'");
        }
        let expiry = match js.date_expires {
            Some(e) => e,
            None => return Err("missing field 'date_expires'"),
        };
        let ty = match js.derivative_type {
            json::DerivativeType::OptionsContract => {
                let exercise_date = match js.date_exercise {
                    Some(d) => d,
                    None => return Err("missing field 'date_exercise'"),
                };
                let opt = match js.ty {
                    Some(json::Type::Call) => match js.strike_price {
                        Some(p) => option::Option::new_call(p, expiry),
                        None => return Err("missing field 'strike_price'"),
                    },
                    Some(json::Type::Put) => match js.strike_price {
                        Some(p) => option::Option::new_put(p, expiry),
                        None => return Err("missing field 'strike_price'"),
                    },
                    None => return Err("missing field 'type'"),
                };
                Type::Option { exercise_date, opt }
            },
            json::DerivativeType::FutureContract => Type::Future { expiry },
            json::DerivativeType::DayAheadSwap => Type::NextDay { expiry },
        };
        Ok(Contract {
            id: ContractId(js.id),
            active: js.active,
            ty,
            underlying: js.underlying_asset,
            multiplier: js.multiplier,
            label: js.label,
            last_log: None,
        })
    }
}

} // verus!
