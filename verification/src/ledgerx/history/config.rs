//! LedgerX History Configuration
//!
//! The configuration which defines all the data needed to produce
//! end-of-year tax documentation: the tax year, the LX-provided CSV lines,
//! the date and price of every coin (lot) that came in, and the raw
//! transactions those coins came from.

use crate::ledgerx::history::lot::Id;
use crate::transaction::{consensus_transaction, first_tx_error, hex_bytes, tx_entry_ok, tx_plain, Database, TxError};
use crate::units::{Price, UtcTime};
use vstd::prelude::*;

verus! {

/// Information about a specific lot
#[derive(Copy, Clone, PartialEq, Eq, Debug)]
pub struct LotInfo {
    /// The bitcoin price reference to use for this lot (not its basis:
    /// that is this price times the quantity)
    pub price: Price,
    /// The date of the lot
    pub date: UtcTime,
}

/// The main configuration structure
#[derive(Debug)]
pub struct Configuration {
    /// The tax year under question
    year: i32,
    /// The LX-provided CSV file, one line per entry
    lx_csv: Vec<String>,
    /// Date and bitcoin price data about every UTXO-based lot
    lots: Vec<(Id, LotInfo)>,
    /// Raw transactions in hex, by txid
    transactions: Vec<([u8; 32], String)>,
}

impl Configuration {
    /// The contents: the year, the CSV lines, the lot data and the raw
    /// transactions
    pub closed spec fn spec_year(self) -> i32 {
        self.year
    }

    /// The LX-provided CSV lines
    pub closed spec fn spec_lx_csv(self) -> Seq<String> {
        self.lx_csv@
    }

    /// The lot data
    pub closed spec fn spec_lots(self) -> Seq<(Id, LotInfo)> {
        self.lots@
    }

    /// The raw transactions, by txid
    pub closed spec fn spec_transactions(self) -> Seq<([u8; 32], String)> {
        self.transactions@
    }

    /// Constructs a configuration
    pub fn new(year: i32, lx_csv: Vec<String>, lots: Vec<(Id, LotInfo)>, transactions: Vec<([u8; 32], String)>) -> (c: Configuration)
        ensures
            c.spec_year() == year,
            c.spec_lx_csv() == lx_csv@,
            c.spec_lots() == lots@,
            c.spec_transactions() == transactions@,
    {
        Configuration { year, lx_csv, lots, transactions }
    }

    /// Accessor for the tax year
    pub fn year(&self) -> (y: i32)
        ensures
            y == self.spec_year(),
    {
        self.year
    }

    /// Accessor for the lines of the LX csv file
    pub fn lx_csv(&self) -> (r: &Vec<String>)
        ensures
            r@ == self.spec_lx_csv(),
    {
        &self.lx_csv
    }

    /// Accessor for the lot database
    pub fn lot_db(&self) -> (r: &Vec<(Id, LotInfo)>)
        ensures
            r@ == self.spec_lots(),
    {
        &self.lots
    }

    /// Accessor for the raw transactions
    pub fn transactions(&self) -> (r: &Vec<([u8; 32], String)>)
        ensures
            r@ == self.spec_transactions(),
    {
        &self.transactions
    }

    /// Constructs the transaction database from the raw transactions: it
    /// fails with the error of the first entry that does not decode under
    /// its txid
    pub fn transaction_db(&self) -> (r: Result<Database, TxError>)
        ensures
            r is Ok <==> forall|i: int| 0 <= i < self.spec_transactions().len()
                ==> tx_entry_ok((#[trigger] self.spec_transactions()[i]).0@, self.spec_transactions()[i].1@),
            r matches Ok(d) ==> d.spec_txs().len() == self.spec_transactions().len() && forall|i: int|
                0 <= i < self.spec_transactions().len() ==> (hex_bytes(self.spec_transactions()[i].1@) matches Some(b)
                && consensus_transaction(b) == Some(tx_plain(#[trigger] d.spec_txs()[i]))),
            r matches Err(e) ==> first_tx_error(self.spec_transactions(), e),
    {
        Database::from_string_map(&self.transactions)
    }
}

} // verus!
