//! Trade Tracker
//!
//! Bookkeeping for a personal options-trading account: quantities and prices,
//! timestamps, FIFO tax-lot tracking, order books and the parsing of the
//! exchange's CSV reports.

pub mod units;
pub mod coinbase;
pub mod connect;
pub mod csv;
pub mod ledgerx;
pub mod option;
pub mod price;
pub mod terminal;
pub mod text;
pub mod timemap;
pub mod transaction;

use vstd::prelude::*;

verus! {

/// Mode indicating how much/what data to output from the tax-history command
#[derive(Clone, Copy, Debug, PartialEq, Eq, Structural)]
pub enum TaxHistoryMode {
    JustLxData,
    JustLotIds,
    Both,
}

/// The mode named by a text, if any
pub open spec fn tax_history_mode_of(s: Seq<char>) -> Option<TaxHistoryMode> {
    if s == seq!['j', 'u', 's', 't', '-', 'l', 'x', '-', 'd', 'a', 't', 'a'] {
        Some(TaxHistoryMode::JustLxData)
    } else if s == seq!['j', 'u', 's', 't', '-', 'l', 'o', 't', '-', 'i', 'd', 's'] {
        Some(TaxHistoryMode::JustLotIds)
    } else if s == seq!['b', 'o', 't', 'h'] {
        Some(TaxHistoryMode::Both)
    } else {
        None
    }
}

/// The message for a text that names no mode
pub open spec fn tax_history_mode_error(s: Seq<char>) -> Seq<char> {
    seq!['I', 'n', 'v', 'a', 'l', 'i', 'd', ' ', 't', 'a', 'x', ' ', 'h', 'i', 's', 't', 'o', 'r', 'y', ' ', 'm', 'o', 'd', 'e', ' ']
        + s
        + seq![';', ' ', 'a', 'l', 'l', 'o', 'w', 'e', 'd', ' ', 'v', 'a', 'l', 'u', 'e', 's', ':', ' ']
        + seq!['j', 'u', 's', 't', '-', 'l', 'x', '-', 'd', 'a', 't', 'a', ',', ' ']
        + seq!['j', 'u', 's', 't', '-', 'l', 'o', 't', '-', 'i', 'd', 's', ',', ' ', 'b', 'o', 't', 'h']
}

impl TaxHistoryMode {
    /// Parses a mode: "just-lx-data", "just-lot-ids" or "both"
    pub fn from_str(s: &str) -> (r: Result<TaxHistoryMode, String>)
        ensures
            match tax_history_mode_of(s@) {
                Some(m) => r == Ok::<TaxHistoryMode, String>(m),
                None => r matches Err(e) && e@ == tax_history_mode_error(s@),
            },
    {
        proof {
            reveal_strlit("just-lx-data");
            reveal_strlit("just-lot-ids");
            reveal_strlit("both");
            reveal_strlit("Invalid tax history mode ");
            reveal_strlit("; allowed values: just-lx-data, just-lot-ids, both");
            assert("just-lx-data"@ =~= seq!['j', 'u', 's', 't', '-', 'l', 'x', '-', 'd', 'a', 't', 'a']);
            assert("just-lot-ids"@ =~= seq!['j', 'u', 's', 't', '-', 'l', 'o', 't', '-', 'i', 'd', 's']);
            assert("both"@ =~= seq!['b', 'o', 't', 'h']);
        }
        let cs = text::chars_of(s);
        if text::chars_eq(&cs, &text::chars_of("just-lx-data")) {
            Ok(TaxHistoryMode::JustLxData)
        } else if text::chars_eq(&cs, &text::chars_of("just-lot-ids")) {
            Ok(TaxHistoryMode::JustLotIds)
        } else if text::chars_eq(&cs, &text::chars_of("both")) {
            Ok(TaxHistoryMode::Both)
        } else {
            let mut out: Vec<char> = Vec::new();
            text::push_str(&mut out, "Invalid tax history mode ");
            text::push_str(&mut out, s);
            text::push_str(&mut out, "; allowed values: just-lx-data, just-lot-ids, both");
            assert(out@ =~= tax_history_mode_error(s@));
            Err(text::string_from_chars(&out))
        }
    }
}

} // verus!
