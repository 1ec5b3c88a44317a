//! Interestingness
//!
//! The ranking by which an option order is judged worth making or taking.

use vstd::prelude::*;

verus! {

/// The side of an order: a bid or an ask. The sides have no values; they
/// only mark statistics as belonging to one side.
pub trait OrderType: Copy {}

/// The bid side
#[derive(PartialEq, Eq, Debug, Copy, Clone, Structural)]
pub struct Bid;

/// The ask side
#[derive(PartialEq, Eq, Debug, Copy, Clone, Structural)]
pub struct Ask;

impl OrderType for Bid {}

impl OrderType for Ask {}

/// The degree to which an order is interesting.
///
/// Ranked in order of how much we want to be a counterparty. The lowest
/// level is therefore "match", meaning that we might want to open our own
/// order at the same price. The highest level is "take", meaning that if
/// somebody else had opened this order, we'd want to take it.
#[derive(Copy, Clone, PartialEq, Eq, PartialOrd, Ord, Debug, Structural)]
pub enum Interestingness {
    /// Interesting enough to open our own matching order
    Match,
    /// Interesting enough to log (and maybe manually match), but not to do
    /// anything autonomously
    LogMatch,
    /// Not interesting at all
    No,
    /// Interesting enough to log (and maybe manually take), but not to do
    /// anything autonomously
    LogTake,
    /// Interesting enough to take the other side
    Take,
}

/// The rank of an interestingness, from "match" (0) to "take" (4)
pub open spec fn rank(i: Interestingness) -> int {
    match i {
        Interestingness::Match => 0,
        Interestingness::LogMatch => 1,
        Interestingness::No => 2,
        Interestingness::LogTake => 3,
        Interestingness::Take => 4,
    }
}

/// The inverse interestingness: "take" and "match" swapped, as are the
/// two "log" levels
pub open spec fn inverted(i: Interestingness) -> Interestingness {
    match i {
        Interestingness::Match => Interestingness::Take,
        Interestingness::LogMatch => Interestingness::LogTake,
        Interestingness::No => Interestingness::No,
        Interestingness::LogTake => Interestingness::LogMatch,
        Interestingness::Take => Interestingness::Match,
    }
}

impl Interestingness {
    /// Inverts the interestingness (swapping "take" and "match")
    pub fn invert(self) -> (r: Self)
        ensures
            r == inverted(self),
            rank(r) == 4 - rank(self),
    {
        match self {
            Interestingness::Match => Interestingness::Take,
            Interestingness::LogMatch => Interestingness::LogTake,
            Interestingness::No => Interestingness::No,
            Interestingness::LogTake => Interestingness::LogMatch,
            Interestingness::Take => Interestingness::Match,
        }
    }

    /// The rank, from "match" (0) to "take" (4)
    pub fn rank(self) -> (n: u8)
        ensures
            n == rank(self),
    {
        match self {
            Interestingness::Match => 0,
            Interestingness::LogMatch => 1,
            Interestingness::No => 2,
            Interestingness::LogTake => 3,
            Interestingness::Take => 4,
        }
    }
}

/// Inverting twice gives back the same interestingness, and inverting
/// mirrors the ranking
pub proof fn law_invert_involutive(i: Interestingness)
    ensures
        inverted(inverted(i)) == i,
        rank(inverted(i)) == 4 - rank(i),
{
}

} // verus!
