//! Bids, liquidation orders and their states.

use vstd::prelude::*;

verus! {

/// Account identifier.
pub type AccountId = u32;

/// Amount of collateral value.
pub type Balance = u32;

/// Block number, and sequential number of a bid.
pub type BlockIndex = u64;

/// Represents the possible statuses of a bid in the liquidation system.
#[derive(Clone, Copy, Debug, PartialEq, Eq, Structural)]
pub enum BidStatus {
    /// The bid is currently active and available for fulfillment.
    Active,
    /// The bid has been partially fulfilled but not yet completed.
    PartiallyFilled,
    /// The bid has been fully fulfilled and is now closed.
    Fulfilled,
    /// The bid has been cancelled and is no longer available.
    Cancelled,
}

/// A bid placed in the liquidation system: an offer to absorb liquidated
/// collateral at a discount.
#[derive(Clone, Copy, Debug, PartialEq, Eq, Structural)]
pub struct Bid {
    /// The account that placed the bid.
    pub bidder: AccountId,
    /// Amount still outstanding on this bid.
    pub amount: Balance,
    /// Discount percentage demanded by the bidder; lower is better.
    pub discount: u8,
    /// The block number (or time) at which the bid was placed.
    pub blocknumber: BlockIndex,
    /// Strictly increasing sequence number of the bid; breaks discount ties.
    pub index: BlockIndex,
    /// The amount of the bid when it was created.
    pub original_amount: Balance,
    /// Current status of the bid.
    pub status: BidStatus,
}

/// Represents the possible statuses of a liquidation.
#[derive(Clone, Copy, Debug, PartialEq, Eq, Structural)]
pub enum LiquidationStatus {
    /// The liquidation has been created.
    Created,
    /// The liquidation has been partially fulfilled: the bids ran out first.
    PartiallyFilled,
    /// The liquidation has been fully fulfilled.
    Fulfilled,
    /// The liquidation has been cancelled.
    Cancelled,
    /// The liquidation found no bids to work with.
    Untouched,
}

/// A recovery order against one account.
#[derive(Clone, Copy, Debug, PartialEq, Eq, Structural)]
pub struct Liquidation {
    /// The account whose collateral is being recovered.
    pub account_liquidated: AccountId,
    /// The value still to be recovered.
    pub amount: Balance,
    /// Status of the liquidation.
    pub status: LiquidationStatus,
}

/// The total order of the ledger: by discount, then by sequence number.
pub open spec fn precedes(a: Bid, b: Bid) -> bool {
    a.discount < b.discount || (a.discount == b.discount && a.index < b.index)
}

impl Bid {
    /// Compares two bids in ledger order: by discount, then by sequence
    /// number.
    pub fn cmp(&self, other: &Bid) -> (r: std::cmp::Ordering)
        ensures
            (r == std::cmp::Ordering::Less) == precedes(*self, *other),
            (r == std::cmp::Ordering::Greater) == precedes(*other, *self),
            (r == std::cmp::Ordering::Equal) == (self.discount == other.discount && self.index
                == other.index),
    {
        if self.discount < other.discount {
            std::cmp::Ordering::Less
        } else if self.discount > other.discount {
            std::cmp::Ordering::Greater
        } else if self.index < other.index {
            std::cmp::Ordering::Less
        } else if self.index > other.index {
            std::cmp::Ordering::Greater
        } else {
            std::cmp::Ordering::Equal
        }
    }
}

impl Default for Liquidation {
    fn default() -> (r: Liquidation)
        ensures
            r.account_liquidated == 0,
            r.amount == 0,
            r.status == LiquidationStatus::Untouched,
    {
        Liquidation { account_liquidated: 0, amount: 0, status: LiquidationStatus::Untouched }
    }
}

/// Reinitialises a liquidation order for `account` and `amount`, in state
/// `Created`.
pub fn reset_liquidation(liquidation: &mut Liquidation, account: AccountId, amount: Balance)
    ensures
        *final(liquidation) == (Liquidation {
            account_liquidated: account,
            amount,
            status: LiquidationStatus::Created,
        }),
{
    *liquidation = Liquidation {
        account_liquidated: account,
        amount,
        status: LiquidationStatus::Created,
    };
}

/// The bid left after `bid` has covered `filled` of its amount.
pub open spec fn residual(bid: Bid, filled: int) -> Bid {
    Bid { amount: (bid.amount - filled) as Balance, status: BidStatus::PartiallyFilled, ..bid }
}

} // verus!
