//! A collateral-liquidation matching engine: a ledger of standing bids kept in
//! (discount, sequence) order, and a processor that drains it, cheapest
//! discount first, against one liquidation order.

pub mod bid;
pub mod ledger;
pub mod engine;
pub mod aggregate;
pub mod factory;

pub use aggregate::{group_bids_by_discount, tier_emptied, try_group_bids_by_discount};
pub use bid::{reset_liquidation, AccountId, Balance, Bid, BidStatus, BlockIndex, Liquidation, LiquidationStatus};
pub use engine::liquidate;
pub use factory::{create_bid, create_random_bid, get_timestamp, random_bid_terms};
pub use ledger::{BidLedger, LedgerError};
