//! Creation of new bids, by hand or from random draws.

use vstd::prelude::*;
use crate::bid::{Balance, Bid, BidStatus, BlockIndex};

verus! {

/// The account that places the bids created here.
pub const DEFAULT_BIDDER: u32 = 1;

/// `std::time::SystemTime`, carried through opaquely from the clock to the
/// conversion into seconds.
#[verifier::external_type_specification]
#[verifier::external_body]
pub struct ExSystemTime(std::time::SystemTime);

/// Relies on `std::time::SystemTime::now`: reads the system clock; nothing is
/// known of the value.
pub assume_specification[ std::time::SystemTime::now ]() -> std::time::SystemTime;

/// Relies on `SystemTime::duration_since(UNIX_EPOCH)`: the time from the Unix
/// epoch to `t`, or `None` when `t` lies before the epoch.
#[verifier::external_body]
fn since_epoch(t: &std::time::SystemTime) -> (r: Option<std::time::Duration>) {
    t.duration_since(std::time::UNIX_EPOCH).ok()
}

/// Relies on `Duration::as_secs`: the whole seconds of a duration.
pub assume_specification[ core::time::Duration::as_secs ](d: &core::time::Duration) -> u64;

/// Relies on `rand::random`: a value drawn from the thread-local generator;
/// nothing is known of it.
pub assume_specification<T>[ rand::random::<T> ]() -> T
    where
        rand::distributions::Standard: rand::distributions::Distribution<T>,
;

/// The current time in whole seconds since the Unix epoch; 0 when the clock
/// reads a time before the epoch.
pub fn get_timestamp() -> (r: u64) {
    let now = std::time::SystemTime::now();
    match since_epoch(&now) {
        Some(elapsed) => elapsed.as_secs(),
        None => 0,
    }
}

/// A new active bid of `amount` at `discount`, with sequence number `index`,
/// stamped with the current time.
pub fn create_bid(amount: Balance, discount: u8, index: BlockIndex) -> (r: Bid)
    ensures
        r.bidder == DEFAULT_BIDDER,
        r.amount == amount,
        r.original_amount == amount,
        r.discount == discount,
        r.index == index,
        r.status == BidStatus::Active,
{
    Bid {
        bidder: DEFAULT_BIDDER,
        amount,
        discount,
        blocknumber: get_timestamp(),
        index,
        status: BidStatus::Active,
        original_amount: amount,
    }
}

/// The amount and discount of a random bid, from two raw draws: an amount
/// that is a multiple of 100 from 100 to 9900, and an even discount from 2
/// to 20.
pub fn random_bid_terms(amount_draw: u32, discount_draw: u8) -> (r: (Balance, u8))
    ensures
        r.0 == (1 + amount_draw % 99) * 100,
        r.1 == (discount_draw % 10 + 1) * 2,
        100 <= r.0 <= 9900,
        r.0 % 100 == 0,
        2 <= r.1 <= 20,
        r.1 % 2 == 0,
{
    let amount: u32 = (1 + amount_draw % 99) * 100;
    let discount: u8 = (discount_draw % 10 + 1) * 2;
    (amount, discount)
}

/// A new active bid with a random amount and discount (see
/// `random_bid_terms`) and sequence number `index`.
pub fn create_random_bid(index: BlockIndex) -> (r: Bid)
    ensures
        r.bidder == DEFAULT_BIDDER,
        100 <= r.amount <= 9900,
        r.amount % 100 == 0,
        r.original_amount == r.amount,
        1 <= r.discount <= 100,
        2 <= r.discount <= 20,
        r.discount % 2 == 0,
        r.index == index,
        r.status == BidStatus::Active,
{
    let amount_draw: u32 = rand::random::<u32>();
    let discount_draw: u8 = rand::random::<u8>();
    let (amount, discount) = random_bid_terms(amount_draw, discount_draw);
    create_bid(amount, discount, index)
}

} // verus!
