//! The liquidation processor: drains the ledger against one liquidation order.

use vstd::prelude::*;
use crate::bid::{precedes, residual, Bid, BidStatus, Liquidation, LiquidationStatus};
use crate::ledger::BidLedger;

verus! {

/// Sum of the amounts of the bids in `s`.
pub open spec fn total(s: Seq<Bid>) -> int
    decreases s.len(),
{
    if s.len() == 0 {
        0
    } else {
        s[0].amount + total(s.drop_first())
    }
}

/// Greedy consumption of the ordered bids `s` against `remaining`: bids are
/// used up front to back while they fit; the first that does not fit is
/// reduced by what is still needed. Gives the bids left and the amount still
/// to be recovered.
pub open spec fn drain(s: Seq<Bid>, remaining: int) -> (Seq<Bid>, int)
    decreases s.len(),
{
    if remaining <= 0 || s.len() == 0 {
        (s, remaining)
    } else if s[0].amount <= remaining {
        drain(s.drop_first(), remaining - s[0].amount)
    } else {
        (seq![residual(s[0], remaining)] + s.drop_first(), 0)
    }
}

/// Runs one liquidation order against the ledger: bids are consumed in
/// ledger order until the order's amount is covered or the ledger is
/// exhausted; a bid that covers more than what is left is reduced and stays.
pub fn liquidate(bids: &mut BidLedger, liquidation: &mut Liquidation)
    requires
        old(bids).wf(),
    ensures
        final(bids).wf(),
        final(liquidation).account_liquidated == old(liquidation).account_liquidated,
        old(liquidation).amount == 0 ==> final(bids)@ == old(bids)@ && final(liquidation).amount
            == 0 && final(liquidation).status == LiquidationStatus::Fulfilled,
        old(liquidation).amount > 0 && old(bids)@.len() == 0 ==> final(bids)@ == old(bids)@
            && final(liquidation).amount == old(liquidation).amount && final(liquidation).status
            == LiquidationStatus::Untouched,
        old(liquidation).amount > 0 && old(bids)@.len() > 0 ==> {
            &&& final(bids)@ == drain(old(bids)@, old(liquidation).amount as int).0
            &&& final(liquidation).amount == drain(old(bids)@, old(liquidation).amount as int).1
            &&& final(liquidation).status == if final(liquidation).amount > 0 {
                LiquidationStatus::PartiallyFilled
            } else {
                LiquidationStatus::Fulfilled
            }
        },
        total(old(bids)@) - total(final(bids)@) == old(liquidation).amount
            - final(liquidation).amount,
{
    if liquidation.amount == 0 {
        liquidation.status = LiquidationStatus::Fulfilled;
        return;
    }
    if bids.is_empty() {
        liquidation.status = LiquidationStatus::Untouched;
        return;
    }
    let ghost s0 = bids@;
    let ghost a0 = liquidation.amount as int;
    let mut remaining: u32 = liquidation.amount;
    while remaining > 0
        invariant
            bids.wf(),
            drain(bids@, remaining as int) == drain(s0, a0),
            total(s0) - total(bids@) == a0 - remaining,
        ensures
            bids.wf(),
            drain(bids@, remaining as int) == drain(s0, a0),
            total(s0) - total(bids@) == a0 - remaining,
            remaining == 0 || bids@.len() == 0,
        decreases bids@.len() + if remaining > 0 { 1int } else { 0int },
    {
        let ghost s = bids@;
        match bids.take_minimum() {
            None => {
                break;
            },
            Some(b) => {
                if b.amount <= remaining {
                    remaining = remaining - b.amount;
                } else {
                    let rest = Bid {
                        bidder: b.bidder,
                        amount: b.amount - remaining,
                        discount: b.discount,
                        blocknumber: b.blocknumber,
                        index: b.index,
                        original_amount: b.original_amount,
                        status: BidStatus::PartiallyFilled,
                    };
                    assert(rest == residual(b, remaining as int));
                    assert forall|i: int| 0 <= i < bids@.len() implies precedes(
                        rest,
                        #[trigger] bids@[i],
                    ) && bids@[i].index != rest.index by {
                        assert(bids@[i] == s[i + 1]);
                        assert(precedes(b, s[i + 1]));
                        assert(s[0].index != s[i + 1].index);
                    }
                    bids.restore_front(rest);
                    remaining = 0;
                    assert(total(bids@) == rest.amount + total(s.drop_first())) by {
                        assert(bids@.drop_first() == s.drop_first());
                    }
                }
            },
        }
    }
    assert(drain(bids@, remaining as int) == (bids@, remaining as int));
    liquidation.amount = remaining;
    liquidation.status = if remaining > 0 {
        LiquidationStatus::PartiallyFilled
    } else {
        LiquidationStatus::Fulfilled
    };
}

} // verus!
