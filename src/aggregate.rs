//! Per-discount totals of the outstanding bids, for observation.

use std::collections::HashMap;
use vstd::prelude::*;
use crate::bid::Bid;
use crate::ledger::BidLedger;

verus! {

broadcast use vstd::std_specs::hash::group_hash_axioms;

/// Sum of the amounts of the bids in `s` whose discount is `d`.
pub open spec fn tier_total(s: Seq<Bid>, d: u8) -> int
    decreases s.len(),
{
    if s.len() == 0 {
        0
    } else {
        tier_total(s.drop_last(), d) + if s.last().discount == d {
            s.last().amount as int
        } else {
            0
        }
    }
}

/// A prefix of the bids never holds more at one discount than the whole.
proof fn lemma_tier_total_prefix(s: Seq<Bid>, i: int, d: u8)
    requires
        0 <= i <= s.len(),
    ensures
        0 <= tier_total(s.take(i), d) <= tier_total(s, d),
    decreases s.len(),
{
    if i == s.len() {
        assert(s.take(i) == s);
        lemma_tier_total_nonneg(s, d);
    } else {
        assert(s.drop_last().take(i) == s.take(i));
        lemma_tier_total_prefix(s.drop_last(), i, d);
    }
}

/// A tier's total is never negative.
proof fn lemma_tier_total_nonneg(s: Seq<Bid>, d: u8)
    ensures
        tier_total(s, d) >= 0,
    decreases s.len(),
{
    if s.len() > 0 {
        lemma_tier_total_nonneg(s.drop_last(), d);
    }
}

/// Total outstanding amount per discount tier, or `None` when some tier's
/// total does not fit a `u32`; a tier with no bid has no entry.
pub fn try_group_bids_by_discount(bids: &BidLedger) -> (r: Option<HashMap<u8, u32>>)
    requires
        bids.wf(),
    ensures
        r is None <==> exists|d: u8| tier_total(bids@, d) > u32::MAX,
        r matches Some(m) ==> forall|d: u8| #[trigger] m@.contains_key(d) <==> tier_total(bids@, d) > 0,
        r matches Some(m) ==> forall|d: u8| m@.contains_key(d) ==> #[trigger] m@[d] == tier_total(bids@, d),
{
    let ghost s = bids@;
    let mut map: HashMap<u8, u32> = HashMap::new();
    let mut i: usize = 0;
    while i < bids.len()
        invariant
            s == bids@,
            bids.wf(),
            i <= s.len(),
            forall|d: u8| #[trigger] map@.contains_key(d) <==> tier_total(s.take(i as int), d) > 0,
            forall|d: u8| map@.contains_key(d) ==> #[trigger] map@[d] == tier_total(s.take(i as int), d),
        decreases s.len() - i,
    {
        let b = bids.get(i);
        let cur: u32 = match map.get(&b.discount) {
            Some(v) => *v,
            None => 0,
        };
        let ghost t = s.take(i as int + 1);
        proof {
            assert(t.drop_last() == s.take(i as int));
            assert(t.last() == b);
            assert(b.amount > 0);
            lemma_tier_total_prefix(s, i as int + 1, b.discount);
            lemma_tier_total_prefix(s, i as int, b.discount);
            assert forall|d: u8| d != b.discount implies tier_total(t, d) == tier_total(
                s.take(i as int),
                d,
            ) by {}
        }
        if b.amount > u32::MAX - cur {
            return None;
        }
        map.insert(b.discount, cur + b.amount);
        i = i + 1;
    }
    assert(s.take(s.len() as int) == s);
    assert forall|d: u8| tier_total(s, d) <= u32::MAX by {
        if map@.contains_key(d) {
            assert(map@[d] <= u32::MAX);
        }
    }
    Some(map)
}

/// Total outstanding amount per discount tier; a tier with no bid has no
/// entry. Every tier's total must fit a `u32`.
pub fn group_bids_by_discount(bids: &BidLedger) -> (r: HashMap<u8, u32>)
    requires
        bids.wf(),
        forall|d: u8| tier_total(bids@, d) <= u32::MAX,
    ensures
        forall|d: u8| #[trigger] r@.contains_key(d) <==> tier_total(bids@, d) > 0,
        forall|d: u8| r@.contains_key(d) ==> #[trigger] r@[d] == tier_total(bids@, d),
{
    match try_group_bids_by_discount(bids) {
        Some(map) => map,
        None => HashMap::new(),
    }
}

/// Whether the tier at discount `d` held a positive total in `before` and
/// none in `after`: it was emptied between the two snapshots.
pub fn tier_emptied(before: &HashMap<u8, u32>, after: &HashMap<u8, u32>, d: u8) -> (r: bool)
    ensures
        r == (before@.contains_key(d) && before@[d] > 0 && !(after@.contains_key(d) && after@[d]
            > 0)),
{
    let old_total: u32 = match before.get(&d) {
        Some(v) => *v,
        None => 0,
    };
    let new_total: u32 = match after.get(&d) {
        Some(v) => *v,
        None => 0,
    };
    old_total > 0 && new_total == 0
}

} // verus!
