//! The bid ledger: the outstanding bids, in strict (discount, sequence) order.

use vstd::prelude::*;
use crate::bid::{precedes, Bid};

verus! {

/// Each bid precedes every bid after it.
pub open spec fn sorted(s: Seq<Bid>) -> bool {
    forall|i: int, j: int| 0 <= i < j < s.len() ==> precedes(#[trigger] s[i], #[trigger] s[j])
}

/// No two bids share a sequence number.
pub open spec fn unique_sequences(s: Seq<Bid>) -> bool {
    forall|i: int, j: int|
        0 <= i < s.len() && 0 <= j < s.len() && i != j ==> #[trigger] s[i].index
            != #[trigger] s[j].index
}

/// Every bid has something left to offer.
pub open spec fn all_positive(s: Seq<Bid>) -> bool {
    forall|i: int| 0 <= i < s.len() ==> #[trigger] s[i].amount > 0
}

/// Whether some bid of `s` carries sequence number `index`.
pub open spec fn has_sequence(s: Seq<Bid>, index: u64) -> bool {
    exists|i: int| 0 <= i < s.len() && #[trigger] s[i].index == index
}

/// Why a bid was refused by the ledger.
#[derive(Clone, Copy, Debug, PartialEq, Eq, Structural)]
pub enum LedgerError {
    /// The bid has nothing to offer.
    ZeroAmount,
    /// A bid with the same sequence number is already in the ledger.
    DuplicateSequence,
}

/// The outstanding bids, cheapest discount first, earlier sequence first
/// among equal discounts.
pub struct BidLedger {
    /// The bids in reverse ledger order: the next bid to take is the last.
    bids: Vec<Bid>,
}

impl View for BidLedger {
    type V = Seq<Bid>;

    /// The bids in ledger order.
    closed spec fn view(&self) -> Seq<Bid> {
        Seq::new(self.bids@.len(), |i: int| self.bids@[self.bids@.len() - 1 - i])
    }
}

impl BidLedger {
    /// The ledger's invariant: strictly ordered, unique sequence numbers,
    /// positive amounts.
    pub open spec fn wf(&self) -> bool {
        sorted(self@) && unique_sequences(self@) && all_positive(self@)
    }

    /// An empty ledger.
    pub fn new() -> (r: BidLedger)
        ensures
            r.wf(),
            r@ == Seq::<Bid>::empty(),
    {
        BidLedger { bids: Vec::new() }
    }

    /// Number of bids in the ledger.
    pub fn len(&self) -> (r: usize)
        ensures
            r == self@.len(),
    {
        self.bids.len()
    }

    /// Whether the ledger holds no bid.
    pub fn is_empty(&self) -> (r: bool)
        ensures
            r == (self@.len() == 0),
    {
        self.bids.len() == 0
    }

    /// The `i`-th bid in ledger order.
    pub fn get(&self, i: usize) -> (r: Bid)
        requires
            i < self@.len(),
        ensures
            r == self@[i as int],
    {
        self.bids[self.bids.len() - 1 - i]
    }

    /// The bid that would be taken next, if any.
    pub fn first(&self) -> (r: Option<Bid>)
        ensures
            self@.len() == 0 ==> r.is_none(),
            self@.len() > 0 ==> r == Some(self@[0]),
    {
        if self.bids.len() == 0 {
            None
        } else {
            Some(self.bids[self.bids.len() - 1])
        }
    }

    /// Whether a bid with sequence number `index` is in the ledger.
    pub fn contains_sequence(&self, index: u64) -> (r: bool)
        ensures
            r == has_sequence(self@, index),
    {
        let mut i: usize = 0;
        while i < self.bids.len()
            invariant
                i <= self@.len(),
                forall|k: int| 0 <= k < i ==> #[trigger] self@[k].index != index,
            decreases self@.len() - i,
        {
            if self.get(i).index == index {
                return true;
            }
            i = i + 1;
        }
        false
    }

    /// Adds a bid at its place in the order. A bid with a zero amount, or
    /// whose sequence number is already present, is refused and the ledger
    /// is left as it was.
    pub fn insert(&mut self, bid: Bid) -> (r: Result<(), LedgerError>)
        requires
            old(self).wf(),
        ensures
            final(self).wf(),
            bid.amount == 0 ==> r == Err::<(), LedgerError>(LedgerError::ZeroAmount),
            bid.amount > 0 && has_sequence(old(self)@, bid.index) ==> r == Err::<(), LedgerError>(
                LedgerError::DuplicateSequence,
            ),
            bid.amount > 0 && !has_sequence(old(self)@, bid.index) ==> r is Ok,
            r is Err ==> final(self)@ == old(self)@,
            r is Ok ==> exists|p: int|
                0 <= p <= old(self)@.len() && final(self)@ == old(self)@.insert(p, bid),
    {
        if bid.amount == 0 {
            return Err(LedgerError::ZeroAmount);
        }
        if self.contains_sequence(bid.index) {
            return Err(LedgerError::DuplicateSequence);
        }
        let ghost s = self@;
        let mut pos: usize = 0;
        while pos < self.bids.len()
            invariant
                s == self@,
                pos <= s.len(),
                forall|k: int| 0 <= k < pos ==> !precedes(bid, #[trigger] s[k]),
            ensures
                pos <= s.len(),
                forall|k: int| 0 <= k < pos ==> !precedes(bid, #[trigger] s[k]),
                pos < s.len() ==> precedes(bid, s[pos as int]),
            decreases s.len() - pos,
        {
            if let std::cmp::Ordering::Less = bid.cmp(&self.get(pos)) {
                break;
            }
            pos = pos + 1;
        }
        assert forall|k: int| 0 <= k < pos implies precedes(#[trigger] s[k], bid) by {
            assert(s[k].index != bid.index);
        }
        assert forall|k: int| pos <= k < s.len() implies precedes(bid, #[trigger] s[k]) by {
            if k > pos {
                assert(precedes(s[pos as int], s[k]));
            }
        }
        let ghost stored = self.bids@;
        self.bids.insert(self.bids.len() - pos, bid);
        assert(self@ =~= s.insert(pos as int, bid)) by {
            assert(self.bids@ == stored.insert(stored.len() - pos, bid));
        }
        assert forall|i: int, j: int| 0 <= i < j < self@.len() implies precedes(
            #[trigger] self@[i],
            #[trigger] self@[j],
        ) by {
            if j < pos {
                assert(precedes(s[i], s[j]));
            } else if j == pos {
            } else if i < pos {
                assert(precedes(s[i], bid));
                assert(precedes(bid, s[j - 1]));
            } else if i == pos {
            } else {
                assert(precedes(s[i - 1], s[j - 1]));
            }
        }
        assert forall|i: int, j: int|
            0 <= i < self@.len() && 0 <= j < self@.len() && i != j implies #[trigger] self@[i].index
            != #[trigger] self@[j].index by {
            if i != pos && j != pos {
                let a = if i < pos { i } else { i - 1 };
                let b = if j < pos { j } else { j - 1 };
                assert(s[a].index != s[b].index);
            } else if i == pos {
                let b = if j < pos { j } else { j - 1 };
                assert(s[b].index != bid.index);
            } else {
                let a = if i < pos { i } else { i - 1 };
                assert(s[a].index != bid.index);
            }
        }
        assert(all_positive(self@)) by {
            assert forall|i: int| 0 <= i < self@.len() implies #[trigger] self@[i].amount > 0 by {
                if i < pos {
                    assert(self@[i] == s[i]);
                } else if i > pos {
                    assert(self@[i] == s[i - 1]);
                }
            }
        }
        Ok(())
    }

    /// Removes and returns the bid that comes first in the order: the lowest
    /// discount, and among those the earliest sequence number.
    /// Takes constant time: the first bid is stored last.
    pub fn take_minimum(&mut self) -> (r: Option<Bid>)
        requires
            old(self).wf(),
        ensures
            final(self).wf(),
            old(self)@.len() == 0 ==> r.is_none() && final(self)@ == old(self)@,
            old(self)@.len() > 0 ==> r == Some(old(self)@[0]) && final(self)@ == old(
                self,
            )@.drop_first(),
            r matches Some(b) ==> forall|i: int|
                1 <= i < old(self)@.len() ==> precedes(b, #[trigger] old(self)@[i]),
    {
        if self.bids.len() == 0 {
            None
        } else {
            let ghost s = self@;
            let b = self.bids.pop().unwrap();
            assert(self@ =~= s.drop_first());
            assert forall|i: int| 1 <= i < s.len() implies precedes(b, #[trigger] s[i]) by {
                assert(precedes(s[0], s[i]));
            }
            assert(sorted(self@)) by {
                assert forall|i: int, j: int| 0 <= i < j < self@.len() implies precedes(
                    #[trigger] self@[i],
                    #[trigger] self@[j],
                ) by {
                    assert(precedes(s[i + 1], s[j + 1]));
                }
            }
            assert(unique_sequences(self@)) by {
                assert forall|i: int, j: int|
                    0 <= i < self@.len() && 0 <= j < self@.len() && i != j implies #[trigger] self@[i].index
                    != #[trigger] self@[j].index by {
                    assert(s[i + 1].index != s[j + 1].index);
                }
            }
            assert(all_positive(self@)) by {
                assert forall|i: int| 0 <= i < self@.len() implies #[trigger] self@[i].amount > 0 by {
                    assert(s[i + 1].amount > 0);
                }
            }
            Some(b)
        }
    }

    /// Puts a bid back at the front of the ledger; it must precede every bid
    /// there and carry a sequence number of its own.
    pub(crate) fn restore_front(&mut self, bid: Bid)
        requires
            old(self).wf(),
            bid.amount > 0,
            forall|i: int| 0 <= i < old(self)@.len() ==> precedes(bid, #[trigger] old(self)@[i]),
            forall|i: int| 0 <= i < old(self)@.len() ==> #[trigger] old(self)@[i].index != bid.index,
        ensures
            final(self).wf(),
            final(self)@ == seq![bid] + old(self)@,
    {
        let ghost s = self@;
        self.bids.push(bid);
        assert(self@ =~= seq![bid] + s);
        assert(sorted(self@)) by {
            assert forall|i: int, j: int| 0 <= i < j < self@.len() implies precedes(
                #[trigger] self@[i],
                #[trigger] self@[j],
            ) by {
                if i > 0 {
                    assert(precedes(s[i - 1], s[j - 1]));
                } else {
                    assert(precedes(bid, s[j - 1]));
                }
            }
        }
        assert(unique_sequences(self@)) by {
            assert forall|i: int, j: int|
                0 <= i < self@.len() && 0 <= j < self@.len() && i != j implies #[trigger] self@[i].index
                != #[trigger] self@[j].index by {
                if i > 0 && j > 0 {
                    assert(s[i - 1].index != s[j - 1].index);
                } else if i == 0 {
                    assert(s[j - 1].index != bid.index);
                } else {
                    assert(s[i - 1].index != bid.index);
                }
            }
        }
        assert(all_positive(self@)) by {
            assert forall|i: int| 0 <= i < self@.len() implies #[trigger] self@[i].amount > 0 by {
                if i > 0 {
                    assert(s[i - 1].amount > 0);
                }
            }
        }
    }
}

/// Bids are drawn front to back (`take_minimum` takes the first), and a bid
/// with a lower discount always stands before one with a higher discount,
/// whatever order they were inserted in.
pub proof fn lemma_lower_discount_drawn_first(l: BidLedger, i: int, j: int)
    requires
        l.wf(),
        0 <= i < l@.len(),
        0 <= j < l@.len(),
        l@[i].discount < l@[j].discount,
    ensures
        i < j,
{
    if j < i {
        assert(precedes(l@[j], l@[i]));
    }
}

/// Of two bids with the same discount, the one with the smaller sequence
/// number always stands before the other, so it is drawn first.
pub proof fn lemma_tie_broken_by_sequence(l: BidLedger, i: int, j: int)
    requires
        l.wf(),
        0 <= i < l@.len(),
        0 <= j < l@.len(),
        l@[i].discount == l@[j].discount,
        l@[i].index < l@[j].index,
    ensures
        i < j,
{
    if j < i {
        assert(precedes(l@[j], l@[i]));
    }
}

} // verus!
