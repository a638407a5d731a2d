use vstd::prelude::*;

use crate::claim::Claim;
use crate::data::Principal;
use crate::investment::Investment;
use crate::table::{
    last_with_key, lemma_find_last, lemma_unique_push, lemma_unique_update, lemma_view_absent,
    lemma_view_last_match, lemma_view_push, lemma_view_update, table_view, unique_keys, with_entry,
    Keyed,
};

verus! {

/// One investment of one investor.
#[derive(Clone, Copy, Debug, PartialEq, Eq, Structural)]
pub struct InvestmentEntry {
    pub investor: Principal,
    pub investment: Investment,
}

impl Keyed for InvestmentEntry {
    type K = (Principal, u64);

    type V = Investment;

    /// An investment is identified by its investor and its claimable time.
    open spec fn key(&self) -> (Principal, u64) {
        (self.investor, self.investment.claimable_ts)
    }

    open spec fn value(&self) -> Investment {
        self.investment
    }
}

/// The investments of all investors, keyed by investor and claimable time.
///
/// A host map lives inside the host environment and holds only host values, so the
/// table is a vector of entries here; its view is the map it stands for.
#[derive(Debug)]
pub struct InvestmentBook {
    pub entries: Vec<InvestmentEntry>,
}

impl View for InvestmentBook {
    type V = Map<(Principal, u64), Investment>;

    open spec fn view(&self) -> Map<(Principal, u64), Investment> {
        table_view(self.entries@)
    }
}

impl InvestmentBook {
    /// A book with no investment.
    pub fn new() -> (r: InvestmentBook)
        ensures
            r@ == Map::<(Principal, u64), Investment>::empty(),
    {
        InvestmentBook { entries: Vec::new() }
    }

    /// The investment of `investor` that became claimable at `ts`, if there is one.
    pub fn get_investment(&self, investor: &Principal, ts: u64) -> (r: Option<Investment>)
        ensures
            self@.contains_key((*investor, ts)) ==> r == Some(self@[(*investor, ts)]),
            !self@.contains_key((*investor, ts)) ==> r is None,
            r matches Some(i) ==> i.claimable_ts == ts,
    {
        let ghost k = (*investor, ts);
        let mut i: usize = self.entries.len();
        while i > 0
            invariant
                i <= self.entries@.len(),
                k == (*investor, ts),
                forall|j: int| i <= j < self.entries@.len() ==> self.entries@[j].key() != k,
            decreases i,
        {
            let e = self.entries[i - 1];
            if e.investor.same_as(investor) && e.investment.claimable_ts == ts {
                proof {
                    lemma_view_last_match(self.entries@, i - 1, k);
                }
                return Some(e.investment);
            }
            i = i - 1;
        }
        proof {
            lemma_view_absent(self.entries@, k);
        }
        None
    }

    /// Stores `investment` for `investor` under its claimable time, replacing what was
    /// stored there.
    pub fn set_investment(&mut self, investor: &Principal, investment: &Investment)
        ensures
            final(self)@ == old(self)@.insert((*investor, investment.claimable_ts), *investment),
    {
        let entry = InvestmentEntry { investor: *investor, investment: *investment };
        let mut i: usize = self.entries.len();
        while i > 0
            invariant
                i <= self.entries@.len(),
                self.entries@ == old(self).entries@,
                entry == (InvestmentEntry { investor: *investor, investment: *investment }),
                forall|j: int|
                    i <= j < self.entries@.len() ==> self.entries@[j].key() != entry.key(),
            decreases i,
        {
            let e = self.entries[i - 1];
            if e.investor.same_as(investor) && e.investment.claimable_ts == investment.claimable_ts {
                proof {
                    assert(last_with_key(self.entries@, i - 1, entry.key()));
                    lemma_view_update(self.entries@, i - 1, entry);
                }
                self.entries.set(i - 1, entry);
                return;
            }
            i = i - 1;
        }
        proof {
            lemma_view_push(self.entries@, entry);
        }
        self.entries.push(entry);
    }
}

/// The next claim of one investor.
#[derive(Clone, Copy, Debug, PartialEq, Eq, Structural)]
pub struct ClaimEntry {
    pub investor: Principal,
    pub claim: Claim,
}

impl Keyed for ClaimEntry {
    type K = Principal;

    type V = Claim;

    open spec fn key(&self) -> Principal {
        self.investor
    }

    open spec fn value(&self) -> Claim {
        self.claim
    }
}

/// The next claim of each investor, at most one per investor.
///
/// Held as a vector of entries with unique keys, as the investment table is, so that the
/// forecast can sum over it.
#[derive(Debug)]
pub struct ClaimsMap {
    pub entries: Vec<ClaimEntry>,
}

impl View for ClaimsMap {
    type V = Map<Principal, Claim>;

    open spec fn view(&self) -> Map<Principal, Claim> {
        table_view(self.entries@)
    }
}

/// What the claims in `s` that fall due within the week after `now` ask for together.
pub open spec fn due_sum(s: Seq<ClaimEntry>, now: u64) -> int
    decreases s.len(),
{
    if s.len() == 0 {
        0
    } else {
        due_sum(s.drop_last(), now) + if s.last().claim.due_within_week(now) {
            s.last().claim.amount_to_pay as int
        } else {
            0
        }
    }
}

/// Each investor has one entry at most, and no claim asks for a negative amount.
pub open spec fn claims_valid(s: Seq<ClaimEntry>) -> bool {
    &&& unique_keys(s)
    &&& forall|j: int| 0 <= j < s.len() ==> s[j].claim.amount_to_pay >= 0
}

impl ClaimsMap {
    pub open spec fn is_valid(&self) -> bool {
        claims_valid(self.entries@)
    }

    /// An empty map.
    pub fn new() -> (r: ClaimsMap)
        ensures
            r@ == Map::<Principal, Claim>::empty(),
            r.entries@.len() == 0,
            r.is_valid(),
    {
        ClaimsMap { entries: Vec::new() }
    }

    /// Sets the next claim of `investor`, replacing the one it had.
    pub fn set(&mut self, investor: &Principal, claim: &Claim)
        requires
            old(self).is_valid(),
            claim.amount_to_pay >= 0,
        ensures
            final(self).entries@ == with_entry(
                old(self).entries@,
                ClaimEntry { investor: *investor, claim: *claim },
            ),
            final(self)@ == old(self)@.insert(*investor, *claim),
            final(self).is_valid(),
    {
        let entry = ClaimEntry { investor: *investor, claim: *claim };
        let mut i: usize = self.entries.len();
        while i > 0
            invariant
                i <= self.entries@.len(),
                self.entries@ == old(self).entries@,
                entry == (ClaimEntry { investor: *investor, claim: *claim }),
                self.is_valid(),
                claim.amount_to_pay >= 0,
                forall|j: int|
                    i <= j < self.entries@.len() ==> self.entries@[j].key() != entry.key(),
            decreases i,
        {
            let e = self.entries[i - 1];
            if e.investor.same_as(investor) {
                proof {
                    assert(last_with_key(self.entries@, i - 1, entry.key()));
                    lemma_view_update(self.entries@, i - 1, entry);
                    lemma_unique_update(self.entries@, i - 1, entry);
                    lemma_find_last(self.entries@, entry.key());
                }
                self.entries.set(i - 1, entry);
                assert(self.entries@[i - 1].claim.amount_to_pay >= 0);
                return;
            }
            i = i - 1;
        }
        proof {
            lemma_view_push(self.entries@, entry);
            lemma_unique_push(self.entries@, entry);
            lemma_find_last(self.entries@, entry.key());
        }
        self.entries.push(entry);
    }

    /// What the claims due within the week after `now` ask for together; the sum stops
    /// at `i128::MAX` if it would pass it.
    pub fn due_within_week(&self, now: u64) -> (r: i128)
        requires
            self.is_valid(),
        ensures
            r as int == if due_sum(self.entries@, now) > i128::MAX {
                i128::MAX as int
            } else {
                due_sum(self.entries@, now)
            },
    {
        let mut total: i128 = 0;
        let mut i: usize = 0;
        while i < self.entries.len()
            invariant
                self.is_valid(),
                i <= self.entries@.len(),
                total as int == if due_sum(self.entries@.take(i as int), now) > i128::MAX {
                    i128::MAX as int
                } else {
                    due_sum(self.entries@.take(i as int), now)
                },
                due_sum(self.entries@.take(i as int), now) >= 0,
            decreases self.entries@.len() - i,
        {
            let c = self.entries[i].claim;
            proof {
                assert(self.entries@.take(i + 1).drop_last() == self.entries@.take(i as int));
            }
            if c.is_claim_next(now) {
                if c.amount_to_pay > i128::MAX - total {
                    total = i128::MAX;
                } else {
                    total = total + c.amount_to_pay;
                }
            }
            i = i + 1;
        }
        proof {
            assert(self.entries@.take(i as int) == self.entries@);
        }
        total
    }
}

} // verus!
