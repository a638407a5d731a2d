use vstd::prelude::*;

use crate::data::{ContractData, Principal};

verus! {

/// A withdrawal that waits for the signatures of a fixed set of principals.
#[derive(Debug)]
pub struct MultisigRequest {
    pub function: String,
    pub successful_signatures: u32,
    pub expected_addrs: Vec<Principal>,
    pub signed_addrs: Vec<Principal>,
    /// The last ledger time at which the request accepts a signature.
    pub valid_ts: u64,
    pub amount: i128,
}

#[derive(Clone, Copy, Debug, PartialEq, Eq, Structural)]
pub enum MultisigStatus {
    WaitingForSignatures,
    Completed,
}

/// The content of a withdrawal request.
pub struct RequestView {
    pub function: Seq<char>,
    pub successful_signatures: u32,
    pub expected: Seq<Principal>,
    pub signed: Seq<Principal>,
    pub valid_ts: u64,
    pub amount: i128,
}

impl RequestView {
    /// No principal signed twice, only expected principals signed, and the count of
    /// expected principals fits in `u32`.
    pub open spec fn is_valid(self) -> bool {
        &&& self.signed.no_duplicates()
        &&& forall|i: int| 0 <= i < self.signed.len() ==> self.expected.contains(#[trigger] self.signed[i])
        &&& self.expected.len() <= u32::MAX
    }

    /// The request once `p` has signed: an expected principal that has not signed yet
    /// is added and counted; anyone else leaves the request as it was.
    pub open spec fn signed_by(self, p: Principal) -> RequestView {
        if self.expected.contains(p) && !self.signed.contains(p) {
            RequestView {
                signed: self.signed.push(p),
                successful_signatures: (self.signed.len() + 1) as u32,
                ..self
            }
        } else {
            self
        }
    }

    /// Every expected principal has signed.
    pub open spec fn completed(self) -> bool {
        forall|i: int| 0 <= i < self.expected.len() ==> self.signed.contains(#[trigger] self.expected[i])
    }

    /// A signature at `now` comes too late.
    pub open spec fn expired_at(self, now: u64) -> bool {
        now > self.valid_ts
    }
}

impl View for MultisigRequest {
    type V = RequestView;

    open spec fn view(&self) -> RequestView {
        RequestView {
            function: self.function@,
            successful_signatures: self.successful_signatures,
            expected: self.expected_addrs@,
            signed: self.signed_addrs@,
            valid_ts: self.valid_ts,
            amount: self.amount,
        }
    }
}

/// Whether `p` occurs in `v`.
pub fn contains_principal(v: &Vec<Principal>, p: &Principal) -> (r: bool)
    ensures
        r == v@.contains(*p),
{
    let mut i: usize = 0;
    while i < v.len()
        invariant
            i <= v@.len(),
            forall|j: int| 0 <= j < i ==> v@[j] != *p,
        decreases v@.len() - i,
    {
        if v[i].same_as(p) {
            return true;
        }
        i = i + 1;
    }
    false
}

proof fn lemma_signed_count_bounded(r: RequestView)
    requires
        r.is_valid(),
    ensures
        r.signed.len() <= r.expected.len(),
{
    r.signed.unique_seq_to_set();
    r.expected.lemma_cardinality_of_set();
    vstd::seq_lib::seq_to_set_is_finite(r.expected);
    assert forall|p: Principal| r.signed.to_set().contains(p) implies r.expected.to_set().contains(
        p,
    ) by {
        let i = choose|i: int| 0 <= i < r.signed.len() && r.signed[i] == p;
        assert(r.expected.contains(r.signed[i]));
    }
    vstd::set_lib::lemma_len_subset(r.signed.to_set(), r.expected.to_set());
}

impl MultisigRequest {
    /// A request that `contract_data`'s admin and project address must sign, with no
    /// signature yet.
    pub fn new(
        contract_data: &ContractData,
        function: String,
        successful_signatures: u32,
        amount: i128,
        valid_ts: u64,
    ) -> (r: MultisigRequest)
        ensures
            r@ == (RequestView {
                function: function@,
                successful_signatures,
                expected: seq![contract_data.admin, contract_data.project_address],
                signed: Seq::empty(),
                valid_ts,
                amount,
            }),
            r@.is_valid(),
    {
        let expected_addrs: Vec<Principal> = vec![contract_data.admin, contract_data.project_address];
        let r = MultisigRequest {
            function,
            successful_signatures,
            expected_addrs,
            signed_addrs: Vec::new(),
            amount,
            valid_ts,
        };
        assert(r@.expected =~= seq![contract_data.admin, contract_data.project_address]);
        r
    }

    /// Records the signature of `addr`, at most once, and only for an expected principal.
    /// Returns the number of signatures.
    pub fn add_sig(&mut self, addr: Principal) -> (r: u32)
        requires
            old(self)@.is_valid(),
        ensures
            final(self)@ == old(self)@.signed_by(addr),
            final(self)@.is_valid(),
            r as int == final(self)@.signed.len(),
    {
        let expected = contains_principal(&self.expected_addrs, &addr);
        let signed = contains_principal(&self.signed_addrs, &addr);
        if expected && !signed {
            self.signed_addrs.push(addr);
            proof {
                assert forall|i: int| 0 <= i < self@.signed.len() implies self@.expected.contains(
                    #[trigger] self@.signed[i],
                ) by {
                    if i < old(self)@.signed.len() {
                        assert(old(self)@.signed[i] == self@.signed[i]);
                    }
                }
                lemma_signed_count_bounded(self@);
            }
            self.successful_signatures = self.signed_addrs.len() as u32;
        }
        proof {
            lemma_signed_count_bounded(self@);
        }
        self.signed_addrs.len() as u32
    }

    /// Whether `addr` is one of the principals that must sign.
    pub fn is_valid_signature(&self, addr: Principal) -> (r: bool)
        ensures
            r == self@.expected.contains(addr),
    {
        contains_principal(&self.expected_addrs, &addr)
    }

    /// Whether every expected principal has signed.
    pub fn is_completed(&self) -> (r: bool)
        ensures
            r == self@.completed(),
    {
        let mut i: usize = 0;
        while i < self.expected_addrs.len()
            invariant
                i <= self@.expected.len(),
                forall|j: int| 0 <= j < i ==> self@.signed.contains(#[trigger] self@.expected[j]),
            decreases self@.expected.len() - i,
        {
            if !contains_principal(&self.signed_addrs, &self.expected_addrs[i]) {
                return false;
            }
            i = i + 1;
        }
        true
    }

    /// Whether a signature at `current_ts` comes too late.
    pub fn is_expired(&self, current_ts: u64) -> (r: bool)
        ensures
            r == self@.expired_at(current_ts),
    {
        current_ts > self.valid_ts
    }
}

} // verus!
