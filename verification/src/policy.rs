//! The policy store: one distribution policy per owner.
//!
//! A policy fixes ten percentage weights that must sum to exactly 100,
//! a ten-slot receiver table, and an ordered list of sub-policy
//! references. Creation is idempotent: re-invoking it for an existing
//! owner is a no-op success that never overwrites the stored record.

use vstd::prelude::*;

use crate::bytes32::bytes32_eq;
use crate::errors::PaymentError;

verus! {

/// One slot of the receiver table: an identity and an amount.
#[derive(Clone, Copy, Debug)]
pub struct Receiver {
    pub key: [u8; 32],
    pub amount: u64,
}

/// A persisted distribution policy for one owner.
pub struct Policy {
    pub owner: [u8; 32],
    pub weights: [u8; 10],
    pub receivers: [Receiver; 10],
    pub sub_policies: Vec<String>,
    pub initialized: bool,
}

/// The mathematical sum of the weights.
pub open spec fn weight_sum(w: Seq<u8>) -> int
    decreases w.len(),
{
    if w.len() == 0 {
        0
    } else {
        weight_sum(w.drop_last()) + w.last()
    }
}

/// Extending a prefix of the weights by one element adds it to the sum.
pub proof fn lemma_weight_sum_take_succ(w: Seq<u8>, i: int)
    requires
        0 <= i < w.len(),
    ensures
        weight_sum(w.take(i + 1)) == weight_sum(w.take(i)) + w[i],
{
    assert(w.take(i + 1).drop_last() =~= w.take(i));
    assert(w.take(i + 1).last() == w[i]);
}

/// A well-formed stored policy: initialized, with weights summing to
/// exactly 100.
pub open spec fn policy_wf(p: Policy) -> bool {
    p.initialized && weight_sum(p.weights@) == 100
}

/// The index of the first policy owned by `owner`, if any.
pub open spec fn spec_policy_index(s: Seq<Policy>, owner: Seq<u8>) -> Option<int>
    decreases s.len(),
{
    if s.len() == 0 {
        None
    } else if s[0].owner@ == owner {
        Some(0)
    } else {
        match spec_policy_index(s.drop_first(), owner) {
            None => None,
            Some(i) => Some(i + 1),
        }
    }
}

/// What `spec_policy_index` returns: the first index owned by `owner`,
/// or `None` when no stored policy is.
pub proof fn lemma_policy_index_props(s: Seq<Policy>, owner: Seq<u8>)
    ensures
        match spec_policy_index(s, owner) {
            None => forall|j: int| 0 <= j < s.len() ==> s[j].owner@ != owner,
            Some(i) => 0 <= i < s.len() && s[i].owner@ == owner && (forall|j: int|
                0 <= j < i ==> s[j].owner@ != owner),
        },
    decreases s.len(),
{
    if s.len() > 0 && s[0].owner@ != owner {
        lemma_policy_index_props(s.drop_first(), owner);
        match spec_policy_index(s.drop_first(), owner) {
            None => {
                assert forall|j: int| 0 <= j < s.len() implies s[j].owner@ != owner by {
                    if j > 0 {
                        assert(s.drop_first()[j - 1] == s[j]);
                    }
                }
            },
            Some(i) => {
                assert(s.drop_first()[i] == s[i + 1]);
                assert forall|j: int| 0 <= j < i + 1 implies s[j].owner@ != owner by {
                    if j > 0 {
                        assert(s.drop_first()[j - 1] == s[j]);
                    }
                }
            },
        }
    }
}

/// What policy creation does: weights are validated first, an existing
/// record makes the call a no-op success, and otherwise the initialized
/// record is appended.
pub open spec fn spec_create_policy(
    s: Seq<Policy>,
    owner: [u8; 32],
    weights: [u8; 10],
    receivers: [Receiver; 10],
    sub_policies: Vec<String>,
) -> (Result<(), PaymentError>, Seq<Policy>) {
    if weight_sum(weights@) != 100 {
        (Err(PaymentError::InvalidWeights), s)
    } else if spec_policy_index(s, owner@) is Some {
        (Ok(()), s)
    } else {
        (
            Ok(()),
            s.push((Policy { owner, weights, receivers, sub_policies, initialized: true })),
        )
    }
}

/// The stored policies of one or more owners.
pub struct PolicyStore {
    pub policies: Vec<Policy>,
}

impl PolicyStore {
    /// Owners are pairwise distinct and every stored record is
    /// well formed.
    pub open spec fn wf(&self) -> bool {
        &&& forall|i: int, j: int|
            0 <= i < j < self.policies@.len() ==> self.policies@[i].owner@
                != self.policies@[j].owner@
        &&& forall|i: int| 0 <= i < self.policies@.len() ==> policy_wf(#[trigger] self.policies@[i])
    }

    /// An empty store.
    pub fn new() -> (s: PolicyStore)
        ensures
            s.wf(),
            s.policies@.len() == 0,
    {
        PolicyStore { policies: Vec::new() }
    }

    /// The index of the policy owned by `owner`, if any.
    pub fn find_index(&self, owner: &[u8; 32]) -> (r: Option<usize>)
        ensures
            match r {
                Some(i) => spec_policy_index(self.policies@, owner@) == Some(i as int),
                None => spec_policy_index(self.policies@, owner@) is None,
            },
    {
        proof {
            lemma_policy_index_props(self.policies@, owner@);
        }
        let mut i: usize = 0;
        while i < self.policies.len()
            invariant
                i <= self.policies@.len(),
                forall|j: int| 0 <= j < i ==> self.policies@[j].owner@ != owner@,
                spec_policy_index(self.policies@, owner@) matches Some(f) ==> 0 <= f
                    < self.policies@.len() && self.policies@[f].owner@ == owner@,
                spec_policy_index(self.policies@, owner@) is None ==> forall|j: int|
                    0 <= j < self.policies@.len() ==> self.policies@[j].owner@ != owner@,
            decreases self.policies@.len() - i,
        {
            if bytes32_eq(&self.policies[i].owner, owner) {
                proof {
                    lemma_policy_index_props(self.policies@, owner@);
                    if let Some(f) = spec_policy_index(self.policies@, owner@) {
                        assert(f == i as int);
                    }
                }
                return Some(i);
            }
            i = i + 1;
        }
        None
    }

    /// Creates the policy record for `owner`, exactly as
    /// `spec_create_policy` says. Weight vectors not summing to 100 are
    /// refused outright; re-creation for an existing owner succeeds
    /// without touching the stored record.
    pub fn create_policy(
        &mut self,
        owner: [u8; 32],
        weights: [u8; 10],
        receivers: [Receiver; 10],
        sub_policies: Vec<String>,
    ) -> (r: Result<(), PaymentError>)
        requires
            old(self).wf(),
        ensures
            final(self).wf(),
            ({
                let (res, stored) = spec_create_policy(
                    old(self).policies@,
                    owner,
                    weights,
                    receivers,
                    sub_policies,
                );
                r == res && final(self).policies@ == stored
            }),
            r is Ok <==> weight_sum(weights@) == 100,
            weight_sum(weights@) != 100 ==> r == Err::<(), PaymentError>(
                PaymentError::InvalidWeights,
            ) && final(self).policies@ == old(self).policies@,
    {
        let mut total: u32 = 0;
        let mut i: usize = 0;
        while i < 10
            invariant
                i <= 10,
                total == weight_sum(weights@.take(i as int)),
                total <= 255 * i,
            decreases 10 - i,
        {
            proof {
                lemma_weight_sum_take_succ(weights@, i as int);
            }
            total = total + weights[i] as u32;
            i = i + 1;
        }
        proof {
            assert(weights@.take(10) =~= weights@);
        }
        if total != 100 {
            return Err(PaymentError::InvalidWeights);
        }
        match self.find_index(&owner) {
            Some(_) => Ok(()),
            None => {
                proof {
                    lemma_policy_index_props(self.policies@, owner@);
                }
                let record = Policy {
                    owner,
                    weights,
                    receivers,
                    sub_policies,
                    initialized: true,
                };
                self.policies.push(record);
                Ok(())
            },
        }
    }

    /// Reads the stored policy of `owner`, or reports that none was
    /// ever created.
    pub fn read_policy(&self, owner: &[u8; 32]) -> (r: Result<&Policy, PaymentError>)
        ensures
            match r {
                Ok(p) => spec_policy_index(self.policies@, owner@) matches Some(i) && p
                    == &self.policies@[i],
                Err(e) => e == PaymentError::NotInitialized && spec_policy_index(
                    self.policies@,
                    owner@,
                ) is None,
            },
    {
        match self.find_index(owner) {
            None => Err(PaymentError::NotInitialized),
            Some(i) => {
                proof {
                    lemma_policy_index_props(self.policies@, owner@);
                }
                Ok(&self.policies[i])
            },
        }
    }
}

/// Idempotent-creation law: running policy creation a second time with
/// the same owner and identical arguments leaves the stored policies
/// exactly as the first run left them, and a successful first run makes
/// the second a success as well.
pub proof fn lemma_create_policy_idempotent(
    s: Seq<Policy>,
    owner: [u8; 32],
    weights: [u8; 10],
    receivers: [Receiver; 10],
    sub_policies: Vec<String>,
)
    ensures
        ({
            let (r1, s1) = spec_create_policy(s, owner, weights, receivers, sub_policies);
            let (r2, s2) = spec_create_policy(s1, owner, weights, receivers, sub_policies);
            s2 == s1 && (r1 is Ok ==> r2 is Ok) && (r1 is Err ==> r2 == r1)
        }),
{
    let (r1, s1) = spec_create_policy(s, owner, weights, receivers, sub_policies);
    if weight_sum(weights@) == 100 && spec_policy_index(s, owner@) is None {
        let pushed = s1[s.len() as int];
        assert(pushed.owner@ == owner@);
        lemma_policy_index_props(s1, owner@);
        if spec_policy_index(s1, owner@) is None {
            assert(s1[s.len() as int].owner@ != owner@);
        }
    }
}

} // verus!
