//! The rules registry: one registration per owner, binding a locator
//! for an externally computed rule set to an integrity hash.
//!
//! Registration is a strict, one-time create — unlike policy creation,
//! re-invoking it for an existing owner is refused. The integrity hash
//! starts as the all-zero "unenforced" sentinel and may be rotated any
//! number of times, but only by the stored owner.

use vstd::prelude::*;

use crate::bytes32::{bytes32_eq, is_zero_bytes};
use crate::errors::PaymentError;

verus! {

/// Largest accepted length of a rules locator, for storage sizing.
pub const MAX_LOCATOR_LEN: usize = 200;

/// A persisted rules registration for one owner.
pub struct RulesRegistration {
    pub owner: [u8; 32],
    pub rules_locator: String,
    pub integrity_hash: [u8; 32],
}

/// The index of the first registration owned by `owner`, if any.
pub open spec fn spec_reg_index(s: Seq<RulesRegistration>, owner: Seq<u8>) -> Option<int>
    decreases s.len(),
{
    if s.len() == 0 {
        None
    } else if s[0].owner@ == owner {
        Some(0)
    } else {
        match spec_reg_index(s.drop_first(), owner) {
            None => None,
            Some(i) => Some(i + 1),
        }
    }
}

/// What `spec_reg_index` returns: the first index owned by `owner`, or
/// `None` when no registration is.
pub proof fn lemma_reg_index_props(s: Seq<RulesRegistration>, owner: Seq<u8>)
    ensures
        match spec_reg_index(s, owner) {
            None => forall|j: int| 0 <= j < s.len() ==> s[j].owner@ != owner,
            Some(i) => 0 <= i < s.len() && s[i].owner@ == owner && (forall|j: int|
                0 <= j < i ==> s[j].owner@ != owner),
        },
    decreases s.len(),
{
    if s.len() > 0 && s[0].owner@ != owner {
        lemma_reg_index_props(s.drop_first(), owner);
        match spec_reg_index(s.drop_first(), owner) {
            None => {
                assert forall|j: int| 0 <= j < s.len() implies s[j].owner@ != owner by {
                    if j > 0 {
                        assert(s.drop_first()[j - 1] == s[j]);
                    }
                }
            },
            Some(i) => {
                assert(s.drop_first()[i] == s[i + 1]);
                assert forall|j: int| 0 <= j < i + 1 implies s[j].owner@ != owner by {
                    if j > 0 {
                        assert(s.drop_first()[j - 1] == s[j]);
                    }
                }
            },
        }
    }
}

/// The stored registrations of one or more owners.
pub struct RulesRegistry {
    pub regs: Vec<RulesRegistration>,
}

impl RulesRegistry {
    /// Owners are pairwise distinct and every locator fits the bound.
    pub open spec fn wf(&self) -> bool {
        &&& forall|i: int, j: int|
            0 <= i < j < self.regs@.len() ==> self.regs@[i].owner@ != self.regs@[j].owner@
        &&& forall|i: int|
            0 <= i < self.regs@.len() ==> (#[trigger] self.regs@[i]).rules_locator@.len()
                <= MAX_LOCATOR_LEN
    }

    /// An empty registry.
    pub fn new() -> (r: RulesRegistry)
        ensures
            r.wf(),
            r.regs@.len() == 0,
    {
        RulesRegistry { regs: Vec::new() }
    }

    /// The index of the registration owned by `owner`, if any.
    pub fn find_index(&self, owner: &[u8; 32]) -> (r: Option<usize>)
        ensures
            match r {
                Some(i) => spec_reg_index(self.regs@, owner@) == Some(i as int),
                None => spec_reg_index(self.regs@, owner@) is None,
            },
    {
        proof {
            lemma_reg_index_props(self.regs@, owner@);
        }
        let mut i: usize = 0;
        while i < self.regs.len()
            invariant
                i <= self.regs@.len(),
                forall|j: int| 0 <= j < i ==> self.regs@[j].owner@ != owner@,
                spec_reg_index(self.regs@, owner@) matches Some(f) ==> 0 <= f
                    < self.regs@.len() && self.regs@[f].owner@ == owner@,
                spec_reg_index(self.regs@, owner@) is None ==> forall|j: int|
                    0 <= j < self.regs@.len() ==> self.regs@[j].owner@ != owner@,
            decreases self.regs@.len() - i,
        {
            if bytes32_eq(&self.regs[i].owner, owner) {
                proof {
                    lemma_reg_index_props(self.regs@, owner@);
                    if let Some(f) = spec_reg_index(self.regs@, owner@) {
                        assert(f == i as int);
                    }
                }
                return Some(i);
            }
            i = i + 1;
        }
        proof {
            lemma_reg_index_props(self.regs@, owner@);
        }
        None
    }

    /// Registers a rules locator for `owner`: exactly one registration
    /// may ever be created per owner, and it starts with the all-zero,
    /// unenforced integrity hash.
    pub fn register_rules(&mut self, owner: [u8; 32], rules_locator: String) -> (r: Result<
        (),
        PaymentError,
    >)
        requires
            old(self).wf(),
            rules_locator@.len() <= MAX_LOCATOR_LEN,
        ensures
            final(self).wf(),
            spec_reg_index(old(self).regs@, owner@) is Some ==> r == Err::<(), PaymentError>(
                PaymentError::AlreadyExists,
            ) && final(self).regs@ == old(self).regs@,
            spec_reg_index(old(self).regs@, owner@) is None ==> {
                &&& r == Ok::<(), PaymentError>(())
                &&& final(self).regs@.len() == old(self).regs@.len() + 1
                &&& final(self).regs@.subrange(0, old(self).regs@.len() as int) == old(self).regs@
                &&& final(self).regs@.last().owner == owner
                &&& final(self).regs@.last().rules_locator == rules_locator
                &&& is_zero_bytes(final(self).regs@.last().integrity_hash@)
            },
    {
        match self.find_index(&owner) {
            Some(_) => Err(PaymentError::AlreadyExists),
            None => {
                proof {
                    lemma_reg_index_props(self.regs@, owner@);
                }
                let record = RulesRegistration {
                    owner,
                    rules_locator,
                    integrity_hash: [0u8; 32],
                };
                self.regs.push(record);
                proof {
                    assert(self.regs@.subrange(0, old(self).regs@.len() as int) =~= old(
                        self,
                    ).regs@);
                }
                Ok(())
            },
        }
    }

    /// Rotates the integrity hash of `owner`'s registration. Only the
    /// stored owner may rotate; any other caller is refused and the
    /// hash is left untouched.
    pub fn rotate_hash(&mut self, caller: &[u8; 32], owner: &[u8; 32], new_hash: [u8; 32]) -> (r:
        Result<(), PaymentError>)
        requires
            old(self).wf(),
        ensures
            final(self).wf(),
            match spec_reg_index(old(self).regs@, owner@) {
                None => r == Err::<(), PaymentError>(PaymentError::NotInitialized)
                    && final(self).regs@ == old(self).regs@,
                Some(i) => if old(self).regs@[i].owner@ != caller@ {
                    r == Err::<(), PaymentError>(PaymentError::Unauthorized)
                        && final(self).regs@ == old(self).regs@
                } else {
                    r == Ok::<(), PaymentError>(()) && final(self).regs@ == old(self).regs@.update(
                        i,
                        (RulesRegistration {
                            owner: old(self).regs@[i].owner,
                            rules_locator: old(self).regs@[i].rules_locator,
                            integrity_hash: new_hash,
                        }),
                    )
                },
            },
    {
        let idx = match self.find_index(owner) {
            None => {
                return Err(PaymentError::NotInitialized);
            },
            Some(i) => i,
        };
        proof {
            lemma_reg_index_props(self.regs@, owner@);
        }
        if !bytes32_eq(&self.regs[idx].owner, caller) {
            return Err(PaymentError::Unauthorized);
        }
        let entry = &mut self.regs[idx];
        entry.integrity_hash = new_hash;
        Ok(())
    }
}

} // verus!
