//! The payment executor: the engine that binds the stores together and
//! applies a validated distribution plan as one all-or-nothing batch.
//!
//! A call first requires a rules registration owned by the given owner
//! identity, then validates the plan's structure and its integrity hash,
//! and only then transfers `amounts[i]` from the payer to `recipients[i]`
//! in index order. If any single transfer fails, the committed ledger
//! and the event log are left exactly as they were: the batch runs on a
//! working copy that is installed only after every transfer succeeded.

use vstd::prelude::*;

use crate::errors::PaymentError;
use crate::ledger::{spec_transfer, Account, Ledger};
use crate::policy::{spec_create_policy, weight_sum, Policy, PolicyStore, Receiver};
use crate::rules::{
    lemma_reg_index_props, spec_reg_index, RulesRegistration, RulesRegistry, MAX_LOCATOR_LEN,
};
use crate::verify::{
    opt_hash_view, spec_verify_integrity, spec_verify_structure, sum_amounts, verify_integrity,
    verify_structure,
};

verus! {

/// The observable record of one executed transfer.
#[derive(Clone, Copy, Debug)]
pub struct TransferEvent {
    pub recipient: [u8; 32],
    pub amount: u64,
}

/// What a batch of transfers does to the account sequence: transfers
/// apply in index order, and the first failing transfer decides the
/// error of the whole batch.
pub open spec fn spec_execute_batch(
    s: Seq<Account>,
    payer: Seq<u8>,
    amounts: Seq<u64>,
    recipients: Seq<[u8; 32]>,
) -> Result<Seq<Account>, PaymentError>
    recommends
        amounts.len() == recipients.len(),
    decreases amounts.len(),
{
    if amounts.len() == 0 {
        Ok(s)
    } else {
        match spec_execute_batch(s, payer, amounts.drop_last(), recipients.drop_last()) {
            Err(e) => Err(e),
            Ok(mid) => spec_transfer(mid, payer, recipients.last()@, amounts.last()),
        }
    }
}

/// Once a prefix of the batch fails, the whole batch fails the same way.
pub proof fn lemma_batch_err_persists(
    s: Seq<Account>,
    payer: Seq<u8>,
    amounts: Seq<u64>,
    recipients: Seq<[u8; 32]>,
    k: int,
)
    requires
        0 <= k <= amounts.len(),
        amounts.len() == recipients.len(),
        spec_execute_batch(s, payer, amounts.take(k), recipients.take(k)) is Err,
    ensures
        spec_execute_batch(s, payer, amounts, recipients) == spec_execute_batch(
            s,
            payer,
            amounts.take(k),
            recipients.take(k),
        ),
    decreases amounts.len() - k,
{
    if k == amounts.len() {
        assert(amounts.take(k) =~= amounts);
        assert(recipients.take(k) =~= recipients);
    } else {
        assert(amounts.take(k + 1).drop_last() =~= amounts.take(k));
        assert(recipients.take(k + 1).drop_last() =~= recipients.take(k));
        lemma_batch_err_persists(s, payer, amounts, recipients, k + 1);
    }
}

/// Conservation law: a batch that commits moves value between accounts
/// and leaves the ledger's total unchanged.
pub proof fn lemma_batch_preserves_total(
    s: Seq<Account>,
    payer: Seq<u8>,
    amounts: Seq<u64>,
    recipients: Seq<[u8; 32]>,
)
    ensures
        spec_execute_batch(s, payer, amounts, recipients) matches Ok(updated)
            ==> crate::ledger::total_balance(updated) == crate::ledger::total_balance(s),
    decreases amounts.len(),
{
    if amounts.len() > 0 {
        lemma_batch_preserves_total(s, payer, amounts.drop_last(), recipients.drop_last());
        if let Ok(mid) = spec_execute_batch(
            s,
            payer,
            amounts.drop_last(),
            recipients.drop_last(),
        ) {
            crate::ledger::lemma_transfer_preserves_total(
                mid,
                payer,
                recipients.last()@,
                amounts.last(),
            );
        }
    }
}

/// The events that a committed batch appends, one per transfer, in
/// index order.
pub open spec fn spec_events(amounts: Seq<u64>, recipients: Seq<[u8; 32]>) -> Seq<TransferEvent> {
    Seq::new(
        amounts.len(),
        |i: int| (TransferEvent { recipient: recipients[i], amount: amounts[i] }),
    )
}

/// What a whole execution call returns: the authorization gate, the
/// structural gate and the integrity gate are passed in that order, and
/// only then does the batch touch the ledger.
pub open spec fn spec_execute_result(
    regs: Seq<RulesRegistration>,
    ledger: Seq<Account>,
    owner: Seq<u8>,
    payer: Seq<u8>,
    amounts: Seq<u64>,
    claimed_total: u64,
    recipients: Seq<[u8; 32]>,
    submitted: Option<Seq<u8>>,
) -> Result<Seq<Account>, PaymentError> {
    match spec_reg_index(regs, owner) {
        None => Err(PaymentError::Unauthorized),
        Some(i) => match spec_verify_structure(amounts, recipients.len() as int, claimed_total) {
            Err(e) => Err(e),
            Ok(_) => match spec_verify_integrity(regs[i].integrity_hash@, submitted) {
                Err(e) => Err(e),
                Ok(_) => spec_execute_batch(ledger, payer, amounts, recipients),
            },
        },
    }
}

/// What a verify-only (dry-run) call returns. The recipient list is not
/// supplied in this mode, so the count check is skipped; an owner with
/// no registration enforces no hash.
pub open spec fn spec_verify_plan(
    regs: Seq<RulesRegistration>,
    owner: Seq<u8>,
    amounts: Seq<u64>,
    claimed_total: u64,
    submitted: Option<Seq<u8>>,
) -> Result<(), PaymentError> {
    if sum_amounts(amounts) > u64::MAX {
        Err(PaymentError::MathError)
    } else if sum_amounts(amounts) != claimed_total {
        Err(PaymentError::InvalidTotalAmount)
    } else {
        match spec_reg_index(regs, owner) {
            None => Ok(()),
            Some(i) => spec_verify_integrity(regs[i].integrity_hash@, submitted),
        }
    }
}

/// The distribution engine: policy store, rules registry, ledger and
/// the ordered log of transfer events.
pub struct Engine {
    pub policies: PolicyStore,
    pub rules: RulesRegistry,
    pub ledger: Ledger,
    pub log: Vec<TransferEvent>,
}

impl Engine {
    /// Every component is well formed.
    pub open spec fn wf(&self) -> bool {
        self.policies.wf() && self.rules.wf() && self.ledger.wf()
    }

    /// A fresh engine: no policies, no registrations, an empty ledger
    /// and an empty log.
    pub fn new() -> (e: Engine)
        ensures
            e.wf(),
            e.policies.policies@.len() == 0,
            e.rules.regs@.len() == 0,
            e.ledger.accounts@.len() == 0,
            e.log@.len() == 0,
    {
        Engine {
            policies: PolicyStore::new(),
            rules: RulesRegistry::new(),
            ledger: Ledger::new(),
            log: Vec::new(),
        }
    }

    /// Creates (or idempotently re-creates) the policy of `owner`.
    /// Touches nothing but the policy store.
    pub fn create_policy(
        &mut self,
        owner: [u8; 32],
        weights: [u8; 10],
        receivers: [Receiver; 10],
        sub_policies: Vec<String>,
    ) -> (r: Result<(), PaymentError>)
        requires
            old(self).wf(),
        ensures
            final(self).wf(),
            ({
                let (res, stored) = spec_create_policy(
                    old(self).policies.policies@,
                    owner,
                    weights,
                    receivers,
                    sub_policies,
                );
                r == res && final(self).policies.policies@ == stored
            }),
            r is Ok <==> weight_sum(weights@) == 100,
            final(self).rules == old(self).rules,
            final(self).ledger == old(self).ledger,
            final(self).log == old(self).log,
    {
        self.policies.create_policy(owner, weights, receivers, sub_policies)
    }

    /// Reads the stored policy of `owner`.
    pub fn read_policy(&self, owner: &[u8; 32]) -> (r: Result<&Policy, PaymentError>)
        ensures
            match r {
                Ok(p) => crate::policy::spec_policy_index(self.policies.policies@, owner@)
                    matches Some(i) && p == &self.policies.policies@[i],
                Err(e) => e == PaymentError::NotInitialized && crate::policy::spec_policy_index(
                    self.policies.policies@,
                    owner@,
                ) is None,
            },
    {
        self.policies.read_policy(owner)
    }

    /// Registers a rules locator for `owner`: strict one-time creation.
    /// Touches nothing but the registry.
    pub fn register_rules(&mut self, owner: [u8; 32], rules_locator: String) -> (r: Result<
        (),
        PaymentError,
    >)
        requires
            old(self).wf(),
            rules_locator@.len() <= MAX_LOCATOR_LEN,
        ensures
            final(self).wf(),
            spec_reg_index(old(self).rules.regs@, owner@) is Some ==> r == Err::<(), PaymentError>(
                PaymentError::AlreadyExists,
            ) && final(self).rules.regs@ == old(self).rules.regs@,
            spec_reg_index(old(self).rules.regs@, owner@) is None ==> {
                &&& r == Ok::<(), PaymentError>(())
                &&& final(self).rules.regs@.len() == old(self).rules.regs@.len() + 1
                &&& final(self).rules.regs@.subrange(0, old(self).rules.regs@.len() as int) == old(
                    self,
                ).rules.regs@
                &&& final(self).rules.regs@.last().owner == owner
                &&& final(self).rules.regs@.last().rules_locator == rules_locator
                &&& crate::bytes32::is_zero_bytes(final(self).rules.regs@.last().integrity_hash@)
            },
            final(self).policies == old(self).policies,
            final(self).ledger == old(self).ledger,
            final(self).log == old(self).log,
    {
        self.rules.register_rules(owner, rules_locator)
    }

    /// Rotates the integrity hash of `owner`'s registration; only the
    /// stored owner may do so. Touches nothing but the registry.
    pub fn rotate_rules_hash(
        &mut self,
        caller: &[u8; 32],
        owner: &[u8; 32],
        new_hash: [u8; 32],
    ) -> (r: Result<(), PaymentError>)
        requires
            old(self).wf(),
        ensures
            final(self).wf(),
            match spec_reg_index(old(self).rules.regs@, owner@) {
                None => r == Err::<(), PaymentError>(PaymentError::NotInitialized)
                    && final(self).rules.regs@ == old(self).rules.regs@,
                Some(i) => if old(self).rules.regs@[i].owner@ != caller@ {
                    r == Err::<(), PaymentError>(PaymentError::Unauthorized)
                        && final(self).rules.regs@ == old(self).rules.regs@
                } else {
                    r == Ok::<(), PaymentError>(()) && final(self).rules.regs@ == old(
                        self,
                    ).rules.regs@.update(
                        i,
                        (RulesRegistration {
                            owner: old(self).rules.regs@[i].owner,
                            rules_locator: old(self).rules.regs@[i].rules_locator,
                            integrity_hash: new_hash,
                        }),
                    )
                },
            },
            final(self).policies == old(self).policies,
            final(self).ledger == old(self).ledger,
            final(self).log == old(self).log,
    {
        self.rules.rotate_hash(caller, owner, new_hash)
    }

    /// Dry-run validation of a plan against the stored registration of
    /// `rules_owner`: checks the claimed total and the integrity hash,
    /// but no recipient count, and moves no value.
    pub fn verify_plan(
        &self,
        rules_owner: &[u8; 32],
        amounts: &Vec<u64>,
        claimed_total: u64,
        submitted_hash: Option<&[u8; 32]>,
    ) -> (r: Result<(), PaymentError>)
        ensures
            r == spec_verify_plan(
                self.rules.regs@,
                rules_owner@,
                amounts@,
                claimed_total,
                opt_hash_view(submitted_hash),
            ),
    {
        match crate::verify::checked_sum(amounts) {
            None => {
                return Err(PaymentError::MathError);
            },
            Some(total) => {
                if total != claimed_total {
                    return Err(PaymentError::InvalidTotalAmount);
                }
            },
        }
        match self.rules.find_index(rules_owner) {
            None => Ok(()),
            Some(i) => {
                proof {
                    lemma_reg_index_props(self.rules.regs@, rules_owner@);
                }
                let registered = self.rules.regs[i].integrity_hash;
                verify_integrity(&registered, submitted_hash)
            },
        }
    }

    /// Executes a distribution plan as one atomic batch, exactly as
    /// `spec_execute_result` says: on any error — authorization,
    /// structure, integrity hash, or any single failing transfer — the
    /// ledger and the event log are unchanged; on success every
    /// transfer is applied and one event per transfer is logged in
    /// index order.
    #[verifier::loop_isolation(false)]
    pub fn execute_payments(
        &mut self,
        owner_identity: &[u8; 32],
        payer_identity: &[u8; 32],
        amounts: &Vec<u64>,
        claimed_total: u64,
        recipients: &Vec<[u8; 32]>,
        submitted_hash: Option<&[u8; 32]>,
    ) -> (r: Result<(), PaymentError>)
        requires
            old(self).wf(),
        ensures
            final(self).wf(),
            final(self).policies == old(self).policies,
            final(self).rules == old(self).rules,
            (match spec_execute_result(
                old(self).rules.regs@,
                old(self).ledger.accounts@,
                owner_identity@,
                payer_identity@,
                amounts@,
                claimed_total,
                recipients@,
                opt_hash_view(submitted_hash),
            ) {
                Ok(updated) => r == Ok::<(), PaymentError>(()) && final(self).ledger.accounts@
                    == updated && final(self).log@ == old(self).log@ + spec_events(
                    amounts@,
                    recipients@,
                ),
                Err(e) => r == Err::<(), PaymentError>(e) && final(self).ledger.accounts@ == old(
                    self,
                ).ledger.accounts@ && final(self).log@ == old(self).log@,
            }),
            r is Err ==> final(self).ledger.accounts@ == old(self).ledger.accounts@
                && final(self).log@ == old(self).log@,
            spec_reg_index(old(self).rules.regs@, owner_identity@) is Some && amounts@.len()
                != recipients@.len() ==> r == Err::<(), PaymentError>(
                PaymentError::RecipientCountMismatch,
            ),
            spec_reg_index(old(self).rules.regs@, owner_identity@) is Some && amounts@.len()
                == recipients@.len() && sum_amounts(amounts@) <= u64::MAX && sum_amounts(amounts@)
                != claimed_total ==> r == Err::<(), PaymentError>(PaymentError::InvalidTotalAmount),
    {
        let reg_idx = match self.rules.find_index(owner_identity) {
            None => {
                return Err(PaymentError::Unauthorized);
            },
            Some(i) => i,
        };
        proof {
            lemma_reg_index_props(self.rules.regs@, owner_identity@);
        }
        match verify_structure(amounts, recipients.len(), claimed_total) {
            Err(e) => {
                return Err(e);
            },
            Ok(_) => {},
        }
        let registered = self.rules.regs[reg_idx].integrity_hash;
        match verify_integrity(&registered, submitted_hash) {
            Err(e) => {
                return Err(e);
            },
            Ok(_) => {},
        }
        let mut work = self.ledger.snapshot();
        let n = amounts.len();
        let mut i: usize = 0;
        while i < n
            invariant
                i <= n,
                work.wf(),
                spec_execute_batch(
                    self.ledger.accounts@,
                    payer_identity@,
                    amounts@.take(i as int),
                    recipients@.take(i as int),
                ) == Ok::<Seq<Account>, PaymentError>(work.accounts@),
            decreases n - i,
        {
            proof {
                assert(amounts@.take(i + 1).drop_last() =~= amounts@.take(i as int));
                assert(recipients@.take(i + 1).drop_last() =~= recipients@.take(i as int));
            }
            let recipient = recipients[i];
            match work.transfer(payer_identity, &recipient, amounts[i]) {
                Err(e) => {
                    proof {
                        lemma_batch_err_persists(
                            self.ledger.accounts@,
                            payer_identity@,
                            amounts@,
                            recipients@,
                            i + 1,
                        );
                    }
                    return Err(e);
                },
                Ok(_) => {},
            }
            i = i + 1;
        }
        proof {
            assert(amounts@.take(n as int) =~= amounts@);
            assert(recipients@.take(n as int) =~= recipients@);
        }
        self.ledger = work;
        let mut j: usize = 0;
        while j < n
            invariant
                j <= n,
                self.wf(),
                self.policies == old(self).policies,
                self.rules == old(self).rules,
                spec_execute_batch(
                    old(self).ledger.accounts@,
                    payer_identity@,
                    amounts@,
                    recipients@,
                ) == Ok::<Seq<Account>, PaymentError>(self.ledger.accounts@),
                self.log@ == old(self).log@ + spec_events(
                    amounts@.take(j as int),
                    recipients@.take(j as int),
                ),
            decreases n - j,
        {
            self.log.push(TransferEvent { recipient: recipients[j], amount: amounts[j] });
            proof {
                assert(self.log@ =~= old(self).log@ + spec_events(
                    amounts@.take(j + 1),
                    recipients@.take(j + 1),
                ));
            }
            j = j + 1;
        }
        proof {
            assert(spec_events(amounts@.take(n as int), recipients@.take(n as int)) =~= spec_events(
                amounts@,
                recipients@,
            ));
        }
        Ok(())
    }
}

} // verus!
