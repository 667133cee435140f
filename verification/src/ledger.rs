//! A ledger of accounts: the value substrate that payment execution
//! moves units across.
//!
//! Each account pairs an identity key with a balance; keys are unique.
//! A single transfer debits the payer and credits the recipient, and
//! fails — leaving the ledger untouched — when the payer or recipient
//! has no account, the payer's balance does not cover the amount, or
//! the recipient's balance would overflow.

use vstd::prelude::*;

use crate::bytes32::bytes32_eq;
use crate::errors::PaymentError;

verus! {

/// One ledger account: an identity key and its balance.
#[derive(Clone, Copy, Debug)]
pub struct Account {
    pub key: [u8; 32],
    pub balance: u64,
}

/// The index of the first account with the given key, if any.
pub open spec fn spec_find(s: Seq<Account>, key: Seq<u8>) -> Option<int>
    decreases s.len(),
{
    if s.len() == 0 {
        None
    } else if s[0].key@ == key {
        Some(0)
    } else {
        match spec_find(s.drop_first(), key) {
            None => None,
            Some(i) => Some(i + 1),
        }
    }
}

/// What `spec_find` returns: the first index holding the key, or `None`
/// when no account holds it.
pub proof fn lemma_find_props(s: Seq<Account>, key: Seq<u8>)
    ensures
        match spec_find(s, key) {
            None => forall|j: int| 0 <= j < s.len() ==> s[j].key@ != key,
            Some(i) => 0 <= i < s.len() && s[i].key@ == key && (forall|j: int|
                0 <= j < i ==> s[j].key@ != key),
        },
    decreases s.len(),
{
    if s.len() > 0 && s[0].key@ != key {
        lemma_find_props(s.drop_first(), key);
        match spec_find(s.drop_first(), key) {
            None => {
                assert forall|j: int| 0 <= j < s.len() implies s[j].key@ != key by {
                    if j > 0 {
                        assert(s.drop_first()[j - 1] == s[j]);
                    }
                }
            },
            Some(i) => {
                assert(s.drop_first()[i] == s[i + 1]);
                assert forall|j: int| 0 <= j < i + 1 implies s[j].key@ != key by {
                    if j > 0 {
                        assert(s.drop_first()[j - 1] == s[j]);
                    }
                }
            },
        }
    }
}

/// The balance stored under a key, if an account holds it.
pub open spec fn spec_balance(s: Seq<Account>, key: Seq<u8>) -> Option<u64> {
    match spec_find(s, key) {
        None => None,
        Some(i) => Some(s[i].balance),
    }
}

/// What one transfer does to the account sequence, or why it fails:
/// a missing payer, a missing recipient, a balance short of the amount,
/// and an overflowing credit are detected in that order, and a failed
/// transfer changes nothing.
pub open spec fn spec_transfer(
    s: Seq<Account>,
    payer: Seq<u8>,
    recipient: Seq<u8>,
    amount: u64,
) -> Result<Seq<Account>, PaymentError> {
    match spec_find(s, payer) {
        None => Err(PaymentError::InvalidSender),
        Some(pi) => match spec_find(s, recipient) {
            None => Err(PaymentError::InvalidRecipient),
            Some(ri) => if s[pi].balance < amount {
                Err(PaymentError::InsufficientFunds)
            } else {
                let debited = s.update(
                    pi,
                    (Account { key: s[pi].key, balance: (s[pi].balance - amount) as u64 }),
                );
                if debited[ri].balance + amount > u64::MAX {
                    Err(PaymentError::MathError)
                } else {
                    Ok(
                        debited.update(
                            ri,
                            (Account {
                                key: debited[ri].key,
                                balance: (debited[ri].balance + amount) as u64,
                            }),
                        ),
                    )
                }
            },
        },
    }
}

/// The total value held across all accounts.
pub open spec fn total_balance(s: Seq<Account>) -> int
    decreases s.len(),
{
    if s.len() == 0 {
        0
    } else {
        total_balance(s.drop_last()) + s.last().balance
    }
}

/// Replacing one account changes the total by the balance difference.
proof fn lemma_total_balance_update(s: Seq<Account>, i: int, a: Account)
    requires
        0 <= i < s.len(),
    ensures
        total_balance(s.update(i, a)) == total_balance(s) - s[i].balance + a.balance,
    decreases s.len(),
{
    if i == s.len() - 1 {
        assert(s.update(i, a).drop_last() =~= s.drop_last());
    } else {
        assert(s.update(i, a).drop_last() =~= s.drop_last().update(i, a));
        assert(s.update(i, a).last() == s.last());
        lemma_total_balance_update(s.drop_last(), i, a);
    }
}

/// Conservation law: a successful transfer moves value between two
/// accounts and leaves the ledger's total unchanged.
pub proof fn lemma_transfer_preserves_total(
    s: Seq<Account>,
    payer: Seq<u8>,
    recipient: Seq<u8>,
    amount: u64,
)
    ensures
        spec_transfer(s, payer, recipient, amount) matches Ok(updated) ==> total_balance(updated)
            == total_balance(s),
{
    if let (Some(pi), Some(ri)) = (spec_find(s, payer), spec_find(s, recipient)) {
        lemma_find_props(s, payer);
        lemma_find_props(s, recipient);
        if spec_transfer(s, payer, recipient, amount) is Ok {
            let debited = s.update(
                pi,
                (Account { key: s[pi].key, balance: (s[pi].balance - amount) as u64 }),
            );
            lemma_total_balance_update(
                s,
                pi,
                (Account { key: s[pi].key, balance: (s[pi].balance - amount) as u64 }),
            );
            lemma_total_balance_update(
                debited,
                ri,
                (Account { key: debited[ri].key, balance: (debited[ri].balance + amount) as u64 }),
            );
        }
    }
}

/// The ledger: a table of accounts with pairwise-distinct keys.
pub struct Ledger {
    pub accounts: Vec<Account>,
}

impl Ledger {
    /// Keys are pairwise distinct.
    pub open spec fn wf(&self) -> bool {
        forall|i: int, j: int|
            0 <= i < j < self.accounts@.len() ==> self.accounts@[i].key@
                != self.accounts@[j].key@
    }

    /// An empty ledger.
    pub fn new() -> (l: Ledger)
        ensures
            l.wf(),
            l.accounts@.len() == 0,
    {
        Ledger { accounts: Vec::new() }
    }

    /// The index of the account holding `key`, if any.
    pub fn find_index(&self, key: &[u8; 32]) -> (r: Option<usize>)
        ensures
            match r {
                Some(i) => spec_find(self.accounts@, key@) == Some(i as int),
                None => spec_find(self.accounts@, key@) is None,
            },
    {
        proof {
            lemma_find_props(self.accounts@, key@);
        }
        let mut i: usize = 0;
        while i < self.accounts.len()
            invariant
                i <= self.accounts@.len(),
                forall|j: int| 0 <= j < i ==> self.accounts@[j].key@ != key@,
                spec_find(self.accounts@, key@) matches Some(f) ==> 0 <= f
                    < self.accounts@.len() && self.accounts@[f].key@ == key@,
                spec_find(self.accounts@, key@) is None ==> forall|j: int|
                    0 <= j < self.accounts@.len() ==> self.accounts@[j].key@ != key@,
            decreases self.accounts@.len() - i,
        {
            if bytes32_eq(&self.accounts[i].key, key) {
                proof {
                    lemma_find_props(self.accounts@, key@);
                    if let Some(f) = spec_find(self.accounts@, key@) {
                        assert(f == i as int);
                    }
                }
                return Some(i);
            }
            i = i + 1;
        }
        None
    }

    /// Opens an account under a fresh key with an initial balance;
    /// refuses a key that already has one.
    pub fn open_account(&mut self, key: [u8; 32], balance: u64) -> (r: Result<(), PaymentError>)
        requires
            old(self).wf(),
        ensures
            final(self).wf(),
            match spec_find(old(self).accounts@, key@) {
                Some(_) => r == Err::<(), PaymentError>(PaymentError::AlreadyExists)
                    && final(self).accounts@ == old(self).accounts@,
                None => r == Ok::<(), PaymentError>(()) && final(self).accounts@ == old(
                    self,
                ).accounts@.push((Account { key, balance })),
            },
    {
        match self.find_index(&key) {
            Some(_) => Err(PaymentError::AlreadyExists),
            None => {
                proof {
                    lemma_find_props(self.accounts@, key@);
                }
                self.accounts.push(Account { key, balance });
                Ok(())
            },
        }
    }

    /// The balance of the account holding `key`, if any.
    pub fn balance_of(&self, key: &[u8; 32]) -> (r: Option<u64>)
        ensures
            r == spec_balance(self.accounts@, key@),
    {
        match self.find_index(key) {
            None => None,
            Some(i) => {
                proof {
                    lemma_find_props(self.accounts@, key@);
                }
                Some(self.accounts[i].balance)
            },
        }
    }

    /// A copy of this ledger, used as the working state of a batch so
    /// that a failing batch leaves the committed ledger untouched.
    pub fn snapshot(&self) -> (l: Ledger)
        ensures
            l.accounts@ == self.accounts@,
    {
        let mut copy: Vec<Account> = Vec::new();
        let mut i: usize = 0;
        while i < self.accounts.len()
            invariant
                i <= self.accounts@.len(),
                copy@ == self.accounts@.take(i as int),
            decreases self.accounts@.len() - i,
        {
            copy.push(self.accounts[i]);
            proof {
                assert(copy@ =~= self.accounts@.take(i + 1));
            }
            i = i + 1;
        }
        proof {
            assert(self.accounts@.take(self.accounts@.len() as int) =~= self.accounts@);
        }
        Ledger { accounts: copy }
    }

    /// Moves `amount` units from the payer's account to the recipient's,
    /// exactly as `spec_transfer` says; on failure the ledger is
    /// unchanged.
    pub fn transfer(&mut self, payer: &[u8; 32], recipient: &[u8; 32], amount: u64) -> (r: Result<
        (),
        PaymentError,
    >)
        requires
            old(self).wf(),
        ensures
            final(self).wf(),
            match spec_transfer(old(self).accounts@, payer@, recipient@, amount) {
                Ok(updated) => r == Ok::<(), PaymentError>(()) && final(self).accounts@
                    == updated,
                Err(e) => r == Err::<(), PaymentError>(e) && final(self).accounts@ == old(
                    self,
                ).accounts@,
            },
    {
        let pi = match self.find_index(payer) {
            None => {
                return Err(PaymentError::InvalidSender);
            },
            Some(i) => i,
        };
        let ri = match self.find_index(recipient) {
            None => {
                return Err(PaymentError::InvalidRecipient);
            },
            Some(i) => i,
        };
        proof {
            lemma_find_props(self.accounts@, payer@);
            lemma_find_props(self.accounts@, recipient@);
        }
        let payer_balance = self.accounts[pi].balance;
        if payer_balance < amount {
            return Err(PaymentError::InsufficientFunds);
        }
        if ri != pi && self.accounts[ri].balance > u64::MAX - amount {
            return Err(PaymentError::MathError);
        }
        let debited = Account { key: self.accounts[pi].key, balance: payer_balance - amount };
        self.accounts.set(pi, debited);
        let credit_base = self.accounts[ri];
        self.accounts.set(
            ri,
            Account { key: credit_base.key, balance: credit_base.balance + amount },
        );
        Ok(())
    }
}

} // verus!
