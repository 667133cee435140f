//! The integrity verifier: pure validation of a distribution plan.
//!
//! Structural validation (recipient count and claimed total) and
//! hash-binding validation are independent checks; the payment executor
//! requires both to pass before any value moves, while a caller may also
//! run either one standalone as a dry run.

use vstd::prelude::*;

use crate::bytes32::is_zero_bytes;
use crate::errors::PaymentError;

verus! {

/// The mathematical sum of a sequence of amounts.
pub open spec fn sum_amounts(s: Seq<u64>) -> int
    decreases s.len(),
{
    if s.len() == 0 {
        0
    } else {
        sum_amounts(s.drop_last()) + s.last()
    }
}

/// Extending a prefix by one element adds that element to its sum.
pub proof fn lemma_sum_take_succ(s: Seq<u64>, i: int)
    requires
        0 <= i < s.len(),
    ensures
        sum_amounts(s.take(i + 1)) == sum_amounts(s.take(i)) + s[i],
{
    assert(s.take(i + 1).drop_last() =~= s.take(i));
    assert(s.take(i + 1).last() == s[i]);
}

/// A prefix never sums to more than the whole sequence.
pub proof fn lemma_sum_take_le(s: Seq<u64>, i: int)
    requires
        0 <= i <= s.len(),
    ensures
        sum_amounts(s.take(i)) <= sum_amounts(s),
    decreases s.len() - i,
{
    if i == s.len() {
        assert(s.take(i) =~= s);
    } else {
        lemma_sum_take_succ(s, i);
        lemma_sum_take_le(s, i + 1);
    }
}

/// Sums the amounts, reporting `None` when the exact sum does not fit
/// in a 64-bit value.
pub fn checked_sum(amounts: &Vec<u64>) -> (r: Option<u64>)
    ensures
        match r {
            Some(total) => total == sum_amounts(amounts@),
            None => sum_amounts(amounts@) > u64::MAX,
        },
{
    let mut acc: u64 = 0;
    let mut i: usize = 0;
    while i < amounts.len()
        invariant
            i <= amounts@.len(),
            acc == sum_amounts(amounts@.take(i as int)),
        decreases amounts@.len() - i,
    {
        let a = amounts[i];
        proof {
            lemma_sum_take_succ(amounts@, i as int);
        }
        if a > u64::MAX - acc {
            proof {
                lemma_sum_take_le(amounts@, i + 1);
            }
            return None;
        }
        acc = acc + a;
        i = i + 1;
    }
    proof {
        assert(amounts@.take(amounts@.len() as int) =~= amounts@);
    }
    Some(acc)
}

/// What structural validation of a plan returns: the count check comes
/// first, then overflow-checked summation, then the total check.
pub open spec fn spec_verify_structure(
    amounts: Seq<u64>,
    recipient_count: int,
    claimed_total: u64,
) -> Result<(), PaymentError> {
    if amounts.len() != recipient_count {
        Err(PaymentError::RecipientCountMismatch)
    } else if sum_amounts(amounts) > u64::MAX {
        Err(PaymentError::MathError)
    } else if sum_amounts(amounts) != claimed_total {
        Err(PaymentError::InvalidTotalAmount)
    } else {
        Ok(())
    }
}

/// Validates a plan's structural invariants: one amount per recipient,
/// and amounts summing (without overflow) to the claimed total.
pub fn verify_structure(amounts: &Vec<u64>, recipient_count: usize, claimed_total: u64) -> (r:
    Result<(), PaymentError>)
    ensures
        r == spec_verify_structure(amounts@, recipient_count as int, claimed_total),
        r is Ok <==> amounts@.len() == recipient_count && sum_amounts(amounts@)
            == claimed_total,
{
    if amounts.len() != recipient_count {
        return Err(PaymentError::RecipientCountMismatch);
    }
    match checked_sum(amounts) {
        None => Err(PaymentError::MathError),
        Some(total) => {
            if total != claimed_total {
                Err(PaymentError::InvalidTotalAmount)
            } else {
                Ok(())
            }
        },
    }
}

/// True when a submitted hash is admitted by the registered one: an
/// all-zero registered digest enforces nothing, any other digest admits
/// exactly the byte-identical submission.
pub open spec fn spec_hash_gate(registered: Seq<u8>, submitted: Option<Seq<u8>>) -> bool {
    is_zero_bytes(registered) || submitted == Some(registered)
}

/// What hash-binding validation returns.
pub open spec fn spec_verify_integrity(
    registered: Seq<u8>,
    submitted: Option<Seq<u8>>,
) -> Result<(), PaymentError> {
    if spec_hash_gate(registered, submitted) {
        Ok(())
    } else {
        Err(PaymentError::RulesHashMismatch)
    }
}

/// The byte view of an optional submitted hash.
pub open spec fn opt_hash_view(submitted: Option<&[u8; 32]>) -> Option<Seq<u8>> {
    match submitted {
        Some(h) => Some(h@),
        None => None,
    }
}

/// Validates that a submitted hash matches the registered one, unless
/// the registered digest is the all-zero sentinel, in which case the
/// check is skipped entirely.
pub fn verify_integrity(registered: &[u8; 32], submitted: Option<&[u8; 32]>) -> (r: Result<
    (),
    PaymentError,
>)
    ensures
        r == spec_verify_integrity(registered@, opt_hash_view(submitted)),
{
    if crate::bytes32::bytes32_is_zero(registered) {
        return Ok(());
    }
    match submitted {
        None => Err(PaymentError::RulesHashMismatch),
        Some(h) => {
            if crate::bytes32::bytes32_eq(registered, h) {
                Ok(())
            } else {
                Err(PaymentError::RulesHashMismatch)
            }
        },
    }
}

/// Hash-gating law: while the registered digest is unset (all zero),
/// integrity verification accepts every submission; once it is set,
/// exactly the byte-identical submission is accepted.
pub proof fn lemma_hash_gating(registered: Seq<u8>, submitted: Option<Seq<u8>>)
    ensures
        is_zero_bytes(registered) ==> spec_verify_integrity(registered, submitted) == Ok::<
            (),
            PaymentError,
        >(()),
        !is_zero_bytes(registered) ==> (spec_verify_integrity(registered, submitted) is Ok
            <==> submitted == Some(registered)),
{
}

/// Validates that a proposed distribution lists one amount per receiver
/// and that the amounts sum to the announced total.
pub fn validate_payment_distribution(
    total_amount: u64,
    receivers: &Vec<[u8; 32]>,
    amounts: &Vec<u64>,
) -> (r: Result<(), PaymentError>)
    ensures
        r == spec_verify_structure(amounts@, receivers@.len() as int, total_amount),
        r is Ok <==> receivers@.len() == amounts@.len() && sum_amounts(amounts@)
            == total_amount,
{
    verify_structure(amounts, receivers.len(), total_amount)
}

} // verus!
