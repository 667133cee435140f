//! The error taxonomy: every operation reports exactly which invariant
//! failed, so a caller can tell malformed input from authorization,
//! lifecycle, arithmetic and transfer failures apart.

use vstd::prelude::*;

verus! {

/// Why an operation of the engine was refused.
#[derive(Clone, Copy, Debug, PartialEq, Eq, Structural)]
pub enum PaymentError {
    /// The weights of a policy do not sum to exactly 100.
    InvalidWeights,
    /// A plan's amount list and recipient list have different lengths.
    RecipientCountMismatch,
    /// A plan's amounts do not sum to the claimed total.
    InvalidTotalAmount,
    /// A submitted rules hash does not match the registered one.
    RulesHashMismatch,
    /// The caller is not the identity that the operation requires.
    Unauthorized,
    /// No record exists for the given owner.
    NotInitialized,
    /// A record already exists where exactly one may be created.
    AlreadyExists,
    /// Arithmetic overflow during summation or crediting.
    MathError,
    /// The paying identity has no account on the ledger.
    InvalidSender,
    /// A recipient has no account on the ledger.
    InvalidRecipient,
    /// The payer's balance does not cover a transfer.
    InsufficientFunds,
}

} // verus!
