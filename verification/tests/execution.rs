use payment_validator::errors::PaymentError;
use payment_validator::executor::Engine;

fn key(tag: u8) -> [u8; 32] {
    let mut k = [0u8; 32];
    k[0] = tag;
    k
}

/// An engine with a registered rules owner (hash unset) and a funded
/// payer account.
fn engine_with(owner: [u8; 32], payer: [u8; 32], payer_balance: u64) -> Engine {
    let mut engine = Engine::new();
    engine.register_rules(owner, String::from("ipfs://rules-v1")).unwrap();
    engine.ledger.open_account(payer, payer_balance).unwrap();
    engine
}

#[test]
fn execute_commits_and_logs_events_in_index_order() {
    let owner = key(1);
    let payer = key(2);
    let mut engine = engine_with(owner, payer, 100);
    let weights = [10u8; 10];
    let receivers = [payment_validator::policy::Receiver { key: [0u8; 32], amount: 0 }; 10];
    engine.create_policy(owner, weights, receivers, Vec::new()).unwrap();
    let recipients = vec![key(3), key(4), key(5)];
    for r in &recipients {
        engine.ledger.open_account(*r, 0).unwrap();
    }
    let amounts = vec![5u64, 5, 5];
    assert_eq!(
        engine.execute_payments(&owner, &payer, &amounts, 15, &recipients, None),
        Ok(())
    );
    assert_eq!(engine.ledger.balance_of(&payer), Some(85));
    for r in &recipients {
        assert_eq!(engine.ledger.balance_of(r), Some(5));
    }
    assert_eq!(engine.log.len(), 3);
    for (i, event) in engine.log.iter().enumerate() {
        assert_eq!(event.recipient, recipients[i]);
        assert_eq!(event.amount, 5);
    }
}

#[test]
fn execute_without_registration_is_unauthorized() {
    let mut engine = Engine::new();
    let owner = key(1);
    let payer = key(2);
    engine.ledger.open_account(payer, 100).unwrap();
    engine.ledger.open_account(key(3), 0).unwrap();
    let r = engine.execute_payments(&owner, &payer, &vec![5u64], 5, &vec![key(3)], None);
    assert_eq!(r, Err(PaymentError::Unauthorized));
    assert_eq!(engine.ledger.balance_of(&payer), Some(100));
}

#[test]
fn execute_rejects_count_mismatch_without_moving_value() {
    let owner = key(1);
    let payer = key(2);
    let mut engine = engine_with(owner, payer, 100);
    engine.ledger.open_account(key(3), 0).unwrap();
    let r = engine.execute_payments(&owner, &payer, &vec![5u64, 5], 10, &vec![key(3)], None);
    assert_eq!(r, Err(PaymentError::RecipientCountMismatch));
    assert_eq!(engine.ledger.balance_of(&payer), Some(100));
    assert_eq!(engine.ledger.balance_of(&key(3)), Some(0));
    assert!(engine.log.is_empty());
}

#[test]
fn execute_rejects_wrong_total_without_moving_value() {
    let owner = key(1);
    let payer = key(2);
    let mut engine = engine_with(owner, payer, 100);
    engine.ledger.open_account(key(3), 0).unwrap();
    engine.ledger.open_account(key(4), 0).unwrap();
    let r = engine.execute_payments(&owner, &payer, &vec![5u64, 5], 11, &vec![key(3), key(4)], None);
    assert_eq!(r, Err(PaymentError::InvalidTotalAmount));
    assert_eq!(engine.ledger.balance_of(&payer), Some(100));
    assert!(engine.log.is_empty());
}

#[test]
fn execute_detects_summation_overflow() {
    let owner = key(1);
    let payer = key(2);
    let mut engine = engine_with(owner, payer, 100);
    engine.ledger.open_account(key(3), 0).unwrap();
    engine.ledger.open_account(key(4), 0).unwrap();
    let r = engine.execute_payments(
        &owner,
        &payer,
        &vec![u64::MAX, 1],
        0,
        &vec![key(3), key(4)],
        None,
    );
    assert_eq!(r, Err(PaymentError::MathError));
    assert_eq!(engine.ledger.balance_of(&payer), Some(100));
}

#[test]
fn execute_enforces_registered_hash() {
    let owner = key(1);
    let payer = key(2);
    let mut engine = engine_with(owner, payer, 100);
    engine.ledger.open_account(key(3), 0).unwrap();
    let hash = key(7);
    let wrong = key(8);
    engine.rotate_rules_hash(&owner, &owner, hash).unwrap();
    let amounts = vec![5u64];
    let recipients = vec![key(3)];
    assert_eq!(
        engine.execute_payments(&owner, &payer, &amounts, 5, &recipients, None),
        Err(PaymentError::RulesHashMismatch)
    );
    assert_eq!(
        engine.execute_payments(&owner, &payer, &amounts, 5, &recipients, Some(&wrong)),
        Err(PaymentError::RulesHashMismatch)
    );
    assert_eq!(engine.ledger.balance_of(&key(3)), Some(0));
    assert_eq!(
        engine.execute_payments(&owner, &payer, &amounts, 5, &recipients, Some(&hash)),
        Ok(())
    );
    assert_eq!(engine.ledger.balance_of(&key(3)), Some(5));
}

#[test]
fn execute_ignores_submitted_hash_while_unset() {
    let owner = key(1);
    let payer = key(2);
    let mut engine = engine_with(owner, payer, 100);
    engine.ledger.open_account(key(3), 0).unwrap();
    let junk = key(9);
    assert_eq!(
        engine.execute_payments(&owner, &payer, &vec![5u64], 5, &vec![key(3)], Some(&junk)),
        Ok(())
    );
    assert_eq!(engine.ledger.balance_of(&key(3)), Some(5));
}

#[test]
fn failing_middle_transfer_rolls_back_the_whole_batch() {
    let owner = key(1);
    let payer = key(2);
    let mut engine = engine_with(owner, payer, 100);
    engine.ledger.open_account(key(3), 1).unwrap();
    // key(4) has no account: the second transfer fails.
    engine.ledger.open_account(key(5), 3).unwrap();
    let recipients = vec![key(3), key(4), key(5)];
    let amounts = vec![5u64, 5, 5];
    let r = engine.execute_payments(&owner, &payer, &amounts, 15, &recipients, None);
    assert_eq!(r, Err(PaymentError::InvalidRecipient));
    assert_eq!(engine.ledger.balance_of(&payer), Some(100));
    assert_eq!(engine.ledger.balance_of(&key(3)), Some(1));
    assert_eq!(engine.ledger.balance_of(&key(4)), None);
    assert_eq!(engine.ledger.balance_of(&key(5)), Some(3));
    assert!(engine.log.is_empty());
}

#[test]
fn insufficient_funds_mid_batch_rolls_back() {
    let owner = key(1);
    let payer = key(2);
    let mut engine = engine_with(owner, payer, 7);
    engine.ledger.open_account(key(3), 0).unwrap();
    engine.ledger.open_account(key(4), 0).unwrap();
    let r = engine.execute_payments(&owner, &payer, &vec![5u64, 5], 10, &vec![key(3), key(4)], None);
    assert_eq!(r, Err(PaymentError::InsufficientFunds));
    assert_eq!(engine.ledger.balance_of(&payer), Some(7));
    assert_eq!(engine.ledger.balance_of(&key(3)), Some(0));
    assert!(engine.log.is_empty());
}

#[test]
fn unknown_payer_is_an_invalid_sender() {
    let owner = key(1);
    let payer = key(2);
    let mut engine = Engine::new();
    engine.register_rules(owner, String::from("ipfs://rules-v1")).unwrap();
    engine.ledger.open_account(key(3), 0).unwrap();
    let r = engine.execute_payments(&owner, &payer, &vec![5u64], 5, &vec![key(3)], None);
    assert_eq!(r, Err(PaymentError::InvalidSender));
}

#[test]
fn paying_yourself_leaves_the_balance_unchanged() {
    let owner = key(1);
    let payer = key(2);
    let mut engine = engine_with(owner, payer, 100);
    assert_eq!(
        engine.execute_payments(&owner, &payer, &vec![40u64], 40, &vec![payer], None),
        Ok(())
    );
    assert_eq!(engine.ledger.balance_of(&payer), Some(100));
    assert_eq!(engine.log.len(), 1);
}

#[test]
fn duplicate_recipients_accumulate_in_order() {
    let owner = key(1);
    let payer = key(2);
    let mut engine = engine_with(owner, payer, 100);
    engine.ledger.open_account(key(3), 0).unwrap();
    let recipients = vec![key(3), key(3)];
    assert_eq!(
        engine.execute_payments(&owner, &payer, &vec![5u64, 7], 12, &recipients, None),
        Ok(())
    );
    assert_eq!(engine.ledger.balance_of(&key(3)), Some(12));
    assert_eq!(engine.ledger.balance_of(&payer), Some(88));
    assert_eq!(engine.log.len(), 2);
    assert_eq!(engine.log[0].amount, 5);
    assert_eq!(engine.log[1].amount, 7);
}

#[test]
fn verify_plan_gates_on_total_and_hash_only() {
    let owner = key(1);
    let payer = key(2);
    let mut engine = engine_with(owner, payer, 100);
    let amounts = vec![5u64, 5, 5];
    // Hash unset: any submission passes.
    assert_eq!(engine.verify_plan(&owner, &amounts, 15, None), Ok(()));
    assert_eq!(engine.verify_plan(&owner, &amounts, 15, Some(&key(9))), Ok(()));
    assert_eq!(
        engine.verify_plan(&owner, &amounts, 14, None),
        Err(PaymentError::InvalidTotalAmount)
    );
    // Once set, only the registered hash passes.
    let hash = key(7);
    engine.rotate_rules_hash(&owner, &owner, hash).unwrap();
    assert_eq!(engine.verify_plan(&owner, &amounts, 15, Some(&hash)), Ok(()));
    assert_eq!(
        engine.verify_plan(&owner, &amounts, 15, Some(&key(9))),
        Err(PaymentError::RulesHashMismatch)
    );
    assert_eq!(
        engine.verify_plan(&owner, &amounts, 15, None),
        Err(PaymentError::RulesHashMismatch)
    );
    // An owner with no registration enforces nothing.
    assert_eq!(engine.verify_plan(&key(6), &amounts, 15, Some(&key(9))), Ok(()));
    assert_eq!(
        engine.verify_plan(&key(6), &vec![u64::MAX, 1], 0, None),
        Err(PaymentError::MathError)
    );
}

#[test]
fn ledger_refuses_duplicate_accounts() {
    let mut engine = Engine::new();
    assert_eq!(engine.ledger.open_account(key(3), 1), Ok(()));
    assert_eq!(
        engine.ledger.open_account(key(3), 2),
        Err(PaymentError::AlreadyExists)
    );
    assert_eq!(engine.ledger.balance_of(&key(3)), Some(1));
}

#[test]
fn credit_overflow_is_a_math_error_and_rolls_back() {
    let owner = key(1);
    let payer = key(2);
    let mut engine = engine_with(owner, payer, 10);
    engine.ledger.open_account(key(3), u64::MAX - 2).unwrap();
    let r = engine.execute_payments(&owner, &payer, &vec![5u64], 5, &vec![key(3)], None);
    assert_eq!(r, Err(PaymentError::MathError));
    assert_eq!(engine.ledger.balance_of(&payer), Some(10));
    assert_eq!(engine.ledger.balance_of(&key(3)), Some(u64::MAX - 2));
}
