use payment_validator::errors::PaymentError;
use payment_validator::executor::Engine;
use payment_validator::policy::Receiver;

fn key(tag: u8) -> [u8; 32] {
    let mut k = [0u8; 32];
    k[0] = tag;
    k
}

fn empty_receivers() -> [Receiver; 10] {
    [Receiver { key: [0u8; 32], amount: 0 }; 10]
}

const EVEN_WEIGHTS: [u8; 10] = [10, 10, 10, 10, 10, 10, 10, 10, 10, 10];

#[test]
fn create_policy_accepts_weights_summing_to_100() {
    let mut engine = Engine::new();
    let owner = key(1);
    assert_eq!(
        engine.create_policy(owner, EVEN_WEIGHTS, empty_receivers(), Vec::new()),
        Ok(())
    );
    let stored = engine.read_policy(&owner).unwrap();
    assert!(stored.initialized);
    assert_eq!(stored.weights, EVEN_WEIGHTS);
    assert_eq!(stored.owner, owner);
}

#[test]
fn create_policy_rejects_bad_weights_and_stores_nothing() {
    let mut engine = Engine::new();
    let owner = key(1);
    let bad = [10u8, 10, 10, 10, 10, 10, 10, 10, 10, 11];
    assert_eq!(
        engine.create_policy(owner, bad, empty_receivers(), Vec::new()),
        Err(PaymentError::InvalidWeights)
    );
    assert_eq!(
        engine.read_policy(&owner).map(|_| ()),
        Err(PaymentError::NotInitialized)
    );
}

#[test]
fn create_policy_twice_is_a_no_op_success() {
    let mut engine = Engine::new();
    let owner = key(1);
    let subs = vec![String::from("split/a"), String::from("split/b")];
    assert_eq!(
        engine.create_policy(owner, EVEN_WEIGHTS, empty_receivers(), subs.clone()),
        Ok(())
    );
    let first_len = engine.policies.policies.len();
    assert_eq!(
        engine.create_policy(owner, EVEN_WEIGHTS, empty_receivers(), subs.clone()),
        Ok(())
    );
    assert_eq!(engine.policies.policies.len(), first_len);
    let stored = engine.read_policy(&owner).unwrap();
    assert_eq!(stored.weights, EVEN_WEIGHTS);
    assert_eq!(stored.sub_policies, subs);
}

#[test]
fn register_rules_is_strict_create() {
    let mut engine = Engine::new();
    let owner = key(1);
    assert_eq!(
        engine.register_rules(owner, String::from("ipfs://rules-v1")),
        Ok(())
    );
    assert_eq!(
        engine.register_rules(owner, String::from("ipfs://rules-v2")),
        Err(PaymentError::AlreadyExists)
    );
    assert_eq!(engine.rules.regs.len(), 1);
    assert_eq!(engine.rules.regs[0].rules_locator, "ipfs://rules-v1");
    assert_eq!(engine.rules.regs[0].integrity_hash, [0u8; 32]);
}

#[test]
fn rotate_rules_hash_by_owner_overwrites_hash() {
    let mut engine = Engine::new();
    let owner = key(1);
    engine.register_rules(owner, String::from("ipfs://rules-v1")).unwrap();
    let h1 = key(7);
    let h2 = key(8);
    assert_eq!(engine.rotate_rules_hash(&owner, &owner, h1), Ok(()));
    assert_eq!(engine.rules.regs[0].integrity_hash, h1);
    assert_eq!(engine.rotate_rules_hash(&owner, &owner, h2), Ok(()));
    assert_eq!(engine.rules.regs[0].integrity_hash, h2);
}

#[test]
fn rotate_rules_hash_by_other_identity_is_unauthorized() {
    let mut engine = Engine::new();
    let owner = key(1);
    let intruder = key(2);
    engine.register_rules(owner, String::from("ipfs://rules-v1")).unwrap();
    let h = key(7);
    engine.rotate_rules_hash(&owner, &owner, h).unwrap();
    assert_eq!(
        engine.rotate_rules_hash(&intruder, &owner, key(9)),
        Err(PaymentError::Unauthorized)
    );
    assert_eq!(engine.rules.regs[0].integrity_hash, h);
}

#[test]
fn rotate_rules_hash_without_registration_is_not_initialized() {
    let mut engine = Engine::new();
    let owner = key(1);
    assert_eq!(
        engine.rotate_rules_hash(&owner, &owner, key(7)),
        Err(PaymentError::NotInitialized)
    );
}
