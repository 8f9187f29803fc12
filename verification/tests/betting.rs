use betting_core::Address;
use betting_core::BettingContract;
use betting_core::Bytes32;
use betting_core::CallContext;
use betting_core::ContractError;
use betting_core::ContractEvent;
use betting_core::SpinAuthorization;

fn b32(b: u8) -> Bytes32 {
    let w = u64::from_le_bytes([b; 8]);
    Bytes32::new(w, w, w, w)
}

/// A context in which every listed identity authorized the call and the
/// backend signed the given spin triples, like a mock-everything host.
fn ctx_with(
    timestamp: u64,
    authorized: Vec<Address>,
    backend_signed: Vec<SpinAuthorization>,
) -> CallContext {
    CallContext { timestamp, authorized, backend_signed }
}

fn spin_ctx(signer: Address, spin_id: Bytes32, spin_hash: Bytes32, executor: Address) -> CallContext {
    ctx_with(
        7,
        vec![executor, signer],
        vec![SpinAuthorization { signer, spin_id, spin_hash, executor }],
    )
}

#[test]
fn test_initialize() {
    let mut contract = BettingContract::new(Address::new(1000));
    let backend_signer = Address::new(1);

    contract.initialize(backend_signer).unwrap();

    // Verify initialization by checking stored signer
    let stored_signer = contract.backend_signer().unwrap();

    assert_eq!(stored_signer, backend_signer);
}

#[test]
fn test_spin_execution_success() {
    let mut contract = BettingContract::new(Address::new(1000));
    let backend_signer = Address::new(1);
    let executor = Address::new(2);

    // Initialize contract
    contract.initialize(backend_signer).unwrap();

    // Create spin execution data
    let spin_id = b32(1);
    let spin_hash = b32(2);
    let ctx = spin_ctx(backend_signer, spin_id, spin_hash, executor);

    // Execute spin
    let result = contract.execute_spin(&ctx, spin_id, spin_hash, executor);

    // Should succeed
    assert!(result.is_ok());
}

#[test]
fn test_prevent_duplicate_spin_execution() {
    let mut contract = BettingContract::new(Address::new(1000));
    let backend_signer = Address::new(1);
    let executor = Address::new(2);

    contract.initialize(backend_signer).unwrap();

    let spin_id = b32(1);
    let spin_hash = b32(2);
    let ctx = spin_ctx(backend_signer, spin_id, spin_hash, executor);

    // First execution should succeed
    let result1 = contract.execute_spin(&ctx, spin_id, spin_hash, executor);
    assert!(result1.is_ok());

    // Second execution with same spin_id should fail
    let result2 = contract.execute_spin(&ctx, spin_id, spin_hash, executor);
    assert!(result2.is_err());
}

#[test]
fn test_prevent_replay_attacks() {
    let mut contract = BettingContract::new(Address::new(1000));
    let backend_signer = Address::new(1);
    let executor = Address::new(2);

    contract.initialize(backend_signer).unwrap();

    let spin_id_1 = b32(1);
    let spin_id_2 = b32(4);
    let spin_hash = b32(2);
    let ctx = ctx_with(
        7,
        vec![executor, backend_signer],
        vec![
            SpinAuthorization { signer: backend_signer, spin_id: spin_id_1, spin_hash, executor },
            SpinAuthorization { signer: backend_signer, spin_id: spin_id_2, spin_hash, executor },
        ],
    );

    // First execution with spin_hash
    let result1 = contract.execute_spin(&ctx, spin_id_1, spin_hash, executor);
    assert!(result1.is_ok());

    // Second execution with same spin_hash but different spin_id should fail
    let result2 = contract.execute_spin(&ctx, spin_id_2, spin_hash, executor);
    assert!(result2.is_err());
}

#[test]
fn test_is_spin_executed() {
    let mut contract = BettingContract::new(Address::new(1000));
    let backend_signer = Address::new(1);
    let executor = Address::new(2);

    contract.initialize(backend_signer).unwrap();

    let spin_id = b32(1);
    let spin_hash = b32(2);
    let ctx = spin_ctx(backend_signer, spin_id, spin_hash, executor);

    // Before execution
    assert!(!contract.is_spin_executed(spin_id));

    // Execute spin
    contract.execute_spin(&ctx, spin_id, spin_hash, executor).unwrap();

    // After execution
    assert!(contract.is_spin_executed(spin_id));
}

#[test]
fn test_get_spin_execution() {
    let mut contract = BettingContract::new(Address::new(1000));
    let backend_signer = Address::new(1);
    let executor = Address::new(2);

    contract.initialize(backend_signer).unwrap();

    let spin_id = b32(1);
    let spin_hash = b32(2);
    let ctx = spin_ctx(backend_signer, spin_id, spin_hash, executor);

    contract.execute_spin(&ctx, spin_id, spin_hash, executor).unwrap();

    let execution = contract.get_spin_execution(spin_id).unwrap();

    assert_eq!(execution.spin_id, spin_id);
    assert_eq!(execution.executor, executor);
}

#[test]
fn test_is_spin_hash_used() {
    let mut contract = BettingContract::new(Address::new(1000));
    let backend_signer = Address::new(1);
    let executor = Address::new(2);

    contract.initialize(backend_signer).unwrap();

    let spin_id = b32(1);
    let spin_hash = b32(2);
    let ctx = spin_ctx(backend_signer, spin_id, spin_hash, executor);

    // Before execution
    assert!(!contract.is_spin_hash_used(spin_hash));

    // Execute spin
    contract.execute_spin(&ctx, spin_id, spin_hash, executor).unwrap();

    // After execution
    assert!(contract.is_spin_hash_used(spin_hash));
}

#[test]
fn test_initialize_twice_rejected() {
    let mut contract = BettingContract::new(Address::new(1000));
    assert_eq!(contract.initialize(Address::new(1)), Ok(()));
    assert_eq!(
        contract.initialize(Address::new(2)),
        Err(ContractError::AlreadyInitialized)
    );
    // the first signer is kept
    assert_eq!(contract.backend_signer(), Some(Address::new(1)));
}

#[test]
fn test_execute_spin_full_scenario() {
    // initialize(signerA); one successful execution; the exact replay is
    // refused with SpinAlreadyExecuted.
    let mut contract = BettingContract::new(Address::new(1000));
    let signer_a = Address::new(1);
    let executor_b = Address::new(2);
    contract.initialize(signer_a).unwrap();

    let spin_id = b32(1);
    let spin_hash = b32(2);
    let ctx = spin_ctx(signer_a, spin_id, spin_hash, executor_b);

    assert_eq!(contract.execute_spin(&ctx, spin_id, spin_hash, executor_b), Ok(()));
    assert!(contract.is_spin_executed(spin_id));
    assert!(contract.is_spin_hash_used(spin_hash));
    assert_eq!(
        contract.execute_spin(&ctx, spin_id, spin_hash, executor_b),
        Err(ContractError::SpinAlreadyExecuted)
    );
}

#[test]
fn test_execute_spin_requires_authorization() {
    let mut contract = BettingContract::new(Address::new(1000));
    let signer = Address::new(1);
    let executor = Address::new(2);
    contract.initialize(signer).unwrap();

    let spin_id = b32(1);
    let spin_hash = b32(2);

    // executor did not authorize the call
    let no_caller = ctx_with(
        7,
        vec![],
        vec![SpinAuthorization { signer, spin_id, spin_hash, executor }],
    );
    assert_eq!(
        contract.execute_spin(&no_caller, spin_id, spin_hash, executor),
        Err(ContractError::Unauthorized)
    );

    // no backend signature over this triple
    let no_signature = ctx_with(7, vec![executor], vec![]);
    assert_eq!(
        contract.execute_spin(&no_signature, spin_id, spin_hash, executor),
        Err(ContractError::Unauthorized)
    );

    // a signature binding a different executor does not transfer
    let other = Address::new(9);
    let wrong_executor = ctx_with(
        7,
        vec![executor],
        vec![SpinAuthorization { signer, spin_id, spin_hash, executor: other }],
    );
    assert_eq!(
        contract.execute_spin(&wrong_executor, spin_id, spin_hash, executor),
        Err(ContractError::Unauthorized)
    );

    // nothing was recorded along the way
    assert!(!contract.is_spin_executed(spin_id));
    assert!(!contract.is_spin_hash_used(spin_hash));
}

#[test]
fn test_execute_spin_uninitialized_rejected() {
    let mut contract = BettingContract::new(Address::new(1000));
    let signer = Address::new(1);
    let executor = Address::new(2);
    let spin_id = b32(1);
    let spin_hash = b32(2);
    let ctx = spin_ctx(signer, spin_id, spin_hash, executor);
    assert_eq!(
        contract.execute_spin(&ctx, spin_id, spin_hash, executor),
        Err(ContractError::Unauthorized)
    );
}

#[test]
fn test_get_spin_execution_not_found() {
    let mut contract = BettingContract::new(Address::new(1000));
    contract.initialize(Address::new(1)).unwrap();
    assert_eq!(
        contract.get_spin_execution(b32(7)),
        Err(ContractError::SpinNotFound)
    );
}

#[test]
fn test_spin_execution_records_timestamp_and_event() {
    let mut contract = BettingContract::new(Address::new(1000));
    let signer = Address::new(1);
    let executor = Address::new(2);
    contract.initialize(signer).unwrap();

    let spin_id = b32(1);
    let spin_hash = b32(2);
    let ctx = spin_ctx(signer, spin_id, spin_hash, executor);
    contract.execute_spin(&ctx, spin_id, spin_hash, executor).unwrap();

    let execution = contract.get_spin_execution(spin_id).unwrap();
    assert_eq!(execution.timestamp, 7);

    let events = contract.events();
    assert_eq!(events.len(), 1);
    match events[0] {
        ContractEvent::SpinExecuted(receipt) => {
            assert_eq!(receipt.spin_id, spin_id);
            assert_eq!(receipt.executor, executor);
            assert_eq!(receipt.timestamp, 7);
        }
        _ => panic!("expected a SpinExecuted event"),
    }
}
