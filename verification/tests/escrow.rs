use betting_core::Address;
use betting_core::BetOutcome;
use betting_core::BettingContract;
use betting_core::Bytes32;
use betting_core::CallContext;
use betting_core::ContractError;
use betting_core::ContractEvent;
use betting_core::TokenLedger;
use betting_core::TransferError;

fn b32(b: u8) -> Bytes32 {
    let w = u64::from_le_bytes([b; 8]);
    Bytes32::new(w, w, w, w)
}

fn caller_ctx(timestamp: u64, caller: Address) -> CallContext {
    CallContext { timestamp, authorized: vec![caller], backend_signed: vec![] }
}

const CUSTODY: u64 = 1000;

fn funded_world(balance: i128) -> (BettingContract, TokenLedger, Address, Address) {
    let custody = Address::new(CUSTODY);
    let mut contract = BettingContract::new(custody);
    contract.initialize(Address::new(1)).unwrap();
    let mut ledger = TokenLedger::new();
    let bettor = Address::new(3);
    let token = Address::new(4);
    ledger.set_balance(token, bettor, balance);
    (contract, ledger, bettor, token)
}

#[test]
fn test_place_bet_moves_stake_into_custody() {
    // placeBet(bettor, token, 1000, matchId, "win", 200) with sufficient
    // balance: the bettor is debited by 1000 and custody credited by 1000.
    let (mut contract, mut ledger, bettor, token) = funded_world(1500);
    let ctx = caller_ctx(8, bettor);
    let match_id = b32(1);

    let result = contract.place_bet(
        &mut ledger, &ctx, bettor, token, 1000, match_id, BetOutcome::Win, 200,
    );
    assert_eq!(result, Ok(()));
    assert_eq!(ledger.balance_of(token, bettor), 500);
    assert_eq!(ledger.balance_of(token, Address::new(CUSTODY)), 1000);

    let events = contract.events();
    assert_eq!(events.len(), 1);
    match events[0] {
        ContractEvent::BetPlaced(receipt) => {
            assert_eq!(receipt.bettor, bettor);
            assert_eq!(receipt.match_id, match_id);
            assert_eq!(receipt.amount, 1000);
        }
        _ => panic!("expected a BetPlaced event"),
    }
}

#[test]
fn test_place_bet_rejects_nonpositive_amount() {
    let (mut contract, mut ledger, bettor, token) = funded_world(1500);
    let ctx = caller_ctx(8, bettor);

    for amount in [0i128, -1, -1000] {
        let result = contract.place_bet(
            &mut ledger, &ctx, bettor, token, amount, b32(1), BetOutcome::Win, 200,
        );
        assert_eq!(result, Err(ContractError::InvalidAmount));
        // escrow is untouched
        assert_eq!(ledger.balance_of(token, bettor), 1500);
        assert_eq!(ledger.balance_of(token, Address::new(CUSTODY)), 0);
        assert_eq!(contract.events().len(), 0);
    }
}

#[test]
fn test_place_bet_requires_bettor_authorization() {
    let (mut contract, mut ledger, bettor, token) = funded_world(1500);
    let someone_else = caller_ctx(8, Address::new(99));

    let result = contract.place_bet(
        &mut ledger, &someone_else, bettor, token, 100, b32(1), BetOutcome::Win, 200,
    );
    assert_eq!(result, Err(ContractError::Unauthorized));
    assert_eq!(ledger.balance_of(token, bettor), 1500);
}

#[test]
fn test_place_bet_insufficient_balance_fails_cleanly() {
    let (mut contract, mut ledger, bettor, token) = funded_world(999);
    let ctx = caller_ctx(8, bettor);

    let result = contract.place_bet(
        &mut ledger, &ctx, bettor, token, 1000, b32(1), BetOutcome::Win, 200,
    );
    assert_eq!(result, Err(ContractError::TransferFailed));
    // all-or-nothing: no balance moved, no bet recorded, no event
    assert_eq!(ledger.balance_of(token, bettor), 999);
    assert_eq!(ledger.balance_of(token, Address::new(CUSTODY)), 0);
    assert_eq!(contract.events().len(), 0);

    // the same bet goes through once it is funded
    ledger.set_balance(token, bettor, 1000);
    let retry = contract.place_bet(
        &mut ledger, &ctx, bettor, token, 1000, b32(1), BetOutcome::Win, 200,
    );
    assert_eq!(retry, Ok(()));
}

#[test]
fn test_double_betting_prevention_enabled() {
    let (mut contract, mut ledger, bettor, token) = funded_world(5000);
    let signer = Address::new(1);
    contract
        .set_prevent_double_betting(&caller_ctx(5, signer), signer, true)
        .unwrap();
    assert!(contract.is_double_betting_prevented());

    let ctx = caller_ctx(8, bettor);
    let match_id = b32(1);
    let first = contract.place_bet(
        &mut ledger, &ctx, bettor, token, 1000, match_id, BetOutcome::Win, 200,
    );
    assert_eq!(first, Ok(()));
    let second = contract.place_bet(
        &mut ledger, &ctx, bettor, token, 500, match_id, BetOutcome::Lose, 150,
    );
    assert_eq!(second, Err(ContractError::BetAlreadyPlaced));
    // only the first stake was escrowed
    assert_eq!(ledger.balance_of(token, bettor), 4000);
    assert_eq!(ledger.balance_of(token, Address::new(CUSTODY)), 1000);

    // a different match is still open to the same bettor
    let third = contract.place_bet(
        &mut ledger, &ctx, bettor, token, 500, b32(2), BetOutcome::Draw, 300,
    );
    assert_eq!(third, Ok(()));
}

#[test]
fn test_double_betting_allowed_by_default() {
    let (mut contract, mut ledger, bettor, token) = funded_world(5000);
    assert!(!contract.is_double_betting_prevented());

    let ctx = caller_ctx(8, bettor);
    let match_id = b32(1);
    let first = contract.place_bet(
        &mut ledger, &ctx, bettor, token, 1000, match_id, BetOutcome::Win, 200,
    );
    assert_eq!(first, Ok(()));
    let second = contract.place_bet(
        &mut ledger, &ctx, bettor, token, 500, match_id, BetOutcome::Lose, 150,
    );
    assert_eq!(second, Ok(()));
    // both stakes were escrowed
    assert_eq!(ledger.balance_of(token, bettor), 3500);
    assert_eq!(ledger.balance_of(token, Address::new(CUSTODY)), 1500);
    assert_eq!(contract.events().len(), 2);
}

#[test]
fn test_set_prevent_double_betting_requires_signer() {
    let (mut contract, _, _, _) = funded_world(0);
    let signer = Address::new(1);
    let outsider = Address::new(42);

    // caller differs from the configured backend signer
    let result = contract.set_prevent_double_betting(&caller_ctx(5, outsider), outsider, true);
    assert_eq!(result, Err(ContractError::Unauthorized));
    assert!(!contract.is_double_betting_prevented());

    // the right admin but without caller authorization
    let result = contract.set_prevent_double_betting(&caller_ctx(5, outsider), signer, true);
    assert_eq!(result, Err(ContractError::Unauthorized));
    assert!(!contract.is_double_betting_prevented());

    // the backend signer with its own authorization succeeds, both ways
    assert_eq!(
        contract.set_prevent_double_betting(&caller_ctx(5, signer), signer, true),
        Ok(())
    );
    assert!(contract.is_double_betting_prevented());
    assert_eq!(
        contract.set_prevent_double_betting(&caller_ctx(5, signer), signer, false),
        Ok(())
    );
    assert!(!contract.is_double_betting_prevented());
}

#[test]
fn test_set_prevent_double_betting_uninitialized() {
    let mut contract = BettingContract::new(Address::new(CUSTODY));
    let admin = Address::new(1);
    assert_eq!(
        contract.set_prevent_double_betting(&caller_ctx(5, admin), admin, true),
        Err(ContractError::Unauthorized)
    );
}

#[test]
fn test_token_ledger_transfer() {
    let mut ledger = TokenLedger::new();
    let token = Address::new(4);
    let a = Address::new(5);
    let b = Address::new(6);
    assert_eq!(ledger.balance_of(token, a), 0);

    ledger.set_balance(token, a, 700);
    assert_eq!(ledger.transfer(token, a, b, 300), Ok(()));
    assert_eq!(ledger.balance_of(token, a), 400);
    assert_eq!(ledger.balance_of(token, b), 300);

    assert_eq!(
        ledger.transfer(token, a, b, 401),
        Err(TransferError::InsufficientBalance)
    );
    assert_eq!(
        ledger.transfer(token, a, b, -1),
        Err(TransferError::NegativeAmount)
    );
    ledger.set_balance(token, b, i128::MAX);
    assert_eq!(
        ledger.transfer(token, a, b, 1),
        Err(TransferError::BalanceOverflow)
    );
    // failed transfers moved nothing
    assert_eq!(ledger.balance_of(token, a), 400);

    // a self-transfer leaves the balance as it was
    assert_eq!(ledger.transfer(token, a, a, 400), Ok(()));
    assert_eq!(ledger.balance_of(token, a), 400);
}
