//! The guarantees the core lives by, proved once and for all over the
//! transition functions.
//!
//! Each lemma quantifies over arbitrary states and inputs through its
//! parameters, so every claim below holds for every reachable state.

use vstd::prelude::*;
use crate::auth::AuthView;
use crate::betting::BettingView;
use crate::betting::execute_spin_spec;
use crate::betting::initial_view;
use crate::betting::initialize_spec;
use crate::betting::place_bet_spec;
use crate::betting::set_prevent_double_betting_spec;
use crate::enums::BetOutcome;
use crate::errors::ContractError;
use crate::ids::Address;
use crate::ids::Bytes32;
use crate::token::Balances;
use crate::token::transfer_spec;

verus! {

/// A spin executes when everything is in order: the executor authorized the
/// call, a backend signer is configured and signed this exact triple, and
/// neither the spin hash nor the spin id was ever seen before.  Afterwards
/// the execution is recorded and the hash is consumed.
pub proof fn lemma_execute_spin_succeeds(
    pre: BettingView,
    ctx: AuthView,
    spin_id: Bytes32,
    spin_hash: Bytes32,
    executor: Address,
)
    requires
        ctx.callers.contains(executor),
        pre.backend_signer is Some,
        !pre.used_hashes.contains(spin_hash),
        !pre.executions.dom().contains(spin_id),
        ctx.signed.contains(
            crate::auth::SpinAuthorization {
                signer: pre.backend_signer->0,
                spin_id,
                spin_hash,
                executor,
            },
        ),
    ensures
        execute_spin_spec(pre, ctx, spin_id, spin_hash, executor).1 == Ok::<(), ContractError>(()),
        execute_spin_spec(pre, ctx, spin_id, spin_hash, executor).0.executions.dom().contains(
            spin_id,
        ),
        execute_spin_spec(pre, ctx, spin_id, spin_hash, executor).0.used_hashes.contains(
            spin_hash,
        ),
{
}

/// A spin id executes at most once: after any successful execution, a
/// second authorized attempt with the same spin id — whatever spin hash,
/// executor or signatures it carries — fails with `SpinAlreadyExecuted` and
/// changes nothing.
pub proof fn lemma_spin_id_executes_once(
    pre: BettingView,
    ctx1: AuthView,
    ctx2: AuthView,
    spin_id: Bytes32,
    hash1: Bytes32,
    hash2: Bytes32,
    executor1: Address,
    executor2: Address,
)
    requires
        execute_spin_spec(pre, ctx1, spin_id, hash1, executor1).1 is Ok,
        ctx2.callers.contains(executor2),
    ensures
        ({
            let mid = execute_spin_spec(pre, ctx1, spin_id, hash1, executor1).0;
            execute_spin_spec(mid, ctx2, spin_id, hash2, executor2) == (
                mid,
                Err::<(), ContractError>(ContractError::SpinAlreadyExecuted),
            )
        }),
{
}

/// A spin hash is consumed by at most one execution: after any successful
/// execution, a second authorized attempt reusing the same spin hash under
/// any spin id fails with `SpinAlreadyExecuted` and changes nothing.
pub proof fn lemma_spin_hash_single_use(
    pre: BettingView,
    ctx1: AuthView,
    ctx2: AuthView,
    spin_id1: Bytes32,
    spin_id2: Bytes32,
    spin_hash: Bytes32,
    executor1: Address,
    executor2: Address,
)
    requires
        execute_spin_spec(pre, ctx1, spin_id1, spin_hash, executor1).1 is Ok,
        ctx2.callers.contains(executor2),
    ensures
        ({
            let mid = execute_spin_spec(pre, ctx1, spin_id1, spin_hash, executor1).0;
            execute_spin_spec(mid, ctx2, spin_id2, spin_hash, executor2) == (
                mid,
                Err::<(), ContractError>(ContractError::SpinAlreadyExecuted),
            )
        }),
{
}

/// A fresh contract has no history: no spin is executed, no hash consumed,
/// no bet recorded.
pub proof fn lemma_fresh_contract_has_no_history(
    contract_address: Address,
    spin_id: Bytes32,
    spin_hash: Bytes32,
)
    ensures
        !initial_view(contract_address).executions.dom().contains(spin_id),
        !initial_view(contract_address).used_hashes.contains(spin_hash),
        initial_view(contract_address).bets.dom() == Set::<(Bytes32, Address)>::empty(),
{
}

/// Recorded history is permanent: every entry point preserves each recorded
/// spin execution — membership and content — and each consumed spin hash.
pub proof fn lemma_history_is_permanent(
    pre: BettingView,
    ctx: AuthView,
    id: Bytes32,
    hash: Bytes32,
    signer: Address,
    admin: Address,
    prevent: bool,
    spin_id: Bytes32,
    spin_hash: Bytes32,
    executor: Address,
    bal: Balances,
    bettor: Address,
    token_address: Address,
    amount: i128,
    match_id: Bytes32,
    bet_type: BetOutcome,
    odds: u32,
)
    requires
        pre.executions.dom().contains(id),
        pre.used_hashes.contains(hash),
    ensures
        ({
            let post = initialize_spec(pre, signer).0;
            post.executions.dom().contains(id) && post.executions[id] == pre.executions[id]
                && post.used_hashes.contains(hash)
        }),
        ({
            let post = set_prevent_double_betting_spec(pre, ctx, admin, prevent).0;
            post.executions.dom().contains(id) && post.executions[id] == pre.executions[id]
                && post.used_hashes.contains(hash)
        }),
        ({
            let post = execute_spin_spec(pre, ctx, spin_id, spin_hash, executor).0;
            post.executions.dom().contains(id) && post.executions[id] == pre.executions[id]
                && post.used_hashes.contains(hash)
        }),
        ({
            let post = place_bet_spec(
                pre, bal, ctx, bettor, token_address, amount, match_id, bet_type, odds,
            ).0;
            post.executions.dom().contains(id) && post.executions[id] == pre.executions[id]
                && post.used_hashes.contains(hash)
        }),
{
}

/// An unexecuted spin id stays unexecuted through every entry point except
/// a successful `execute_spin` for exactly that id.
pub proof fn lemma_only_execute_spin_records(
    pre: BettingView,
    ctx: AuthView,
    id: Bytes32,
    signer: Address,
    admin: Address,
    prevent: bool,
    spin_id: Bytes32,
    spin_hash: Bytes32,
    executor: Address,
    bal: Balances,
    bettor: Address,
    token_address: Address,
    amount: i128,
    match_id: Bytes32,
    bet_type: BetOutcome,
    odds: u32,
)
    requires
        !pre.executions.dom().contains(id),
    ensures
        !initialize_spec(pre, signer).0.executions.dom().contains(id),
        !set_prevent_double_betting_spec(pre, ctx, admin, prevent).0.executions.dom().contains(id),
        execute_spin_spec(pre, ctx, spin_id, spin_hash, executor).0.executions.dom().contains(id)
            <==> (spin_id == id && execute_spin_spec(pre, ctx, spin_id, spin_hash, executor).1
            is Ok),
        !place_bet_spec(
            pre, bal, ctx, bettor, token_address, amount, match_id, bet_type, odds,
        ).0.executions.dom().contains(id),
{
}

/// A non-positive stake is always refused with `InvalidAmount`, and neither
/// the contract state nor any balance moves.
pub proof fn lemma_nonpositive_stake_rejected(
    pre: BettingView,
    bal: Balances,
    ctx: AuthView,
    bettor: Address,
    token_address: Address,
    amount: i128,
    match_id: Bytes32,
    bet_type: BetOutcome,
    odds: u32,
)
    requires
        ctx.callers.contains(bettor),
        amount <= 0,
    ensures
        place_bet_spec(pre, bal, ctx, bettor, token_address, amount, match_id, bet_type, odds)
            == (pre, bal, Err::<(), ContractError>(ContractError::InvalidAmount)),
{
}

/// With double-betting prevention on, a second bet on the same
/// (match, bettor) key is refused with `BetAlreadyPlaced` and nothing
/// changes — whatever token, stake or odds it offers.
pub proof fn lemma_double_bet_rejected(
    pre: BettingView,
    bal: Balances,
    ctx1: AuthView,
    ctx2: AuthView,
    bettor: Address,
    token1: Address,
    token2: Address,
    amount1: i128,
    amount2: i128,
    match_id: Bytes32,
    type1: BetOutcome,
    type2: BetOutcome,
    odds1: u32,
    odds2: u32,
)
    requires
        pre.prevent_double_betting,
        place_bet_spec(pre, bal, ctx1, bettor, token1, amount1, match_id, type1, odds1).2 is Ok,
        ctx2.callers.contains(bettor),
        amount2 > 0,
    ensures
        ({
            let mid = place_bet_spec(pre, bal, ctx1, bettor, token1, amount1, match_id, type1,
                odds1).0;
            let mid_bal = place_bet_spec(pre, bal, ctx1, bettor, token1, amount1, match_id, type1,
                odds1).1;
            place_bet_spec(mid, mid_bal, ctx2, bettor, token2, amount2, match_id, type2, odds2)
                == (mid, mid_bal, Err::<(), ContractError>(ContractError::BetAlreadyPlaced))
        }),
{
}

/// With double-betting prevention off, a second bet on the same key is
/// accepted whenever it is funded, and it overwrites the first.
pub proof fn lemma_double_bet_allowed(
    pre: BettingView,
    bal: Balances,
    ctx1: AuthView,
    ctx2: AuthView,
    bettor: Address,
    token1: Address,
    token2: Address,
    amount1: i128,
    amount2: i128,
    match_id: Bytes32,
    type1: BetOutcome,
    type2: BetOutcome,
    odds1: u32,
    odds2: u32,
)
    requires
        !pre.prevent_double_betting,
        place_bet_spec(pre, bal, ctx1, bettor, token1, amount1, match_id, type1, odds1).2 is Ok,
        ctx2.callers.contains(bettor),
        amount2 > 0,
        ({
            let mid = place_bet_spec(pre, bal, ctx1, bettor, token1, amount1, match_id, type1,
                odds1).0;
            let mid_bal = place_bet_spec(pre, bal, ctx1, bettor, token1, amount1, match_id, type1,
                odds1).1;
            transfer_spec(mid_bal, token2, bettor, mid.contract_address, amount2).1 is Ok
        }),
    ensures
        ({
            let mid = place_bet_spec(pre, bal, ctx1, bettor, token1, amount1, match_id, type1,
                odds1).0;
            let mid_bal = place_bet_spec(pre, bal, ctx1, bettor, token1, amount1, match_id, type1,
                odds1).1;
            let second = place_bet_spec(mid, mid_bal, ctx2, bettor, token2, amount2, match_id,
                type2, odds2);
            second.2 is Ok && second.0.bets[(match_id, bettor)].amount == amount2
        }),
{
}

/// Changing the double-betting policy is the backend signer's privilege: a
/// configured contract refuses any other admin with `Unauthorized`, flag and
/// ledgers untouched.
pub proof fn lemma_policy_change_requires_signer(
    pre: BettingView,
    ctx: AuthView,
    admin: Address,
    prevent: bool,
)
    requires
        pre.backend_signer is Some,
        pre.backend_signer != Some(admin),
    ensures
        set_prevent_double_betting_spec(pre, ctx, admin, prevent) == (
            pre,
            Err::<(), ContractError>(ContractError::Unauthorized),
        ),
{
}

/// Escrow moves the full stake, nothing more and nothing less: a successful
/// bet debits the bettor by exactly the stake, credits contract custody by
/// exactly the stake, and records a bet carrying exactly that amount.
pub proof fn lemma_escrow_moves_full_stake(
    pre: BettingView,
    bal: Balances,
    ctx: AuthView,
    bettor: Address,
    token_address: Address,
    amount: i128,
    match_id: Bytes32,
    bet_type: BetOutcome,
    odds: u32,
)
    requires
        bettor != pre.contract_address,
        place_bet_spec(pre, bal, ctx, bettor, token_address, amount, match_id, bet_type, odds).2
            is Ok,
    ensures
        ({
            let post = place_bet_spec(pre, bal, ctx, bettor, token_address, amount, match_id,
                bet_type, odds);
            post.1[(token_address, bettor)] == bal[(token_address, bettor)] - amount
                && post.1[(token_address, pre.contract_address)]
                == bal[(token_address, pre.contract_address)] + amount
                && post.0.bets[(match_id, bettor)].amount == amount
        }),
{
}

} // verus!
