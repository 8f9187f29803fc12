//! The settlement and escrow core.
//!
//! [`BettingContract`] owns the contract's durable state: the configured
//! backend signer, the double-betting policy flag, the recorded spin
//! executions, the consumed spin hashes, the live bets and the event log.
//! Each entry point runs as one atomic step: it either refuses the call and
//! leaves every ledger untouched, or commits all of its effects.
//!
//! Every entry point is specified against a transition function on
//! [`BettingView`], the mathematical model of the state, so the exact result
//! and the exact next state are pinned down for every input.

use vstd::prelude::*;
use crate::auth::AuthView;
use crate::auth::CallContext;
use crate::auth::SpinAuthorization;
use crate::enums::BetOutcome;
use crate::errors::ContractError;
use crate::events::BetPlacedEvent;
use crate::events::ContractEvent;
use crate::events::SpinExecutedEvent;
use crate::ids::Address;
use crate::ids::Bytes32;
use crate::token::Balances;
use crate::token::TokenLedger;
use crate::token::transfer_spec;

verus! {

/// Record of one executed spin; created at most once per spin id and never
/// changed or removed afterwards.
#[derive(Clone, Copy, Debug, PartialEq, Eq, Structural)]
pub struct SpinExecution {
    pub spin_id: Bytes32,
    pub executor: Address,
    pub timestamp: u64,
}

/// One live bet, keyed by (match id, bettor).
#[derive(Clone, Copy, Debug, PartialEq, Eq, Structural)]
pub struct Bet {
    pub bettor: Address,
    pub amount: i128,
    pub match_id: Bytes32,
    pub bet_type: BetOutcome,
    pub odds: u32,
    pub timestamp: u64,
}

/// Mathematical model of the contract state.
#[verifier::ext_equal]
pub struct BettingView {
    /// The custody account escrowed stake is moved into.
    pub contract_address: Address,
    /// The backend signer, once configured.
    pub backend_signer: Option<Address>,
    /// Whether a second bet on the same (match, bettor) key is refused.
    pub prevent_double_betting: bool,
    /// Every recorded execution, keyed by spin id.
    pub executions: Map<Bytes32, SpinExecution>,
    /// Every spin hash ever consumed.
    pub used_hashes: Set<Bytes32>,
    /// Every live bet, keyed by (match id, bettor).
    pub bets: Map<(Bytes32, Address), Bet>,
    /// The append-only event log.
    pub events: Seq<ContractEvent>,
}

/// The state of a freshly deployed contract: nothing configured, nothing
/// recorded.
pub open spec fn initial_view(contract_address: Address) -> BettingView {
    BettingView {
        contract_address,
        backend_signer: None,
        prevent_double_betting: false,
        executions: Map::empty(),
        used_hashes: Set::empty(),
        bets: Map::empty(),
        events: Seq::empty(),
    }
}

/// What `initialize` does: configures the backend signer exactly once;
/// a second call is refused and changes nothing.
pub open spec fn initialize_spec(pre: BettingView, backend_signer: Address) -> (
    BettingView,
    Result<(), ContractError>,
) {
    if pre.backend_signer is Some {
        (pre, Err(ContractError::AlreadyInitialized))
    } else {
        (BettingView { backend_signer: Some(backend_signer), ..pre }, Ok(()))
    }
}

/// What `set_prevent_double_betting` does: only the configured backend
/// signer, calling with its own authorization, may flip the policy flag.
pub open spec fn set_prevent_double_betting_spec(
    pre: BettingView,
    ctx: AuthView,
    admin: Address,
    prevent: bool,
) -> (BettingView, Result<(), ContractError>) {
    if pre.backend_signer is None {
        (pre, Err(ContractError::Unauthorized))
    } else if !ctx.callers.contains(admin) {
        (pre, Err(ContractError::Unauthorized))
    } else if pre.backend_signer != Some(admin) {
        (pre, Err(ContractError::Unauthorized))
    } else {
        (BettingView { prevent_double_betting: prevent, ..pre }, Ok(()))
    }
}

/// What `execute_spin` does.
///
/// The call is refused unless the executor authorized it, a backend signer
/// is configured, and the backend signed this exact (spin id, spin hash,
/// executor) triple; it is refused with `SpinAlreadyExecuted` if the spin
/// hash was ever consumed or the spin id already has a recorded execution.
/// All checks precede every effect: a successful call records the execution,
/// consumes the hash and appends the receipt event, all at once.
pub open spec fn execute_spin_spec(
    pre: BettingView,
    ctx: AuthView,
    spin_id: Bytes32,
    spin_hash: Bytes32,
    executor: Address,
) -> (BettingView, Result<(), ContractError>) {
    if !ctx.callers.contains(executor) {
        (pre, Err(ContractError::Unauthorized))
    } else if pre.backend_signer is None {
        (pre, Err(ContractError::Unauthorized))
    } else if pre.used_hashes.contains(spin_hash) {
        (pre, Err(ContractError::SpinAlreadyExecuted))
    } else if pre.executions.dom().contains(spin_id) {
        (pre, Err(ContractError::SpinAlreadyExecuted))
    } else if !ctx.signed.contains(
        SpinAuthorization { signer: pre.backend_signer->0, spin_id, spin_hash, executor },
    ) {
        (pre, Err(ContractError::Unauthorized))
    } else {
        let record = SpinExecution { spin_id, executor, timestamp: ctx.timestamp };
        let receipt = SpinExecutedEvent { spin_id, executor, timestamp: ctx.timestamp };
        (
            BettingView {
                executions: pre.executions.insert(spin_id, record),
                used_hashes: pre.used_hashes.insert(spin_hash),
                events: pre.events.push(ContractEvent::SpinExecuted(receipt)),
                ..pre
            },
            Ok(()),
        )
    }
}

/// What `place_bet` does.
///
/// The call is refused unless the bettor authorized it; a non-positive stake
/// is refused with `InvalidAmount`; with prevention on, a second bet on the
/// same (match, bettor) key is refused with `BetAlreadyPlaced`.  Otherwise
/// the stake moves from the bettor into contract custody; if the token
/// ledger refuses the transfer nothing changes and the call fails with
/// `TransferFailed`, else the bet is recorded (with prevention off, a new
/// bet on the same key overwrites the old one) and the receipt event is
/// appended.
pub open spec fn place_bet_spec(
    pre: BettingView,
    bal: Balances,
    ctx: AuthView,
    bettor: Address,
    token_address: Address,
    amount: i128,
    match_id: Bytes32,
    bet_type: BetOutcome,
    odds: u32,
) -> (BettingView, Balances, Result<(), ContractError>) {
    if !ctx.callers.contains(bettor) {
        (pre, bal, Err(ContractError::Unauthorized))
    } else if amount <= 0 {
        (pre, bal, Err(ContractError::InvalidAmount))
    } else if pre.prevent_double_betting && pre.bets.dom().contains((match_id, bettor)) {
        (pre, bal, Err(ContractError::BetAlreadyPlaced))
    } else {
        let moved = transfer_spec(bal, token_address, bettor, pre.contract_address, amount);
        if moved.1 is Err {
            (pre, bal, Err(ContractError::TransferFailed))
        } else {
            let bet = Bet { bettor, amount, match_id, bet_type, odds, timestamp: ctx.timestamp };
            let receipt = BetPlacedEvent { bettor, match_id, amount };
            (
                BettingView {
                    bets: pre.bets.insert((match_id, bettor), bet),
                    events: pre.events.push(ContractEvent::BetPlaced(receipt)),
                    ..pre
                },
                moved.0,
                Ok(()),
            )
        }
    }
}

spec fn has_execution(s: Seq<SpinExecution>, spin_id: Bytes32) -> bool {
    exists|i: int| 0 <= i < s.len() && s[i].spin_id == spin_id
}

spec fn execution_in(s: Seq<SpinExecution>, spin_id: Bytes32) -> SpinExecution {
    s[choose|i: int| 0 <= i < s.len() && s[i].spin_id == spin_id]
}

spec fn unique_executions(s: Seq<SpinExecution>) -> bool {
    forall|i: int, j: int|
        0 <= i < s.len() && 0 <= j < s.len() && #[trigger] s[i].spin_id == #[trigger] s[j].spin_id
            ==> i == j
}

spec fn executions_map(s: Seq<SpinExecution>) -> Map<Bytes32, SpinExecution> {
    Map::new(|id: Bytes32| has_execution(s, id), |id: Bytes32| execution_in(s, id))
}

spec fn hashes_set(s: Seq<Bytes32>) -> Set<Bytes32> {
    Set::new(|h: Bytes32| s.contains(h))
}

spec fn has_bet(s: Seq<Bet>, match_id: Bytes32, bettor: Address) -> bool {
    exists|i: int| 0 <= i < s.len() && s[i].match_id == match_id && s[i].bettor == bettor
}

spec fn bet_in(s: Seq<Bet>, match_id: Bytes32, bettor: Address) -> Bet {
    s[choose|i: int| 0 <= i < s.len() && s[i].match_id == match_id && s[i].bettor == bettor]
}

spec fn unique_bets(s: Seq<Bet>) -> bool {
    forall|i: int, j: int|
        0 <= i < s.len() && 0 <= j < s.len() && #[trigger] s[i].match_id == #[trigger] s[j].match_id
            && s[i].bettor == s[j].bettor ==> i == j
}

spec fn bets_map(s: Seq<Bet>) -> Map<(Bytes32, Address), Bet> {
    Map::new(
        |k: (Bytes32, Address)| has_bet(s, k.0, k.1),
        |k: (Bytes32, Address)| bet_in(s, k.0, k.1),
    )
}

/// Under unique spin ids, the record read at an id is the one entry carrying
/// that id.
proof fn lemma_execution_at(s: Seq<SpinExecution>, i: int)
    requires
        unique_executions(s),
        0 <= i < s.len(),
    ensures
        has_execution(s, s[i].spin_id),
        execution_in(s, s[i].spin_id) == s[i],
{
    let id = s[i].spin_id;
    assert(has_execution(s, id));
    let j = choose|j: int| 0 <= j < s.len() && s[j].spin_id == id;
    assert(j == i);
}

/// Appending a record with a fresh spin id inserts it into the execution
/// map and keeps the ids unique.
proof fn lemma_executions_push(s: Seq<SpinExecution>, e: SpinExecution)
    requires
        unique_executions(s),
        !has_execution(s, e.spin_id),
    ensures
        unique_executions(s.push(e)),
        executions_map(s.push(e)) =~= executions_map(s).insert(e.spin_id, e),
{
    let post = s.push(e);
    let n = s.len() as int;
    assert forall|a: int, b: int|
        0 <= a < post.len() && 0 <= b < post.len() && #[trigger] post[a].spin_id
            == #[trigger] post[b].spin_id implies a == b by {
        if a < n && b < n {
            assert(s[a].spin_id == s[b].spin_id);
        } else if a < n && b == n {
            assert(has_execution(s, e.spin_id));
        } else if a == n && b < n {
            assert(has_execution(s, e.spin_id));
        }
    }
    assert forall|id: Bytes32| #[trigger] has_execution(post, id)
        == (has_execution(s, id) || id == e.spin_id) by {
        if has_execution(s, id) {
            let i = choose|i: int| 0 <= i < s.len() && s[i].spin_id == id;
            assert(post[i].spin_id == id);
            assert(has_execution(post, id));
        }
        if id == e.spin_id {
            assert(post[n].spin_id == id);
            assert(has_execution(post, id));
        }
        if has_execution(post, id) {
            let i = choose|i: int| 0 <= i < post.len() && post[i].spin_id == id;
            if i < n {
                assert(s[i].spin_id == id);
                assert(has_execution(s, id));
            }
        }
    }
    assert forall|id: Bytes32| has_execution(post, id)
        implies #[trigger] executions_map(post)[id]
            == executions_map(s).insert(e.spin_id, e)[id] by {
        if id == e.spin_id {
            lemma_execution_at(post, n);
        } else {
            let i = choose|i: int| 0 <= i < s.len() && s[i].spin_id == id;
            assert(post[i] == s[i]);
            lemma_execution_at(s, i);
            lemma_execution_at(post, i);
        }
    }
}

/// Appending a hash inserts it into the set of consumed hashes.
proof fn lemma_hashes_push(s: Seq<Bytes32>, h: Bytes32)
    ensures
        hashes_set(s.push(h)) =~= hashes_set(s).insert(h),
{
    let post = s.push(h);
    let n = s.len() as int;
    assert forall|x: Bytes32| #[trigger] post.contains(x) == (s.contains(x) || x == h) by {
        if s.contains(x) {
            let i = choose|i: int| 0 <= i < s.len() && s[i] == x;
            assert(post[i] == x);
            assert(post.contains(x));
        }
        if x == h {
            assert(post[n] == x);
            assert(post.contains(x));
        }
        if post.contains(x) {
            let i = choose|i: int| 0 <= i < post.len() && post[i] == x;
            if i < n {
                assert(s[i] == x);
                assert(s.contains(x));
            }
        }
    }
}

/// Under unique keys, the bet read at a key is the one entry carrying that
/// key.
proof fn lemma_bet_at(s: Seq<Bet>, i: int)
    requires
        unique_bets(s),
        0 <= i < s.len(),
    ensures
        has_bet(s, s[i].match_id, s[i].bettor),
        bet_in(s, s[i].match_id, s[i].bettor) == s[i],
{
    let m = s[i].match_id;
    let b = s[i].bettor;
    assert(has_bet(s, m, b));
    let j = choose|j: int| 0 <= j < s.len() && s[j].match_id == m && s[j].bettor == b;
    assert(j == i);
}

/// Appending a bet under a fresh key inserts it into the bet map and keeps
/// the keys unique.
proof fn lemma_bets_push(s: Seq<Bet>, e: Bet)
    requires
        unique_bets(s),
        !has_bet(s, e.match_id, e.bettor),
    ensures
        unique_bets(s.push(e)),
        bets_map(s.push(e)) =~= bets_map(s).insert((e.match_id, e.bettor), e),
{
    let post = s.push(e);
    let n = s.len() as int;
    assert forall|a: int, b: int|
        0 <= a < post.len() && 0 <= b < post.len() && #[trigger] post[a].match_id
            == #[trigger] post[b].match_id && post[a].bettor == post[b].bettor
        implies a == b by {
        if a < n && b < n {
            assert(s[a].match_id == s[b].match_id && s[a].bettor == s[b].bettor);
        } else if a < n && b == n {
            assert(has_bet(s, e.match_id, e.bettor));
        } else if a == n && b < n {
            assert(has_bet(s, e.match_id, e.bettor));
        }
    }
    assert forall|k: (Bytes32, Address)| #[trigger] has_bet(post, k.0, k.1)
        == (has_bet(s, k.0, k.1) || k == (e.match_id, e.bettor)) by {
        if has_bet(s, k.0, k.1) {
            let i = choose|i: int| 0 <= i < s.len() && s[i].match_id == k.0 && s[i].bettor == k.1;
            assert(post[i].match_id == k.0 && post[i].bettor == k.1);
            assert(has_bet(post, k.0, k.1));
        }
        if k == (e.match_id, e.bettor) {
            assert(post[n].match_id == k.0 && post[n].bettor == k.1);
            assert(has_bet(post, k.0, k.1));
        }
        if has_bet(post, k.0, k.1) {
            let i = choose|i: int|
                0 <= i < post.len() && post[i].match_id == k.0 && post[i].bettor == k.1;
            if i < n {
                assert(s[i].match_id == k.0 && s[i].bettor == k.1);
                assert(has_bet(s, k.0, k.1));
            }
        }
    }
    assert forall|k: (Bytes32, Address)| has_bet(post, k.0, k.1)
        implies #[trigger] bets_map(post)[k]
            == bets_map(s).insert((e.match_id, e.bettor), e)[k] by {
        if k == (e.match_id, e.bettor) {
            lemma_bet_at(post, n);
        } else {
            let i = choose|i: int| 0 <= i < s.len() && s[i].match_id == k.0 && s[i].bettor == k.1;
            assert(post[i] == s[i]);
            lemma_bet_at(s, i);
            lemma_bet_at(post, i);
        }
    }
}

/// Overwriting the entry that carries a key updates the bet map at that key
/// and keeps the keys unique.
proof fn lemma_bets_update(s: Seq<Bet>, i: int, e: Bet)
    requires
        unique_bets(s),
        0 <= i < s.len(),
        s[i].match_id == e.match_id,
        s[i].bettor == e.bettor,
    ensures
        unique_bets(s.update(i, e)),
        bets_map(s.update(i, e)) =~= bets_map(s).insert((e.match_id, e.bettor), e),
{
    let post = s.update(i, e);
    assert forall|a: int, b: int|
        0 <= a < post.len() && 0 <= b < post.len() && #[trigger] post[a].match_id
            == #[trigger] post[b].match_id && post[a].bettor == post[b].bettor
        implies a == b by {
        assert(s[a].match_id == post[a].match_id && s[a].bettor == post[a].bettor);
        assert(s[b].match_id == post[b].match_id && s[b].bettor == post[b].bettor);
    }
    assert forall|k: (Bytes32, Address)| #[trigger] has_bet(post, k.0, k.1)
        == (has_bet(s, k.0, k.1) || k == (e.match_id, e.bettor)) by {
        if has_bet(s, k.0, k.1) {
            let j = choose|j: int| 0 <= j < s.len() && s[j].match_id == k.0 && s[j].bettor == k.1;
            assert(post[j].match_id == k.0 && post[j].bettor == k.1);
            assert(has_bet(post, k.0, k.1));
        }
        if k == (e.match_id, e.bettor) {
            assert(post[i].match_id == k.0 && post[i].bettor == k.1);
            assert(has_bet(post, k.0, k.1));
        }
        if has_bet(post, k.0, k.1) {
            let j = choose|j: int|
                0 <= j < post.len() && post[j].match_id == k.0 && post[j].bettor == k.1;
            if j != i {
                assert(s[j].match_id == k.0 && s[j].bettor == k.1);
                assert(has_bet(s, k.0, k.1));
            }
        }
    }
    assert forall|k: (Bytes32, Address)| has_bet(post, k.0, k.1)
        implies #[trigger] bets_map(post)[k]
            == bets_map(s).insert((e.match_id, e.bettor), e)[k] by {
        if k == (e.match_id, e.bettor) {
            lemma_bet_at(post, i);
        } else {
            let j = choose|j: int| 0 <= j < s.len() && s[j].match_id == k.0 && s[j].bettor == k.1;
            assert(j != i);
            assert(post[j] == s[j]);
            lemma_bet_at(s, j);
            lemma_bet_at(post, j);
        }
    }
}

/// The betting contract's state.
pub struct BettingContract {
    contract_address: Address,
    backend_signer: Option<Address>,
    prevent_double_betting: bool,
    spin_executions: Vec<SpinExecution>,
    used_spin_hashes: Vec<Bytes32>,
    bets: Vec<Bet>,
    events: Vec<ContractEvent>,
}

impl View for BettingContract {
    type V = BettingView;

    closed spec fn view(&self) -> BettingView {
        BettingView {
            contract_address: self.contract_address,
            backend_signer: self.backend_signer,
            prevent_double_betting: self.prevent_double_betting,
            executions: executions_map(self.spin_executions@),
            used_hashes: hashes_set(self.used_spin_hashes@),
            bets: bets_map(self.bets@),
            events: self.events@,
        }
    }
}

impl BettingContract {
    /// Each spin id and each (match, bettor) key is recorded at most once.
    pub closed spec fn wf(self) -> bool {
        &&& unique_executions(self.spin_executions@)
        &&& unique_bets(self.bets@)
    }

    /// A freshly deployed contract, custody held by `contract_address`.
    pub fn new(contract_address: Address) -> (r: BettingContract)
        ensures
            r.wf(),
            r@ == initial_view(contract_address),
    {
        let r = BettingContract {
            contract_address,
            backend_signer: None,
            prevent_double_betting: false,
            spin_executions: Vec::new(),
            used_spin_hashes: Vec::new(),
            bets: Vec::new(),
            events: Vec::new(),
        };
        proof {
            assert(r@.executions =~= Map::<Bytes32, SpinExecution>::empty());
            assert(r@.used_hashes =~= Set::<Bytes32>::empty());
            assert(r@.bets =~= Map::<(Bytes32, Address), Bet>::empty());
            assert(r@ =~= initial_view(contract_address));
        }
        r
    }

    /// Configure the backend signer; refused once one is configured.
    pub fn initialize(&mut self, backend_signer: Address) -> (r: Result<(), ContractError>)
        requires
            old(self).wf(),
        ensures
            final(self).wf(),
            final(self)@ == initialize_spec(old(self)@, backend_signer).0,
            r == initialize_spec(old(self)@, backend_signer).1,
    {
        if self.backend_signer.is_some() {
            return Err(ContractError::AlreadyInitialized);
        }
        self.backend_signer = Some(backend_signer);
        proof {
            assert(final(self)@ =~= initialize_spec(old(self)@, backend_signer).0);
        }
        Ok(())
    }

    /// The configured backend signer, if any.
    pub fn backend_signer(&self) -> (r: Option<Address>)
        ensures
            r == self@.backend_signer,
    {
        self.backend_signer
    }

    /// Whether double-betting prevention is on.
    pub fn is_double_betting_prevented(&self) -> (r: bool)
        ensures
            r == self@.prevent_double_betting,
    {
        self.prevent_double_betting
    }

    /// Flip the double-betting policy; only the configured backend signer,
    /// with its own caller authorization, may do so.
    pub fn set_prevent_double_betting(
        &mut self,
        ctx: &CallContext,
        admin: Address,
        prevent: bool,
    ) -> (r: Result<(), ContractError>)
        requires
            old(self).wf(),
        ensures
            final(self).wf(),
            final(self)@ == set_prevent_double_betting_spec(old(self)@, ctx@, admin, prevent).0,
            r == set_prevent_double_betting_spec(old(self)@, ctx@, admin, prevent).1,
    {
        let signer = match self.backend_signer {
            None => {
                return Err(ContractError::Unauthorized);
            },
            Some(s) => s,
        };
        if let Err(e) = ctx.require_caller_auth(admin) {
            return Err(e);
        }
        if admin != signer {
            return Err(ContractError::Unauthorized);
        }
        self.prevent_double_betting = prevent;
        proof {
            assert(final(self)@
                =~= set_prevent_double_betting_spec(old(self)@, ctx@, admin, prevent).0);
        }
        Ok(())
    }

    fn find_execution(&self, spin_id: Bytes32) -> (r: Option<usize>)
        ensures
            match r {
                Some(i) => i < self.spin_executions@.len()
                    && self.spin_executions@[i as int].spin_id == spin_id,
                None => !has_execution(self.spin_executions@, spin_id),
            },
    {
        let n: usize = self.spin_executions.len();
        let mut i: usize = 0;
        while i < n
            invariant
                i <= n,
                n == self.spin_executions@.len(),
                forall|j: int| 0 <= j < i ==> #[trigger] self.spin_executions@[j].spin_id != spin_id,
            decreases n - i,
        {
            if self.spin_executions[i].spin_id == spin_id {
                return Some(i);
            }
            i = i + 1;
        }
        None
    }

    fn hash_is_used(&self, spin_hash: Bytes32) -> (r: bool)
        ensures
            r == self.used_spin_hashes@.contains(spin_hash),
    {
        let n: usize = self.used_spin_hashes.len();
        let mut i: usize = 0;
        while i < n
            invariant
                i <= n,
                n == self.used_spin_hashes@.len(),
                forall|j: int| 0 <= j < i ==> self.used_spin_hashes@[j] != spin_hash,
            decreases n - i,
        {
            if self.used_spin_hashes[i] == spin_hash {
                proof {
                    assert(self.used_spin_hashes@.contains(spin_hash));
                }
                return true;
            }
            i = i + 1;
        }
        false
    }

    fn find_bet(&self, match_id: Bytes32, bettor: Address) -> (r: Option<usize>)
        ensures
            match r {
                Some(i) => i < self.bets@.len() && self.bets@[i as int].match_id == match_id
                    && self.bets@[i as int].bettor == bettor,
                None => !has_bet(self.bets@, match_id, bettor),
            },
    {
        let n: usize = self.bets.len();
        let mut i: usize = 0;
        while i < n
            invariant
                i <= n,
                n == self.bets@.len(),
                forall|j: int| 0 <= j < i
                    ==> !(#[trigger] self.bets@[j].match_id == match_id
                        && self.bets@[j].bettor == bettor),
            decreases n - i,
        {
            if self.bets[i].match_id == match_id && self.bets[i].bettor == bettor {
                return Some(i);
            }
            i = i + 1;
        }
        None
    }

    /// Execute a backend-authorized spin, exactly as [`execute_spin_spec`]
    /// says: replay of a consumed spin hash and re-execution of a recorded
    /// spin id are both refused before anything changes.
    pub fn execute_spin(
        &mut self,
        ctx: &CallContext,
        spin_id: Bytes32,
        spin_hash: Bytes32,
        executor: Address,
    ) -> (r: Result<(), ContractError>)
        requires
            old(self).wf(),
        ensures
            final(self).wf(),
            final(self)@ == execute_spin_spec(old(self)@, ctx@, spin_id, spin_hash, executor).0,
            r == execute_spin_spec(old(self)@, ctx@, spin_id, spin_hash, executor).1,
    {
        if let Err(e) = ctx.require_caller_auth(executor) {
            return Err(e);
        }
        let signer = match self.backend_signer {
            None => {
                return Err(ContractError::Unauthorized);
            },
            Some(s) => s,
        };
        if self.hash_is_used(spin_hash) {
            return Err(ContractError::SpinAlreadyExecuted);
        }
        if self.find_execution(spin_id).is_some() {
            return Err(ContractError::SpinAlreadyExecuted);
        }
        if let Err(e) = ctx.require_backend_authorization(signer, spin_id, spin_hash, executor) {
            return Err(e);
        }
        let timestamp = ctx.timestamp;
        let ghost pre_executions = self.spin_executions@;
        let ghost pre_hashes = self.used_spin_hashes@;
        let record = SpinExecution { spin_id, executor, timestamp };
        self.spin_executions.push(record);
        self.used_spin_hashes.push(spin_hash);
        self.events.push(
            ContractEvent::SpinExecuted(SpinExecutedEvent { spin_id, executor, timestamp }),
        );
        proof {
            lemma_executions_push(pre_executions, record);
            lemma_hashes_push(pre_hashes, spin_hash);
            assert(final(self)@
                =~= execute_spin_spec(old(self)@, ctx@, spin_id, spin_hash, executor).0);
        }
        Ok(())
    }

    /// Whether `spin_id` already has a recorded execution.
    pub fn is_spin_executed(&self, spin_id: Bytes32) -> (r: bool)
        ensures
            r == self@.executions.dom().contains(spin_id),
    {
        self.find_execution(spin_id).is_some()
    }

    /// The recorded execution of `spin_id`, or `SpinNotFound`.
    pub fn get_spin_execution(&self, spin_id: Bytes32) -> (r: Result<
        SpinExecution,
        ContractError,
    >)
        requires
            self.wf(),
        ensures
            r == (if self@.executions.dom().contains(spin_id) {
                Ok::<SpinExecution, ContractError>(self@.executions[spin_id])
            } else {
                Err::<SpinExecution, ContractError>(ContractError::SpinNotFound)
            }),
    {
        match self.find_execution(spin_id) {
            Some(i) => {
                let record = self.spin_executions[i];
                proof {
                    lemma_execution_at(self.spin_executions@, i as int);
                }
                Ok(record)
            },
            None => Err(ContractError::SpinNotFound),
        }
    }

    /// Whether `spin_hash` was ever consumed by an execution.
    pub fn is_spin_hash_used(&self, spin_hash: Bytes32) -> (r: bool)
        ensures
            r == self@.used_hashes.contains(spin_hash),
    {
        self.hash_is_used(spin_hash)
    }

    /// Place a bet and escrow the stake, exactly as [`place_bet_spec`]
    /// says: the stake moves into contract custody through the token
    /// ledger, all or nothing.
    pub fn place_bet(
        &mut self,
        ledger: &mut TokenLedger,
        ctx: &CallContext,
        bettor: Address,
        token_address: Address,
        amount: i128,
        match_id: Bytes32,
        bet_type: BetOutcome,
        odds: u32,
    ) -> (r: Result<(), ContractError>)
        requires
            old(self).wf(),
            old(ledger).wf(),
        ensures
            final(self).wf(),
            final(ledger).wf(),
            final(self)@ == place_bet_spec(
                old(self)@, old(ledger)@, ctx@, bettor, token_address, amount, match_id,
                bet_type, odds,
            ).0,
            final(ledger)@ == place_bet_spec(
                old(self)@, old(ledger)@, ctx@, bettor, token_address, amount, match_id,
                bet_type, odds,
            ).1,
            r == place_bet_spec(
                old(self)@, old(ledger)@, ctx@, bettor, token_address, amount, match_id,
                bet_type, odds,
            ).2,
    {
        if let Err(e) = ctx.require_caller_auth(bettor) {
            return Err(e);
        }
        if amount <= 0 {
            return Err(ContractError::InvalidAmount);
        }
        if self.prevent_double_betting {
            if self.find_bet(match_id, bettor).is_some() {
                return Err(ContractError::BetAlreadyPlaced);
            }
        }
        let custody = self.contract_address;
        if let Err(_) = ledger.transfer(token_address, bettor, custody, amount) {
            return Err(ContractError::TransferFailed);
        }
        let timestamp = ctx.timestamp;
        let bet = Bet { bettor, amount, match_id, bet_type, odds, timestamp };
        let ghost pre_bets = self.bets@;
        match self.find_bet(match_id, bettor) {
            Some(i) => {
                proof {
                    lemma_bets_update(pre_bets, i as int, bet);
                }
                self.bets.set(i, bet);
            },
            None => {
                proof {
                    lemma_bets_push(pre_bets, bet);
                }
                self.bets.push(bet);
            },
        }
        self.events.push(ContractEvent::BetPlaced(BetPlacedEvent { bettor, match_id, amount }));
        proof {
            assert(final(self)@ =~= place_bet_spec(
                old(self)@, old(ledger)@, ctx@, bettor, token_address, amount, match_id,
                bet_type, odds,
            ).0);
        }
        Ok(())
    }

    /// The event log, oldest first.
    pub fn events(&self) -> (r: &Vec<ContractEvent>)
        ensures
            r@ == self@.events,
    {
        &self.events
    }
}

} // verus!
