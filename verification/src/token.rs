//! Escrow-side model of the fungible-asset transfer capability.
//!
//! The core moves stake between accounts through exactly one operation,
//! `transfer`, whose behaviour is pinned down by [`transfer_spec`]: a
//! transfer either moves the full amount or changes nothing.  Balances are
//! kept per (token, holder) pair; a missing account holds zero.

use vstd::prelude::*;
use crate::errors::TransferError;
use crate::ids::Address;

verus! {

/// Balance of every (token, holder) pair; accounts never touched hold zero.
pub type Balances = Map<(Address, Address), i128>;

/// The ledger in which no account holds anything.
pub open spec fn zero_balances() -> Balances {
    Map::new(|k: (Address, Address)| true, |k: (Address, Address)| 0i128)
}

/// What one transfer does: the resulting balances and the result handed to
/// the caller.  A refused transfer leaves the balances untouched; an accepted
/// one debits the full amount from the sender and credits it to the
/// recipient.
pub open spec fn transfer_spec(
    bal: Balances,
    token: Address,
    from: Address,
    to: Address,
    amount: i128,
) -> (Balances, Result<(), TransferError>) {
    if amount < 0 {
        (bal, Err(TransferError::NegativeAmount))
    } else if bal[(token, from)] < amount {
        (bal, Err(TransferError::InsufficientBalance))
    } else {
        let debited = bal.insert((token, from), (bal[(token, from)] - amount) as i128);
        if debited[(token, to)] + amount > i128::MAX {
            (bal, Err(TransferError::BalanceOverflow))
        } else {
            (debited.insert((token, to), (debited[(token, to)] + amount) as i128), Ok(()))
        }
    }
}

/// One recorded account.
#[derive(Clone, Copy, Debug, PartialEq, Eq, Structural)]
struct TokenAccount {
    token: Address,
    holder: Address,
    balance: i128,
}

spec fn has_account(s: Seq<TokenAccount>, token: Address, holder: Address) -> bool {
    exists|i: int| 0 <= i < s.len() && s[i].token == token && s[i].holder == holder
}

spec fn balance_in(s: Seq<TokenAccount>, token: Address, holder: Address) -> i128 {
    if has_account(s, token, holder) {
        s[choose|i: int|
            0 <= i < s.len() && s[i].token == token && s[i].holder == holder].balance
    } else {
        0
    }
}

spec fn unique_accounts(s: Seq<TokenAccount>) -> bool {
    forall|i: int, j: int|
        0 <= i < s.len() && 0 <= j < s.len() && #[trigger] s[i].token == #[trigger] s[j].token
            && s[i].holder == s[j].holder ==> i == j
}

/// Under unique keys, the balance read at a key is the balance of the one
/// entry carrying that key.
proof fn lemma_balance_at(s: Seq<TokenAccount>, i: int)
    requires
        unique_accounts(s),
        0 <= i < s.len(),
    ensures
        balance_in(s, s[i].token, s[i].holder) == s[i].balance,
{
    let token = s[i].token;
    let holder = s[i].holder;
    assert(has_account(s, token, holder));
    let j = choose|j: int| 0 <= j < s.len() && s[j].token == token && s[j].holder == holder;
    assert(j == i);
}

/// The token ledger the escrow core draws on.
pub struct TokenLedger {
    accounts: Vec<TokenAccount>,
}

impl View for TokenLedger {
    type V = Balances;

    closed spec fn view(&self) -> Balances {
        Map::new(
            |k: (Address, Address)| true,
            |k: (Address, Address)| balance_in(self.accounts@, k.0, k.1),
        )
    }
}

impl TokenLedger {
    /// Each (token, holder) pair is recorded at most once and never with a
    /// negative balance.
    pub closed spec fn wf(self) -> bool {
        &&& unique_accounts(self.accounts@)
        &&& forall|i: int| 0 <= i < self.accounts@.len() ==> #[trigger] self.accounts@[i].balance >= 0
    }

    /// An empty ledger: every balance is zero.
    pub fn new() -> (r: TokenLedger)
        ensures
            r.wf(),
            r@ == zero_balances(),
    {
        let r = TokenLedger { accounts: Vec::new() };
        proof {
            assert(r@ =~= zero_balances());
        }
        r
    }

    fn find_account(&self, token: Address, holder: Address) -> (r: Option<usize>)
        ensures
            match r {
                Some(i) => i < self.accounts@.len() && self.accounts@[i as int].token == token
                    && self.accounts@[i as int].holder == holder,
                None => !has_account(self.accounts@, token, holder),
            },
    {
        let n: usize = self.accounts.len();
        let mut i: usize = 0;
        while i < n
            invariant
                i <= n,
                n == self.accounts@.len(),
                forall|j: int| 0 <= j < i
                    ==> !(#[trigger] self.accounts@[j].token == token
                        && self.accounts@[j].holder == holder),
            decreases n - i,
        {
            if self.accounts[i].token == token && self.accounts[i].holder == holder {
                return Some(i);
            }
            i = i + 1;
        }
        None
    }

    /// The balance of `holder` in `token`; zero for an account never funded.
    pub fn balance_of(&self, token: Address, holder: Address) -> (r: i128)
        requires
            self.wf(),
        ensures
            r == self@[(token, holder)],
            0 <= r,
    {
        match self.find_account(token, holder) {
            Some(i) => {
                let entry = self.accounts[i];
                proof {
                    lemma_balance_at(self.accounts@, i as int);
                }
                entry.balance
            },
            None => 0,
        }
    }

    /// Overwrite one balance.  This is the funding hook for harnesses and
    /// callers that load host-held balances; the core itself only transfers.
    pub fn set_balance(&mut self, token: Address, holder: Address, amount: i128)
        requires
            old(self).wf(),
            0 <= amount,
        ensures
            final(self).wf(),
            final(self)@ == old(self)@.insert((token, holder), amount),
    {
        let ghost pre = self.accounts@;
        let ghost mut wix: int = 0;
        match self.find_account(token, holder) {
            Some(i) => {
                proof {
                    wix = i as int;
                }
                self.accounts.set(i, TokenAccount { token, holder, balance: amount });
            },
            None => {
                proof {
                    wix = pre.len() as int;
                }
                self.accounts.push(TokenAccount { token, holder, balance: amount });
            },
        }
        proof {
            let post = self.accounts@;
            let entry = TokenAccount { token, holder, balance: amount };
            // In either arm, slot `wix` now carries the new entry and every
            // other slot is carried over from the old ledger.
            assert(0 <= wix < post.len() && post[wix] == entry);
            assert(forall|j: int|
                0 <= j < post.len() && j != wix ==> j < pre.len() && #[trigger] post[j] == pre[j]);
            assert(wix == pre.len() ==> !has_account(pre, token, holder));
            assert(wix < pre.len() ==> pre[wix].token == token && pre[wix].holder == holder);
            assert forall|a: int, b: int|
                0 <= a < post.len() && 0 <= b < post.len() && #[trigger] post[a].token
                    == #[trigger] post[b].token && post[a].holder == post[b].holder
                implies a == b by {
                if a != wix && b != wix {
                    assert(pre[a].token == pre[b].token && pre[a].holder == pre[b].holder);
                } else if a == wix && b != wix {
                    assert(pre[b].token == token && pre[b].holder == holder);
                    if wix == pre.len() {
                        assert(has_account(pre, token, holder));
                    }
                } else if b == wix && a != wix {
                    assert(pre[a].token == token && pre[a].holder == holder);
                    if wix == pre.len() {
                        assert(has_account(pre, token, holder));
                    }
                }
            }
            assert(self.wf());
            assert forall|k: (Address, Address)|
                #[trigger] self@[k] == old(self)@.insert((token, holder), amount)[k] by {
                if k.0 == token && k.1 == holder {
                    assert(post[wix].token == k.0 && post[wix].holder == k.1);
                    assert(has_account(post, k.0, k.1));
                    lemma_balance_at(post, wix);
                } else {
                    if has_account(pre, k.0, k.1) {
                        let i = choose|i: int| 0 <= i < pre.len() && pre[i].token == k.0
                            && pre[i].holder == k.1;
                        assert(i != wix);
                        assert(post[i] == pre[i]);
                        assert(has_account(post, k.0, k.1));
                        lemma_balance_at(pre, i);
                        lemma_balance_at(post, i);
                    } else {
                        assert(!has_account(post, k.0, k.1)) by {
                            if has_account(post, k.0, k.1) {
                                let i = choose|i: int| 0 <= i < post.len() && post[i].token == k.0
                                    && post[i].holder == k.1;
                                assert(i != wix);
                                assert(pre[i] == post[i]);
                                assert(has_account(pre, k.0, k.1));
                            }
                        }
                    }
                }
            }
            assert(self@ =~= old(self)@.insert((token, holder), amount));
        }
    }

    /// Move `amount` of `token` from `from` to `to`, all or nothing, exactly
    /// as [`transfer_spec`] says.
    pub fn transfer(
        &mut self,
        token: Address,
        from: Address,
        to: Address,
        amount: i128,
    ) -> (r: Result<(), TransferError>)
        requires
            old(self).wf(),
        ensures
            final(self).wf(),
            final(self)@ == transfer_spec(old(self)@, token, from, to, amount).0,
            r == transfer_spec(old(self)@, token, from, to, amount).1,
    {
        if amount < 0 {
            return Err(TransferError::NegativeAmount);
        }
        let from_balance = self.balance_of(token, from);
        if from_balance < amount {
            return Err(TransferError::InsufficientBalance);
        }
        let to_balance: i128 = if from == to {
            from_balance - amount
        } else {
            self.balance_of(token, to)
        };
        if amount > i128::MAX - to_balance {
            return Err(TransferError::BalanceOverflow);
        }
        self.set_balance(token, from, from_balance - amount);
        self.set_balance(token, to, to_balance + amount);
        Ok(())
    }
}

} // verus!
