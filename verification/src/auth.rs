//! Authorization gate.
//!
//! The host environment decides *who* authorized the current call; this
//! module only decides what those attestations permit.  Two independent
//! paths exist and are never conflated:
//!
//! - caller authorization: the host attests that an identity authorized the
//!   current invocation (a capability check, `callers` below);
//! - backend authorization: the host's signature primitive verified an
//!   ed25519 signature by the backend signer over the canonical message
//!   binding a spin id, a spin hash and an executor (`signed` below).
//!
//! The second path carries a pre-signed, relayed authorization: the backend
//! signs off-chain, the executor submits the call.  A caller builds the
//! context once per invocation from what the host attested and hands it to
//! every entry point of that invocation.

use vstd::prelude::*;
use crate::errors::ContractError;
use crate::ids::Address;
use crate::ids::Bytes32;

verus! {

/// A backend-signed authorization for one exact spin execution.
///
/// The signed message binds all three parameters, so an authorization for
/// one (spin id, spin hash, executor) triple says nothing about any other.
#[derive(Clone, Copy, Debug, PartialEq, Eq, Structural)]
pub struct SpinAuthorization {
    pub signer: Address,
    pub spin_id: Bytes32,
    pub spin_hash: Bytes32,
    pub executor: Address,
}

/// What the host attested for the current invocation.
pub struct CallContext {
    /// Current ledger time.
    pub timestamp: u64,
    /// Identities that authorized the current call.
    pub authorized: Vec<Address>,
    /// Backend signatures the host's signature primitive verified.
    pub backend_signed: Vec<SpinAuthorization>,
}

/// Mathematical model of a call context.
pub struct AuthView {
    pub timestamp: u64,
    pub callers: Set<Address>,
    pub signed: Set<SpinAuthorization>,
}

impl View for CallContext {
    type V = AuthView;

    open spec fn view(&self) -> AuthView {
        AuthView {
            timestamp: self.timestamp,
            callers: Set::new(|a: Address| self.authorized@.contains(a)),
            signed: Set::new(|s: SpinAuthorization| self.backend_signed@.contains(s)),
        }
    }
}

impl CallContext {
    /// A context attesting nothing, at the given ledger time.
    pub fn new(timestamp: u64) -> (r: CallContext)
        ensures
            r@.timestamp == timestamp,
            r@.callers == Set::<Address>::empty(),
            r@.signed == Set::<SpinAuthorization>::empty(),
    {
        let r = CallContext { timestamp, authorized: Vec::new(), backend_signed: Vec::new() };
        proof {
            assert(r@.callers =~= Set::<Address>::empty());
            assert(r@.signed =~= Set::<SpinAuthorization>::empty());
        }
        r
    }

    /// Fails with `Unauthorized` unless the host attested that `identity`
    /// authorized the current call.
    pub fn require_caller_auth(&self, identity: Address) -> (r: Result<(), ContractError>)
        ensures
            r == (if self@.callers.contains(identity) {
                Ok::<(), ContractError>(())
            } else {
                Err::<(), ContractError>(ContractError::Unauthorized)
            }),
    {
        let n: usize = self.authorized.len();
        let mut i: usize = 0;
        while i < n
            invariant
                i <= n,
                n == self.authorized@.len(),
                forall|j: int| 0 <= j < i ==> self.authorized@[j] != identity,
            decreases n - i,
        {
            if self.authorized[i] == identity {
                return Ok(());
            }
            i = i + 1;
        }
        Err(ContractError::Unauthorized)
    }

    /// Fails with `Unauthorized` unless the host verified a signature by
    /// `signer` over the canonical message binding exactly this spin id,
    /// spin hash and executor.
    pub fn require_backend_authorization(
        &self,
        signer: Address,
        spin_id: Bytes32,
        spin_hash: Bytes32,
        executor: Address,
    ) -> (r: Result<(), ContractError>)
        ensures
            r == (if self@.signed.contains(
                SpinAuthorization { signer, spin_id, spin_hash, executor },
            ) {
                Ok::<(), ContractError>(())
            } else {
                Err::<(), ContractError>(ContractError::Unauthorized)
            }),
    {
        let target = SpinAuthorization { signer, spin_id, spin_hash, executor };
        let n: usize = self.backend_signed.len();
        let mut i: usize = 0;
        while i < n
            invariant
                i <= n,
                n == self.backend_signed@.len(),
                target == (SpinAuthorization { signer, spin_id, spin_hash, executor }),
                forall|j: int| 0 <= j < i ==> self.backend_signed@[j] != target,
            decreases n - i,
        {
            if self.backend_signed[i] == target {
                proof {
                    assert(self.backend_signed@.contains(target));
                }
                return Ok(());
            }
            i = i + 1;
        }
        Err(ContractError::Unauthorized)
    }
}

} // verus!
