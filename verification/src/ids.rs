//! Plain-value identifiers used throughout the ledger.

use vstd::prelude::*;

verus! {

/// A 32-byte identifier, held as four 64-bit words.
///
/// Spin ids, spin hashes and match ids are all 32-byte values; the words are
/// compared for equality and never interpreted arithmetically.
#[derive(Clone, Copy, Debug, PartialEq, Eq, Structural)]
pub struct Bytes32 {
    pub w0: u64,
    pub w1: u64,
    pub w2: u64,
    pub w3: u64,
}

impl Bytes32 {
    pub fn new(w0: u64, w1: u64, w2: u64, w3: u64) -> (r: Bytes32)
        ensures
            r == (Bytes32 { w0, w1, w2, w3 }),
    {
        Bytes32 { w0, w1, w2, w3 }
    }
}

/// A 256-bit numeric identifier, held as four 64-bit words, least
/// significant first.
///
/// Stake ids, bet ids and card ids in event payloads are 256-bit numbers;
/// the ledger carries them opaquely.
#[derive(Clone, Copy, Debug, PartialEq, Eq, Structural)]
pub struct Uint256 {
    pub w0: u64,
    pub w1: u64,
    pub w2: u64,
    pub w3: u64,
}

impl Uint256 {
    pub fn new(w0: u64, w1: u64, w2: u64, w3: u64) -> (r: Uint256)
        ensures
            r == (Uint256 { w0, w1, w2, w3 }),
    {
        Uint256 { w0, w1, w2, w3 }
    }

    pub fn from_u64(value: u64) -> (r: Uint256)
        ensures
            r == (Uint256 { w0: value, w1: 0, w2: 0, w3: 0 }),
    {
        Uint256 { w0: value, w1: 0, w2: 0, w3: 0 }
    }
}

/// A short interned label, such as a settlement type or a reward type.
///
/// Labels are a bounded interned form rather than free-form text, so wire
/// size and comparison cost stay bounded; the host maps label strings to
/// codes.
#[derive(Clone, Copy, Debug, PartialEq, Eq, Structural)]
pub struct Label {
    pub code: u64,
}

impl Label {
    pub fn new(code: u64) -> (r: Label)
        ensures
            r == (Label { code }),
    {
        Label { code }
    }
}

/// An account identity: a bettor, the backend signer, a token contract or the
/// betting contract itself.
///
/// The host environment identifies accounts opaquely; the ledger only ever
/// compares identities for equality, so a single word suffices here.
#[derive(Clone, Copy, Debug, PartialEq, Eq, Structural)]
pub struct Address {
    pub id: u64,
}

impl Address {
    pub fn new(id: u64) -> (r: Address)
        ensures
            r == (Address { id }),
    {
        Address { id }
    }
}

} // verus!
