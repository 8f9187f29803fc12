//! Player-card registry: a small non-fungible token module, independent of
//! the settlement core.
//!
//! The registry tracks, per card id, an owner, a metadata URI and an
//! optional approved operator.  Ids are handed out sequentially starting at
//! one.  As in the settlement core, the host's authorization capability is
//! consumed through a [`CallContext`], and each entry point is specified
//! against a transition function on [`CardRegistryView`].

use vstd::prelude::*;
use crate::auth::AuthView;
use crate::auth::CallContext;
use crate::ids::Address;

verus! {

/// Everything a registry entry point can refuse with.
#[derive(Clone, Copy, Debug, PartialEq, Eq, Structural)]
pub enum Error {
    /// The registry already has an admin configured.
    AlreadyInitialized,
    /// No admin is configured yet.
    NotInitialized,
    /// The call was not authorized by the configured admin.
    NotAdmin,
    /// The call was not authorized by the card's owner, or names a sender
    /// that does not own the card.
    NotTokenOwner,
    /// No card recorded under the requested id.
    TokenNotFound,
    /// Burning is permanently disabled.
    BurnDisabled,
    /// The recipient is not acceptable.
    InvalidRecipient,
}

/// Receipt of a minted card; the metadata URI is readable via `token_uri`.
#[derive(Clone, Copy, Debug, PartialEq, Eq, Structural)]
pub struct Minted {
    pub token_id: u64,
    pub to: Address,
}

/// Receipt of a transferred card.
#[derive(Clone, Copy, Debug, PartialEq, Eq, Structural)]
pub struct Transferred {
    pub token_id: u64,
    pub from: Address,
    pub to: Address,
}

/// Receipt of the one-time initialization.
#[derive(Clone, Copy, Debug, PartialEq, Eq, Structural)]
pub struct Initialized {
    pub admin: Address,
}

/// One entry of the registry's event log.
#[derive(Clone, Copy, Debug, PartialEq, Eq, Structural)]
pub enum CardEvent {
    Minted(Minted),
    Transferred(Transferred),
    Initialized(Initialized),
}

/// Mathematical model of the registry state.
#[verifier::ext_equal]
pub struct CardRegistryView {
    /// The admin, once configured; only the admin mints.
    pub admin: Option<Address>,
    /// The id the next minted card will get.
    pub next_token_id: u64,
    /// Owner of every minted card.
    pub owners: Map<u64, Address>,
    /// Approved operator of every minted card, if any.
    pub approvals: Map<u64, Option<Address>>,
    /// Metadata URI of every minted card.
    pub uris: Map<u64, Seq<u8>>,
    /// The append-only event log.
    pub events: Seq<CardEvent>,
}

/// The state of a freshly deployed registry.
pub open spec fn card_initial_view() -> CardRegistryView {
    CardRegistryView {
        admin: None,
        next_token_id: 1,
        owners: Map::empty(),
        approvals: Map::empty(),
        uris: Map::empty(),
        events: Seq::empty(),
    }
}

/// What `initialize` does: configures the admin exactly once and restarts
/// the id sequence at one; a second call is refused and changes nothing.
pub open spec fn card_initialize_spec(pre: CardRegistryView, admin: Address) -> (
    CardRegistryView,
    Result<(), Error>,
) {
    if pre.admin is Some {
        (pre, Err(Error::AlreadyInitialized))
    } else {
        (
            CardRegistryView {
                admin: Some(admin),
                next_token_id: 1,
                events: pre.events.push(CardEvent::Initialized(Initialized { admin })),
                ..pre
            },
            Ok(()),
        )
    }
}

/// What `mint` does: only the configured admin, with its own caller
/// authorization, mints; the new card gets the next id, the given owner and
/// URI, and no approved operator.
pub open spec fn card_mint_spec(
    pre: CardRegistryView,
    ctx: AuthView,
    to: Address,
    token_uri: Seq<u8>,
) -> (CardRegistryView, Result<u64, Error>) {
    if pre.admin is None {
        (pre, Err(Error::NotInitialized))
    } else if !ctx.callers.contains(pre.admin->0) {
        (pre, Err(Error::NotAdmin))
    } else {
        let id = pre.next_token_id;
        (
            CardRegistryView {
                next_token_id: (id + 1) as u64,
                owners: pre.owners.insert(id, to),
                approvals: pre.approvals.insert(id, None),
                uris: pre.uris.insert(id, token_uri),
                events: pre.events.push(CardEvent::Minted(Minted { token_id: id, to })),
                ..pre
            },
            Ok(id),
        )
    }
}

/// What `transfer` does: the sender must have authorized the call and own
/// the card; the approved operator, if any, is kept.
pub open spec fn card_transfer_spec(
    pre: CardRegistryView,
    ctx: AuthView,
    from: Address,
    to: Address,
    token_id: u64,
) -> (CardRegistryView, Result<(), Error>) {
    if !ctx.callers.contains(from) {
        (pre, Err(Error::NotTokenOwner))
    } else if !pre.owners.dom().contains(token_id) {
        (pre, Err(Error::TokenNotFound))
    } else if pre.owners[token_id] != from {
        (pre, Err(Error::NotTokenOwner))
    } else {
        (
            CardRegistryView {
                owners: pre.owners.insert(token_id, to),
                events: pre.events.push(
                    CardEvent::Transferred(Transferred { token_id, from, to }),
                ),
                ..pre
            },
            Ok(()),
        )
    }
}

/// What `approve` does: only the card's owner, with its own caller
/// authorization, designates an approved operator.
pub open spec fn card_approve_spec(
    pre: CardRegistryView,
    ctx: AuthView,
    approved: Address,
    token_id: u64,
) -> (CardRegistryView, Result<(), Error>) {
    if !pre.owners.dom().contains(token_id) {
        (pre, Err(Error::TokenNotFound))
    } else if !ctx.callers.contains(pre.owners[token_id]) {
        (pre, Err(Error::NotTokenOwner))
    } else {
        (
            CardRegistryView { approvals: pre.approvals.insert(token_id, Some(approved)), ..pre },
            Ok(()),
        )
    }
}

/// One recorded card: its owner and approved operator.
#[derive(Clone, Copy, Debug)]
struct CardSlot {
    token_id: u64,
    owner: Address,
    approved: Option<Address>,
}

/// One recorded metadata URI; written at mint, never changed.
#[derive(Clone, Debug)]
struct UriEntry {
    token_id: u64,
    uri: Vec<u8>,
}

spec fn has_slot(s: Seq<CardSlot>, id: u64) -> bool {
    exists|i: int| 0 <= i < s.len() && s[i].token_id == id
}

spec fn slot_in(s: Seq<CardSlot>, id: u64) -> CardSlot {
    s[choose|i: int| 0 <= i < s.len() && s[i].token_id == id]
}

spec fn unique_slots(s: Seq<CardSlot>) -> bool {
    forall|i: int, j: int|
        0 <= i < s.len() && 0 <= j < s.len() && #[trigger] s[i].token_id == #[trigger] s[j].token_id
            ==> i == j
}

spec fn owners_map(s: Seq<CardSlot>) -> Map<u64, Address> {
    Map::new(|id: u64| has_slot(s, id), |id: u64| slot_in(s, id).owner)
}

spec fn approvals_map(s: Seq<CardSlot>) -> Map<u64, Option<Address>> {
    Map::new(|id: u64| has_slot(s, id), |id: u64| slot_in(s, id).approved)
}

spec fn has_uri(s: Seq<UriEntry>, id: u64) -> bool {
    exists|i: int| 0 <= i < s.len() && s[i].token_id == id
}

spec fn uri_in(s: Seq<UriEntry>, id: u64) -> Seq<u8> {
    s[choose|i: int| 0 <= i < s.len() && s[i].token_id == id].uri@
}

spec fn unique_uris(s: Seq<UriEntry>) -> bool {
    forall|i: int, j: int|
        0 <= i < s.len() && 0 <= j < s.len() && #[trigger] s[i].token_id == #[trigger] s[j].token_id
            ==> i == j
}

spec fn uris_map(s: Seq<UriEntry>) -> Map<u64, Seq<u8>> {
    Map::new(|id: u64| has_uri(s, id), |id: u64| uri_in(s, id))
}

/// The ids a given owner holds, in recording order.
spec fn owned_ids(s: Seq<CardSlot>, owner: Address) -> Seq<u64>
    decreases s.len(),
{
    if s.len() == 0 {
        Seq::empty()
    } else {
        let prefix = owned_ids(s.drop_last(), owner);
        if s.last().owner == owner {
            prefix.push(s.last().token_id)
        } else {
            prefix
        }
    }
}

/// Under unique ids, the slot read at an id is the one entry carrying it.
proof fn lemma_slot_at(s: Seq<CardSlot>, i: int)
    requires
        unique_slots(s),
        0 <= i < s.len(),
    ensures
        has_slot(s, s[i].token_id),
        slot_in(s, s[i].token_id) == s[i],
{
    let id = s[i].token_id;
    assert(has_slot(s, id));
    let j = choose|j: int| 0 <= j < s.len() && s[j].token_id == id;
    assert(j == i);
}

/// Under unique ids, the URI read at an id is the one entry carrying it.
proof fn lemma_uri_at(s: Seq<UriEntry>, i: int)
    requires
        unique_uris(s),
        0 <= i < s.len(),
    ensures
        has_uri(s, s[i].token_id),
        uri_in(s, s[i].token_id) == s[i].uri@,
{
    let id = s[i].token_id;
    assert(has_uri(s, id));
    let j = choose|j: int| 0 <= j < s.len() && s[j].token_id == id;
    assert(j == i);
}

/// Appending a slot with a fresh id inserts its owner and approval into the
/// respective maps and keeps the ids unique.
proof fn lemma_slots_push(s: Seq<CardSlot>, e: CardSlot)
    requires
        unique_slots(s),
        !has_slot(s, e.token_id),
    ensures
        unique_slots(s.push(e)),
        owners_map(s.push(e)) =~= owners_map(s).insert(e.token_id, e.owner),
        approvals_map(s.push(e)) =~= approvals_map(s).insert(e.token_id, e.approved),
{
    let post = s.push(e);
    let n = s.len() as int;
    assert forall|a: int, b: int|
        0 <= a < post.len() && 0 <= b < post.len() && #[trigger] post[a].token_id
            == #[trigger] post[b].token_id implies a == b by {
        if a < n && b < n {
            assert(s[a].token_id == s[b].token_id);
        } else if a < n && b == n {
            assert(has_slot(s, e.token_id));
        } else if a == n && b < n {
            assert(has_slot(s, e.token_id));
        }
    }
    assert forall|id: u64| #[trigger] has_slot(post, id) == (has_slot(s, id) || id == e.token_id)
        by {
        if has_slot(s, id) {
            let i = choose|i: int| 0 <= i < s.len() && s[i].token_id == id;
            assert(post[i].token_id == id);
            assert(has_slot(post, id));
        }
        if id == e.token_id {
            assert(post[n].token_id == id);
            assert(has_slot(post, id));
        }
        if has_slot(post, id) {
            let i = choose|i: int| 0 <= i < post.len() && post[i].token_id == id;
            if i < n {
                assert(s[i].token_id == id);
                assert(has_slot(s, id));
            }
        }
    }
    assert forall|id: u64| has_slot(post, id) implies #[trigger] slot_in(post, id)
        == (if id == e.token_id {
        e
    } else {
        slot_in(s, id)
    }) by {
        if id == e.token_id {
            lemma_slot_at(post, n);
        } else {
            let i = choose|i: int| 0 <= i < s.len() && s[i].token_id == id;
            assert(post[i] == s[i]);
            lemma_slot_at(s, i);
            lemma_slot_at(post, i);
        }
    }
}

/// Overwriting the slot that carries an id updates the owner and approval
/// maps at that id and keeps the ids unique.
proof fn lemma_slots_update(s: Seq<CardSlot>, i: int, e: CardSlot)
    requires
        unique_slots(s),
        0 <= i < s.len(),
        s[i].token_id == e.token_id,
    ensures
        unique_slots(s.update(i, e)),
        owners_map(s.update(i, e)) =~= owners_map(s).insert(e.token_id, e.owner),
        approvals_map(s.update(i, e)) =~= approvals_map(s).insert(e.token_id, e.approved),
{
    let post = s.update(i, e);
    assert forall|a: int, b: int|
        0 <= a < post.len() && 0 <= b < post.len() && #[trigger] post[a].token_id
            == #[trigger] post[b].token_id implies a == b by {
        assert(s[a].token_id == post[a].token_id);
        assert(s[b].token_id == post[b].token_id);
    }
    assert forall|id: u64| #[trigger] has_slot(post, id) == (has_slot(s, id) || id == e.token_id)
        by {
        if has_slot(s, id) {
            let j = choose|j: int| 0 <= j < s.len() && s[j].token_id == id;
            assert(post[j].token_id == id);
            assert(has_slot(post, id));
        }
        if id == e.token_id {
            assert(post[i].token_id == id);
            assert(has_slot(post, id));
        }
        if has_slot(post, id) {
            let j = choose|j: int| 0 <= j < post.len() && post[j].token_id == id;
            if j != i {
                assert(s[j].token_id == id);
                assert(has_slot(s, id));
            }
        }
    }
    assert forall|id: u64| has_slot(post, id) implies #[trigger] slot_in(post, id)
        == (if id == e.token_id {
        e
    } else {
        slot_in(s, id)
    }) by {
        if id == e.token_id {
            lemma_slot_at(post, i);
        } else {
            let j = choose|j: int| 0 <= j < s.len() && s[j].token_id == id;
            assert(j != i);
            assert(post[j] == s[j]);
            lemma_slot_at(s, j);
            lemma_slot_at(post, j);
        }
    }
}

/// Appending a URI entry with a fresh id inserts it into the URI map and
/// keeps the ids unique.
proof fn lemma_uris_push(s: Seq<UriEntry>, e: UriEntry)
    requires
        unique_uris(s),
        !has_uri(s, e.token_id),
    ensures
        unique_uris(s.push(e)),
        uris_map(s.push(e)) =~= uris_map(s).insert(e.token_id, e.uri@),
{
    let post = s.push(e);
    let n = s.len() as int;
    assert forall|a: int, b: int|
        0 <= a < post.len() && 0 <= b < post.len() && #[trigger] post[a].token_id
            == #[trigger] post[b].token_id implies a == b by {
        if a < n && b < n {
            assert(s[a].token_id == s[b].token_id);
        } else if a < n && b == n {
            assert(has_uri(s, e.token_id));
        } else if a == n && b < n {
            assert(has_uri(s, e.token_id));
        }
    }
    assert forall|id: u64| #[trigger] has_uri(post, id) == (has_uri(s, id) || id == e.token_id)
        by {
        if has_uri(s, id) {
            let i = choose|i: int| 0 <= i < s.len() && s[i].token_id == id;
            assert(post[i].token_id == id);
            assert(has_uri(post, id));
        }
        if id == e.token_id {
            assert(post[n].token_id == id);
            assert(has_uri(post, id));
        }
        if has_uri(post, id) {
            let i = choose|i: int| 0 <= i < post.len() && post[i].token_id == id;
            if i < n {
                assert(s[i].token_id == id);
                assert(has_uri(s, id));
            }
        }
    }
    assert forall|id: u64| has_uri(post, id) implies #[trigger] uri_in(post, id)
        == (if id == e.token_id {
        e.uri@
    } else {
        uri_in(s, id)
    }) by {
        if id == e.token_id {
            lemma_uri_at(post, n);
        } else {
            let i = choose|i: int| 0 <= i < s.len() && s[i].token_id == id;
            assert(post[i] == s[i]);
            lemma_uri_at(s, i);
            lemma_uri_at(post, i);
        }
    }
}

/// `owned_ids` lists exactly the ids the owner holds, each once.
proof fn lemma_owned_ids_props(s: Seq<CardSlot>, owner: Address)
    requires
        unique_slots(s),
    ensures
        forall|id: u64| #[trigger] owned_ids(s, owner).contains(id)
            <==> (has_slot(s, id) && slot_in(s, id).owner == owner),
        owned_ids(s, owner).no_duplicates(),
    decreases s.len(),
{
    broadcast use vstd::seq_lib::lemma_seq_contains_after_push;

    if s.len() == 0 {
        assert(forall|id: u64| !owned_ids(s, owner).contains(id));
        assert(forall|id: u64| !has_slot(s, id));
    } else {
        let prefix = s.drop_last();
        let last = s.last();
        let m = prefix.len() as int;
        assert(forall|j: int| 0 <= j < m ==> prefix[j] == s[j]);
        assert(unique_slots(prefix));
        lemma_owned_ids_props(prefix, owner);
        assert forall|id: u64| #[trigger] has_slot(s, id)
            == (has_slot(prefix, id) || id == last.token_id) by {
            if has_slot(prefix, id) {
                let i = choose|i: int| 0 <= i < prefix.len() && prefix[i].token_id == id;
                assert(s[i].token_id == id);
                assert(has_slot(s, id));
            }
            if id == last.token_id {
                assert(s[m].token_id == id);
                assert(has_slot(s, id));
            }
            if has_slot(s, id) {
                let i = choose|i: int| 0 <= i < s.len() && s[i].token_id == id;
                if i < m {
                    assert(prefix[i].token_id == id);
                    assert(has_slot(prefix, id));
                }
            }
        }
        assert(!has_slot(prefix, last.token_id)) by {
            if has_slot(prefix, last.token_id) {
                let i = choose|i: int| 0 <= i < prefix.len() && prefix[i].token_id
                    == last.token_id;
                assert(s[i].token_id == s[m].token_id);
            }
        }
        assert forall|id: u64| has_slot(s, id) implies #[trigger] slot_in(s, id)
            == (if id == last.token_id {
            last
        } else {
            slot_in(prefix, id)
        }) by {
            if id == last.token_id {
                lemma_slot_at(s, m);
            } else {
                let i = choose|i: int| 0 <= i < prefix.len() && prefix[i].token_id == id;
                lemma_slot_at(prefix, i);
                lemma_slot_at(s, i);
            }
        }
        let own_prefix = owned_ids(prefix, owner);
        if last.owner == owner {
            assert(owned_ids(s, owner) == own_prefix.push(last.token_id));
            assert(!own_prefix.contains(last.token_id));
            assert forall|a: int, b: int|
                0 <= a < b < owned_ids(s, owner).len() implies owned_ids(s, owner)[a]
                    != owned_ids(s, owner)[b] by {
                if b < own_prefix.len() {
                    assert(own_prefix[a] != own_prefix[b]);
                } else {
                    assert(owned_ids(s, owner)[b] == last.token_id);
                    assert(own_prefix[a] == owned_ids(s, owner)[a]);
                    assert(own_prefix.contains(own_prefix[a]));
                }
            }
        } else {
            assert(owned_ids(s, owner) == own_prefix);
        }
    }
}

/// The player-card registry's state.
pub struct PlayerCardContract {
    admin: Option<Address>,
    next_token_id: u64,
    slots: Vec<CardSlot>,
    uris: Vec<UriEntry>,
    events: Vec<CardEvent>,
}

impl View for PlayerCardContract {
    type V = CardRegistryView;

    closed spec fn view(&self) -> CardRegistryView {
        CardRegistryView {
            admin: self.admin,
            next_token_id: self.next_token_id,
            owners: owners_map(self.slots@),
            approvals: approvals_map(self.slots@),
            uris: uris_map(self.uris@),
            events: self.events@,
        }
    }
}

impl PlayerCardContract {
    /// Ids are unique, start at one and stay below the next id to be
    /// handed out.
    pub closed spec fn wf(self) -> bool {
        &&& self.next_token_id >= 1
        &&& unique_slots(self.slots@)
        &&& unique_uris(self.uris@)
        &&& forall|i: int| 0 <= i < self.slots@.len()
            ==> 1 <= #[trigger] self.slots@[i].token_id < self.next_token_id
        &&& forall|i: int| 0 <= i < self.uris@.len()
            ==> 1 <= #[trigger] self.uris@[i].token_id < self.next_token_id
        &&& self.admin is None ==> self.slots@.len() == 0 && self.uris@.len() == 0
            && self.next_token_id == 1
    }

    /// A freshly deployed registry.
    pub fn new() -> (r: PlayerCardContract)
        ensures
            r.wf(),
            r@ == card_initial_view(),
    {
        let r = PlayerCardContract {
            admin: None,
            next_token_id: 1,
            slots: Vec::new(),
            uris: Vec::new(),
            events: Vec::new(),
        };
        proof {
            assert(r@.owners =~= Map::<u64, Address>::empty());
            assert(r@.approvals =~= Map::<u64, Option<Address>>::empty());
            assert(r@.uris =~= Map::<u64, Seq<u8>>::empty());
            assert(r@ =~= card_initial_view());
        }
        r
    }

    /// Configure the admin; refused once one is configured.
    pub fn initialize(&mut self, admin: Address) -> (r: Result<(), Error>)
        requires
            old(self).wf(),
        ensures
            final(self).wf(),
            final(self)@ == card_initialize_spec(old(self)@, admin).0,
            r == card_initialize_spec(old(self)@, admin).1,
    {
        if self.admin.is_some() {
            return Err(Error::AlreadyInitialized);
        }
        self.admin = Some(admin);
        self.next_token_id = 1;
        self.events.push(CardEvent::Initialized(Initialized { admin }));
        proof {
            assert(final(self)@ =~= card_initialize_spec(old(self)@, admin).0);
        }
        Ok(())
    }

    /// The configured admin, if any.
    pub fn admin(&self) -> (r: Option<Address>)
        ensures
            r == self@.admin,
    {
        self.admin
    }

    fn find_slot(&self, token_id: u64) -> (r: Option<usize>)
        ensures
            match r {
                Some(i) => i < self.slots@.len() && self.slots@[i as int].token_id == token_id,
                None => !has_slot(self.slots@, token_id),
            },
    {
        let n: usize = self.slots.len();
        let mut i: usize = 0;
        while i < n
            invariant
                i <= n,
                n == self.slots@.len(),
                forall|j: int| 0 <= j < i ==> #[trigger] self.slots@[j].token_id != token_id,
            decreases n - i,
        {
            if self.slots[i].token_id == token_id {
                return Some(i);
            }
            i = i + 1;
        }
        None
    }

    fn find_uri(&self, token_id: u64) -> (r: Option<usize>)
        ensures
            match r {
                Some(i) => i < self.uris@.len() && self.uris@[i as int].token_id == token_id,
                None => !has_uri(self.uris@, token_id),
            },
    {
        let n: usize = self.uris.len();
        let mut i: usize = 0;
        while i < n
            invariant
                i <= n,
                n == self.uris@.len(),
                forall|j: int| 0 <= j < i ==> #[trigger] self.uris@[j].token_id != token_id,
            decreases n - i,
        {
            if self.uris[i].token_id == token_id {
                return Some(i);
            }
            i = i + 1;
        }
        None
    }

    /// Mint a new card to `to`, exactly as [`card_mint_spec`] says, and
    /// return its id.
    pub fn mint(&mut self, ctx: &CallContext, to: Address, token_uri: Vec<u8>) -> (r: Result<
        u64,
        Error,
    >)
        requires
            old(self).wf(),
            old(self)@.next_token_id < u64::MAX,
        ensures
            final(self).wf(),
            final(self)@ == card_mint_spec(old(self)@, ctx@, to, token_uri@).0,
            r == card_mint_spec(old(self)@, ctx@, to, token_uri@).1,
    {
        let admin = match self.admin {
            None => {
                return Err(Error::NotInitialized);
            },
            Some(a) => a,
        };
        if let Err(_) = ctx.require_caller_auth(admin) {
            return Err(Error::NotAdmin);
        }
        let token_id = self.next_token_id;
        let ghost pre_slots = self.slots@;
        let ghost pre_uris = self.uris@;
        let slot = CardSlot { token_id, owner: to, approved: None };
        proof {
            assert(!has_slot(pre_slots, token_id));
            assert(!has_uri(pre_uris, token_id));
            lemma_slots_push(pre_slots, slot);
        }
        self.slots.push(slot);
        let ghost uri_view = token_uri@;
        let entry = UriEntry { token_id, uri: token_uri };
        proof {
            lemma_uris_push(pre_uris, entry);
        }
        self.uris.push(entry);
        self.next_token_id = token_id + 1;
        self.events.push(CardEvent::Minted(Minted { token_id, to }));
        proof {
            assert(final(self)@ =~= card_mint_spec(old(self)@, ctx@, to, uri_view).0);
        }
        Ok(token_id)
    }

    /// Transfer a card, exactly as [`card_transfer_spec`] says.
    pub fn transfer(&mut self, ctx: &CallContext, from: Address, to: Address, token_id: u64) -> (r:
        Result<(), Error>)
        requires
            old(self).wf(),
        ensures
            final(self).wf(),
            final(self)@ == card_transfer_spec(old(self)@, ctx@, from, to, token_id).0,
            r == card_transfer_spec(old(self)@, ctx@, from, to, token_id).1,
    {
        if let Err(_) = ctx.require_caller_auth(from) {
            return Err(Error::NotTokenOwner);
        }
        let i = match self.find_slot(token_id) {
            None => {
                return Err(Error::TokenNotFound);
            },
            Some(i) => i,
        };
        let slot = self.slots[i];
        proof {
            lemma_slot_at(self.slots@, i as int);
        }
        if slot.owner != from {
            return Err(Error::NotTokenOwner);
        }
        let new_slot = CardSlot { token_id, owner: to, approved: slot.approved };
        proof {
            lemma_slots_update(self.slots@, i as int, new_slot);
        }
        self.slots.set(i, new_slot);
        self.events.push(CardEvent::Transferred(Transferred { token_id, from, to }));
        proof {
            assert(final(self)@.approvals
                =~= card_transfer_spec(old(self)@, ctx@, from, to, token_id).0.approvals);
            assert(final(self)@ =~= card_transfer_spec(old(self)@, ctx@, from, to, token_id).0);
        }
        Ok(())
    }

    /// The owner of a card, or `TokenNotFound`.
    pub fn owner_of(&self, token_id: u64) -> (r: Result<Address, Error>)
        requires
            self.wf(),
        ensures
            r == (if self@.owners.dom().contains(token_id) {
                Ok::<Address, Error>(self@.owners[token_id])
            } else {
                Err::<Address, Error>(Error::TokenNotFound)
            }),
    {
        match self.find_slot(token_id) {
            Some(i) => {
                let slot = self.slots[i];
                proof {
                    lemma_slot_at(self.slots@, i as int);
                }
                Ok(slot.owner)
            },
            None => Err(Error::TokenNotFound),
        }
    }

    /// The metadata URI of a card, or `TokenNotFound`.
    pub fn token_uri(&self, token_id: u64) -> (r: Result<Vec<u8>, Error>)
        requires
            self.wf(),
        ensures
            self@.uris.dom().contains(token_id) ==> (r matches Ok(u)
                && u@ == self@.uris[token_id]),
            !self@.uris.dom().contains(token_id) ==> r == Err::<Vec<u8>, Error>(
                Error::TokenNotFound,
            ),
    {
        match self.find_uri(token_id) {
            Some(i) => {
                proof {
                    lemma_uri_at(self.uris@, i as int);
                }
                Ok(copy_bytes(&self.uris[i].uri))
            },
            None => Err(Error::TokenNotFound),
        }
    }

    /// How many cards were ever minted.
    pub fn total_supply(&self) -> (r: u64)
        requires
            self.wf(),
        ensures
            r == self@.next_token_id - 1,
    {
        self.next_token_id - 1
    }

    /// The ids `owner` currently holds: each exactly once, order
    /// unspecified.
    pub fn tokens_of_owner(&self, owner: Address) -> (r: Vec<u64>)
        requires
            self.wf(),
        ensures
            forall|id: u64| #[trigger] r@.contains(id)
                <==> (self@.owners.dom().contains(id) && self@.owners[id] == owner),
            r@.no_duplicates(),
    {
        let mut result: Vec<u64> = Vec::new();
        let n: usize = self.slots.len();
        let mut i: usize = 0;
        while i < n
            invariant
                i <= n,
                n == self.slots@.len(),
                result@ == owned_ids(self.slots@.subrange(0, i as int), owner),
            decreases n - i,
        {
            let slot = self.slots[i];
            proof {
                assert(self.slots@.subrange(0, i as int + 1).drop_last()
                    =~= self.slots@.subrange(0, i as int));
                assert(self.slots@.subrange(0, i as int + 1).last() == self.slots@[i as int]);
            }
            if slot.owner == owner {
                result.push(slot.token_id);
            }
            i = i + 1;
        }
        proof {
            assert(self.slots@.subrange(0, n as int) =~= self.slots@);
            lemma_owned_ids_props(self.slots@, owner);
        }
        result
    }

    /// The event log, oldest first.
    pub fn events(&self) -> (r: &Vec<CardEvent>)
        ensures
            r@ == self@.events,
    {
        &self.events
    }
}

/// Byte-for-byte copy of a URI.
fn copy_bytes(v: &Vec<u8>) -> (r: Vec<u8>)
    ensures
        r@ == v@,
{
    let mut r: Vec<u8> = Vec::new();
    let n: usize = v.len();
    let mut i: usize = 0;
    while i < n
        invariant
            i <= n,
            n == v@.len(),
            r@ == v@.subrange(0, i as int),
        decreases n - i,
    {
        r.push(v[i]);
        proof {
            assert(v@.subrange(0, i as int + 1)
                =~= v@.subrange(0, i as int).push(v@[i as int]));
        }
        i = i + 1;
    }
    proof {
        assert(v@.subrange(0, n as int) =~= v@);
    }
    r
}

/// Token-facing operations on the registry.
pub struct PlayerCardToken;

impl PlayerCardToken {
    /// Burning is permanently disabled: every call is refused.
    pub fn burn(_registry: &PlayerCardContract, _from: Address, _token_id: u64) -> (r: Result<
        (),
        Error,
    >)
        ensures
            r == Err::<(), Error>(Error::BurnDisabled),
    {
        Err(Error::BurnDisabled)
    }

    /// Designate an approved operator, exactly as [`card_approve_spec`]
    /// says.
    pub fn approve(
        registry: &mut PlayerCardContract,
        ctx: &CallContext,
        approved: Address,
        token_id: u64,
    ) -> (r: Result<(), Error>)
        requires
            old(registry).wf(),
        ensures
            final(registry).wf(),
            final(registry)@ == card_approve_spec(old(registry)@, ctx@, approved, token_id).0,
            r == card_approve_spec(old(registry)@, ctx@, approved, token_id).1,
    {
        let i = match registry.find_slot(token_id) {
            None => {
                return Err(Error::TokenNotFound);
            },
            Some(i) => i,
        };
        let slot = registry.slots[i];
        proof {
            lemma_slot_at(registry.slots@, i as int);
        }
        if let Err(_) = ctx.require_caller_auth(slot.owner) {
            return Err(Error::NotTokenOwner);
        }
        let new_slot = CardSlot { token_id, owner: slot.owner, approved: Some(approved) };
        proof {
            lemma_slots_update(registry.slots@, i as int, new_slot);
        }
        registry.slots.set(i, new_slot);
        proof {
            assert(final(registry)@.owners
                =~= card_approve_spec(old(registry)@, ctx@, approved, token_id).0.owners);
            assert(final(registry)@
                =~= card_approve_spec(old(registry)@, ctx@, approved, token_id).0);
        }
        Ok(())
    }

    /// The approved operator of a card, if any; `None` for a card that was
    /// never minted.
    pub fn get_approved(registry: &PlayerCardContract, token_id: u64) -> (r: Option<Address>)
        requires
            registry.wf(),
        ensures
            r == (if registry@.approvals.dom().contains(token_id) {
                registry@.approvals[token_id]
            } else {
                None::<Address>
            }),
    {
        match registry.find_slot(token_id) {
            Some(i) => {
                let slot = registry.slots[i];
                proof {
                    lemma_slot_at(registry.slots@, i as int);
                }
                slot.approved
            },
            None => None,
        }
    }

    /// Whether `spender` may move an existing card: it owns it or is its
    /// approved operator.
    pub fn is_approved_or_owner(
        registry: &PlayerCardContract,
        spender: Address,
        token_id: u64,
    ) -> (r: bool)
        requires
            registry.wf(),
            registry@.owners.dom().contains(token_id),
        ensures
            r == (registry@.owners[token_id] == spender || registry@.approvals[token_id]
                == Some(spender)),
    {
        let owner = match registry.owner_of(token_id) {
            Ok(o) => o,
            Err(_) => {
                return false;
            },
        };
        if spender == owner {
            return true;
        }
        match Self::get_approved(registry, token_id) {
            Some(approved) => spender == approved,
            None => false,
        }
    }
}

} // verus!
