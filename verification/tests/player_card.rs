use betting_core::Address;
use betting_core::CallContext;
use betting_core::CardEvent;
use betting_core::Error;
use betting_core::PlayerCardContract;
use betting_core::PlayerCardToken;

fn caller_ctx(timestamp: u64, caller: Address) -> CallContext {
    CallContext { timestamp, authorized: vec![caller], backend_signed: vec![] }
}

fn registry_with_admin() -> (PlayerCardContract, Address) {
    let mut registry = PlayerCardContract::new();
    let admin = Address::new(1);
    registry.initialize(admin).unwrap();
    (registry, admin)
}

#[test]
fn test_card_initialize_once() {
    let mut registry = PlayerCardContract::new();
    assert_eq!(registry.admin(), None);
    assert_eq!(registry.initialize(Address::new(1)), Ok(()));
    assert_eq!(registry.admin(), Some(Address::new(1)));
    assert_eq!(registry.initialize(Address::new(2)), Err(Error::AlreadyInitialized));
    assert_eq!(registry.admin(), Some(Address::new(1)));
}

#[test]
fn test_card_mint() {
    let (mut registry, admin) = registry_with_admin();
    let ctx = caller_ctx(5, admin);
    let alice = Address::new(10);
    let bob = Address::new(11);

    assert_eq!(registry.total_supply(), 0);
    let id1 = registry.mint(&ctx, alice, b"cards/alice".to_vec()).unwrap();
    let id2 = registry.mint(&ctx, bob, b"cards/bob".to_vec()).unwrap();
    assert_eq!(id1, 1);
    assert_eq!(id2, 2);
    assert_eq!(registry.total_supply(), 2);
    assert_eq!(registry.owner_of(id1), Ok(alice));
    assert_eq!(registry.owner_of(id2), Ok(bob));
    assert_eq!(registry.token_uri(id1), Ok(b"cards/alice".to_vec()));
    assert_eq!(registry.token_uri(id2), Ok(b"cards/bob".to_vec()));
    assert_eq!(registry.owner_of(3), Err(Error::TokenNotFound));
    assert_eq!(registry.token_uri(3), Err(Error::TokenNotFound));

    let events = registry.events();
    assert_eq!(events.len(), 3);
    assert!(matches!(events[1], CardEvent::Minted(m) if m.token_id == 1 && m.to == alice));
}

#[test]
fn test_card_mint_requires_admin() {
    let (mut registry, _) = registry_with_admin();
    let outsider = Address::new(99);
    let result = registry.mint(&caller_ctx(5, outsider), outsider, b"cards/x".to_vec());
    assert_eq!(result, Err(Error::NotAdmin));
    assert_eq!(registry.total_supply(), 0);
}

#[test]
fn test_card_mint_requires_initialization() {
    let mut registry = PlayerCardContract::new();
    let admin = Address::new(1);
    let result = registry.mint(&caller_ctx(5, admin), admin, b"cards/x".to_vec());
    assert_eq!(result, Err(Error::NotInitialized));
}

#[test]
fn test_card_transfer() {
    let (mut registry, admin) = registry_with_admin();
    let alice = Address::new(10);
    let bob = Address::new(11);
    let id = registry.mint(&caller_ctx(5, admin), alice, b"cards/alice".to_vec()).unwrap();

    // the holder moves its card
    assert_eq!(registry.transfer(&caller_ctx(6, alice), alice, bob, id), Ok(()));
    assert_eq!(registry.owner_of(id), Ok(bob));

    // a non-owner cannot move it, even with its own authorization
    assert_eq!(
        registry.transfer(&caller_ctx(7, alice), alice, alice, id),
        Err(Error::NotTokenOwner)
    );
    // the sender must have authorized the call
    assert_eq!(
        registry.transfer(&caller_ctx(7, alice), bob, alice, id),
        Err(Error::NotTokenOwner)
    );
    // a card that was never minted
    assert_eq!(
        registry.transfer(&caller_ctx(7, bob), bob, alice, 77),
        Err(Error::TokenNotFound)
    );
    assert_eq!(registry.owner_of(id), Ok(bob));
}

#[test]
fn test_tokens_of_owner() {
    let (mut registry, admin) = registry_with_admin();
    let ctx = caller_ctx(5, admin);
    let alice = Address::new(10);
    let bob = Address::new(11);
    let id1 = registry.mint(&ctx, alice, b"cards/1".to_vec()).unwrap();
    let id2 = registry.mint(&ctx, bob, b"cards/2".to_vec()).unwrap();
    let id3 = registry.mint(&ctx, alice, b"cards/3".to_vec()).unwrap();

    let mut alices = registry.tokens_of_owner(alice);
    alices.sort();
    assert_eq!(alices, vec![id1, id3]);
    assert_eq!(registry.tokens_of_owner(bob), vec![id2]);
    assert_eq!(registry.tokens_of_owner(Address::new(99)), Vec::<u64>::new());

    // ownership listings follow transfers
    registry.transfer(&caller_ctx(6, alice), alice, bob, id1).unwrap();
    let mut bobs = registry.tokens_of_owner(bob);
    bobs.sort();
    assert_eq!(bobs, vec![id1, id2]);
}

#[test]
fn test_card_approval() {
    let (mut registry, admin) = registry_with_admin();
    let alice = Address::new(10);
    let operator = Address::new(12);
    let id = registry.mint(&caller_ctx(5, admin), alice, b"cards/alice".to_vec()).unwrap();

    assert_eq!(PlayerCardToken::get_approved(&registry, id), None);
    assert!(PlayerCardToken::is_approved_or_owner(&registry, alice, id));
    assert!(!PlayerCardToken::is_approved_or_owner(&registry, operator, id));

    // only the owner approves
    assert_eq!(
        PlayerCardToken::approve(&mut registry, &caller_ctx(6, operator), operator, id),
        Err(Error::NotTokenOwner)
    );
    assert_eq!(
        PlayerCardToken::approve(&mut registry, &caller_ctx(6, alice), operator, id),
        Ok(())
    );
    assert_eq!(PlayerCardToken::get_approved(&registry, id), Some(operator));
    assert!(PlayerCardToken::is_approved_or_owner(&registry, operator, id));

    // approving an unknown card fails
    assert_eq!(
        PlayerCardToken::approve(&mut registry, &caller_ctx(6, alice), operator, 77),
        Err(Error::TokenNotFound)
    );
}

#[test]
fn test_card_burn_disabled() {
    let (mut registry, admin) = registry_with_admin();
    let alice = Address::new(10);
    let id = registry.mint(&caller_ctx(5, admin), alice, b"cards/alice".to_vec()).unwrap();
    assert_eq!(PlayerCardToken::burn(&registry, alice, id), Err(Error::BurnDisabled));
    assert_eq!(registry.owner_of(id), Ok(alice));
}
