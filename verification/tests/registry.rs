use escrow_market::identity::Identity;
use escrow_market::registry::{AssetTransferError, Registry};

fn asset() -> String {
    "asset".to_string()
}

#[test]
fn assets_have_the_owner_they_were_assigned() {
    let alice = Identity::Account([1; 32]);
    let mut registry = Registry::new();
    assert_eq!(registry.owner_of(&asset()), None);
    registry.assign(asset(), alice);
    assert_eq!(registry.owner_of(&asset()), Some(alice));
    assert_eq!(registry.get_approved(&alice, &asset()), None);
    assert_eq!(registry.owner_of(&"other".to_string()), None);
}

#[test]
fn only_the_owner_gives_permission() {
    let alice = Identity::Account([1; 32]);
    let bob = Identity::Account([2; 32]);
    let market = Identity::Contract([9; 32]);
    let mut registry = Registry::new();
    registry.assign(asset(), alice);
    let before = registry.clone();
    assert!(!registry.approve(&bob, market, asset()));
    assert_eq!(registry, before);
    assert!(registry.approve(&alice, market, asset()));
    assert_eq!(registry.get_approved(&alice, &asset()), Some(market));
    assert_eq!(registry.get_approved(&bob, &asset()), None);
}

#[test]
fn transfer_needs_owner_and_permission() {
    let alice = Identity::Account([1; 32]);
    let bob = Identity::Account([2; 32]);
    let market = Identity::Contract([9; 32]);
    let mut registry = Registry::new();
    assert_eq!(
        registry.transfer_from(&market, &alice, bob, asset()),
        Err(AssetTransferError::NotOwner)
    );
    registry.assign(asset(), alice);
    assert_eq!(
        registry.transfer_from(&market, &bob, alice, asset()),
        Err(AssetTransferError::NotOwner)
    );
    assert_eq!(
        registry.transfer_from(&market, &alice, bob, asset()),
        Err(AssetTransferError::NotApproved)
    );
    assert!(registry.approve(&alice, market, asset()));
    assert_eq!(registry.transfer_from(&market, &alice, bob, asset()), Ok(()));
    assert_eq!(registry.owner_of(&asset()), Some(bob));
    assert_eq!(registry.get_approved(&bob, &asset()), None);
    assert_eq!(registry.get_approved(&alice, &asset()), None);
}
