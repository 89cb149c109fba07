use escrow_market::amount::Amount;
use escrow_market::error::Error;
use escrow_market::event::MarketEvent;
use escrow_market::identity::{Holder, Identity};
use escrow_market::keys::get_id;
use escrow_market::market::{EscrowSlot, Listing, Market};

const SELLER: Identity = Identity::Account([1; 32]);
const BUYER: Identity = Identity::Account([2; 32]);
const OTHER: Identity = Identity::Account([3; 32]);
const MARKET: Identity = Identity::Contract([9; 32]);

fn coins(n: u64) -> Amount {
    Amount::from_u64(n)
}

fn collection() -> String {
    "contract-0101010101010101010101010101010101010101010101010101010101010101".to_string()
}

fn x() -> String {
    "1".to_string()
}

/// A market in which the seller owns asset X and has allowed the market to
/// transfer it.
fn market_with_asset() -> Market {
    let mut market = Market::new(MARKET);
    market.register_asset(&collection(), &x(), SELLER);
    assert!(market.approve(&SELLER, MARKET, &collection(), &x()));
    market
}

fn listed_at(price: u64) -> Market {
    let mut market = market_with_asset();
    market.create_listing(&SELLER, &collection(), &x(), coins(price)).unwrap();
    market
}

#[test]
fn new_market_is_empty() {
    let market = Market::new(MARKET);
    assert_eq!(market.package, MARKET);
    assert_eq!(market.escrow, EscrowSlot::Unset);
    assert!(market.listings.entries.is_empty());
    assert!(market.offers.entries.is_empty());
    assert_eq!(market.balance(&Holder::Escrow), coins(0));
    assert_eq!(market.get_token_owner(&collection(), &x()), None);
    assert_eq!(market.get_listing(&get_id(&collection(), &x())), Err(Error::ListingDoesNotExist));
}

#[test]
fn listing_is_created_by_the_approved_owner() {
    let mut market = market_with_asset();
    let event = market.create_listing(&SELLER, &collection(), &x(), coins(100));
    assert_eq!(
        event,
        Ok(MarketEvent::ListingCreated {
            seller: SELLER,
            token_contract: collection(),
            token_id: x(),
            price: coins(100),
        })
    );
    let expected = Listing {
        seller: SELLER,
        token_contract: collection(),
        token_id: x(),
        price: coins(100),
    };
    assert_eq!(market.get_listing(&get_id(&collection(), &x())), Ok(&expected));
    assert_eq!(market.find_price(&collection(), &x()), Ok(coins(100)));
}

#[test]
fn listing_by_another_than_the_owner_is_denied() {
    let mut market = market_with_asset();
    let before = market.clone();
    assert_eq!(
        market.create_listing(&OTHER, &collection(), &x(), coins(100)),
        Err(Error::PermissionDenied)
    );
    assert_eq!(market, before);
    assert_eq!(
        market.create_listing(&SELLER, &collection(), &"2".to_string(), coins(100)),
        Err(Error::PermissionDenied)
    );
    assert_eq!(market, before);
}

#[test]
fn listing_without_permission_to_transfer_is_refused() {
    let mut market = Market::new(MARKET);
    market.register_asset(&collection(), &x(), SELLER);
    let before = market.clone();
    assert_eq!(
        market.create_listing(&SELLER, &collection(), &x(), coins(100)),
        Err(Error::NeedsTransferApproval)
    );
    assert_eq!(market, before);
    assert!(market.approve(&SELLER, OTHER, &collection(), &x()));
    assert!(!market.transfer_approved(&collection(), &x(), &SELLER));
    assert_eq!(
        market.create_listing(&SELLER, &collection(), &x(), coins(100)),
        Err(Error::NeedsTransferApproval)
    );
    assert!(market.approve(&SELLER, MARKET, &collection(), &x()));
    assert!(market.transfer_approved(&collection(), &x(), &SELLER));
    assert!(!market.transfer_approved(&collection(), &x(), &OTHER));
}

#[test]
fn an_asset_has_one_listing_at_a_time() {
    let mut market = listed_at(100);
    market.create_listing(&SELLER, &collection(), &x(), coins(120)).unwrap();
    let key = get_id(&collection(), &x());
    let records = market.listings.entries.iter().filter(|e| e.key == key).count();
    assert_eq!(records, 1);
    assert_eq!(market.find_price(&collection(), &x()), Ok(coins(120)));
    market.cancel_listing(&SELLER, &collection(), &x()).unwrap();
    market.create_listing(&SELLER, &collection(), &x(), coins(90)).unwrap();
    let records = market.listings.entries.iter().filter(|e| e.key == key).count();
    assert_eq!(records, 1);
    let open = market.listings.entries.iter().filter(|e| e.value.is_some()).count();
    assert_eq!(open, 1);
}

#[test]
fn purchase_pays_seller_and_hands_over_the_asset() {
    let mut market = listed_at(100);
    assert!(market.deposit(Holder::Purse(7), coins(150)));
    let event = market.buy_listing(&BUYER, &collection(), &x(), 7);
    assert_eq!(
        event,
        Ok(MarketEvent::ListingPurchased {
            seller: SELLER,
            buyer: BUYER,
            token_contract: collection(),
            token_id: x(),
            price: coins(100),
        })
    );
    assert_eq!(market.balance(&Holder::Account(SELLER)), coins(100));
    assert_eq!(market.balance(&Holder::Purse(7)), coins(50));
    assert_eq!(market.get_token_owner(&collection(), &x()), Some(BUYER));
    assert_eq!(
        market.get_listing(&get_id(&collection(), &x())),
        Err(Error::ListingCanceledOrSold)
    );
    assert_eq!(market.find_price(&collection(), &x()), Err(Error::ListingCanceledOrSold));
    assert_eq!(market.bank.supply, coins(150));
}

#[test]
fn purchase_with_too_little_is_refused() {
    let mut market = listed_at(100);
    assert!(market.deposit(Holder::Purse(7), coins(40)));
    let before = market.clone();
    assert_eq!(
        market.buy_listing(&BUYER, &collection(), &x(), 7),
        Err(Error::BalanceInsufficient)
    );
    assert_eq!(market, before);
    assert_eq!(market.balance(&Holder::Purse(7)), coins(40));
    assert_eq!(market.get_token_owner(&collection(), &x()), Some(SELLER));
}

#[test]
fn purchase_at_exactly_the_price() {
    let mut market = listed_at(100);
    assert!(market.deposit(Holder::Purse(7), coins(100)));
    assert!(market.buy_listing(&BUYER, &collection(), &x(), 7).is_ok());
    assert_eq!(market.balance(&Holder::Purse(7)), coins(0));
    assert_eq!(market.balance(&Holder::Account(SELLER)), coins(100));
}

#[test]
fn purchase_of_what_was_never_listed() {
    let mut market = market_with_asset();
    assert!(market.deposit(Holder::Purse(7), coins(150)));
    let before = market.clone();
    assert_eq!(
        market.buy_listing(&BUYER, &collection(), &x(), 7),
        Err(Error::ListingDoesNotExist)
    );
    assert_eq!(market, before);
    assert_eq!(market.find_price(&collection(), &x()), Err(Error::ListingDoesNotExist));
}

#[test]
fn purchase_of_a_sold_or_canceled_listing() {
    let mut market = listed_at(100);
    assert!(market.deposit(Holder::Purse(7), coins(150)));
    assert!(market.deposit(Holder::Purse(8), coins(150)));
    market.buy_listing(&BUYER, &collection(), &x(), 7).unwrap();
    let before = market.clone();
    assert_eq!(
        market.buy_listing(&OTHER, &collection(), &x(), 8),
        Err(Error::ListingCanceledOrSold)
    );
    assert_eq!(market, before);

    let mut canceled = listed_at(100);
    assert!(canceled.deposit(Holder::Purse(7), coins(150)));
    canceled.cancel_listing(&SELLER, &collection(), &x()).unwrap();
    assert_eq!(
        canceled.buy_listing(&BUYER, &collection(), &x(), 7),
        Err(Error::ListingCanceledOrSold)
    );
}

#[test]
fn purchase_pays_the_owner_at_the_time_of_purchase() {
    let mut market = listed_at(100);
    assert!(market.deposit(Holder::Purse(7), coins(150)));
    // The asset changes hands outside the market; the new owner allows the market.
    market.register_asset(&collection(), &x(), OTHER);
    assert!(market.approve(&OTHER, MARKET, &collection(), &x()));
    let event = market.buy_listing(&BUYER, &collection(), &x(), 7).unwrap();
    assert_eq!(
        event,
        MarketEvent::ListingPurchased {
            seller: OTHER,
            buyer: BUYER,
            token_contract: collection(),
            token_id: x(),
            price: coins(100),
        }
    );
    assert_eq!(market.balance(&Holder::Account(OTHER)), coins(100));
    assert_eq!(market.balance(&Holder::Account(SELLER)), coins(0));
    assert_eq!(market.get_token_owner(&collection(), &x()), Some(BUYER));
}

#[test]
fn purchase_fails_whole_when_the_asset_cannot_be_transferred() {
    let mut market = listed_at(100);
    assert!(market.deposit(Holder::Purse(7), coins(150)));
    // The asset changes hands outside the market; the new owner allows nobody.
    market.register_asset(&collection(), &x(), OTHER);
    let before = market.clone();
    assert_eq!(
        market.buy_listing(&BUYER, &collection(), &x(), 7),
        Err(Error::AssetTransferFailed)
    );
    assert_eq!(market, before);
    assert_eq!(market.balance(&Holder::Purse(7)), coins(150));
}

#[test]
fn cancel_is_for_the_owner_only() {
    let mut market = listed_at(100);
    let before = market.clone();
    assert_eq!(
        market.cancel_listing(&OTHER, &collection(), &x()),
        Err(Error::PermissionDenied)
    );
    assert_eq!(market, before);
    assert_eq!(
        market.cancel_listing(&SELLER, &collection(), &x()),
        Ok(MarketEvent::ListingCanceled { token_contract: collection(), token_id: x() })
    );
    assert_eq!(
        market.get_listing(&get_id(&collection(), &x())),
        Err(Error::ListingCanceledOrSold)
    );
}

#[test]
fn cancel_needs_no_open_listing() {
    let mut market = market_with_asset();
    assert!(market.cancel_listing(&SELLER, &collection(), &x()).is_ok());
    assert!(market.cancel_listing(&SELLER, &collection(), &x()).is_ok());
    assert_eq!(
        market.get_listing(&get_id(&collection(), &x())),
        Err(Error::ListingCanceledOrSold)
    );
    let mut unknown = Market::new(MARKET);
    assert_eq!(
        unknown.cancel_listing(&SELLER, &collection(), &x()),
        Err(Error::PermissionDenied)
    );
}

#[test]
fn forced_cancel_asks_nobody() {
    let mut market = listed_at(100);
    market.force_cancel_listing(&collection(), &x());
    assert_eq!(
        market.get_listing(&get_id(&collection(), &x())),
        Err(Error::ListingCanceledOrSold)
    );
    let mut empty = Market::new(MARKET);
    empty.force_cancel_listing(&collection(), &x());
    assert_eq!(
        empty.get_listing(&get_id(&collection(), &x())),
        Err(Error::ListingCanceledOrSold)
    );
}

#[test]
fn listings_of_different_assets_do_not_touch() {
    let mut market = listed_at(100);
    let y = "2".to_string();
    market.register_asset(&collection(), &y, OTHER);
    assert!(market.approve(&OTHER, MARKET, &collection(), &y));
    market.create_listing(&OTHER, &collection(), &y, coins(5)).unwrap();
    market.cancel_listing(&SELLER, &collection(), &x()).unwrap();
    assert_eq!(market.find_price(&collection(), &y), Ok(coins(5)));
    assert_eq!(market.find_price(&collection(), &x()), Err(Error::ListingCanceledOrSold));
}

#[test]
fn loaded_listing_is_read_back() {
    let mut market = Market::new(MARKET);
    let key = get_id(&collection(), &x());
    let listing = Listing {
        seller: SELLER,
        token_contract: collection(),
        token_id: x(),
        price: coins(100),
    };
    market.load_listing(key.clone(), Some(listing.clone()));
    assert_eq!(market.get_listing(&key), Ok(&listing));
    market.load_listing(key.clone(), None);
    assert_eq!(market.get_listing(&key), Err(Error::ListingCanceledOrSold));
}

#[test]
fn operations_by_key_work_on_the_record_under_that_key() {
    let mut market = Market::new(MARKET);
    let key = "some key".to_string();
    market.registry.assign(key.clone(), SELLER);
    assert!(market.registry.approve(&SELLER, MARKET, key.clone()));
    assert!(market.deposit(Holder::Purse(7), coins(150)));
    assert_eq!(
        market.buy_listing_at(&BUYER, key.clone(), &collection(), &x(), 7),
        Err(Error::ListingDoesNotExist)
    );
    let created = market.create_listing_at(&SELLER, key.clone(), &collection(), &x(), coins(100));
    assert!(created.is_ok());
    assert_eq!(market.get_listing(&key).map(|l| l.price), Ok(coins(100)));
    assert_eq!(market.get_listing(&get_id(&collection(), &x())), Err(Error::ListingDoesNotExist));
    assert_eq!(
        market.cancel_listing_at(&BUYER, key.clone(), &collection(), &x()),
        Err(Error::PermissionDenied)
    );
    let bought = market.buy_listing_at(&BUYER, key.clone(), &collection(), &x(), 7);
    assert!(bought.is_ok());
    assert_eq!(market.registry.owner_of(&key), Some(BUYER));
    assert_eq!(market.get_listing(&key), Err(Error::ListingCanceledOrSold));
    assert!(market.cancel_listing_at(&BUYER, key.clone(), &collection(), &x()).is_ok());
    market.force_cancel_at("another key".to_string());
    assert_eq!(
        market.get_listing(&"another key".to_string()),
        Err(Error::ListingCanceledOrSold)
    );
}

#[test]
fn purchase_of_an_asset_without_owner_fails_whole() {
    let mut market = Market::new(MARKET);
    let key = get_id(&collection(), &x());
    let listing = Listing {
        seller: SELLER,
        token_contract: collection(),
        token_id: x(),
        price: coins(100),
    };
    market.load_listing(key, Some(listing));
    assert!(market.deposit(Holder::Purse(7), coins(150)));
    let before = market.clone();
    assert_eq!(
        market.buy_listing(&BUYER, &collection(), &x(), 7),
        Err(Error::AssetTransferFailed)
    );
    assert_eq!(market, before);
}
