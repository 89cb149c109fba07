use escrow_market::amount::Amount;
use escrow_market::identity::{Holder, Identity};
use escrow_market::keys::get_id;
use escrow_market::ledger::{sum_of, Bank};
use escrow_market::market::{Market, OfferKey};
use escrow_market::table::{Entry, Table};

const A: Identity = Identity::Account([2; 32]);
const MARKET: Identity = Identity::Contract([9; 32]);

fn coins(n: u64) -> Amount {
    Amount::from_u64(n)
}

#[test]
fn table_with_a_repeated_key_is_unsound() {
    let mut table: Table<String, u8> = Table::new();
    assert!(table.is_sound());
    table.put("a".to_string(), 1);
    table.put("b".to_string(), 2);
    table.put("c".to_string(), 3);
    assert!(table.is_sound());
    table.entries.push(Entry { key: "b".to_string(), value: 4 });
    assert!(!table.is_sound());
}

#[test]
fn sum_of_a_table_of_amounts() {
    let mut table: Table<String, Amount> = Table::new();
    assert_eq!(sum_of(&table), Some(coins(0)));
    table.put("a".to_string(), coins(50));
    table.put("b".to_string(), coins(70));
    assert_eq!(sum_of(&table), Some(coins(120)));
    table.put("c".to_string(), Amount::from_words([u64::MAX; 8]));
    assert_eq!(sum_of(&table), None);
}

#[test]
fn bank_is_sound_while_supply_is_the_sum() {
    let mut bank = Bank::new();
    assert!(bank.is_sound());
    assert!(bank.mint(Holder::Purse(1), coins(5)));
    assert!(bank.mint(Holder::Escrow, coins(6)));
    assert!(bank.is_sound());
    bank.supply = coins(12);
    assert!(!bank.is_sound());
    bank.supply = coins(10);
    assert!(!bank.is_sound());
    bank.supply = coins(11);
    assert!(bank.is_sound());
}

#[test]
fn market_is_sound_after_its_operations() {
    let collection = "c".to_string();
    let x = "1".to_string();
    let mut market = Market::new(MARKET);
    assert!(market.is_sound());
    assert!(market.deposit(Holder::Purse(1), coins(50)));
    market.make_offer(&A, &collection, &x, 1).unwrap();
    assert!(market.is_sound());
    market.withdraw_offer(&A, &collection, &x).unwrap();
    assert!(market.is_sound());
}

#[test]
fn market_with_offers_beyond_escrow_is_unsound() {
    let mut market = Market::new(MARKET);
    let name = OfferKey { asset: get_id(&"c".to_string(), &"1".to_string()), bidder: A };
    market.offers.put(name, coins(1));
    assert!(!market.is_sound());
    assert!(market.deposit(Holder::Escrow, coins(1)));
    assert!(market.is_sound());
}
