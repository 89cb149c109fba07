use escrow_market::amount::Amount;
use escrow_market::identity::{Holder, Identity};
use escrow_market::ledger::{Bank, TransferError};
use escrow_market::table::Table;

fn coins(n: u64) -> Amount {
    Amount::from_u64(n)
}

#[test]
fn new_bank_is_empty() {
    let bank = Bank::new();
    assert_eq!(bank.supply, coins(0));
    assert_eq!(bank.balance_of(&Holder::Escrow), coins(0));
    assert_eq!(bank.balance_of(&Holder::Purse(1)), coins(0));
}

#[test]
fn minting_adds_to_holder_and_supply() {
    let mut bank = Bank::new();
    assert!(bank.mint(Holder::Purse(1), coins(150)));
    assert!(bank.mint(Holder::Purse(1), coins(50)));
    assert!(bank.mint(Holder::Escrow, coins(7)));
    assert_eq!(bank.balance_of(&Holder::Purse(1)), coins(200));
    assert_eq!(bank.balance_of(&Holder::Escrow), coins(7));
    assert_eq!(bank.supply, coins(207));
}

#[test]
fn minting_beyond_the_largest_amount_is_refused() {
    let mut bank = Bank::new();
    assert!(bank.mint(Holder::Purse(1), Amount::from_words([u64::MAX; 8])));
    let before = bank.clone();
    assert!(!bank.mint(Holder::Purse(2), coins(1)));
    assert_eq!(bank, before);
}

#[test]
fn transfer_moves_the_amount() {
    let alice = Holder::Account(Identity::Account([1; 32]));
    let mut bank = Bank::new();
    assert!(bank.mint(Holder::Purse(1), coins(150)));
    assert_eq!(bank.transfer(&Holder::Purse(1), &alice, &coins(100)), Ok(()));
    assert_eq!(bank.balance_of(&Holder::Purse(1)), coins(50));
    assert_eq!(bank.balance_of(&alice), coins(100));
    assert_eq!(bank.supply, coins(150));
}

#[test]
fn transfer_of_more_than_is_there_changes_nothing() {
    let alice = Holder::Account(Identity::Account([1; 32]));
    let mut bank = Bank::new();
    assert!(bank.mint(Holder::Purse(1), coins(40)));
    let before = bank.clone();
    assert_eq!(
        bank.transfer(&Holder::Purse(1), &alice, &coins(100)),
        Err(TransferError::InsufficientFunds)
    );
    assert_eq!(bank, before);
}

#[test]
fn transfer_of_all_and_of_nothing() {
    let mut bank = Bank::new();
    assert!(bank.mint(Holder::Purse(1), coins(40)));
    assert_eq!(bank.transfer(&Holder::Purse(1), &Holder::Escrow, &coins(40)), Ok(()));
    assert_eq!(bank.balance_of(&Holder::Purse(1)), coins(0));
    assert_eq!(bank.balance_of(&Holder::Escrow), coins(40));
    assert_eq!(bank.transfer(&Holder::Purse(9), &Holder::Escrow, &coins(0)), Ok(()));
    assert_eq!(bank.balance_of(&Holder::Escrow), coins(40));
}

#[test]
fn transfer_to_oneself_changes_nothing() {
    let mut bank = Bank::new();
    assert!(bank.mint(Holder::Purse(1), coins(40)));
    let before = bank.clone();
    assert_eq!(bank.transfer(&Holder::Purse(1), &Holder::Purse(1), &coins(30)), Ok(()));
    assert_eq!(bank, before);
    assert_eq!(
        bank.transfer(&Holder::Purse(1), &Holder::Purse(1), &coins(41)),
        Err(TransferError::InsufficientFunds)
    );
}

#[test]
fn table_holds_one_value_for_each_key() {
    let mut table: Table<String, u8> = Table::new();
    assert_eq!(table.find(&"a".to_string()), None);
    table.put("a".to_string(), 1);
    table.put("b".to_string(), 2);
    table.put("a".to_string(), 3);
    assert_eq!(table.entries.len(), 2);
    assert_eq!(table.get(&"a".to_string()), Some(&3));
    assert_eq!(table.get(&"b".to_string()), Some(&2));
    assert_eq!(table.find(&"b".to_string()), Some(1));
    let taken = table.take_at(0);
    assert_eq!(taken.key, "a");
    assert_eq!(taken.value, 3);
    assert_eq!(table.get(&"a".to_string()), None);
    assert_eq!(table.find(&"b".to_string()), Some(0));
    assert_eq!(table.entries.len(), 1);
}
