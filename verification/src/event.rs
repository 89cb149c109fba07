//! What the marketplace reports of each operation that it carried out.

use crate::amount::Amount;
use crate::identity::Identity;
use crate::keys::hex_text;
use casper_types::account::AccountHash;
use casper_types::{Key, U512};
use vstd::prelude::*;
use vstd::string::*;

verus! {

/// The report of one operation that was carried out.
#[derive(Clone, Debug, PartialEq, Eq)]
pub enum MarketEvent {
    ListingCreated { seller: Identity, token_contract: String, token_id: String, price: Amount },
    ListingPurchased {
        seller: Identity,
        buyer: Identity,
        token_contract: String,
        token_id: String,
        price: Amount,
    },
    ListingCanceled { token_contract: String, token_id: String },
    OfferCreated { buyer: Identity, token_contract: String, token_id: String, price: Amount },
    OfferWithdraw { buyer: Identity, token_contract: String, token_id: String },
    OfferAccepted {
        seller: Identity,
        buyer: Identity,
        token_contract: String,
        token_id: String,
        price: Amount,
    },
}

/// The number `n` in decimal digits, without leading zeros.
pub open spec fn decimal_text(n: nat) -> Seq<char>
    decreases n,
{
    if n < 10 {
        seq![(48 + n) as char]
    } else {
        decimal_text(n / 10).push((48 + n % 10) as char)
    }
}

/// A party as the ledger writes it: the kind of key, and the address in
/// hexadecimal between brackets.
pub open spec fn identity_text(who: Identity) -> Seq<char> {
    match who {
        Identity::Account(address) => "Key::Account("@ + hex_text(address@) + ")"@,
        Identity::Contract(address) => "Key::Hash("@ + hex_text(address@) + ")"@,
    }
}

/// The fields of the record that reports `event`, each with its name, in the
/// order of the names.
pub open spec fn event_record(event: MarketEvent) -> Seq<(Seq<char>, Seq<char>)> {
    match event {
        MarketEvent::ListingCreated { seller, token_contract, token_id, price } => seq![
            ("event_type"@, "market_listing_created"@),
            ("price"@, decimal_text(price@)),
            ("seller"@, identity_text(seller)),
            ("token_contract"@, token_contract@),
            ("token_id"@, token_id@),
        ],
        MarketEvent::ListingPurchased { seller, buyer, token_contract, token_id, price } => seq![
            ("buyer"@, identity_text(buyer)),
            ("event_type"@, "market_listing_purchased"@),
            ("price"@, decimal_text(price@)),
            ("seller"@, identity_text(seller)),
            ("token_contract"@, token_contract@),
            ("token_id"@, token_id@),
        ],
        MarketEvent::ListingCanceled { token_contract, token_id } => seq![
            ("event_type"@, "market_listing_canceled"@),
            ("token_contract"@, token_contract@),
            ("token_id"@, token_id@),
        ],
        MarketEvent::OfferCreated { buyer, token_contract, token_id, price } => seq![
            ("buyer"@, identity_text(buyer)),
            ("event_type"@, "market_offer_created"@),
            ("price"@, decimal_text(price@)),
            ("token_contract"@, token_contract@),
            ("token_id"@, token_id@),
        ],
        MarketEvent::OfferWithdraw { buyer, token_contract, token_id } => seq![
            ("buyer"@, identity_text(buyer)),
            ("event_type"@, "market_offer_withdraw"@),
            ("token_contract"@, token_contract@),
            ("token_id"@, token_id@),
        ],
        MarketEvent::OfferAccepted { seller, buyer, token_contract, token_id, price } => seq![
            ("buyer"@, identity_text(buyer)),
            ("event_type"@, "market_offer_accepted"@),
            ("price"@, decimal_text(price@)),
            ("seller"@, identity_text(seller)),
            ("token_contract"@, token_contract@),
            ("token_id"@, token_id@),
        ],
    }
}

/// The names and texts that a record holds.
pub open spec fn record_view(record: Seq<(String, String)>) -> Seq<(Seq<char>, Seq<char>)> {
    Seq::new(record.len(), |i: int| (record[i].0@, record[i].1@))
}

/// The `to_string` of casper_types' `U512`: the number in decimal digits,
/// `0` for zero and no leading zeros otherwise.
#[verifier::external_body]
fn u512_to_string(amount: &Amount) -> (text: String)
    ensures
        text@ == decimal_text(amount@),
{
    U512(amount.words).to_string()
}

/// The `to_string` of casper_types' `Key`, for the keys of accounts and of
/// contracts: `Key::Account(` or `Key::Hash(`, the 32 bytes of the address in
/// hexadecimal with lower-case digits, and `)`.
#[verifier::external_body]
fn key_to_string(who: &Identity) -> (text: String)
    ensures
        text@ == identity_text(*who),
{
    let key = match who {
        Identity::Account(address) => Key::Account(AccountHash::new(*address)),
        Identity::Contract(address) => Key::Hash(*address),
    };
    key.to_string()
}

/// Appends the field `name` with the text `text` to `record`.
fn put_field(record: &mut Vec<(String, String)>, name: &str, text: String)
    ensures
        record_view(final(record)@) == record_view(old(record)@).push((name@, text@)),
{
    record.push((String::from_str(name), text));
    assert(record_view(record@) =~= record_view(old(record)@).push((name@, text@)));
}

/// The record that reports `event`: its fields as texts, each with its name.
pub fn emit(event: &MarketEvent) -> (record: Vec<(String, String)>)
    ensures
        record_view(record@) == event_record(*event),
{
    let mut record: Vec<(String, String)> = Vec::new();
    assert(record_view(record@) =~= Seq::empty());
    match event {
        MarketEvent::ListingCreated { seller, token_contract, token_id, price } => {
            put_field(&mut record, "event_type", String::from_str("market_listing_created"));
            put_field(&mut record, "price", u512_to_string(price));
            put_field(&mut record, "seller", key_to_string(seller));
            put_field(&mut record, "token_contract", token_contract.clone());
            put_field(&mut record, "token_id", token_id.clone());
        },
        MarketEvent::ListingPurchased { seller, buyer, token_contract, token_id, price } => {
            put_field(&mut record, "buyer", key_to_string(buyer));
            put_field(&mut record, "event_type", String::from_str("market_listing_purchased"));
            put_field(&mut record, "price", u512_to_string(price));
            put_field(&mut record, "seller", key_to_string(seller));
            put_field(&mut record, "token_contract", token_contract.clone());
            put_field(&mut record, "token_id", token_id.clone());
        },
        MarketEvent::ListingCanceled { token_contract, token_id } => {
            put_field(&mut record, "event_type", String::from_str("market_listing_canceled"));
            put_field(&mut record, "token_contract", token_contract.clone());
            put_field(&mut record, "token_id", token_id.clone());
        },
        MarketEvent::OfferCreated { buyer, token_contract, token_id, price } => {
            put_field(&mut record, "buyer", key_to_string(buyer));
            put_field(&mut record, "event_type", String::from_str("market_offer_created"));
            put_field(&mut record, "price", u512_to_string(price));
            put_field(&mut record, "token_contract", token_contract.clone());
            put_field(&mut record, "token_id", token_id.clone());
        },
        MarketEvent::OfferWithdraw { buyer, token_contract, token_id } => {
            put_field(&mut record, "buyer", key_to_string(buyer));
            put_field(&mut record, "event_type", String::from_str("market_offer_withdraw"));
            put_field(&mut record, "token_contract", token_contract.clone());
            put_field(&mut record, "token_id", token_id.clone());
        },
        MarketEvent::OfferAccepted { seller, buyer, token_contract, token_id, price } => {
            put_field(&mut record, "buyer", key_to_string(buyer));
            put_field(&mut record, "event_type", String::from_str("market_offer_accepted"));
            put_field(&mut record, "price", u512_to_string(price));
            put_field(&mut record, "seller", key_to_string(seller));
            put_field(&mut record, "token_contract", token_contract.clone());
            put_field(&mut record, "token_id", token_id.clone());
        },
    }
    assert(record_view(record@) =~= event_record(*event));
    record
}

} // verus!
