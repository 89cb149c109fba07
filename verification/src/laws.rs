//! What holds of the marketplace in every state that its operations can
//! reach, and of its operations taken together.

use crate::amount::Amount;
use crate::error::Error;
use crate::event::MarketEvent;
use crate::identity::{Holder, Identity};
use crate::ledger::total;
use crate::market::{book, Market, OfferKey};
use crate::offers::{payee, settled};
use crate::table::{as_map, distinct, lemma_push_entry, occurs, Entry};
use vstd::prelude::*;

verus! {

/// An asset has one listing record at most: two records under the same key
/// are one record.
pub proof fn lemma_one_listing_per_asset(m: Market, i: int, j: int)
    requires
        m.wf(),
        0 <= i < m.listings.entries@.len(),
        0 <= j < m.listings.entries@.len(),
        m.listings.entries@[i].key@ == m.listings.entries@[j].key@,
    ensures
        i == j,
{
}

/// A bidder has one open offer on an asset at most: two offers by the same
/// bidder on the same asset are one offer.
pub proof fn lemma_one_offer_per_bidder(m: Market, i: int, j: int)
    requires
        m.wf(),
        0 <= i < m.offers.entries@.len(),
        0 <= j < m.offers.entries@.len(),
        m.offers.entries@[i].key.asset@ == m.offers.entries@[j].key.asset@,
        m.offers.entries@[i].key.bidder == m.offers.entries@[j].key.bidder,
    ensures
        i == j,
{
    assert(m.offers.entries@[i].key@ == m.offers.entries@[j].key@);
}

/// After an offer was made, a second offer by the same bidder on the same
/// asset is refused with `OfferExists`, whatever purse it brings.
pub proof fn lemma_second_offer_refused(
    m0: Market,
    m1: Market,
    m2: Market,
    bidder: Identity,
    key: Seq<char>,
    token_contract: String,
    token_id: String,
    first_purse: u64,
    second_purse: u64,
    r1: Result<MarketEvent, Error>,
    r2: Result<MarketEvent, Error>,
)
    requires
        Market::make_offer_post(m0, m1, bidder, key, token_contract, token_id, first_purse, r1),
        r1 is Ok,
        Market::make_offer_post(m1, m2, bidder, key, token_contract, token_id, second_purse, r2),
    ensures
        r2 == Err::<MarketEvent, Error>(Error::OfferExists),
        m2 == m1,
{
}

/// After an offer was withdrawn, a second withdrawal by the same bidder on
/// the same asset is refused with `NoMatchingOffer`.
pub proof fn lemma_second_withdrawal_refused(
    m0: Market,
    m1: Market,
    m2: Market,
    bidder: Identity,
    key: Seq<char>,
    token_contract: String,
    token_id: String,
    r1: Result<MarketEvent, Error>,
    r2: Result<MarketEvent, Error>,
)
    requires
        Market::withdraw_offer_post(m0, m1, bidder, key, token_contract, token_id, r1),
        r1 is Ok,
        Market::withdraw_offer_post(m1, m2, bidder, key, token_contract, token_id, r2),
    ensures
        r2 == Err::<MarketEvent, Error>(Error::NoMatchingOffer),
        m2 == m1,
{
}

/// The escrow purse holds at least the sum of all open offers on all assets.
pub proof fn lemma_escrow_covers_offers(m: Market)
    requires
        m.wf(),
    ensures
        m.bank.balance(Holder::Escrow) >= total(m.offers.entries@),
{
}

/// An offer that is made and then withdrawn by the same bidder leaves the
/// offers and the escrow purse as they were, and the bidder with what the
/// bidder had: the amount that left the purse is in the bidder's account.
pub proof fn lemma_offer_round_trip(
    m0: Market,
    m1: Market,
    m2: Market,
    bidder: Identity,
    key: Seq<char>,
    token_contract: String,
    token_id: String,
    purse: u64,
    r1: Result<MarketEvent, Error>,
    r2: Result<MarketEvent, Error>,
)
    requires
        Market::make_offer_post(m0, m1, bidder, key, token_contract, token_id, purse, r1),
        r1 is Ok,
        Market::withdraw_offer_post(m1, m2, bidder, key, token_contract, token_id, r2),
    ensures
        r2 is Ok,
        m2.offers@ == m0.offers@,
        !m2.offers@.contains_key((key, bidder)),
        m2.bank.balance(Holder::Escrow) == m0.bank.balance(Holder::Escrow),
        m2.bank.balance(Holder::Purse(purse)) == 0,
        m2.bank.balance(Holder::Account(bidder)) == m0.bank.balance(Holder::Account(bidder))
            + m0.bank.balance(Holder::Purse(purse)),
        forall|h: Holder|
            h != Holder::Purse(purse) && h != Holder::Account(bidder) ==> #[trigger] m2.bank.balance(
                h,
            ) == m0.bank.balance(h),
        m2.listings == m0.listings,
        m2.registry == m0.registry,
{
    let amount = m0.bank.balance(Holder::Purse(purse));
    assert(m1.bank.balance(Holder::Escrow) == m0.bank.moved(
        Holder::Purse(purse),
        Holder::Escrow,
        amount,
        Holder::Escrow,
    ));
    assert(m1.bank.balance(Holder::Purse(purse)) == m0.bank.moved(
        Holder::Purse(purse),
        Holder::Escrow,
        amount,
        Holder::Purse(purse),
    ));
    assert(m1.bank.balance(Holder::Account(bidder)) == m0.bank.moved(
        Holder::Purse(purse),
        Holder::Escrow,
        amount,
        Holder::Account(bidder),
    ));
    assert(m2.bank.balance(Holder::Escrow) == m1.bank.moved(
        Holder::Escrow,
        Holder::Account(bidder),
        amount,
        Holder::Escrow,
    ));
    assert(m2.bank.balance(Holder::Purse(purse)) == m1.bank.moved(
        Holder::Escrow,
        Holder::Account(bidder),
        amount,
        Holder::Purse(purse),
    ));
    assert(m2.bank.balance(Holder::Account(bidder)) == m1.bank.moved(
        Holder::Escrow,
        Holder::Account(bidder),
        amount,
        Holder::Account(bidder),
    ));
    assert forall|h: Holder|
        h != Holder::Purse(purse) && h != Holder::Account(bidder) implies #[trigger] m2.bank.balance(
        h,
    ) == m0.bank.balance(h) by {
        assert(m1.bank.balance(h) == m0.bank.moved(
            Holder::Purse(purse),
            Holder::Escrow,
            amount,
            h,
        ));
        assert(m2.bank.balance(h) == m1.bank.moved(
            Holder::Escrow,
            Holder::Account(bidder),
            amount,
            h,
        ));
    }
}

/// An acceptance that is refused moves no currency and changes no record of
/// offers, listings or assets: the state after it is the state before it.
pub proof fn lemma_refused_acceptance_changes_nothing(
    pre: Market,
    post: Market,
    caller: Identity,
    key: Seq<char>,
    token_contract: String,
    token_id: String,
    accepted: Identity,
    r: Result<MarketEvent, Error>,
)
    requires
        Market::accept_offer_post(pre, post, caller, key, token_contract, token_id, accepted, r),
        r is Err,
    ensures
        post == pre,
        pre.accept_offer_refusal(caller, key, accepted) == Some(r->Err_0),
{
}

/// A purchase that is refused changes nothing.
pub proof fn lemma_refused_purchase_changes_nothing(
    pre: Market,
    post: Market,
    caller: Identity,
    key: Seq<char>,
    token_contract: String,
    token_id: String,
    purse: u64,
    r: Result<MarketEvent, Error>,
)
    requires
        Market::buy_listing_post(pre, post, caller, key, token_contract, token_id, purse, r),
        r is Err,
    ensures
        post == pre,
        pre.buy_listing_refusal(key, purse) == Some(r->Err_0),
{
}

/// What `who` receives from the payments `payments`.
pub open spec fn paid(payments: Seq<(Identity, Amount)>, who: Identity) -> nat
    decreases payments.len(),
{
    if payments.len() == 0 {
        0
    } else {
        paid(payments.drop_last(), who) + if payments.last().0 == who {
            payments.last().1@
        } else {
            0
        }
    }
}

/// What `bidder` has offered for the asset `key` according to the map `m`.
pub open spec fn offered_in(
    m: Map<(Seq<char>, Identity), Amount>,
    key: Seq<char>,
    bidder: Identity,
) -> nat {
    if m.contains_key((key, bidder)) {
        m[(key, bidder)]@
    } else {
        0
    }
}

/// The payments that settle the offers on the asset `key` among `s` give each
/// party the accepted amount if it is the seller, and its own offer if it is
/// a bidder other than the accepted one.
pub proof fn lemma_settled_entries(
    s: Seq<Entry<OfferKey, Amount>>,
    key: Seq<char>,
    accepted: Identity,
    seller: Identity,
    who: Identity,
)
    requires
        distinct(s),
    ensures
        paid(settled(book(s, key), accepted, seller), who) == (if who == seller {
            offered_in(as_map(s), key, accepted)
        } else {
            0
        }) + (if who != accepted {
            offered_in(as_map(s), key, who)
        } else {
            0
        }),
    decreases s.len(),
{
    if s.len() == 0 {
        assert(!occurs(s, (key, accepted)));
        assert(!occurs(s, (key, who)));
    } else {
        let t = s.drop_last();
        let e = s.last();
        assert(s =~= t.push(e));
        assert(distinct(t)) by {
            assert forall|i: int, j: int|
                0 <= i < t.len() && 0 <= j < t.len() && #[trigger] t[i].key@ == #[trigger] t[j].key@
                implies i == j by {
                assert(s[i].key@ == s[j].key@);
            }
        }
        assert(!occurs(t, e.key@)) by {
            if occurs(t, e.key@) {
                let i = choose|i: int| 0 <= i < t.len() && (#[trigger] t[i]).key@ == e.key@;
                assert(s[i].key@ == s[s.len() - 1].key@);
            }
        }
        lemma_push_entry(t, e);
        lemma_settled_entries(t, key, accepted, seller, who);
        if e.key.asset@ == key {
            let b = book(t, key);
            let x = (e.key.bidder, e.value);
            assert(book(s, key) == b.push(x));
            let p = settled(b, accepted, seller);
            let y = (payee(e.key.bidder, accepted, seller), e.value);
            assert(settled(b.push(x), accepted, seller) =~= p.push(y));
            assert(p.push(y).drop_last() =~= p);
            assert(!as_map(t).contains_key((key, e.key.bidder)));
        } else {
            assert(book(s, key) == book(t, key));
        }
    }
}

/// The payments that `settlement` lists for the offers on an asset give each
/// party what `accept_offer` adds to the party's account.
pub proof fn lemma_settlement_pays_credit(
    m: Market,
    key: Seq<char>,
    accepted: Identity,
    seller: Identity,
    who: Identity,
)
    requires
        m.wf(),
    ensures
        paid(settled(book(m.offers.entries@, key), accepted, seller), who) == m.credit(
            key,
            accepted,
            seller,
            who,
        ),
{
    lemma_settled_entries(m.offers.entries@, key, accepted, seller, who);
}

} // verus!
