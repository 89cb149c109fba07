//! The offer engine: making, withdrawing and accepting offers, whose funds
//! are held in escrow from the offer to its end.

use crate::amount::Amount;
use crate::error::Error;
use crate::event::MarketEvent;
use crate::identity::{is_identity, Holder, Identity};
use crate::keys::{get_id, listing_key};
use crate::ledger::{lemma_total_push, lemma_total_remove, total};
use crate::market::{EscrowSlot, Market, OfferKey};
use crate::registry::Title;
use crate::table::{index_of, occurs, slot, Entry, Key};
use vstd::prelude::*;

verus! {

/// Who is paid from escrow for the offer of `bidder` when the offer of
/// `accepted` is accepted: the seller for the accepted offer, and for every
/// other offer its own bidder.
pub open spec fn payee(bidder: Identity, accepted: Identity, seller: Identity) -> Identity {
    if bidder == accepted {
        seller
    } else {
        bidder
    }
}

/// The payments from escrow that settle the open offers `offers` on one asset
/// when the offer of `accepted` is accepted: for each offer, in order, who is
/// paid and how much.
pub open spec fn settled(offers: Seq<(Identity, Amount)>, accepted: Identity, seller: Identity) -> Seq<
    (Identity, Amount),
> {
    Seq::new(offers.len(), |i: int| (payee(offers[i].0, accepted, seller), offers[i].1))
}

/// The payments from escrow that settle the open offers `offers` on one asset
/// when the offer of `accepted` is accepted.
pub fn settlement(offers: &Vec<(Identity, Amount)>, accepted: &Identity, seller: &Identity) -> (r:
    Vec<(Identity, Amount)>)
    ensures
        r@ == settled(offers@, *accepted, *seller),
{
    let mut out: Vec<(Identity, Amount)> = Vec::new();
    let mut i: usize = 0;
    while i < offers.len()
        invariant
            i <= offers@.len(),
            out@.len() == i,
            forall|j: int|
                0 <= j < i ==> #[trigger] out@[j] == (
                    payee(offers@[j].0, *accepted, *seller),
                    offers@[j].1,
                ),
        decreases offers@.len() - i,
    {
        let to = if offers[i].0.same(accepted) {
            *seller
        } else {
            offers[i].0
        };
        out.push((to, offers[i].1));
        i = i + 1;
    }
    assert(out@ =~= settled(offers@, *accepted, *seller));
    out
}

/// The entries of `s` that are no offers on the asset `key`, in the order of
/// `s`.
pub open spec fn others(s: Seq<Entry<OfferKey, Amount>>, key: Seq<char>) -> Seq<
    Entry<OfferKey, Amount>,
>
    decreases s.len(),
{
    if s.len() == 0 {
        s
    } else if s.last().key.asset@ == key {
        others(s.drop_last(), key)
    } else {
        others(s.drop_last(), key).push(s.last())
    }
}

/// The sum of the offers on the asset `key` among `s`.
pub open spec fn asset_total(s: Seq<Entry<OfferKey, Amount>>, key: Seq<char>) -> nat
    decreases s.len(),
{
    if s.len() == 0 {
        0
    } else {
        asset_total(s.drop_last(), key) + if s.last().key.asset@ == key {
            s.last().value@
        } else {
            0
        }
    }
}

/// Taking out an offer on the asset `key` leaves the other entries as they
/// are.
pub proof fn lemma_others_remove(s: Seq<Entry<OfferKey, Amount>>, i: int, key: Seq<char>)
    requires
        0 <= i < s.len(),
        s[i].key.asset@ == key,
    ensures
        others(s.remove(i), key) == others(s, key),
    decreases s.len(),
{
    if i == s.len() - 1 {
        assert(s.remove(i) =~= s.drop_last());
    } else {
        lemma_others_remove(s.drop_last(), i, key);
        assert(s.remove(i).drop_last() =~= s.drop_last().remove(i));
        assert(s.remove(i).last() == s.last());
    }
}

/// Where no entry is an offer on the asset `key`, all entries are others.
pub proof fn lemma_others_all(s: Seq<Entry<OfferKey, Amount>>, key: Seq<char>)
    requires
        forall|j: int| 0 <= j < s.len() ==> (#[trigger] s[j]).key.asset@ != key,
    ensures
        others(s, key) == s,
    decreases s.len(),
{
    if s.len() > 0 {
        lemma_others_all(s.drop_last(), key);
        assert(s.drop_last().push(s.last()) =~= s);
    }
}

/// The offers on the asset `key` and the other entries make up the sum of
/// all.
pub proof fn lemma_total_split(s: Seq<Entry<OfferKey, Amount>>, key: Seq<char>)
    ensures
        asset_total(s, key) + total(others(s, key)) == total(s),
    decreases s.len(),
{
    if s.len() > 0 {
        lemma_total_split(s.drop_last(), key);
        if s.last().key.asset@ != key {
            lemma_total_push(others(s.drop_last(), key), s.last());
        }
    }
}

impl Market {
    /// Why `make_offer` is refused, if it is.
    pub open spec fn make_offer_refusal(&self, caller: Identity, key: Seq<char>) -> Option<Error> {
        if self.escrow == EscrowSlot::Foreign {
            Some(Error::EscrowPurseUnavailable)
        } else if self.offers@.contains_key((key, caller)) {
            Some(Error::OfferExists)
        } else {
            None
        }
    }

    /// What `make_offer` does for the asset stored under `key`: `post` and
    /// `r` are the state and the result after the call on the state `pre`.
    pub open spec fn make_offer_post(
        pre: Market,
        post: Market,
        caller: Identity,
        key: Seq<char>,
        token_contract: String,
        token_id: String,
        purse: u64,
        r: Result<MarketEvent, Error>,
    ) -> bool {
        let amount = pre.bank.balance(Holder::Purse(purse));
        match r {
            Err(e) => pre.make_offer_refusal(caller, key) == Some(e) && post == pre,
            Ok(event) => {
                &&& pre.make_offer_refusal(caller, key) is None
                &&& event matches MarketEvent::OfferCreated {
                    buyer,
                    token_contract: collection,
                    token_id: number,
                    price,
                }
                &&& buyer == caller
                &&& collection == token_contract
                &&& number == token_id
                &&& price@ == amount
                &&& post.offers@.contains_key((key, caller))
                &&& post.offers@[(key, caller)] == price
                &&& post.offers@.remove((key, caller)) == pre.offers@
                &&& post.offers.entries@.len() == pre.offers.entries@.len() + 1
                &&& post.offers.entries@.drop_last() == pre.offers.entries@
                &&& post.offers.entries@.last().key@ == (key, caller)
                &&& post.offers.entries@.last().value == price
                &&& forall|h: Holder| #[trigger]
                    post.bank.balance(h) == pre.bank.moved(
                        Holder::Purse(purse),
                        Holder::Escrow,
                        amount,
                        h,
                    )
                &&& post.bank.supply == pre.bank.supply
                &&& post.escrow == EscrowSlot::Purse
                &&& post.listings == pre.listings
                &&& post.registry == pre.registry
                &&& post.package == pre.package
            },
        }
    }

    /// Offers all that the purse `purse` holds for the asset stored under
    /// `offers_id`. The amount moves into escrow. A bidder has one open offer
    /// on an asset at most.
    pub fn make_offer_at(
        &mut self,
        caller: &Identity,
        offers_id: String,
        token_contract: &String,
        token_id: &String,
        purse: u64,
    ) -> (r: Result<MarketEvent, Error>)
        requires
            old(self).wf(),
        ensures
            final(self).wf(),
            final(self).surplus() == old(self).surplus(),
            Market::make_offer_post(
                *old(self),
                *final(self),
                *caller,
                offers_id@,
                *token_contract,
                *token_id,
                purse,
                r,
            ),
    {
        if let EscrowSlot::Foreign = self.escrow {
            return Err(Error::EscrowPurseUnavailable);
        }
        let name = OfferKey { asset: offers_id, bidder: *caller };
        if self.offers.find(&name).is_some() {
            return Err(Error::OfferExists);
        }
        let source = Holder::Purse(purse);
        let amount = self.bank.balance_of(&source);
        let paid = self.bank.transfer(&source, &Holder::Escrow, &amount);
        assert(paid is Ok);
        proof {
            lemma_total_push(self.offers.entries@, Entry { key: name, value: amount });
        }
        self.offers.put(name, amount);
        self.escrow = EscrowSlot::Purse;
        assert(self.offers@.remove(name@) =~= old(self).offers@);
        assert(self.offers.entries@.drop_last() =~= old(self).offers.entries@);
        Ok(
            MarketEvent::OfferCreated {
                buyer: *caller,
                token_contract: token_contract.clone(),
                token_id: token_id.clone(),
                price: amount,
            },
        )
    }

    /// Offers all that the purse `purse` holds for an asset. The amount moves
    /// into escrow. A bidder has one open offer on an asset at most.
    pub fn make_offer(
        &mut self,
        caller: &Identity,
        token_contract: &String,
        token_id: &String,
        purse: u64,
    ) -> (r: Result<MarketEvent, Error>)
        requires
            old(self).wf(),
        ensures
            final(self).wf(),
            final(self).surplus() == old(self).surplus(),
            Market::make_offer_post(
                *old(self),
                *final(self),
                *caller,
                listing_key(token_contract@, token_id@),
                *token_contract,
                *token_id,
                purse,
                r,
            ),
    {
        let offers_id = get_id(token_contract, token_id);
        self.make_offer_at(caller, offers_id, token_contract, token_id, purse)
    }

    /// Why `withdraw_offer` is refused, if it is.
    pub open spec fn withdraw_offer_refusal(&self, caller: Identity, key: Seq<char>) -> Option<
        Error,
    > {
        if !self.offers@.contains_key((key, caller)) {
            Some(Error::NoMatchingOffer)
        } else if self.escrow == EscrowSlot::Foreign {
            Some(Error::EscrowPurseUnavailable)
        } else {
            None
        }
    }

    /// What `withdraw_offer` does for the asset stored under `key`: `post`
    /// and `r` are the state and the result after the call on the state
    /// `pre`.
    pub open spec fn withdraw_offer_post(
        pre: Market,
        post: Market,
        caller: Identity,
        key: Seq<char>,
        token_contract: String,
        token_id: String,
        r: Result<MarketEvent, Error>,
    ) -> bool {
        match r {
            Err(e) => pre.withdraw_offer_refusal(caller, key) == Some(e) && post == pre,
            Ok(event) => {
                &&& pre.withdraw_offer_refusal(caller, key) is None
                &&& event == (MarketEvent::OfferWithdraw {
                    buyer: caller,
                    token_contract,
                    token_id,
                })
                &&& post.offers@ == pre.offers@.remove((key, caller))
                &&& index_of(pre.offers.entries@, (key, caller)) matches Some(at)
                &&& 0 <= at < pre.offers.entries@.len()
                &&& post.offers.entries@ == pre.offers.entries@.remove(at)
                &&& forall|h: Holder| #[trigger]
                    post.bank.balance(h) == pre.bank.moved(
                        Holder::Escrow,
                        Holder::Account(caller),
                        pre.offers@[(key, caller)]@,
                        h,
                    )
                &&& post.bank.supply == pre.bank.supply
                &&& post.escrow == EscrowSlot::Purse
                &&& post.listings == pre.listings
                &&& post.registry == pre.registry
                &&& post.package == pre.package
            },
        }
    }

    /// Takes back the caller's open offer on the asset stored under
    /// `offers_id`: the amount returns from escrow to the caller's account.
    pub fn withdraw_offer_at(
        &mut self,
        caller: &Identity,
        offers_id: String,
        token_contract: &String,
        token_id: &String,
    ) -> (r: Result<MarketEvent, Error>)
        requires
            old(self).wf(),
        ensures
            final(self).wf(),
            final(self).surplus() == old(self).surplus(),
            Market::withdraw_offer_post(
                *old(self),
                *final(self),
                *caller,
                offers_id@,
                *token_contract,
                *token_id,
                r,
            ),
    {
        let name = OfferKey { asset: offers_id, bidder: *caller };
        let at = match self.offers.find(&name) {
            None => {
                return Err(Error::NoMatchingOffer);
            },
            Some(i) => i,
        };
        if let EscrowSlot::Foreign = self.escrow {
            return Err(Error::EscrowPurseUnavailable);
        }
        proof {
            lemma_total_remove(self.offers.entries@, at as int);
        }
        let entry = self.offers.take_at(at);
        let paid = self.bank.transfer(&Holder::Escrow, &Holder::Account(*caller), &entry.value);
        assert(paid is Ok);
        self.escrow = EscrowSlot::Purse;
        Ok(
            MarketEvent::OfferWithdraw {
                buyer: *caller,
                token_contract: token_contract.clone(),
                token_id: token_id.clone(),
            },
        )
    }

    /// Takes back the caller's open offer on an asset: the amount returns from
    /// escrow to the caller's account.
    pub fn withdraw_offer(
        &mut self,
        caller: &Identity,
        token_contract: &String,
        token_id: &String,
    ) -> (r: Result<MarketEvent, Error>)
        requires
            old(self).wf(),
        ensures
            final(self).wf(),
            final(self).surplus() == old(self).surplus(),
            Market::withdraw_offer_post(
                *old(self),
                *final(self),
                *caller,
                listing_key(token_contract@, token_id@),
                *token_contract,
                *token_id,
                r,
            ),
    {
        let offers_id = get_id(token_contract, token_id);
        self.withdraw_offer_at(caller, offers_id, token_contract, token_id)
    }

    /// What `bidder` has offered for the asset `key`: nothing where no offer
    /// is open.
    pub open spec fn offered(&self, key: Seq<char>, bidder: Identity) -> nat {
        match self.offer(key, bidder) {
            Some(amount) => amount,
            None => 0,
        }
    }

    /// What the account of `who` receives when `seller` accepts the offer of
    /// `accepted` on the asset `key`: the accepted amount for the seller, and
    /// for every other bidder the amount of their own offer.
    pub open spec fn credit(
        &self,
        key: Seq<char>,
        accepted: Identity,
        seller: Identity,
        who: Identity,
    ) -> nat {
        (if who == seller {
            self.offered(key, accepted)
        } else {
            0
        }) + (if who != accepted {
            self.offered(key, who)
        } else {
            0
        })
    }

    /// Why `accept_offer` is refused, if it is.
    pub open spec fn accept_offer_refusal(
        &self,
        caller: Identity,
        key: Seq<char>,
        accepted: Identity,
    ) -> Option<Error> {
        if self.escrow == EscrowSlot::Foreign {
            Some(Error::EscrowPurseUnavailable)
        } else if self.registry.owner(key) != Some(caller) {
            Some(Error::PermissionDenied)
        } else if self.registry.approved(caller, key) != Some(self.package) {
            Some(Error::NeedsTransferApproval)
        } else if !self.offers@.contains_key((key, accepted)) {
            Some(Error::NoMatchingOffer)
        } else {
            None
        }
    }

    /// What `accept_offer` does for the asset stored under `key`: `post` and
    /// `r` are the state and the result after the call on the state `pre`.
    pub open spec fn accept_offer_post(
        pre: Market,
        post: Market,
        caller: Identity,
        key: Seq<char>,
        token_contract: String,
        token_id: String,
        accepted: Identity,
        r: Result<MarketEvent, Error>,
    ) -> bool {
        match r {
            Err(e) => pre.accept_offer_refusal(caller, key, accepted) == Some(e) && post == pre,
            Ok(event) => {
                &&& pre.accept_offer_refusal(caller, key, accepted) is None
                &&& event == (MarketEvent::OfferAccepted {
                    seller: caller,
                    buyer: accepted,
                    token_contract,
                    token_id,
                    price: pre.offers@[(key, accepted)],
                })
                &&& forall|name: (Seq<char>, Identity)|
                    post.offers@.contains_key(name) <==> pre.offers@.contains_key(name) && name.0
                        != key
                &&& forall|name: (Seq<char>, Identity)| #[trigger]
                    post.offers@.contains_key(name) ==> post.offers@[name] == pre.offers@[name]
                &&& forall|who: Identity| #[trigger]
                    post.bank.balance(Holder::Account(who)) == pre.bank.balance(
                        Holder::Account(who),
                    ) + pre.credit(key, accepted, caller, who)
                &&& forall|p: u64| #[trigger]
                    post.bank.balance(Holder::Purse(p)) == pre.bank.balance(Holder::Purse(p))
                &&& post.bank.balance(Holder::Escrow) == pre.bank.balance(Holder::Escrow)
                    - asset_total(pre.offers.entries@, key)
                &&& post.offers.entries@ == others(pre.offers.entries@, key)
                &&& post.bank.supply == pre.bank.supply
                &&& post.listings@ == pre.listings@.insert(key, None)
                &&& post.registry.titles@ == pre.registry.titles@.insert(
                    key,
                    Title { owner: accepted, approved: None },
                )
                &&& post.escrow == EscrowSlot::Purse
                &&& post.package == pre.package
            },
        }
    }

    /// The position of an open offer on the asset `key`, if there is one.
    fn find_offer_on(&self, key: &String) -> (r: Option<usize>)
        ensures
            match r {
                Some(i) => i < self.offers.entries@.len() && self.offers.entries@[i as int].key.asset@
                    == key@,
                None => forall|j: int|
                    0 <= j < self.offers.entries@.len() ==> (
                    #[trigger] self.offers.entries@[j]).key.asset@ != key@,
            },
    {
        let mut i: usize = 0;
        while i < self.offers.entries.len()
            invariant
                i <= self.offers.entries@.len(),
                forall|j: int| 0 <= j < i ==> (#[trigger] self.offers.entries@[j]).key.asset@ != key@,
            decreases self.offers.entries@.len() - i,
        {
            if self.offers.entries[i].key.asset == *key {
                return Some(i);
            }
            i = i + 1;
        }
        None
    }

    /// Accepts the offer of `accepted` on the asset stored under `offers_id`,
    /// which the caller owns. The accepted amount goes from escrow to the
    /// caller, every other offer on the asset goes back to its bidder, the
    /// asset goes to `accepted`, and the asset's listing ends.
    pub fn accept_offer_at(
        &mut self,
        caller: &Identity,
        offers_id: String,
        token_contract: &String,
        token_id: &String,
        accepted: &Identity,
    ) -> (r: Result<MarketEvent, Error>)
        requires
            old(self).wf(),
        ensures
            final(self).wf(),
            final(self).surplus() == old(self).surplus(),
            Market::accept_offer_post(
                *old(self),
                *final(self),
                *caller,
                offers_id@,
                *token_contract,
                *token_id,
                *accepted,
                r,
            ),
    {
        if let EscrowSlot::Foreign = self.escrow {
            return Err(Error::EscrowPurseUnavailable);
        }
        let owner = self.registry.owner_of(&offers_id);
        if !is_identity(&owner, caller) {
            return Err(Error::PermissionDenied);
        }
        let allowed = self.registry.get_approved(caller, &offers_id);
        if !is_identity(&allowed, &self.package) {
            return Err(Error::NeedsTransferApproval);
        }
        let name = OfferKey { asset: offers_id.clone(), bidder: *accepted };
        let price = match self.offers.get(&name) {
            None => {
                return Err(Error::NoMatchingOffer);
            },
            Some(amount) => *amount,
        };
        let ghost pre = *self;
        let mut next = self.find_offer_on(&offers_id);
        while next.is_some()
            invariant
                pre.wf(),
                self.wf(),
                self.surplus() == pre.surplus(),
                others(self.offers.entries@, offers_id@) == others(pre.offers.entries@, offers_id@),
                self.bank.supply == pre.bank.supply,
                self.listings == pre.listings,
                self.registry == pre.registry,
                self.package == pre.package,
                self.escrow == pre.escrow,
                forall|n: (Seq<char>, Identity)| #[trigger]
                    self.offers@.contains_key(n) ==> pre.offers@.contains_key(n)
                        && self.offers@[n] == pre.offers@[n],
                forall|n: (Seq<char>, Identity)|
                    pre.offers@.contains_key(n) && n.0 != offers_id@ ==> #[trigger] self.offers@.contains_key(
                        n,
                    ),
                forall|who: Identity|
                    #[trigger] self.bank.balance(Holder::Account(who)) + self.credit(
                        offers_id@,
                        *accepted,
                        *caller,
                        who,
                    ) == pre.bank.balance(Holder::Account(who)) + pre.credit(
                        offers_id@,
                        *accepted,
                        *caller,
                        who,
                    ),
                forall|p: u64| #[trigger]
                    self.bank.balance(Holder::Purse(p)) == pre.bank.balance(Holder::Purse(p)),
                match next {
                    Some(i) => i < self.offers.entries@.len() && self.offers.entries@[i as int].key.asset@
                        == offers_id@,
                    None => forall|j: int|
                        0 <= j < self.offers.entries@.len() ==> (
                        #[trigger] self.offers.entries@[j]).key.asset@ != offers_id@,
                },
            decreases self.offers.entries@.len(),
        {
            let at = next.unwrap();
            let ghost before = *self;
            proof {
                lemma_total_remove(self.offers.entries@, at as int);
                lemma_others_remove(self.offers.entries@, at as int, offers_id@);
            }
            let entry = self.offers.take_at(at);
            let to = if entry.key.bidder.same(accepted) {
                *caller
            } else {
                entry.key.bidder
            };
            let paid = self.bank.transfer(&Holder::Escrow, &Holder::Account(to), &entry.value);
            assert(paid is Ok);
            proof {
                let gone = entry.key@;
                assert(gone.0 == offers_id@);
                assert forall|who: Identity|
                    #[trigger] self.bank.balance(Holder::Account(who)) + self.credit(
                        offers_id@,
                        *accepted,
                        *caller,
                        who,
                    ) == before.bank.balance(Holder::Account(who)) + before.credit(
                        offers_id@,
                        *accepted,
                        *caller,
                        who,
                    ) by {
                    assert(self.offers@.contains_key((offers_id@, who)) <==> before.offers@.contains_key(
                        (offers_id@, who),
                    ) && (offers_id@, who) != gone);
                    assert(self.offers@.contains_key((offers_id@, *accepted))
                        <==> before.offers@.contains_key((offers_id@, *accepted)) && (offers_id@, *accepted)
                        != gone);
                    assert(self.bank.balance(Holder::Account(who)) == before.bank.moved(
                        Holder::Escrow,
                        Holder::Account(to),
                        entry.value@,
                        Holder::Account(who),
                    ));
                }
            }
            next = self.find_offer_on(&offers_id);
        }
        proof {
            lemma_others_all(self.offers.entries@, offers_id@);
            lemma_total_split(pre.offers.entries@, offers_id@);
            assert forall|b: Identity| !self.offers@.contains_key((offers_id@, b)) by {
                if occurs(self.offers.entries@, (offers_id@, b)) {
                    let j = slot(self.offers.entries@, (offers_id@, b));
                    assert(self.offers.entries@[j].key.asset@ == offers_id@);
                }
            }
            assert forall|who: Identity|
                self.credit(offers_id@, *accepted, *caller, who) == 0 by {
                assert(!self.offers@.contains_key((offers_id@, who)));
                assert(!self.offers@.contains_key((offers_id@, *accepted)));
            }
        }
        let handed = self.registry.transfer_from(&self.package, caller, *accepted, offers_id.clone());
        assert(handed is Ok);
        self.listings.put(offers_id, None);
        self.escrow = EscrowSlot::Purse;
        Ok(
            MarketEvent::OfferAccepted {
                seller: *caller,
                buyer: *accepted,
                token_contract: token_contract.clone(),
                token_id: token_id.clone(),
                price,
            },
        )
    }

    /// Accepts the offer of `accepted` on an asset that the caller owns. The
    /// accepted amount goes from escrow to the caller, every other offer on
    /// the asset goes back to its bidder, the asset goes to `accepted`, and
    /// the asset's listing ends.
    pub fn accept_offer(
        &mut self,
        caller: &Identity,
        token_contract: &String,
        token_id: &String,
        accepted: &Identity,
    ) -> (r: Result<MarketEvent, Error>)
        requires
            old(self).wf(),
        ensures
            final(self).wf(),
            final(self).surplus() == old(self).surplus(),
            Market::accept_offer_post(
                *old(self),
                *final(self),
                *caller,
                listing_key(token_contract@, token_id@),
                *token_contract,
                *token_id,
                *accepted,
                r,
            ),
    {
        let offers_id = get_id(token_contract, token_id);
        self.accept_offer_at(caller, offers_id, token_contract, token_id, accepted)
    }
}

} // verus!
