//! The marketplace's state: listings of assets at a fixed price, open offers
//! whose funds are held in escrow, the currency of all holders and the
//! register of assets. The operations on it are carried out whole or refused
//! with nothing changed.

use crate::amount::{lemma_amount_bounded, limit, Amount};
use crate::error::Error;
use crate::identity::{is_identity, Holder, Identity};
use crate::keys::{get_id, listing_key};
use crate::ledger::{lemma_total_push, sum_of, total, Bank};
use crate::registry::{Registry, Title};
use crate::table::{Entry, Key, Table};
use vstd::prelude::*;

verus! {

/// An asset offered for sale at a fixed price.
#[derive(Clone, Debug, PartialEq, Eq)]
pub struct Listing {
    pub seller: Identity,
    pub token_contract: String,
    pub token_id: String,
    pub price: Amount,
}

/// What names an open offer: the asset's key and the bidder.
#[derive(Clone, Debug, PartialEq, Eq)]
pub struct OfferKey {
    pub asset: String,
    pub bidder: Identity,
}

impl View for OfferKey {
    type V = (Seq<char>, Identity);

    open spec fn view(&self) -> (Seq<char>, Identity) {
        (self.asset@, self.bidder)
    }
}

impl Key for OfferKey {
    fn same(&self, other: &Self) -> (r: bool) {
        self.asset == other.asset && self.bidder.same(&other.bidder)
    }
}

/// What the ledger holds under the name of the escrow purse.
#[derive(Clone, Copy, Debug, PartialEq, Eq, Structural)]
pub enum EscrowSlot {
    /// Nothing yet: the purse is made when it is first needed.
    Unset,
    /// The escrow purse.
    Purse,
    /// Something that is no purse.
    Foreign,
}

/// The open offers on the asset `key` among `s`, in the order of `s`: each
/// bidder with the amount offered.
pub open spec fn book(s: Seq<Entry<OfferKey, Amount>>, key: Seq<char>) -> Seq<(Identity, Amount)>
    decreases s.len(),
{
    if s.len() == 0 {
        Seq::empty()
    } else if s.last().key.asset@ == key {
        book(s.drop_last(), key).push((s.last().key.bidder, s.last().value))
    } else {
        book(s.drop_last(), key)
    }
}

/// The state of the marketplace and of the ledger that it works on.
#[derive(Clone, Debug, PartialEq, Eq)]
pub struct Market {
    /// The marketplace's own identity, under which owners allow it to
    /// transfer their assets.
    pub package: Identity,
    /// The listing of each asset: absent while none was ever made, `None` once
    /// it was sold or canceled.
    pub listings: Table<String, Option<Listing>>,
    /// The open offers, each with the amount held in escrow for it.
    pub offers: Table<OfferKey, Amount>,
    /// What the ledger holds under the name of the escrow purse.
    pub escrow: EscrowSlot,
    /// What each holder has, the escrow purse among them.
    pub bank: Bank,
    /// Who owns each asset, and whom the owner lets transfer it.
    pub registry: Registry,
}

impl Market {
    /// What the escrow purse holds beyond the sum of all open offers.
    pub open spec fn surplus(&self) -> int {
        self.bank.balance(Holder::Escrow) - total(self.offers.entries@)
    }

    /// No asset has two listings, no bidder has two offers on one asset, and
    /// the escrow purse holds at least the sum of all open offers.
    pub open spec fn wf(&self) -> bool {
        &&& self.listings.wf()
        &&& self.offers.wf()
        &&& self.bank.wf()
        &&& self.registry.wf()
        &&& self.surplus() >= 0
    }

    /// Whether the market is well-formed.
    pub fn is_sound(&self) -> (r: bool)
        ensures
            r == self.wf(),
    {
        if !self.listings.is_sound() || !self.offers.is_sound() || !self.bank.is_sound()
            || !self.registry.titles.is_sound() {
            return false;
        }
        let held = self.bank.balance_of(&Holder::Escrow);
        proof {
            lemma_amount_bounded(held);
        }
        match sum_of(&self.offers) {
            None => false,
            Some(open) => !held.less_than(&open),
        }
    }

    /// The listing of the asset `key` that is open, if one is.
    pub open spec fn active_listing(&self, key: Seq<char>) -> Option<Listing> {
        if self.listings@.contains_key(key) {
            self.listings@[key]
        } else {
            None
        }
    }

    /// What `bidder` has offered for the asset `key`, if anything.
    pub open spec fn offer(&self, key: Seq<char>, bidder: Identity) -> Option<nat> {
        if self.offers@.contains_key((key, bidder)) {
            Some(self.offers@[(key, bidder)]@)
        } else {
            None
        }
    }

    /// A marketplace without listings, offers, assets or currency.
    pub fn new(package: Identity) -> (m: Market)
        ensures
            m.wf(),
            m.package == package,
            m.escrow == EscrowSlot::Unset,
            m.surplus() == 0,
            m.listings@ == Map::<Seq<char>, Option<Listing>>::empty(),
            m.listings.entries@ == Seq::<Entry<String, Option<Listing>>>::empty(),
            m.offers@ == Map::<(Seq<char>, Identity), Amount>::empty(),
            m.offers.entries@ == Seq::<Entry<OfferKey, Amount>>::empty(),
            m.registry.titles@ == Map::<Seq<char>, Title>::empty(),
            forall|h: Holder| m.bank.balance(h) == 0,
    {
        Market {
            package,
            listings: Table::new(),
            offers: Table::new(),
            escrow: EscrowSlot::Unset,
            bank: Bank::new(),
            registry: Registry::new(),
        }
    }

    /// Creates `amount` of new currency for `holder`, unless the whole supply
    /// could then no longer be held in one amount; returns whether it did.
    pub fn deposit(&mut self, holder: Holder, amount: Amount) -> (done: bool)
        requires
            old(self).wf(),
        ensures
            final(self).wf(),
            done <==> old(self).bank.supply@ + amount@ < limit(),
            !done ==> *final(self) == *old(self),
            done ==> forall|h: Holder| #[trigger]
                final(self).bank.balance(h) == if h == holder {
                    old(self).bank.balance(h) + amount@
                } else {
                    old(self).bank.balance(h)
                },
            final(self).listings == old(self).listings,
            final(self).offers == old(self).offers,
            final(self).registry == old(self).registry,
            final(self).escrow == old(self).escrow,
            final(self).package == old(self).package,
    {
        self.bank.mint(holder, amount)
    }

    /// Enters `owner` at the register as the owner of an asset, with nobody
    /// allowed to transfer it.
    pub fn register_asset(&mut self, token_contract: &String, token_id: &String, owner: Identity)
        requires
            old(self).wf(),
        ensures
            final(self).wf(),
            final(self).registry.titles@ == old(self).registry.titles@.insert(
                listing_key(token_contract@, token_id@),
                Title { owner, approved: None },
            ),
            final(self).listings == old(self).listings,
            final(self).offers == old(self).offers,
            final(self).bank == old(self).bank,
            final(self).escrow == old(self).escrow,
            final(self).package == old(self).package,
    {
        let key = get_id(token_contract, token_id);
        self.registry.assign(key, owner);
    }

    /// Lets `spender` transfer an asset for `owner`; returns whether `owner`
    /// owns the asset, without which nothing changes.
    pub fn approve(
        &mut self,
        owner: &Identity,
        spender: Identity,
        token_contract: &String,
        token_id: &String,
    ) -> (done: bool)
        requires
            old(self).wf(),
        ensures
            final(self).wf(),
            done == (old(self).registry.owner(listing_key(token_contract@, token_id@)) == Some(
                *owner,
            )),
            !done ==> *final(self) == *old(self),
            done ==> final(self).registry.titles@ == old(self).registry.titles@.insert(
                listing_key(token_contract@, token_id@),
                Title { owner: *owner, approved: Some(spender) },
            ),
            final(self).listings == old(self).listings,
            final(self).offers == old(self).offers,
            final(self).bank == old(self).bank,
            final(self).escrow == old(self).escrow,
            final(self).package == old(self).package,
    {
        let key = get_id(token_contract, token_id);
        self.registry.approve(owner, spender, key)
    }

    /// The owner of an asset, where it has one.
    pub fn get_token_owner(&self, token_contract: &String, token_id: &String) -> (r: Option<
        Identity,
    >)
        requires
            self.wf(),
        ensures
            r == self.registry.owner(listing_key(token_contract@, token_id@)),
    {
        let key = get_id(token_contract, token_id);
        self.registry.owner_of(&key)
    }

    /// Whether `owner` owns an asset and has allowed the marketplace to
    /// transfer it.
    pub fn transfer_approved(
        &self,
        token_contract: &String,
        token_id: &String,
        owner: &Identity,
    ) -> (r: bool)
        requires
            self.wf(),
        ensures
            r == (self.registry.approved(*owner, listing_key(token_contract@, token_id@)) == Some(
                self.package,
            )),
    {
        let key = get_id(token_contract, token_id);
        let allowed = self.registry.get_approved(owner, &key);
        is_identity(&allowed, &self.package)
    }

    /// The open listing stored under `listing_id`. Where none was ever made
    /// the answer is `ListingDoesNotExist`, where it was sold or canceled
    /// `ListingCanceledOrSold`.
    pub fn get_listing(&self, listing_id: &String) -> (r: Result<&Listing, Error>)
        requires
            self.wf(),
        ensures
            match r {
                Ok(listing) => self.active_listing(listing_id@) == Some(*listing),
                Err(e) => self.active_listing(listing_id@) is None && e == if self.listings@.contains_key(
                    listing_id@,
                ) {
                    Error::ListingCanceledOrSold
                } else {
                    Error::ListingDoesNotExist
                },
            },
    {
        match self.listings.get(listing_id) {
            None => Err(Error::ListingDoesNotExist),
            Some(None) => Err(Error::ListingCanceledOrSold),
            Some(Some(listing)) => Ok(listing),
        }
    }

    /// The price at which an asset is listed.
    pub fn find_price(&self, token_contract: &String, token_id: &String) -> (r: Result<
        Amount,
        Error,
    >)
        requires
            self.wf(),
        ensures
            match r {
                Ok(price) => self.active_listing(listing_key(token_contract@, token_id@)) matches Some(
                    listing,
                ) && listing.price == price,
                Err(e) => self.active_listing(listing_key(token_contract@, token_id@)) is None && e
                    == if self.listings@.contains_key(listing_key(token_contract@, token_id@)) {
                    Error::ListingCanceledOrSold
                } else {
                    Error::ListingDoesNotExist
                },
            },
    {
        let key = get_id(token_contract, token_id);
        match self.get_listing(&key) {
            Ok(listing) => Ok(listing.price),
            Err(e) => Err(e),
        }
    }

    /// The open offers stored under `offers_id`, in the order in which they
    /// are held: each bidder with the amount offered.
    pub fn get_offers(&self, offers_id: &String) -> (r: Vec<(Identity, Amount)>)
        ensures
            r@ == book(self.offers.entries@, offers_id@),
    {
        let mut out: Vec<(Identity, Amount)> = Vec::new();
        let mut i: usize = 0;
        assert(self.offers.entries@.take(0) =~= Seq::empty());
        while i < self.offers.entries.len()
            invariant
                i <= self.offers.entries@.len(),
                out@ == book(self.offers.entries@.take(i as int), offers_id@),
            decreases self.offers.entries@.len() - i,
        {
            assert(self.offers.entries@.take(i + 1).drop_last() =~= self.offers.entries@.take(
                i as int,
            ));
            if self.offers.entries[i].key.asset == *offers_id {
                out.push((self.offers.entries[i].key.bidder, self.offers.entries[i].value));
            }
            i = i + 1;
        }
        assert(self.offers.entries@.take(i as int) =~= self.offers.entries@);
        out
    }

    /// What `bidder` has offered for an asset, if anything.
    pub fn offer_of(&self, token_contract: &String, token_id: &String, bidder: &Identity) -> (r:
        Option<Amount>)
        requires
            self.wf(),
        ensures
            r is Some <==> self.offers@.contains_key(
                (listing_key(token_contract@, token_id@), *bidder),
            ),
            r matches Some(amount) ==> amount == self.offers@[(
                listing_key(token_contract@, token_id@),
                *bidder,
            )],
    {
        let name = OfferKey { asset: get_id(token_contract, token_id), bidder: *bidder };
        match self.offers.get(&name) {
            Some(amount) => Some(*amount),
            None => None,
        }
    }

    /// What `holder` has.
    pub fn balance(&self, holder: &Holder) -> (a: Amount)
        requires
            self.wf(),
        ensures
            a@ == self.bank.balance(*holder),
    {
        self.bank.balance_of(holder)
    }

    /// The escrow purse, made where the ledger holds nothing under its name
    /// yet. Where the name is taken by something that is no purse, the answer
    /// is `EscrowPurseUnavailable` and nothing changes.
    pub fn get_purse(&mut self) -> (r: Result<Holder, Error>)
        ensures
            r == if old(self).escrow == EscrowSlot::Foreign {
                Err::<Holder, Error>(Error::EscrowPurseUnavailable)
            } else {
                Ok::<Holder, Error>(Holder::Escrow)
            },
            final(self).escrow == if old(self).escrow == EscrowSlot::Foreign {
                EscrowSlot::Foreign
            } else {
                EscrowSlot::Purse
            },
            final(self).listings == old(self).listings,
            final(self).offers == old(self).offers,
            final(self).bank == old(self).bank,
            final(self).registry == old(self).registry,
            final(self).package == old(self).package,
    {
        if let EscrowSlot::Foreign = self.escrow {
            return Err(Error::EscrowPurseUnavailable);
        }
        self.escrow = EscrowSlot::Purse;
        Ok(Holder::Escrow)
    }

    /// Enters the record of an asset's listing as the ledger holds it: an open
    /// listing, or `None` for one that was sold or canceled.
    pub fn load_listing(&mut self, listing_id: String, record: Option<Listing>)
        requires
            old(self).wf(),
        ensures
            final(self).wf(),
            final(self).listings@ == old(self).listings@.insert(listing_id@, record),
            final(self).offers == old(self).offers,
            final(self).bank == old(self).bank,
            final(self).registry == old(self).registry,
            final(self).escrow == old(self).escrow,
            final(self).package == old(self).package,
    {
        self.listings.put(listing_id, record);
    }

    /// Enters an open offer as the ledger holds it, together with its amount
    /// in the escrow purse. Nothing is entered, and `false` returned, where
    /// the bidder already has an offer on the asset or the whole supply could
    /// then no longer be held in one amount.
    pub fn load_offer(&mut self, offers_id: String, bidder: Identity, amount: Amount) -> (done:
        bool)
        requires
            old(self).wf(),
        ensures
            final(self).wf(),
            final(self).surplus() == old(self).surplus(),
            done <==> !old(self).offers@.contains_key((offers_id@, bidder)) && old(
                self,
            ).bank.supply@ + amount@ < limit(),
            !done ==> *final(self) == *old(self),
            done ==> final(self).offers@ == old(self).offers@.insert((offers_id@, bidder), amount),
            done ==> final(self).offers.entries@ == old(self).offers.entries@.push(
                Entry { key: OfferKey { asset: offers_id, bidder }, value: amount },
            ),
            done ==> forall|h: Holder| #[trigger]
                final(self).bank.balance(h) == if h == Holder::Escrow {
                    old(self).bank.balance(h) + amount@
                } else {
                    old(self).bank.balance(h)
                },
            final(self).listings == old(self).listings,
            final(self).registry == old(self).registry,
            final(self).escrow == old(self).escrow,
            final(self).package == old(self).package,
    {
        let name = OfferKey { asset: offers_id, bidder };
        if self.offers.find(&name).is_some() {
            return false;
        }
        if !self.bank.mint(Holder::Escrow, amount) {
            return false;
        }
        proof {
            lemma_total_push(self.offers.entries@, Entry { key: name, value: amount });
        }
        self.offers.put(name, amount);
        true
    }
}

} // verus!
