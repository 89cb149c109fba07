//! The listing engine: making, buying and ending listings.

use crate::amount::Amount;
use crate::error::Error;
use crate::event::MarketEvent;
use crate::identity::{is_identity, Holder, Identity};
use crate::keys::{get_id, listing_key};
use crate::market::{Listing, Market};
use crate::registry::Title;
use vstd::prelude::*;

verus! {

impl Market {
    /// Whether `post` is `pre` but for the listings.
    pub open spec fn only_listings_differ(pre: Market, post: Market) -> bool {
        &&& post.offers == pre.offers
        &&& post.bank == pre.bank
        &&& post.registry == pre.registry
        &&& post.escrow == pre.escrow
        &&& post.package == pre.package
    }

    /// Why `create_listing` is refused, if it is.
    pub open spec fn create_listing_refusal(&self, caller: Identity, key: Seq<char>) -> Option<
        Error,
    > {
        if self.registry.owner(key) != Some(caller) {
            Some(Error::PermissionDenied)
        } else if self.registry.approved(caller, key) != Some(self.package) {
            Some(Error::NeedsTransferApproval)
        } else {
            None
        }
    }

    /// What `create_listing` does for the asset stored under `key`: `post` and
    /// `r` are the state and the result after the call on the state `pre`.
    pub open spec fn create_listing_post(
        pre: Market,
        post: Market,
        caller: Identity,
        key: Seq<char>,
        token_contract: String,
        token_id: String,
        price: Amount,
        r: Result<MarketEvent, Error>,
    ) -> bool {
        match r {
            Err(e) => pre.create_listing_refusal(caller, key) == Some(e) && post == pre,
            Ok(event) => {
                &&& pre.create_listing_refusal(caller, key) is None
                &&& event == (MarketEvent::ListingCreated {
                    seller: caller,
                    token_contract,
                    token_id,
                    price,
                })
                &&& post.listings@ == pre.listings@.insert(
                    key,
                    Some(Listing { seller: caller, token_contract, token_id, price }),
                )
                &&& Market::only_listings_differ(pre, post)
            },
        }
    }

    /// Lists the asset stored under `listing_id` for sale at `price`, with
    /// the caller as seller. The caller must own the asset and have allowed
    /// the marketplace to transfer it.
    pub fn create_listing_at(
        &mut self,
        caller: &Identity,
        listing_id: String,
        token_contract: &String,
        token_id: &String,
        price: Amount,
    ) -> (r: Result<MarketEvent, Error>)
        requires
            old(self).wf(),
        ensures
            final(self).wf(),
            final(self).surplus() == old(self).surplus(),
            Market::create_listing_post(
                *old(self),
                *final(self),
                *caller,
                listing_id@,
                *token_contract,
                *token_id,
                price,
                r,
            ),
    {
        let owner = self.registry.owner_of(&listing_id);
        if !is_identity(&owner, caller) {
            return Err(Error::PermissionDenied);
        }
        let allowed = self.registry.get_approved(caller, &listing_id);
        if !is_identity(&allowed, &self.package) {
            return Err(Error::NeedsTransferApproval);
        }
        let listing = Listing {
            seller: *caller,
            token_contract: token_contract.clone(),
            token_id: token_id.clone(),
            price,
        };
        self.listings.put(listing_id, Some(listing));
        Ok(
            MarketEvent::ListingCreated {
                seller: *caller,
                token_contract: token_contract.clone(),
                token_id: token_id.clone(),
                price,
            },
        )
    }

    /// Lists an asset for sale at `price`, with the caller as seller. The
    /// caller must own the asset and have allowed the marketplace to transfer
    /// it.
    pub fn create_listing(
        &mut self,
        caller: &Identity,
        token_contract: &String,
        token_id: &String,
        price: Amount,
    ) -> (r: Result<MarketEvent, Error>)
        requires
            old(self).wf(),
        ensures
            final(self).wf(),
            final(self).surplus() == old(self).surplus(),
            Market::create_listing_post(
                *old(self),
                *final(self),
                *caller,
                listing_key(token_contract@, token_id@),
                *token_contract,
                *token_id,
                price,
                r,
            ),
    {
        let listing_id = get_id(token_contract, token_id);
        self.create_listing_at(caller, listing_id, token_contract, token_id, price)
    }

    /// Why `buy_listing` is refused, if it is.
    pub open spec fn buy_listing_refusal(&self, key: Seq<char>, purse: u64) -> Option<Error> {
        if !self.listings@.contains_key(key) {
            Some(Error::ListingDoesNotExist)
        } else if self.listings@[key] is None {
            Some(Error::ListingCanceledOrSold)
        } else if self.bank.balance(Holder::Purse(purse)) < self.listings@[key].unwrap().price@ {
            Some(Error::BalanceInsufficient)
        } else if self.registry.owner(key) is None {
            Some(Error::AssetTransferFailed)
        } else if self.registry.approved(self.registry.owner(key).unwrap(), key) != Some(
            self.package,
        ) {
            Some(Error::AssetTransferFailed)
        } else {
            None
        }
    }

    /// What `buy_listing` does for the asset stored under `key`: `post` and
    /// `r` are the state and the result after the call on the state `pre`.
    pub open spec fn buy_listing_post(
        pre: Market,
        post: Market,
        caller: Identity,
        key: Seq<char>,
        token_contract: String,
        token_id: String,
        purse: u64,
        r: Result<MarketEvent, Error>,
    ) -> bool {
        match r {
            Err(e) => pre.buy_listing_refusal(key, purse) == Some(e) && post == pre,
            Ok(event) => {
                let listing = pre.listings@[key].unwrap();
                let seller = pre.registry.owner(key).unwrap();
                &&& pre.buy_listing_refusal(key, purse) is None
                &&& event == (MarketEvent::ListingPurchased {
                    seller,
                    buyer: caller,
                    token_contract,
                    token_id,
                    price: listing.price,
                })
                &&& post.listings@ == pre.listings@.insert(key, None)
                &&& post.registry.titles@ == pre.registry.titles@.insert(
                    key,
                    Title { owner: caller, approved: None },
                )
                &&& forall|h: Holder| #[trigger]
                    post.bank.balance(h) == pre.bank.moved(
                        Holder::Purse(purse),
                        Holder::Account(seller),
                        listing.price@,
                        h,
                    )
                &&& post.bank.supply == pre.bank.supply
                &&& post.offers == pre.offers
                &&& post.escrow == pre.escrow
                &&& post.package == pre.package
            },
        }
    }

    /// Buys the asset listed under `listing_id` with what the purse `purse`
    /// holds. The price goes to the asset's owner at the time of the
    /// purchase, the asset to the caller, and the listing ends.
    pub fn buy_listing_at(
        &mut self,
        caller: &Identity,
        listing_id: String,
        token_contract: &String,
        token_id: &String,
        purse: u64,
    ) -> (r: Result<MarketEvent, Error>)
        requires
            old(self).wf(),
        ensures
            final(self).wf(),
            final(self).surplus() == old(self).surplus(),
            Market::buy_listing_post(
                *old(self),
                *final(self),
                *caller,
                listing_id@,
                *token_contract,
                *token_id,
                purse,
                r,
            ),
    {
        let price = match self.listings.get(&listing_id) {
            None => {
                return Err(Error::ListingDoesNotExist);
            },
            Some(None) => {
                return Err(Error::ListingCanceledOrSold);
            },
            Some(Some(listing)) => listing.price,
        };
        let source = Holder::Purse(purse);
        let have = self.bank.balance_of(&source);
        if have.less_than(&price) {
            return Err(Error::BalanceInsufficient);
        }
        let seller = match self.registry.owner_of(&listing_id) {
            None => {
                return Err(Error::AssetTransferFailed);
            },
            Some(owner) => owner,
        };
        let allowed = self.registry.get_approved(&seller, &listing_id);
        if !is_identity(&allowed, &self.package) {
            return Err(Error::AssetTransferFailed);
        }
        let paid = self.bank.transfer(&source, &Holder::Account(seller), &price);
        let handed = self.registry.transfer_from(
            &self.package,
            &seller,
            *caller,
            listing_id.clone(),
        );
        assert(paid is Ok && handed is Ok);
        self.listings.put(listing_id, None);
        Ok(
            MarketEvent::ListingPurchased {
                seller,
                buyer: *caller,
                token_contract: token_contract.clone(),
                token_id: token_id.clone(),
                price,
            },
        )
    }

    /// Buys a listed asset with what the purse `purse` holds. The price goes
    /// to the asset's owner at the time of the purchase, the asset to the
    /// caller, and the listing ends.
    pub fn buy_listing(
        &mut self,
        caller: &Identity,
        token_contract: &String,
        token_id: &String,
        purse: u64,
    ) -> (r: Result<MarketEvent, Error>)
        requires
            old(self).wf(),
        ensures
            final(self).wf(),
            final(self).surplus() == old(self).surplus(),
            Market::buy_listing_post(
                *old(self),
                *final(self),
                *caller,
                listing_key(token_contract@, token_id@),
                *token_contract,
                *token_id,
                purse,
                r,
            ),
    {
        let listing_id = get_id(token_contract, token_id);
        self.buy_listing_at(caller, listing_id, token_contract, token_id, purse)
    }

    /// Ends the listing stored under `listing_id`, whether or not one is
    /// open, without asking who calls and without a report.
    pub fn force_cancel_at(&mut self, listing_id: String)
        requires
            old(self).wf(),
        ensures
            final(self).wf(),
            final(self).listings@ == old(self).listings@.insert(listing_id@, None),
            Market::only_listings_differ(*old(self), *final(self)),
    {
        self.listings.put(listing_id, None);
    }

    /// Ends the listing of an asset, whether or not one is open, without
    /// asking who calls and without a report.
    pub fn force_cancel_listing(&mut self, token_contract: &String, token_id: &String)
        requires
            old(self).wf(),
        ensures
            final(self).wf(),
            final(self).listings@ == old(self).listings@.insert(
                listing_key(token_contract@, token_id@),
                None,
            ),
            Market::only_listings_differ(*old(self), *final(self)),
    {
        self.force_cancel_at(get_id(token_contract, token_id));
    }

    /// What `cancel_listing` does for the asset stored under `key`: `post`
    /// and `r` are the state and the result after the call on the state
    /// `pre`.
    pub open spec fn cancel_listing_post(
        pre: Market,
        post: Market,
        caller: Identity,
        key: Seq<char>,
        token_contract: String,
        token_id: String,
        r: Result<MarketEvent, Error>,
    ) -> bool {
        match r {
            Err(e) => e == Error::PermissionDenied && pre.registry.owner(key) != Some(caller)
                && post == pre,
            Ok(event) => {
                &&& pre.registry.owner(key) == Some(caller)
                &&& event == (MarketEvent::ListingCanceled { token_contract, token_id })
                &&& post.listings@ == pre.listings@.insert(key, None)
                &&& Market::only_listings_differ(pre, post)
            },
        }
    }

    /// Ends the listing stored under `listing_id`, whether or not one is
    /// open. Only the asset's owner may do so.
    pub fn cancel_listing_at(
        &mut self,
        caller: &Identity,
        listing_id: String,
        token_contract: &String,
        token_id: &String,
    ) -> (r: Result<MarketEvent, Error>)
        requires
            old(self).wf(),
        ensures
            final(self).wf(),
            final(self).surplus() == old(self).surplus(),
            Market::cancel_listing_post(
                *old(self),
                *final(self),
                *caller,
                listing_id@,
                *token_contract,
                *token_id,
                r,
            ),
    {
        let owner = self.registry.owner_of(&listing_id);
        if !is_identity(&owner, caller) {
            return Err(Error::PermissionDenied);
        }
        self.force_cancel_at(listing_id);
        Ok(
            MarketEvent::ListingCanceled {
                token_contract: token_contract.clone(),
                token_id: token_id.clone(),
            },
        )
    }

    /// Ends the listing of an asset, whether or not one is open. Only the
    /// asset's owner may do so.
    pub fn cancel_listing(
        &mut self,
        caller: &Identity,
        token_contract: &String,
        token_id: &String,
    ) -> (r: Result<MarketEvent, Error>)
        requires
            old(self).wf(),
        ensures
            final(self).wf(),
            final(self).surplus() == old(self).surplus(),
            Market::cancel_listing_post(
                *old(self),
                *final(self),
                *caller,
                listing_key(token_contract@, token_id@),
                *token_contract,
                *token_id,
                r,
            ),
    {
        let listing_id = get_id(token_contract, token_id);
        self.cancel_listing_at(caller, listing_id, token_contract, token_id)
    }
}

} // verus!
