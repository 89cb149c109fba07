//! The register of assets: who owns each asset, and whom the owner has
//! allowed to hand it on.

use crate::identity::{is_identity, Identity};
use crate::table::{Key, Table};
use vstd::prelude::*;

verus! {

/// The owner of an asset, and the party that may transfer it for the owner.
#[derive(Clone, Copy, Debug, PartialEq, Eq)]
pub struct Title {
    pub owner: Identity,
    pub approved: Option<Identity>,
}

/// Why the register refused a transfer.
#[derive(Clone, Copy, Debug, PartialEq, Eq, Structural)]
pub enum AssetTransferError {
    /// The sender does not own the asset.
    NotOwner,
    /// The owner has not allowed the party that asks to transfer the asset.
    NotApproved,
}

/// The register, keyed by the assets' keys.
#[derive(Clone, Debug, PartialEq, Eq)]
pub struct Registry {
    pub titles: Table<String, Title>,
}

impl Registry {
    /// No asset is entered twice.
    pub open spec fn wf(&self) -> bool {
        self.titles.wf()
    }

    /// The owner of the asset `key`, where it has one.
    pub open spec fn owner(&self, key: Seq<char>) -> Option<Identity> {
        if self.titles@.contains_key(key) {
            Some(self.titles@[key].owner)
        } else {
            None
        }
    }

    /// The party that `owner` has allowed to transfer the asset `key`, where
    /// `owner` owns it and has allowed one.
    pub open spec fn approved(&self, owner: Identity, key: Seq<char>) -> Option<Identity> {
        if self.titles@.contains_key(key) && self.titles@[key].owner == owner {
            self.titles@[key].approved
        } else {
            None
        }
    }

    /// Why a transfer of `key` from `sender`, asked for by `spender`, is
    /// refused, if it is.
    pub open spec fn transfer_refusal(
        &self,
        spender: Identity,
        sender: Identity,
        key: Seq<char>,
    ) -> Option<AssetTransferError> {
        if self.owner(key) != Some(sender) {
            Some(AssetTransferError::NotOwner)
        } else if self.approved(sender, key) != Some(spender) {
            Some(AssetTransferError::NotApproved)
        } else {
            None
        }
    }

    /// A register without assets.
    pub fn new() -> (r: Registry)
        ensures
            r.wf(),
            r.titles@ == Map::<Seq<char>, Title>::empty(),
    {
        Registry { titles: Table::new() }
    }

    /// The owner of the asset `key`, where it has one.
    pub fn owner_of(&self, key: &String) -> (r: Option<Identity>)
        requires
            self.wf(),
        ensures
            r == self.owner(key@),
    {
        match self.titles.get(key) {
            Some(t) => Some(t.owner),
            None => None,
        }
    }

    /// The party that `owner` has allowed to transfer the asset `key`.
    pub fn get_approved(&self, owner: &Identity, key: &String) -> (r: Option<Identity>)
        requires
            self.wf(),
        ensures
            r == self.approved(*owner, key@),
    {
        match self.titles.get(key) {
            Some(t) => {
                if t.owner.same(owner) {
                    t.approved
                } else {
                    None
                }
            },
            None => None,
        }
    }

    /// Enters `owner` as the owner of the asset `key`, with nobody allowed to
    /// transfer it.
    pub fn assign(&mut self, key: String, owner: Identity)
        requires
            old(self).wf(),
        ensures
            final(self).wf(),
            final(self).titles@ == old(self).titles@.insert(
                key@,
                Title { owner, approved: None },
            ),
    {
        self.titles.put(key, Title { owner, approved: None });
    }

    /// Lets `spender` transfer the asset `key` for `owner`; returns whether
    /// `owner` owns it, without which nothing changes.
    pub fn approve(&mut self, owner: &Identity, spender: Identity, key: String) -> (done: bool)
        requires
            old(self).wf(),
        ensures
            final(self).wf(),
            done == (old(self).owner(key@) == Some(*owner)),
            done ==> final(self).titles@ == old(self).titles@.insert(
                key@,
                Title { owner: *owner, approved: Some(spender) },
            ),
            !done ==> *final(self) == *old(self),
    {
        let current = self.owner_of(&key);
        if is_identity(&current, owner) {
            self.titles.put(key, Title { owner: *owner, approved: Some(spender) });
            true
        } else {
            false
        }
    }

    /// Transfers the asset `key` from `sender` to `recipient` at the request
    /// of `spender`. The transfer ends the permission that allowed it.
    pub fn transfer_from(
        &mut self,
        spender: &Identity,
        sender: &Identity,
        recipient: Identity,
        key: String,
    ) -> (r: Result<(), AssetTransferError>)
        requires
            old(self).wf(),
        ensures
            final(self).wf(),
            r == match old(self).transfer_refusal(*spender, *sender, key@) {
                Some(e) => Err::<(), AssetTransferError>(e),
                None => Ok::<(), AssetTransferError>(()),
            },
            r is Err ==> *final(self) == *old(self),
            r is Ok ==> final(self).titles@ == old(self).titles@.insert(
                key@,
                Title { owner: recipient, approved: None },
            ),
    {
        let current = self.owner_of(&key);
        if !is_identity(&current, sender) {
            return Err(AssetTransferError::NotOwner);
        }
        let allowed = self.get_approved(sender, &key);
        if !is_identity(&allowed, spender) {
            return Err(AssetTransferError::NotApproved);
        }
        self.titles.put(key, Title { owner: recipient, approved: None });
        Ok(())
    }
}

} // verus!
