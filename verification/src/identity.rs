//! Who takes part in the marketplace, and how the caller of an operation is
//! told from the chain of calls that led to it.

use crate::error::Error;
use crate::table::Key;
use vstd::prelude::*;

verus! {

/// A 32-byte address.
pub type Address = [u8; 32];

/// Whether two addresses hold the same bytes.
pub fn same_address(a: &Address, b: &Address) -> (r: bool)
    ensures
        r == (*a == *b),
{
    let mut i: usize = 0;
    while i < 32
        invariant
            i <= 32,
            forall|j: int| 0 <= j < i ==> a[j] == b[j],
        decreases 32 - i,
    {
        if a[i] != b[i] {
            return false;
        }
        i = i + 1;
    }
    assert(*a =~= *b);
    true
}

/// A party: an account of a user, or a stored contract.
#[derive(Clone, Copy, Debug, PartialEq, Eq)]
pub enum Identity {
    Account(Address),
    Contract(Address),
}

impl View for Identity {
    type V = Identity;

    open spec fn view(&self) -> Identity {
        *self
    }
}

impl Key for Identity {
    fn same(&self, other: &Self) -> (r: bool) {
        match (self, other) {
            (Identity::Account(a), Identity::Account(b)) => same_address(a, b),
            (Identity::Contract(a), Identity::Contract(b)) => same_address(a, b),
            _ => false,
        }
    }
}

/// Whether `who` is the party `holder`, where there is one.
pub fn is_identity(holder: &Option<Identity>, who: &Identity) -> (r: bool)
    ensures
        r == (*holder == Some(*who)),
{
    match holder {
        Some(h) => h.same(who),
        None => false,
    }
}

/// One level of the chain of calls that led to the running code.
#[derive(Clone, Copy, Debug, PartialEq, Eq)]
pub enum CallFrame {
    /// Code that a user's account runs directly.
    Session { account: Address },
    /// Stored code that runs as a user's account.
    StoredSession { account: Address, package: Address, contract: Address },
    /// A stored contract.
    StoredContract { package: Address, contract: Address },
}

/// The party that called the running contract directly: the level below the
/// top of the chain, where that is a user's session or a stored contract.
pub open spec fn direct_caller(stack: Seq<CallFrame>) -> Option<Identity> {
    if stack.len() < 2 {
        None
    } else {
        match stack[stack.len() - 2] {
            CallFrame::Session { account } => Some(Identity::Account(account)),
            CallFrame::StoredContract { package, contract } => Some(Identity::Contract(contract)),
            CallFrame::StoredSession { .. } => None,
        }
    }
}

/// The party that called the running contract directly. A chain of calls
/// without such a party is refused with `InvalidCaller`.
pub fn resolve_caller(stack: &Vec<CallFrame>) -> (r: Result<Identity, Error>)
    ensures
        r == match direct_caller(stack@) {
            Some(who) => Ok::<Identity, Error>(who),
            None => Err::<Identity, Error>(Error::InvalidCaller),
        },
{
    let n: usize = stack.len();
    if n < 2 {
        return Err(Error::InvalidCaller);
    }
    match stack[n - 2] {
        CallFrame::Session { account } => Ok(Identity::Account(account)),
        CallFrame::StoredContract { package, contract } => Ok(Identity::Contract(contract)),
        CallFrame::StoredSession { .. } => Err(Error::InvalidCaller),
    }
}

/// The package of the running contract: that of the top of the chain of
/// calls, where the top is a stored contract.
pub open spec fn running_package(stack: Seq<CallFrame>) -> Option<Address> {
    if stack.len() == 0 {
        None
    } else {
        match stack.last() {
            CallFrame::StoredContract { package, contract } => Some(package),
            _ => None,
        }
    }
}

/// The package of the running contract, where the running code is a stored
/// contract.
pub fn contract_package_hash(stack: &Vec<CallFrame>) -> (r: Option<Address>)
    ensures
        r == running_package(stack@),
{
    let n: usize = stack.len();
    if n == 0 {
        return None;
    }
    match stack[n - 1] {
        CallFrame::StoredContract { package, contract } => Some(package),
        _ => None,
    }
}

/// Who holds currency: a party's own account, a purse that a caller brought
/// as a source of payment, or the purse that holds the funds of open offers.
#[derive(Clone, Copy, Debug, PartialEq, Eq)]
pub enum Holder {
    Account(Identity),
    Purse(u64),
    Escrow,
}

impl View for Holder {
    type V = Holder;

    open spec fn view(&self) -> Holder {
        *self
    }
}

impl Key for Holder {
    fn same(&self, other: &Self) -> (r: bool) {
        match (self, other) {
            (Holder::Account(a), Holder::Account(b)) => a.same(b),
            (Holder::Purse(a), Holder::Purse(b)) => *a == *b,
            (Holder::Escrow, Holder::Escrow) => true,
            _ => false,
        }
    }
}

} // verus!
