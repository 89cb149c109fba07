//! The reasons for which an operation of the marketplace is refused.

use vstd::prelude::*;

verus! {

/// Why an operation was refused. A refused operation changes nothing.
#[derive(Clone, Copy, Debug, PartialEq, Eq, Structural)]
pub enum Error {
    ListingDoesNotExist,
    ListingCanceledOrSold,
    BalanceInsufficient,
    PermissionDenied,
    NoMatchingOffer,
    OfferExists,
    EscrowPurseUnavailable,
    NeedsTransferApproval,
    InvalidCaller,
    AssetTransferFailed,
}

impl Error {
    /// The number under which the ledger reports the error.
    pub open spec fn spec_code(self) -> u16 {
        match self {
            Error::ListingDoesNotExist => 1000,
            Error::ListingCanceledOrSold => 1001,
            Error::BalanceInsufficient => 1002,
            Error::PermissionDenied => 1003,
            Error::NoMatchingOffer => 1004,
            Error::OfferExists => 1005,
            Error::EscrowPurseUnavailable => 1006,
            Error::NeedsTransferApproval => 1007,
            Error::AssetTransferFailed => 1008,
            Error::InvalidCaller => 1,
        }
    }

    /// The number under which the ledger reports the error.
    pub fn code(self) -> (c: u16)
        ensures
            c == self.spec_code(),
    {
        match self {
            Error::ListingDoesNotExist => 1000,
            Error::ListingCanceledOrSold => 1001,
            Error::BalanceInsufficient => 1002,
            Error::PermissionDenied => 1003,
            Error::NoMatchingOffer => 1004,
            Error::OfferExists => 1005,
            Error::EscrowPurseUnavailable => 1006,
            Error::NeedsTransferApproval => 1007,
            Error::AssetTransferFailed => 1008,
            Error::InvalidCaller => 1,
        }
    }
}

/// Distinct errors are reported under distinct numbers.
pub proof fn lemma_codes_distinct(a: Error, b: Error)
    ensures
        a.spec_code() == b.spec_code() ==> a == b,
{
}

} // verus!
