//! Single-owner access control.

use vstd::prelude::*;

use crate::address::Address;

verus! {

/// The errors the access-control module reports.
#[derive(Clone, Copy, PartialEq, Eq, Structural, Debug)]
pub enum OwnableError {
    /// The calling account is not the owner.
    UnauthorizedAccount {
        /// The account that made the call.
        account: Address,
    },
    /// An address unfit to own the contract, such as the zero address.
    InvalidOwner {
        /// The rejected owner address.
        owner: Address,
    },
}

/// An access-control module that restricts operations to a single owner.
#[derive(Clone, Copy, PartialEq, Eq, Structural, Debug)]
pub struct Ownable {
    /// The current owner. The field is writable so that a host may install
    /// the deploying account directly, the way contract storage is seeded.
    pub _owner: Address,
}

impl Ownable {
    /// A module whose owner is the zero address: the unowned state that
    /// freshly zeroed storage starts in.
    pub fn new() -> (r: Ownable)
        ensures
            r._owner == (Address { hi: 0, lo: 0 }),
    {
        Ownable { _owner: Address::zero() }
    }

    /// The address of the current owner.
    pub fn owner(&self) -> (r: Address)
        ensures
            r == self._owner,
    {
        self._owner
    }

    /// Errs exactly when `caller` is not the current owner.
    pub fn only_owner(&self, caller: Address) -> (r: Result<(), OwnableError>)
        ensures
            caller == self._owner ==> r == Ok::<(), OwnableError>(()),
            caller != self._owner ==> r == Err::<(), OwnableError>(
                OwnableError::UnauthorizedAccount { account: caller },
            ),
    {
        if self.owner() != caller {
            return Err(OwnableError::UnauthorizedAccount { account: caller });
        }
        Ok(())
    }
}

} // verus!
