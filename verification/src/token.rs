//! The token contract: a ledger, metadata and an owner, composed, plus an
//! owner-gated `mint` entry point with its error translation.

use vstd::prelude::*;

use crate::address::Address;
use crate::erc20::Erc20;
use crate::erc20::Erc20Error;
use crate::metadata::Erc20Metadata;
use crate::ownable::Ownable;
use crate::ownable::OwnableError;
use crate::u256::{pow_2_256, U256};

verus! {

/// The payload of [`Error::InvalidReceiver`]: minting was asked to deliver
/// tokens to an address the ledger refuses.
#[derive(Clone, Copy, PartialEq, Eq, Structural, Debug)]
pub struct MintInvalidReceiver {
    /// The refused receiving address.
    pub receiver: Address,
}

/// The payload of [`Error::MintError`]: the ledger failed a mint for some
/// reason other than the receiving address.
#[derive(Clone, Copy, PartialEq, Eq, Structural, Debug)]
pub struct MintOperationError {
    /// The account the tokens were meant for.
    pub account: Address,
    /// The amount that was to be minted.
    pub value: U256,
}

/// Everything the token contract can report to a caller.
#[derive(Clone, Copy, PartialEq, Eq, Structural, Debug)]
pub enum Error {
    /// Minting was asked to deliver tokens to an address the ledger refuses.
    InvalidReceiver(MintInvalidReceiver),
    /// The ledger failed a mint for some reason other than the receiver.
    MintError(MintOperationError),
    /// The access-control module refused the call.
    Ownable(OwnableError),
}

/// Translates a ledger failure during minting into the contract's own error:
/// a rejected receiver keeps its meaning, and any other ledger failure
/// becomes a generic mint error carrying the account and the amount.
pub fn map_mint_error(err: Erc20Error, account: Address, value: U256) -> (r: Error)
    ensures
        err is InvalidReceiver ==> r == Error::InvalidReceiver(
            MintInvalidReceiver { receiver: account },
        ),
        !(err is InvalidReceiver) ==> r == Error::MintError(
            MintOperationError { account, value },
        ),
{
    match err {
        Erc20Error::InvalidReceiver { .. } => Error::InvalidReceiver(
            MintInvalidReceiver { receiver: account },
        ),
        _ => Error::MintError(MintOperationError { account, value }),
    }
}

/// The token contract: a standard fungible-token ledger, token metadata and
/// an owner-gated access-control module, with one custom entry point.
pub struct Erc20Example {
    /// The balance ledger.
    pub erc20: Erc20,
    /// The token's name, symbol and decimals.
    pub metadata: Erc20Metadata,
    /// The single-owner access control.
    pub ownable: Ownable,
}

impl Erc20Example {
    /// A freshly deployed contract over zeroed storage: empty ledger, empty
    /// metadata, no owner.
    pub fn new() -> (r: Erc20Example)
        ensures
            r.erc20.wf(),
            r.erc20.supply() == 0,
            forall|a: int| r.erc20.balance(a) == 0,
            r.ownable._owner == (Address { hi: 0, lo: 0 }),
    {
        Erc20Example { erc20: Erc20::new(), metadata: Erc20Metadata::new(), ownable: Ownable::new() }
    }

    /// Creates `value` new tokens for `account`. Only the current owner may
    /// call this; `caller` is the account the host says made the call.
    ///
    /// A call by anyone else fails with the access-control error; minting to
    /// the zero address fails with the invalid-receiver error; otherwise the
    /// account is credited and the total supply grows by `value`. The caller
    /// keeps the supply from overflowing, as the host ledger treats an
    /// overflowing supply as a fatal fault rather than an error.
    pub fn mint(&mut self, caller: Address, account: Address, value: U256) -> (r: Result<
        (),
        Error,
    >)
        requires
            old(self).erc20.wf(),
            (caller == old(self).ownable._owner && account.value() != 0) ==> old(
                self,
            ).erc20.supply() + value.value() < pow_2_256(),
        ensures
            final(self).erc20.wf(),
            final(self).ownable == old(self).ownable,
            final(self).metadata == old(self).metadata,
            caller != old(self).ownable._owner ==> r == Err::<(), Error>(
                Error::Ownable(OwnableError::UnauthorizedAccount { account: caller }),
            ) && *final(self) == *old(self),
            (caller == old(self).ownable._owner && account.value() == 0) ==> r == Err::<(), Error>(
                Error::InvalidReceiver(MintInvalidReceiver { receiver: account }),
            ) && *final(self) == *old(self),
            (caller == old(self).ownable._owner && account.value() != 0) ==> ({
                &&& r == Ok::<(), Error>(())
                &&& final(self).erc20.supply() == old(self).erc20.supply() + value.value()
                &&& forall|a: int|
                    final(self).erc20.balance(a) == (if a == account.value() {
                        old(self).erc20.balance(a) + value.value()
                    } else {
                        old(self).erc20.balance(a)
                    })
            }),
    {
        match self.ownable.only_owner(caller) {
            Err(e) => {
                return Err(Error::Ownable(e));
            },
            Ok(()) => {},
        }
        match self.erc20._mint(account, value) {
            Ok(()) => Ok(()),
            Err(e) => {
                proof {
                    account.lemma_value_injective(Address { hi: 0, lo: 0 });
                }
                Err(map_mint_error(e, account, value))
            },
        }
    }
}

} // verus!
