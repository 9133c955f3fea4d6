//! Token metadata: name, symbol and decimals.

use vstd::prelude::*;

verus! {

/// The number of decimals the token reports, the common default.
pub const DECIMALS: u8 = 18;

/// Descriptive metadata of the token. The ledger never reads it.
pub struct Erc20Metadata {
    /// The human-readable name of the token.
    pub name: String,
    /// The ticker symbol of the token.
    pub symbol: String,
}

impl Erc20Metadata {
    /// Empty metadata: the state that freshly zeroed storage starts in.
    pub fn new() -> (r: Erc20Metadata)
        ensures
            r.name@ == Seq::<char>::empty(),
            r.symbol@ == Seq::<char>::empty(),
    {
        Erc20Metadata { name: String::new(), symbol: String::new() }
    }

    /// The human-readable name of the token.
    pub fn name(&self) -> (r: &String)
        ensures
            r@ == self.name@,
    {
        &self.name
    }

    /// The ticker symbol of the token.
    pub fn symbol(&self) -> (r: &String)
        ensures
            r@ == self.symbol@,
    {
        &self.symbol
    }

    /// The number of decimals used for the token's user representation.
    pub fn decimals(&self) -> (r: u8)
        ensures
            r == DECIMALS,
    {
        DECIMALS
    }
}

} // verus!
