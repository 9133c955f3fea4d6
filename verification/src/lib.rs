//! A minimal owner-gated ERC20-style token model: a fungible-token ledger,
//! a single-owner access-control module, and a `mint` entry point restricted
//! to the owner, with its error translation.

mod address;
mod erc20;
mod metadata;
mod ownable;
mod token;
mod u256;

pub use address::Address;
pub use erc20::Erc20;
pub use erc20::Erc20Error;
pub use metadata::Erc20Metadata;
pub use ownable::Ownable;
pub use ownable::OwnableError;
pub use token::Erc20Example;
pub use token::Error;
pub use token::MintInvalidReceiver;
pub use token::MintOperationError;
pub use token::map_mint_error;
pub use u256::U256;
