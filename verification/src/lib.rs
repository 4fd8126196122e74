//! Custody for conditional asset exchange, with its rules proved.
//!
//! An escrow locks a maker's deposit in a vault that answers to a derived
//! identity, which no key pair stands behind, until a taker pays for it or
//! the maker reclaims it. A marketplace registry keeps one configuration
//! record per name, with a reward mint that answers to the record itself.
//!
//! - [`address`]: identities.
//! - [`derivation`]: which seeds are fed to the ledger's address derivation,
//!   and the derivation itself.
//! - [`table`]: a finite map keyed by identities.
//! - [`ledger`]: mints, holdings, and the calls that create, fund, move and
//!   close them.
//! - [`escrow`]: Make, Take and Refund.
//! - [`marketplace`]: Init.
//! - [`laws`]: what holds of every state and of every sequence of calls.
//! - [`supply`]: how much of each asset is held, and that no call but an
//!   issue changes it.
//! - [`error`]: the kinds of rejection.

pub mod address;
pub mod derivation;
pub mod error;
pub mod escrow;
pub mod laws;
pub mod ledger;
pub mod marketplace;
pub mod supply;
pub mod table;
