//! A multi-asset fungible-token ledger: asset issuance, per-account balances,
//! total supply, owner-granted allowances, and the transitions that change them.

pub mod types;
pub mod table;
pub mod ledger;
pub mod laws;
