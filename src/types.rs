use vstd::prelude::*;

verus! {

/// Identifier of an asset, allocated from zero upwards, one per issuance.
pub type AssetId = u32;

/// Identifier of an account, already resolved by the caller.
pub type AccountId = u64;

/// An amount of some asset, in its smallest unit.
pub type TokenBalance = u128;

/// Fixed-size display name of an asset.
pub type Name = [u8; 16];

/// Fixed-size ticker symbol of an asset.
pub type Symbol = [u8; 8];

/// Metadata recorded once, when an asset is issued.
#[derive(Clone, Copy, Debug, PartialEq, Eq)]
pub struct AssetInfo {
    pub name: Name,
    pub symbol: Symbol,
    pub decimals: u8,
}

impl Default for AssetInfo {
    /// Blank metadata: zeroed name and symbol, no decimals.
    fn default() -> (r: AssetInfo)
        ensures
            r.name@ == seq![0u8; 16],
            r.symbol@ == seq![0u8; 8],
            r.decimals == 0,
    {
        AssetInfo { name: [0u8; 16], symbol: [0u8; 8], decimals: 0 }
    }
}

/// Why a transition was refused. A refused transition changes nothing.
#[derive(Clone, Copy, Debug, PartialEq, Eq, Structural)]
pub enum Error {
    /// The debited balance is smaller than the amount.
    BalanceLow,
    /// Reserved; no transition returns it.
    BalanceZero,
    /// The spender's allowance is smaller than the amount.
    AllowanceLow,
    /// A transfer of nothing.
    AmountZero,
    /// No asset was issued under the given id.
    AssetNotExists,
}

/// A notification, recorded once for each successful transition.
#[derive(Clone, Copy, Debug, PartialEq, Eq, Structural)]
pub enum Event {
    /// (asset, issuer, initial supply)
    Issued(AssetId, AccountId, TokenBalance),
    /// (asset, owner, target, amount)
    Transferred(AssetId, AccountId, AccountId, TokenBalance),
    /// (asset, owner, spender, amount)
    Approval(AssetId, AccountId, AccountId, TokenBalance),
    /// (asset, account, amount)
    Minted(AssetId, AccountId, TokenBalance),
    /// (asset, account, amount)
    Burned(AssetId, AccountId, TokenBalance),
}

} // verus!
