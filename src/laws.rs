use vstd::prelude::*;

use crate::ledger::LedgerView;
use crate::types::{AccountId, AssetId, TokenBalance};

verus! {

/// No balance and no allowance is ever negative, nor beyond the largest
/// amount: amounts are stored unsigned and never wrap.
pub proof fn lemma_amounts_in_range(
    v: LedgerView,
    id: AssetId,
    owner: AccountId,
    spender: AccountId,
)
    ensures
        0 <= v.balance(id, owner) <= TokenBalance::MAX,
        0 <= v.allowance(id, owner, spender) <= TokenBalance::MAX,
        0 <= v.supply_of(id) <= TokenBalance::MAX,
{
}

/// A successful delegated transfer moves balances exactly as the direct
/// transfer would, and lowers the spender's allowance by exactly the amount,
/// leaving every other allowance as it was. It fails only where the
/// allowance is too small or the direct transfer fails.
pub proof fn lemma_transfer_from_consumes_allowance(
    v: LedgerView,
    id: AssetId,
    owner: AccountId,
    spender: AccountId,
    target: AccountId,
    amount: TokenBalance,
)
    ensures
        match v.transfer_from(id, owner, spender, target, amount) {
            Ok(w) => {
                &&& v.transfer(id, owner, target, amount) is Ok
                &&& w.balances == v.transfer(id, owner, target, amount)->Ok_0.balances
                &&& w.events == v.transfer(id, owner, target, amount)->Ok_0.events
                &&& w.supply == v.supply
                &&& w.infos == v.infos
                &&& w.allowance(id, owner, spender) + amount == v.allowance(id, owner, spender)
                &&& forall|i: AssetId, o: AccountId, s: AccountId|
                    (i, o, s) != (id, owner, spender) ==> #[trigger] w.allowance(i, o, s)
                        == v.allowance(i, o, s)
            },
            Err(_) => v.allowance(id, owner, spender) < amount || v.transfer(
                id,
                owner,
                target,
                amount,
            ) is Err,
        },
{
}

/// Approving twice leaves the second amount, not the sum.
pub proof fn lemma_approve_overwrites(
    v: LedgerView,
    id: AssetId,
    owner: AccountId,
    spender: AccountId,
    first: TokenBalance,
    second: TokenBalance,
)
    ensures
        v.approve(id, owner, spender, first).approve(id, owner, spender, second).allowance(
            id,
            owner,
            spender,
        ) == second,
{
}

} // verus!
