use assets::ledger::Module;
use assets::types::{AssetInfo, Error, Event};

const A: u64 = 1;
const B: u64 = 2;
const C: u64 = 3;
const D: u64 = 4;

fn info() -> AssetInfo {
    AssetInfo { name: *b"Test Token\0\0\0\0\0\0", symbol: *b"TST\0\0\0\0\0", decimals: 12 }
}

fn issued() -> Module {
    let mut m = Module::new();
    let id = m.inner_issue(&A, 1000, &info());
    assert_eq!(id, 0);
    m
}

fn total_held(m: &Module, id: u32, accounts: &[u64]) -> u128 {
    accounts.iter().map(|a| m.balance_of(&id, a)).sum()
}

#[test]
fn issue_allocates_first_id_and_credits_issuer() {
    let m = issued();
    assert_eq!(m.balance_of(&0, &A), 1000);
    assert_eq!(m.total_supply(&0), 1000);
    assert_eq!(m.asset_info(&0), Some(info()));
    assert_eq!(m.next_asset_id(), 1);
    assert_eq!(m.events(), &[Event::Issued(0, A, 1000)]);
}

#[test]
fn ids_increase_by_one() {
    let mut m = issued();
    assert_eq!(m.inner_issue(&B, 0, &info()), 1);
    assert_eq!(m.inner_issue(&C, 5, &info()), 2);
    assert_eq!(m.total_supply(&1), 0);
    assert_eq!(m.balance_of(&2, &C), 5);
    assert_eq!(m.next_asset_id(), 3);
}

#[test]
fn unknown_asset_reads_as_empty() {
    let m = issued();
    assert_eq!(m.asset_info(&7), None);
    assert_eq!(m.total_supply(&7), 0);
    assert_eq!(m.balance_of(&7, &A), 0);
    assert_eq!(m.allowances(&7, &A, &B), 0);
}

#[test]
fn transfer_moves_balance() {
    let mut m = issued();
    assert_eq!(m.inner_transfer(&0, &A, &B, 400), Ok(()));
    assert_eq!(m.balance_of(&0, &A), 600);
    assert_eq!(m.balance_of(&0, &B), 400);
    assert_eq!(m.total_supply(&0), 1000);
    assert_eq!(m.events().last(), Some(&Event::Transferred(0, A, B, 400)));
}

#[test]
fn transfer_insufficient_balance_fails() {
    let mut m = issued();
    m.inner_transfer(&0, &A, &B, 400).unwrap();
    let events = m.events().len();
    assert_eq!(m.inner_transfer(&0, &A, &B, 700), Err(Error::BalanceLow));
    assert_eq!(m.balance_of(&0, &A), 600);
    assert_eq!(m.balance_of(&0, &B), 400);
    assert_eq!(m.events().len(), events);
}

#[test]
fn transfer_zero_amount_fails() {
    let mut m = issued();
    assert_eq!(m.inner_transfer(&0, &A, &B, 0), Err(Error::AmountZero));
    assert_eq!(m.balance_of(&0, &A), 1000);
    assert_eq!(m.events().len(), 1);
}

#[test]
fn transfer_whole_balance() {
    let mut m = issued();
    assert_eq!(m.inner_transfer(&0, &A, &B, 1000), Ok(()));
    assert_eq!(m.balance_of(&0, &A), 0);
    assert_eq!(m.balance_of(&0, &B), 1000);
}

#[test]
fn self_transfer_keeps_balance() {
    let mut m = issued();
    assert_eq!(m.inner_transfer(&0, &A, &A, 250), Ok(()));
    assert_eq!(m.balance_of(&0, &A), 1000);
    assert_eq!(m.total_supply(&0), 1000);
}

#[test]
fn transfer_of_unissued_asset_is_balance_low() {
    let mut m = issued();
    assert_eq!(m.inner_transfer(&5, &A, &B, 1), Err(Error::BalanceLow));
}

#[test]
fn approve_then_transfer_from() {
    let mut m = issued();
    m.inner_transfer(&0, &A, &B, 400).unwrap();
    assert_eq!(m.inner_approve(&0, &A, &C, 300), Ok(()));
    assert_eq!(m.allowances(&0, &A, &C), 300);
    assert_eq!(m.inner_transfer_from(&0, &A, &C, &D, 300), Ok(()));
    assert_eq!(m.allowances(&0, &A, &C), 0);
    assert_eq!(m.balance_of(&0, &A), 300);
    assert_eq!(m.balance_of(&0, &D), 300);
    assert_eq!(m.events().last(), Some(&Event::Transferred(0, A, D, 300)));
}

#[test]
fn transfer_from_exhausted_allowance_fails() {
    let mut m = issued();
    m.inner_approve(&0, &A, &C, 300).unwrap();
    m.inner_transfer_from(&0, &A, &C, &D, 300).unwrap();
    assert_eq!(m.inner_transfer_from(&0, &A, &C, &D, 1), Err(Error::AllowanceLow));
    assert_eq!(m.balance_of(&0, &A), 700);
    assert_eq!(m.balance_of(&0, &D), 300);
}

#[test]
fn transfer_from_failing_transfer_keeps_allowance() {
    let mut m = issued();
    m.inner_approve(&0, &A, &C, 5000).unwrap();
    assert_eq!(m.inner_transfer_from(&0, &A, &C, &D, 2000), Err(Error::BalanceLow));
    assert_eq!(m.allowances(&0, &A, &C), 5000);
    assert_eq!(m.balance_of(&0, &A), 1000);
    assert_eq!(m.inner_transfer_from(&0, &A, &C, &D, 0), Err(Error::AmountZero));
    assert_eq!(m.allowances(&0, &A, &C), 5000);
}

#[test]
fn transfer_from_partial_allowance() {
    let mut m = issued();
    m.inner_approve(&0, &A, &C, 300).unwrap();
    assert_eq!(m.inner_transfer_from(&0, &A, &C, &D, 120), Ok(()));
    assert_eq!(m.allowances(&0, &A, &C), 180);
    assert_eq!(m.balance_of(&0, &A), 880);
    assert_eq!(m.balance_of(&0, &D), 120);
}

#[test]
fn approve_overwrites() {
    let mut m = issued();
    m.inner_approve(&0, &A, &C, 300).unwrap();
    m.inner_approve(&0, &A, &C, 50).unwrap();
    assert_eq!(m.allowances(&0, &A, &C), 50);
    assert_eq!(m.allowances(&0, &A, &B), 0);
    assert_eq!(m.events().last(), Some(&Event::Approval(0, A, C, 50)));
}

#[test]
fn mint_unknown_asset_fails() {
    let mut m = issued();
    assert_eq!(m.inner_mint(&99, &A, 50), Err(Error::AssetNotExists));
    assert_eq!(m.balance_of(&99, &A), 0);
    assert_eq!(m.total_supply(&99), 0);
    assert_eq!(m.balance_of(&0, &A), 1000);
    assert_eq!(m.events().len(), 1);
}

#[test]
fn mint_adds_to_balance_and_supply() {
    let mut m = issued();
    assert_eq!(m.inner_mint(&0, &B, 50), Ok(()));
    assert_eq!(m.balance_of(&0, &B), 50);
    assert_eq!(m.total_supply(&0), 1050);
    assert_eq!(m.inner_mint(&0, &B, 0), Ok(()));
    assert_eq!(m.total_supply(&0), 1050);
    assert_eq!(m.events().last(), Some(&Event::Minted(0, B, 0)));
}

#[test]
fn mint_saturates() {
    let mut m = issued();
    assert_eq!(m.inner_mint(&0, &A, u128::MAX), Ok(()));
    assert_eq!(m.balance_of(&0, &A), u128::MAX);
    assert_eq!(m.total_supply(&0), u128::MAX);
}

#[test]
fn burn_takes_from_balance_and_supply() {
    let mut m = issued();
    assert_eq!(m.inner_burn(&0, &A, 300), Ok(()));
    assert_eq!(m.balance_of(&0, &A), 700);
    assert_eq!(m.total_supply(&0), 700);
    assert_eq!(m.events().last(), Some(&Event::Burned(0, A, 300)));
}

#[test]
fn burn_more_than_held_fails() {
    let mut m = issued();
    assert_eq!(m.inner_burn(&0, &A, 1001), Err(Error::BalanceLow));
    assert_eq!(m.balance_of(&0, &A), 1000);
    assert_eq!(m.total_supply(&0), 1000);
}

#[test]
fn burn_unknown_asset_fails() {
    let mut m = issued();
    assert_eq!(m.inner_burn(&3, &A, 0), Err(Error::AssetNotExists));
}

#[test]
fn supply_equals_sum_of_balances() {
    let mut m = issued();
    let accounts = [A, B, C, D];
    m.inner_transfer(&0, &A, &B, 400).unwrap();
    m.inner_approve(&0, &B, &C, 100).unwrap();
    m.inner_transfer_from(&0, &B, &C, &D, 100).unwrap();
    m.inner_mint(&0, &C, 77).unwrap();
    m.inner_burn(&0, &A, 10).unwrap();
    let _ = m.inner_transfer(&0, &A, &B, 10_000);
    let _ = m.inner_burn(&0, &D, 101);
    assert_eq!(m.total_supply(&0), 1067);
    assert_eq!(total_held(&m, 0, &accounts), m.total_supply(&0));
}

#[test]
fn caller_entry_points() {
    let mut m = Module::new();
    assert_eq!(m.issue(A, 1000, info()), 0);
    assert_eq!(m.transfer(A, 0, B, 400), Ok(()));
    assert_eq!(m.approve(A, 0, C, 300), Ok(()));
    assert_eq!(m.transfer_from(C, 0, A, D, 300), Ok(()));
    assert_eq!(m.allowances(&0, &A, &C), 0);
    assert_eq!(m.balance_of(&0, &A), 300);
    assert_eq!(m.balance_of(&0, &D), 300);
    assert_eq!(m.transfer_from(C, 0, A, D, 1), Err(Error::AllowanceLow));
}

#[test]
fn delegated_transfer_matches_direct_transfer() {
    let mut direct = issued();
    let mut delegated = issued();
    delegated.inner_approve(&0, &A, &C, 500).unwrap();
    direct.inner_transfer(&0, &A, &D, 321).unwrap();
    delegated.inner_transfer_from(&0, &A, &C, &D, 321).unwrap();
    for who in [A, B, C, D] {
        assert_eq!(direct.balance_of(&0, &who), delegated.balance_of(&0, &who));
    }
    assert_eq!(delegated.allowances(&0, &A, &C), 179);
}

#[test]
fn failed_calls_change_nothing() {
    let mut m = issued();
    m.inner_approve(&0, &A, &C, 10).unwrap();
    let before = m.events().to_vec();
    assert!(m.inner_transfer(&0, &B, &A, 1).is_err());
    assert!(m.inner_transfer_from(&0, &A, &C, &D, 11).is_err());
    assert!(m.inner_burn(&0, &B, 1).is_err());
    assert!(m.inner_mint(&1, &B, 1).is_err());
    assert_eq!(m.events(), &before[..]);
    assert_eq!(m.balance_of(&0, &A), 1000);
    assert_eq!(m.balance_of(&0, &B), 0);
    assert_eq!(m.balance_of(&0, &D), 0);
    assert_eq!(m.allowances(&0, &A, &C), 10);
    assert_eq!(m.total_supply(&0), 1000);
}

#[test]
fn default_asset_info_is_blank() {
    let d = AssetInfo::default();
    assert_eq!(d.name, [0u8; 16]);
    assert_eq!(d.symbol, [0u8; 8]);
    assert_eq!(d.decimals, 0);
}
