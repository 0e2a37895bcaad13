//! A model of the fungible-token ledger collaborator at its interface
//! boundary: capability-scoped transfer, mint and burn over plain balances.
//!
//! Each operation demands, as a precondition, the capability the real ledger
//! would check at run time: only an account's owner moves or burns its funds,
//! and only a mint's designated authority issues new supply. Callers validate
//! every arithmetic bound before invoking an operation, so a mid-operation
//! failure can never leave a partial balance update behind.

use vstd::prelude::*;

verus! {

/// A fungible-token balance held by one owner.
#[derive(Clone, Copy, Debug)]
pub struct TokenAccount {
    /// The principal whose authorization moves funds out of this account.
    pub owner: [u8; 32],
    /// Current balance.
    pub balance: u64,
}

/// A fungible token's mint: its outstanding supply and the one principal
/// allowed to issue more.
#[derive(Clone, Copy, Debug)]
pub struct Mint {
    /// The principal whose authorization mints new supply.
    pub mint_authority: [u8; 32],
    /// Outstanding supply.
    pub supply: u64,
}

/// Moves `amount` from `from` to `to`, authorized by `from`'s owner.
pub fn transfer(from: &mut TokenAccount, to: &mut TokenAccount, amount: u64, authorized_by: &[u8; 32])
    requires
        old(from).owner@ == authorized_by@,
        amount <= old(from).balance,
        old(to).balance + amount <= u64::MAX,
    ensures
        final(from).balance == old(from).balance - amount,
        final(from).owner == old(from).owner,
        final(to).balance == old(to).balance + amount,
        final(to).owner == old(to).owner,
{
    from.balance = from.balance - amount;
    to.balance = to.balance + amount;
}

/// Issues `amount` of new supply into `to`, authorized by the mint authority.
pub fn mint_to(mint: &mut Mint, to: &mut TokenAccount, amount: u64, authorized_by: &[u8; 32])
    requires
        old(mint).mint_authority@ == authorized_by@,
        old(mint).supply + amount <= u64::MAX,
        old(to).balance + amount <= u64::MAX,
    ensures
        final(mint).supply == old(mint).supply + amount,
        final(mint).mint_authority == old(mint).mint_authority,
        final(to).balance == old(to).balance + amount,
        final(to).owner == old(to).owner,
{
    mint.supply = mint.supply + amount;
    to.balance = to.balance + amount;
}

/// Destroys `amount` of supply out of `from`, authorized by `from`'s owner.
pub fn burn_from(mint: &mut Mint, from: &mut TokenAccount, amount: u64, authorized_by: &[u8; 32])
    requires
        old(from).owner@ == authorized_by@,
        amount <= old(from).balance,
        amount <= old(mint).supply,
    ensures
        final(mint).supply == old(mint).supply - amount,
        final(mint).mint_authority == old(mint).mint_authority,
        final(from).balance == old(from).balance - amount,
        final(from).owner == old(from).owner,
{
    mint.supply = mint.supply - amount;
    from.balance = from.balance - amount;
}

} // verus!
