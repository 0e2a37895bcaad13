//! The vault record, the oracle proof record, the per-operation account
//! bundles, and the error taxonomy.

use vstd::prelude::*;
use crate::derivation::salt_of;
use crate::ledger::{Mint, TokenAccount};

verus! {

/// An attested hash and timestamp produced by the oracle pipeline. The vault
/// core only reads these records; it never creates or alters them.
#[derive(Clone, Copy, Debug)]
pub struct OracleProof {
    /// 32-byte attestation value.
    pub hash: [u8; 32],
    /// Attestation time.
    pub timestamp: i64,
}

/// The per-authority vault record: the share counter and the proof commitment
/// all later mints are checked against.
#[derive(Clone, Copy, Debug)]
pub struct Vault {
    /// The controlling principal; set at creation, immutable.
    pub authority: [u8; 32],
    /// Net sum of all successful mint amounts minus burn amounts.
    pub total_shares: u64,
    /// Commitment copied from the initializing proof record; the trust anchor.
    pub rwa_hash: [u8; 32],
    /// Derivation salt recorded at creation so the vault's signing capability
    /// can be reconstructed without recomputing it.
    pub bump: u8,
}

/// Why an operation was rejected. Every failure is terminal for the
/// triggering operation and leaves no partial effect.
#[derive(Clone, Copy, Debug, PartialEq, Eq, Structural)]
pub enum ErrorCode {
    /// The supplied proof's hash does not match the vault's committed hash.
    InvalidProof,
    /// Arithmetic on a counter or balance would overflow or underflow.
    MathOverflow,
    /// The pluggable zero-knowledge verifier rejected the caller's proof.
    InvalidZkProof,
    /// A vault already exists for this authority.
    AlreadyExists,
}

/// Accounts read and written by `initialize_vault`.
#[derive(Clone, Copy, Debug)]
pub struct InitializeVault {
    /// The caller; becomes the vault's authority.
    pub user: [u8; 32],
    /// The oracle record whose hash becomes the vault's commitment.
    pub rwa_proof: OracleProof,
}

/// Accounts read and written by `mint_shares`.
#[derive(Clone, Copy, Debug)]
pub struct MintShares {
    /// The caller; must be the vault's authority.
    pub user: [u8; 32],
    /// The proof record the caller presents; checked against the commitment.
    pub user_oracle_proof: OracleProof,
    /// The share token's mint; its authority is the vault's derived key.
    pub vault_mint: Mint,
    /// The caller's collateral account; the deposit source.
    pub user_token: TokenAccount,
    /// The vault's collateral account; the deposit destination.
    pub vault_token: TokenAccount,
    /// The caller's share account; newly minted shares land here.
    pub user_vault_token: TokenAccount,
}

/// Accounts read and written by `burn_shares`.
#[derive(Clone, Copy, Debug)]
pub struct BurnShares {
    /// The caller; must be the vault's authority.
    pub user: [u8; 32],
    /// The share token's mint; its supply shrinks with the burn.
    pub vault_mint: Mint,
    /// The caller's share account; the burn source.
    pub user_vault_token: TokenAccount,
}

/// The vault a successful `initialize_vault` creates for `user`.
pub open spec fn initialized_vault(user: [u8; 32], initial_supply: u64, record: OracleProof) -> Vault {
    Vault {
        authority: user,
        total_shares: initial_supply,
        rwa_hash: record.hash,
        bump: salt_of(user@),
    }
}

/// Whether a presented proof matches a vault's committed hash.
pub open spec fn proof_matches(v: Vault, record: OracleProof) -> bool {
    record.hash@ == v.rwa_hash@
}

/// Whether every balance and counter touched by a mint of `amount` stays
/// within the 64-bit unsigned range.
pub open spec fn mint_fits(v: Vault, ctx: MintShares, amount: u64) -> bool {
    &&& amount <= ctx.user_token.balance
    &&& ctx.vault_token.balance + amount <= u64::MAX
    &&& ctx.vault_mint.supply + amount <= u64::MAX
    &&& ctx.user_vault_token.balance + amount <= u64::MAX
    &&& v.total_shares + amount <= u64::MAX
}

/// Whether every balance and counter touched by a burn of `amount` stays
/// non-negative.
pub open spec fn burn_fits(v: Vault, ctx: BurnShares, amount: u64) -> bool {
    &&& amount <= ctx.user_vault_token.balance
    &&& amount <= ctx.vault_mint.supply
    &&& amount <= v.total_shares
}

/// Compares two 32-byte values.
pub fn bytes32_eq(a: &[u8; 32], b: &[u8; 32]) -> (r: bool)
    ensures
        r == (a@ == b@),
{
    let mut i: usize = 0;
    while i < 32
        invariant
            i <= 32,
            forall|j: int| 0 <= j < i ==> a@[j] == b@[j],
        decreases 32 - i,
    {
        if a[i] != b[i] {
            return false;
        }
        i = i + 1;
    }
    proof {
        assert(a@ =~= b@);
    }
    true
}

} // verus!
