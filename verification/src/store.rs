//! The vault store and the three operations of the state machine.
//!
//! The store holds one vault per authority. Its view is a map from an
//! authority's bytes to that authority's vault, and every operation's
//! contract is stated over that map: `initialize_vault` inserts a fresh
//! record or fails with `AlreadyExists`; `mint_shares` and `burn_shares`
//! replace exactly the caller's record, moving the ledger balances with it,
//! or fail leaving store and balances untouched. Every precondition —
//! including every arithmetic bound — is validated before the first ledger
//! effect, so a failure never leaves a partial update behind.

use vstd::prelude::*;
use vstd::pervasive::unreached;
use crate::derivation::{derive_vault_address, key_of, salt_of};
use crate::ledger::{burn_from, mint_to, transfer};
use crate::vault::{
    burn_fits, bytes32_eq, initialized_vault, mint_fits, proof_matches, BurnShares, ErrorCode,
    InitializeVault, MintShares, Vault,
};

verus! {

/// No two vaults in the sequence share an authority.
pub open spec fn authorities_distinct(s: Seq<Vault>) -> bool {
    forall|i: int, j: int| 0 <= i < j < s.len() ==> s[i].authority@ != s[j].authority@
}

/// The map an ordered sequence of vaults denotes, keyed by authority bytes.
pub open spec fn map_of(s: Seq<Vault>) -> Map<Seq<u8>, Vault>
    decreases s.len(),
{
    if s.len() == 0 {
        Map::empty()
    } else {
        map_of(s.drop_last()).insert(s.last().authority@, s.last())
    }
}

/// The persistent vault store: one record per authority.
pub struct VaultStore {
    vaults: Vec<Vault>,
}

impl VaultStore {
    /// Well-formedness: authorities are pairwise distinct and each record
    /// carries the salt its authority derives.
    pub closed spec fn wf(self) -> bool {
        &&& authorities_distinct(self.vaults@)
        &&& forall|i: int|
            0 <= i < self.vaults@.len() ==> (#[trigger] self.vaults@[i]).bump == salt_of(
                self.vaults@[i].authority@,
            )
    }

    /// The records as a whole sequence, for the store's internal lemmas.
    pub closed spec fn records(self) -> Seq<Vault> {
        self.vaults@
    }

    /// An empty store.
    pub fn new() -> (r: VaultStore)
        ensures
            r.wf(),
            r@ =~= Map::<Seq<u8>, Vault>::empty(),
    {
        VaultStore { vaults: Vec::new() }
    }
}

impl View for VaultStore {
    type V = Map<Seq<u8>, Vault>;

    closed spec fn view(&self) -> Map<Seq<u8>, Vault> {
        map_of(self.vaults@)
    }
}

proof fn lemma_map_of_contains(s: Seq<Vault>, a: Seq<u8>)
    ensures
        map_of(s).contains_key(a) <==> exists|i: int|
            0 <= i < s.len() && (#[trigger] s[i]).authority@ == a,
    decreases s.len(),
{
    if s.len() > 0 {
        lemma_map_of_contains(s.drop_last(), a);
        if map_of(s).contains_key(a) {
            if s.last().authority@ == a {
                assert(s[s.len() - 1].authority@ == a);
            } else {
                let i = choose|i: int|
                    0 <= i < s.drop_last().len() && (#[trigger] s.drop_last()[i]).authority@ == a;
                assert(s[i].authority@ == a);
            }
        }
        if exists|i: int| 0 <= i < s.len() && (#[trigger] s[i]).authority@ == a {
            let i = choose|i: int| 0 <= i < s.len() && (#[trigger] s[i]).authority@ == a;
            if i < s.len() - 1 {
                assert(s.drop_last()[i].authority@ == a);
            }
        }
    }
}

proof fn lemma_map_of_index(s: Seq<Vault>, i: int)
    requires
        authorities_distinct(s),
        0 <= i < s.len(),
    ensures
        map_of(s).contains_key(s[i].authority@),
        map_of(s)[s[i].authority@] == s[i],
    decreases s.len(),
{
    if i == s.len() - 1 {
    } else {
        lemma_map_of_index(s.drop_last(), i);
        assert(s.drop_last()[i] == s[i]);
        assert(s[i].authority@ != s.last().authority@);
    }
}

proof fn lemma_map_of_push(s: Seq<Vault>, v: Vault)
    ensures
        map_of(s.push(v)) == map_of(s).insert(v.authority@, v),
{
    assert(s.push(v).drop_last() =~= s);
    assert(s.push(v).last() == v);
}

proof fn lemma_map_of_update(s: Seq<Vault>, i: int, v: Vault)
    requires
        authorities_distinct(s),
        0 <= i < s.len(),
        v.authority == s[i].authority,
    ensures
        map_of(s.update(i, v)) =~= map_of(s).insert(v.authority@, v),
    decreases s.len(),
{
    let t = s.update(i, v);
    if i == s.len() - 1 {
        assert(t.drop_last() =~= s.drop_last());
        assert(t.last() == v);
    } else {
        lemma_map_of_update(s.drop_last(), i, v);
        assert(t.drop_last() =~= s.drop_last().update(i, v));
        assert(t.last() == s.last());
        assert(s[i].authority@ != s.last().authority@);
        assert(map_of(s.drop_last()).insert(v.authority@, v).insert(s.last().authority@, s.last())
            =~= map_of(s.drop_last()).insert(s.last().authority@, s.last()).insert(
            v.authority@,
            v,
        ));
    }
}

/// Finds the index of the caller's vault, if one exists.
fn find_vault(store: &VaultStore, authority: &[u8; 32]) -> (r: Option<usize>)
    requires
        store.wf(),
    ensures
        match r {
            Some(i) => {
                &&& i < store.records().len()
                &&& store.records()[i as int].authority@ == authority@
                &&& store@.contains_key(authority@)
                &&& store@[authority@] == store.records()[i as int]
            },
            None => !store@.contains_key(authority@),
        },
{
    let n = store.vaults.len();
    let mut i: usize = 0;
    while i < n
        invariant
            store.wf(),
            n == store.records().len(),
            i <= n,
            forall|j: int| 0 <= j < i ==> store.records()[j].authority@ != authority@,
        decreases n - i,
    {
        if bytes32_eq(&store.vaults[i].authority, authority) {
            proof {
                lemma_map_of_index(store.records(), i as int);
            }
            return Some(i);
        }
        i = i + 1;
    }
    proof {
        lemma_map_of_contains(store.records(), authority@);
    }
    None
}

/// Creates a new vault for the caller with an initial share count, copying
/// the commitment from the oracle record and storing the derivation salt.
///
/// Fails with `AlreadyExists`, changing nothing, exactly when a vault already
/// exists for this authority. No ledger side effects.
pub fn initialize_vault(store: &mut VaultStore, ctx: &InitializeVault, initial_supply: u64) -> (r:
    Result<(), ErrorCode>)
    requires
        old(store).wf(),
    ensures
        final(store).wf(),
        match r {
            Ok(()) => {
                &&& !old(store)@.contains_key(ctx.user@)
                &&& final(store)@ =~= old(store)@.insert(
                    ctx.user@,
                    initialized_vault(ctx.user, initial_supply, ctx.rwa_proof),
                )
            },
            Err(e) => {
                &&& e == ErrorCode::AlreadyExists
                &&& old(store)@.contains_key(ctx.user@)
                &&& final(store)@ =~= old(store)@
            },
        },
{
    match find_vault(store, &ctx.user) {
        Some(_) => Err(ErrorCode::AlreadyExists),
        None => {
            let derived = derive_vault_address(&ctx.user);
            let v = Vault {
                authority: ctx.user,
                total_shares: initial_supply,
                rwa_hash: ctx.rwa_proof.hash,
                bump: derived.1,
            };
            proof {
                lemma_map_of_push(store.records(), v);
                lemma_map_of_contains(store.records(), ctx.user@);
                assert forall|i: int, j: int|
                    0 <= i < j < store.records().push(v).len() implies store.records().push(
                    v,
                )[i].authority@ != store.records().push(v)[j].authority@ by {
                    if j < store.records().len() {
                        assert(store.records()[i].authority@ != store.records()[j].authority@);
                    } else {
                        assert(store.records().push(v)[i] == store.records()[i]);
                    }
                }
            }
            store.vaults.push(v);
            Ok(())
        },
    }
}

/// Reads the caller's vault, if one exists. A pure accessor: the result is a
/// function of the store alone, so repeated reads return identical data.
pub fn get_vault(store: &VaultStore, authority: &[u8; 32]) -> (r: Option<Vault>)
    requires
        store.wf(),
    ensures
        match r {
            Some(v) => store@.contains_key(authority@) && v == store@[authority@],
            None => !store@.contains_key(authority@),
        },
{
    match find_vault(store, authority) {
        Some(i) => Some(store.vaults[i]),
        None => None,
    }
}

/// Mints `amount` shares against the caller's vault.
///
/// Exactly one of four outcomes holds, decided in this order:
/// - the presented proof's hash differs from the vault's commitment:
///   `InvalidProof`, nothing changes;
/// - the zero-knowledge verifier rejected the caller: `InvalidZkProof`,
///   nothing changes;
/// - some balance or the share counter would leave the 64-bit range:
///   `MathOverflow`, nothing changes;
/// - otherwise `amount` collateral moves from the caller to the vault,
///   `amount` shares are minted to the caller under the vault's derived
///   signing capability, and `total_shares` grows by exactly `amount`.
///
/// `zk_verdict` is the verdict of the pluggable zero-knowledge verifier, an
/// external collaborator consulted before any effect.
pub fn mint_shares(
    store: &mut VaultStore,
    ctx: &mut MintShares,
    amount: u64,
    zk_verdict: bool,
) -> (r: Result<(), ErrorCode>)
    requires
        old(store).wf(),
        old(store)@.contains_key(old(ctx).user@),
        old(ctx).user_token.owner@ == old(ctx).user@,
        old(ctx).user_vault_token.owner@ == old(ctx).user@,
        old(ctx).vault_mint.mint_authority@ == key_of(old(ctx).user@),
    ensures
        final(store).wf(),
        final(ctx).user == old(ctx).user,
        final(ctx).user_oracle_proof == old(ctx).user_oracle_proof,
        final(ctx).user_token.owner == old(ctx).user_token.owner,
        final(ctx).vault_token.owner == old(ctx).vault_token.owner,
        final(ctx).user_vault_token.owner == old(ctx).user_vault_token.owner,
        final(ctx).vault_mint.mint_authority == old(ctx).vault_mint.mint_authority,
        match r {
            Ok(()) => {
                let v = old(store)@[old(ctx).user@];
                &&& proof_matches(v, old(ctx).user_oracle_proof)
                &&& zk_verdict
                &&& mint_fits(v, *old(ctx), amount)
                &&& final(store)@ =~= old(store)@.insert(
                    old(ctx).user@,
                    (Vault { total_shares: (v.total_shares + amount) as u64, ..v }),
                )
                &&& final(ctx).user_token.balance == old(ctx).user_token.balance - amount
                &&& final(ctx).vault_token.balance == old(ctx).vault_token.balance + amount
                &&& final(ctx).vault_mint.supply == old(ctx).vault_mint.supply + amount
                &&& final(ctx).user_vault_token.balance == old(ctx).user_vault_token.balance
                    + amount
            },
            Err(e) => {
                let v = old(store)@[old(ctx).user@];
                &&& final(store)@ =~= old(store)@
                &&& *final(ctx) == *old(ctx)
                &&& if !proof_matches(v, old(ctx).user_oracle_proof) {
                    e == ErrorCode::InvalidProof
                } else if !zk_verdict {
                    e == ErrorCode::InvalidZkProof
                } else {
                    e == ErrorCode::MathOverflow && !mint_fits(v, *old(ctx), amount)
                }
            },
        },
{
    let idx = match find_vault(store, &ctx.user) {
        Some(i) => i,
        None => unreached(),
    };
    let v = store.vaults[idx];

    if !bytes32_eq(&ctx.user_oracle_proof.hash, &v.rwa_hash) {
        return Err(ErrorCode::InvalidProof);
    }
    if !zk_verdict {
        return Err(ErrorCode::InvalidZkProof);
    }
    let fits = amount <= ctx.user_token.balance && ctx.vault_token.balance <= u64::MAX - amount
        && ctx.vault_mint.supply <= u64::MAX - amount && ctx.user_vault_token.balance <= u64::MAX
        - amount && v.total_shares <= u64::MAX - amount;
    if !fits {
        return Err(ErrorCode::MathOverflow);
    }

    // Deposit the collateral, authorized by the caller.
    transfer(&mut ctx.user_token, &mut ctx.vault_token, amount, &ctx.user);

    // Mint shares to the caller, authorized by the vault acting as minting
    // authority under its re-derived signing key; the stored salt stays the
    // vault's record of that derivation.
    let signer = derive_vault_address(&ctx.user);
    mint_to(&mut ctx.vault_mint, &mut ctx.user_vault_token, amount, &signer.0);

    let updated = Vault { total_shares: v.total_shares + amount, ..v };
    proof {
        lemma_map_of_update(store.records(), idx as int, updated);
        assert forall|i: int, j: int|
            0 <= i < j < store.records().update(idx as int, updated).len() implies store.records()
            .update(idx as int, updated)[i].authority@ != store.records().update(
            idx as int,
            updated,
        )[j].authority@ by {
            assert(store.records()[i].authority@ != store.records()[j].authority@);
        }
    }
    store.vaults[idx] = updated;
    Ok(())
}

/// Burns `amount` shares from the caller's vault.
///
/// Fails with `MathOverflow`, changing nothing, exactly when the caller's
/// share balance, the outstanding supply, or the vault's share counter is
/// smaller than `amount`. Otherwise `amount` shares are burned from the
/// caller — a holder-authorized burn — and `total_shares` shrinks by exactly
/// `amount`. Redemption of the underlying collateral is a future extension,
/// deliberately not performed here.
pub fn burn_shares(store: &mut VaultStore, ctx: &mut BurnShares, amount: u64) -> (r: Result<
    (),
    ErrorCode,
>)
    requires
        old(store).wf(),
        old(store)@.contains_key(old(ctx).user@),
        old(ctx).user_vault_token.owner@ == old(ctx).user@,
    ensures
        final(store).wf(),
        final(ctx).user == old(ctx).user,
        final(ctx).user_vault_token.owner == old(ctx).user_vault_token.owner,
        final(ctx).vault_mint.mint_authority == old(ctx).vault_mint.mint_authority,
        match r {
            Ok(()) => {
                let v = old(store)@[old(ctx).user@];
                &&& burn_fits(v, *old(ctx), amount)
                &&& final(store)@ =~= old(store)@.insert(
                    old(ctx).user@,
                    (Vault { total_shares: (v.total_shares - amount) as u64, ..v }),
                )
                &&& final(ctx).user_vault_token.balance == old(ctx).user_vault_token.balance
                    - amount
                &&& final(ctx).vault_mint.supply == old(ctx).vault_mint.supply - amount
            },
            Err(e) => {
                let v = old(store)@[old(ctx).user@];
                &&& e == ErrorCode::MathOverflow
                &&& !burn_fits(v, *old(ctx), amount)
                &&& final(store)@ =~= old(store)@
                &&& *final(ctx) == *old(ctx)
            },
        },
{
    let idx = match find_vault(store, &ctx.user) {
        Some(i) => i,
        None => unreached(),
    };
    let v = store.vaults[idx];

    let fits = amount <= ctx.user_vault_token.balance && amount <= ctx.vault_mint.supply && amount
        <= v.total_shares;
    if !fits {
        return Err(ErrorCode::MathOverflow);
    }

    // Burn the caller's shares, authorized by the caller as holder.
    burn_from(&mut ctx.vault_mint, &mut ctx.user_vault_token, amount, &ctx.user);

    let updated = Vault { total_shares: v.total_shares - amount, ..v };
    proof {
        lemma_map_of_update(store.records(), idx as int, updated);
        assert forall|i: int, j: int|
            0 <= i < j < store.records().update(idx as int, updated).len() implies store.records()
            .update(idx as int, updated)[i].authority@ != store.records().update(
            idx as int,
            updated,
        )[j].authority@ by {
            assert(store.records()[i].authority@ != store.records()[j].authority@);
        }
    }
    store.vaults[idx] = updated;
    Ok(())
}

} // verus!
