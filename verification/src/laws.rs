//! Laws of the vault state machine that relate several operations, stated
//! over the store's view and proved once for all inputs.

use vstd::prelude::*;
use crate::derivation::{key_of, lemma_key_of_injective};
use crate::vault::{initialized_vault, OracleProof, Vault};

verus! {

/// Initializing a vault and then reading it yields exactly the supplied
/// share count and the proof record's hash, whatever the store held before;
/// and since a read is a pure function of the store, reading again yields
/// the same data.
pub proof fn lemma_initialize_then_read(
    m: Map<Seq<u8>, Vault>,
    user: [u8; 32],
    initial_supply: u64,
    record: OracleProof,
)
    ensures
        m.insert(user@, initialized_vault(user, initial_supply, record)).contains_key(user@),
        m.insert(user@, initialized_vault(user, initial_supply, record))[user@].total_shares
            == initial_supply,
        m.insert(user@, initialized_vault(user, initial_supply, record))[user@].rwa_hash
            == record.hash,
        m.insert(user@, initialized_vault(user, initial_supply, record))[user@].authority == user,
{
}

/// Distinct authorities derive distinct storage locations.
pub proof fn lemma_distinct_authorities_distinct_keys(a1: [u8; 32], a2: [u8; 32])
    requires
        a1@ != a2@,
    ensures
        key_of(a1@) != key_of(a2@),
{
    lemma_key_of_injective(a1@, a2@);
}

/// An operation that replaces one authority's record — as every successful
/// mint or burn does, and as a successful initialization does for a fresh
/// authority — leaves every other authority's vault exactly as it was.
pub proof fn lemma_other_vault_unaffected(
    m: Map<Seq<u8>, Vault>,
    bystander: Seq<u8>,
    caller: Seq<u8>,
    v: Vault,
)
    requires
        bystander != caller,
    ensures
        m.insert(caller, v).contains_key(bystander) == m.contains_key(bystander),
        m.contains_key(bystander) ==> m.insert(caller, v)[bystander] == m[bystander],
{
}

} // verus!
