//! Deterministic derivation of a vault's storage key and signing salt.
//!
//! The storage key is a pure, injective function of the authority alone, so
//! that each authority owns exactly one vault location and the location can be
//! re-derived on every later operation. The salt is derived once at creation,
//! stored in the vault, and reused whenever the vault acts as an authorizing
//! principal; it is never recomputed implicitly from unrelated state.

use vstd::prelude::*;

verus! {

/// Byte-wise tag mixed into the authority bytes to form the storage key.
pub const KEY_TAG: u8 = 0x56;

/// Seed value for the salt fold.
pub const SALT_SEED: u8 = 0xff;

/// The storage key derived from an authority: each byte of the authority
/// combined with the key tag. Injective, so distinct authorities always
/// derive distinct storage locations.
pub open spec fn key_of(a: Seq<u8>) -> Seq<u8> {
    Seq::new(a.len(), |i: int| a[i] ^ KEY_TAG)
}

/// Fold of a byte sequence by exclusive or, seeded with `SALT_SEED`.
pub open spec fn xor_fold(s: Seq<u8>) -> u8
    decreases s.len(),
{
    if s.len() == 0 {
        SALT_SEED
    } else {
        xor_fold(s.drop_last()) ^ s.last()
    }
}

/// The derivation salt recorded in a vault at creation time.
pub open spec fn salt_of(a: Seq<u8>) -> u8 {
    xor_fold(a)
}

/// Derives the storage key and the salt for a vault from its authority alone.
pub fn derive_vault_address(authority: &[u8; 32]) -> (r: ([u8; 32], u8))
    ensures
        r.0@ == key_of(authority@),
        r.1 == salt_of(authority@),
{
    let mut key: [u8; 32] = [0u8; 32];
    let mut salt: u8 = SALT_SEED;
    let mut i: usize = 0;
    while i < 32
        invariant
            i <= 32,
            forall|j: int| 0 <= j < i ==> key@[j] == key_of(authority@)[j],
            salt == xor_fold(authority@.take(i as int)),
        decreases 32 - i,
    {
        key[i] = authority[i] ^ KEY_TAG;
        salt = salt ^ authority[i];
        proof {
            assert(authority@.take(i as int + 1).drop_last() =~= authority@.take(i as int));
            assert(authority@.take(i as int + 1).last() == authority@[i as int]);
        }
        i = i + 1;
    }
    proof {
        assert(key@ =~= key_of(authority@));
        assert(authority@.take(32) =~= authority@);
    }
    (key, salt)
}

/// Distinct authorities derive distinct storage keys: the derivation is
/// injective on sequences of equal length.
pub proof fn lemma_key_of_injective(a1: Seq<u8>, a2: Seq<u8>)
    requires
        a1.len() == a2.len(),
        a1 != a2,
    ensures
        key_of(a1) != key_of(a2),
{
    if key_of(a1) == key_of(a2) {
        assert forall|i: int| 0 <= i < a1.len() implies a1[i] == a2[i] by {
            let x = a1[i];
            let y = a2[i];
            assert(key_of(a1)[i] == key_of(a2)[i]);
            assert(x ^ KEY_TAG == y ^ KEY_TAG);
            assert(x == y) by (bit_vector)
                requires
                    x ^ 0x56u8 == y ^ 0x56u8,
            ;
        }
        assert(a1 =~= a2);
        assert(false);
    }
}

} // verus!
