use veilvault::derivation::derive_vault_address;
use veilvault::ledger::{Mint, TokenAccount};
use veilvault::store::{burn_shares, get_vault, initialize_vault, mint_shares, VaultStore};
use veilvault::vault::{BurnShares, ErrorCode, InitializeVault, MintShares, OracleProof};

fn proof_record(fill: u8) -> OracleProof {
    OracleProof { hash: [fill; 32], timestamp: 1_700_000_000 }
}

fn init_ctx(user: [u8; 32], fill: u8) -> InitializeVault {
    InitializeVault { user, rwa_proof: proof_record(fill) }
}

fn mint_ctx(user: [u8; 32], proof_fill: u8, collateral: u64, supply: u64) -> MintShares {
    let (vault_key, _salt) = derive_vault_address(&user);
    MintShares {
        user,
        user_oracle_proof: proof_record(proof_fill),
        vault_mint: Mint { mint_authority: vault_key, supply },
        user_token: TokenAccount { owner: user, balance: collateral },
        vault_token: TokenAccount { owner: vault_key, balance: 0 },
        user_vault_token: TokenAccount { owner: user, balance: 0 },
    }
}

#[test]
fn initialize_then_read() {
    let user = [1u8; 32];
    let mut store = VaultStore::new();
    let r = initialize_vault(&mut store, &init_ctx(user, 7), 1000);
    assert_eq!(r, Ok(()));
    let v = get_vault(&store, &user).expect("vault must exist after initialization");
    assert_eq!(v.total_shares, 1000);
    assert_eq!(v.rwa_hash, [7u8; 32]);
    assert_eq!(v.authority, user);
}

#[test]
fn initialize_twice_fails_and_keeps_first() {
    let user = [2u8; 32];
    let mut store = VaultStore::new();
    assert_eq!(initialize_vault(&mut store, &init_ctx(user, 7), 1000), Ok(()));
    let second = initialize_vault(&mut store, &init_ctx(user, 9), 555);
    assert_eq!(second, Err(ErrorCode::AlreadyExists));
    let v = get_vault(&store, &user).expect("first vault must survive");
    assert_eq!(v.total_shares, 1000);
    assert_eq!(v.rwa_hash, [7u8; 32]);
}

#[test]
fn mint_with_matching_proof_moves_balances() {
    let user = [3u8; 32];
    let mut store = VaultStore::new();
    assert_eq!(initialize_vault(&mut store, &init_ctx(user, 7), 1000), Ok(()));
    let mut ctx = mint_ctx(user, 7, 600, 0);
    assert_eq!(mint_shares(&mut store, &mut ctx, 500, true), Ok(()));
    assert_eq!(ctx.user_token.balance, 100);
    assert_eq!(ctx.vault_token.balance, 500);
    assert_eq!(ctx.user_vault_token.balance, 500);
    assert_eq!(ctx.vault_mint.supply, 500);
    let v = get_vault(&store, &user).unwrap();
    assert_eq!(v.total_shares, 1500);
}

#[test]
fn mint_with_wrong_proof_fails_and_changes_nothing() {
    let user = [4u8; 32];
    let mut store = VaultStore::new();
    assert_eq!(initialize_vault(&mut store, &init_ctx(user, 7), 1000), Ok(()));
    let mut ctx = mint_ctx(user, 8, 600, 0);
    assert_eq!(mint_shares(&mut store, &mut ctx, 500, true), Err(ErrorCode::InvalidProof));
    assert_eq!(ctx.user_token.balance, 600);
    assert_eq!(ctx.vault_token.balance, 0);
    assert_eq!(ctx.user_vault_token.balance, 0);
    assert_eq!(ctx.vault_mint.supply, 0);
    assert_eq!(get_vault(&store, &user).unwrap().total_shares, 1000);
}

#[test]
fn mint_rejected_by_zk_verifier_changes_nothing() {
    let user = [5u8; 32];
    let mut store = VaultStore::new();
    assert_eq!(initialize_vault(&mut store, &init_ctx(user, 7), 1000), Ok(()));
    let mut ctx = mint_ctx(user, 7, 600, 0);
    assert_eq!(mint_shares(&mut store, &mut ctx, 500, false), Err(ErrorCode::InvalidZkProof));
    assert_eq!(ctx.user_token.balance, 600);
    assert_eq!(ctx.vault_mint.supply, 0);
    assert_eq!(get_vault(&store, &user).unwrap().total_shares, 1000);
}

#[test]
fn mint_overflowing_counter_fails_with_no_ledger_effect() {
    let user = [6u8; 32];
    let mut store = VaultStore::new();
    assert_eq!(initialize_vault(&mut store, &init_ctx(user, 7), u64::MAX - 10), Ok(()));
    let mut ctx = mint_ctx(user, 7, 600, 0);
    assert_eq!(mint_shares(&mut store, &mut ctx, 11, true), Err(ErrorCode::MathOverflow));
    assert_eq!(ctx.user_token.balance, 600);
    assert_eq!(ctx.vault_token.balance, 0);
    assert_eq!(ctx.user_vault_token.balance, 0);
    assert_eq!(ctx.vault_mint.supply, 0);
    assert_eq!(get_vault(&store, &user).unwrap().total_shares, u64::MAX - 10);
}

#[test]
fn mint_beyond_collateral_balance_fails() {
    let user = [7u8; 32];
    let mut store = VaultStore::new();
    assert_eq!(initialize_vault(&mut store, &init_ctx(user, 7), 0), Ok(()));
    let mut ctx = mint_ctx(user, 7, 100, 0);
    assert_eq!(mint_shares(&mut store, &mut ctx, 101, true), Err(ErrorCode::MathOverflow));
    assert_eq!(ctx.user_token.balance, 100);
    assert_eq!(get_vault(&store, &user).unwrap().total_shares, 0);
}

#[test]
fn mint_at_exact_counter_limit_succeeds() {
    let user = [8u8; 32];
    let mut store = VaultStore::new();
    assert_eq!(initialize_vault(&mut store, &init_ctx(user, 7), u64::MAX - 10), Ok(()));
    let mut ctx = mint_ctx(user, 7, 10, 0);
    assert_eq!(mint_shares(&mut store, &mut ctx, 10, true), Ok(()));
    assert_eq!(get_vault(&store, &user).unwrap().total_shares, u64::MAX);
}

#[test]
fn burn_more_than_total_shares_fails_with_no_ledger_effect() {
    let user = [9u8; 32];
    let mut store = VaultStore::new();
    assert_eq!(initialize_vault(&mut store, &init_ctx(user, 7), 100), Ok(()));
    let (vault_key, _salt) = derive_vault_address(&user);
    let mut ctx = BurnShares {
        user,
        vault_mint: Mint { mint_authority: vault_key, supply: 500 },
        user_vault_token: TokenAccount { owner: user, balance: 500 },
    };
    assert_eq!(burn_shares(&mut store, &mut ctx, 101), Err(ErrorCode::MathOverflow));
    assert_eq!(ctx.user_vault_token.balance, 500);
    assert_eq!(ctx.vault_mint.supply, 500);
    assert_eq!(get_vault(&store, &user).unwrap().total_shares, 100);
}

#[test]
fn burn_entire_counter_reaches_zero() {
    let user = [10u8; 32];
    let mut store = VaultStore::new();
    assert_eq!(initialize_vault(&mut store, &init_ctx(user, 7), 100), Ok(()));
    let (vault_key, _salt) = derive_vault_address(&user);
    let mut ctx = BurnShares {
        user,
        vault_mint: Mint { mint_authority: vault_key, supply: 100 },
        user_vault_token: TokenAccount { owner: user, balance: 100 },
    };
    assert_eq!(burn_shares(&mut store, &mut ctx, 100), Ok(()));
    assert_eq!(ctx.user_vault_token.balance, 0);
    assert_eq!(ctx.vault_mint.supply, 0);
    assert_eq!(get_vault(&store, &user).unwrap().total_shares, 0);
}

#[test]
fn distinct_authorities_get_distinct_locations() {
    let a1 = [11u8; 32];
    let mut a2 = [11u8; 32];
    a2[31] = 12;
    let (k1, _s1) = derive_vault_address(&a1);
    let (k2, _s2) = derive_vault_address(&a2);
    assert_ne!(k1, k2);
}

#[test]
fn derivation_is_deterministic() {
    let a = [13u8; 32];
    assert_eq!(derive_vault_address(&a), derive_vault_address(&a));
}

#[test]
fn operation_by_one_authority_leaves_another_vault_untouched() {
    let a1 = [14u8; 32];
    let a2 = [15u8; 32];
    let mut store = VaultStore::new();
    assert_eq!(initialize_vault(&mut store, &init_ctx(a1, 7), 1000), Ok(()));
    assert_eq!(initialize_vault(&mut store, &init_ctx(a2, 9), 2000), Ok(()));
    let mut ctx = mint_ctx(a2, 9, 600, 0);
    assert_eq!(mint_shares(&mut store, &mut ctx, 500, true), Ok(()));
    let v1 = get_vault(&store, &a1).unwrap();
    assert_eq!(v1.total_shares, 1000);
    assert_eq!(v1.rwa_hash, [7u8; 32]);
    assert_eq!(get_vault(&store, &a2).unwrap().total_shares, 2500);
}

#[test]
fn reading_twice_returns_identical_data() {
    let user = [16u8; 32];
    let mut store = VaultStore::new();
    assert_eq!(initialize_vault(&mut store, &init_ctx(user, 7), 42), Ok(()));
    let first = get_vault(&store, &user).unwrap();
    let second = get_vault(&store, &user).unwrap();
    assert_eq!(first.authority, second.authority);
    assert_eq!(first.total_shares, second.total_shares);
    assert_eq!(first.rwa_hash, second.rwa_hash);
    assert_eq!(first.bump, second.bump);
}

#[test]
fn end_to_end_mint_then_burn() {
    let user = [17u8; 32];
    let mut store = VaultStore::new();
    assert_eq!(initialize_vault(&mut store, &init_ctx(user, 7), 1000), Ok(()));
    let mut mctx = mint_ctx(user, 7, 500, 0);
    assert_eq!(mint_shares(&mut store, &mut mctx, 500, true), Ok(()));
    assert_eq!(get_vault(&store, &user).unwrap().total_shares, 1500);
    let mut bctx = BurnShares {
        user,
        vault_mint: mctx.vault_mint,
        user_vault_token: mctx.user_vault_token,
    };
    assert_eq!(burn_shares(&mut store, &mut bctx, 300), Ok(()));
    assert_eq!(get_vault(&store, &user).unwrap().total_shares, 1200);
    assert_eq!(bctx.user_vault_token.balance, 200);
    assert_eq!(bctx.vault_mint.supply, 200);
}

#[test]
fn vault_stores_salt_of_its_authority() {
    let user = [18u8; 32];
    let mut store = VaultStore::new();
    assert_eq!(initialize_vault(&mut store, &init_ctx(user, 7), 1), Ok(()));
    let (_key, salt) = derive_vault_address(&user);
    assert_eq!(get_vault(&store, &user).unwrap().bump, salt);
}

#[test]
fn missing_vault_reads_as_none() {
    let store = VaultStore::new();
    assert!(get_vault(&store, &[19u8; 32]).is_none());
}
