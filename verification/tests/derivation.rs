use clmm_client::addr::{Address, DerivationError};
use clmm_client::bytes::{i32_be, u16_be};
use clmm_client::config::resolve_pool_addresses;
use clmm_client::seeds::{
    derive_amm_config, derive_bitmap_extension, derive_pool, derive_position, derive_support_mint,
    derive_tick_array,
};
use clmm_client::support::{create_support_mint_associated, support_mint_authority_approved};

fn addr(byte: u8) -> Address {
    Address::new(vec![byte; 32])
}

fn solana_key(a: &Address) -> solana_pubkey::Pubkey {
    let mut b = [0u8; 32];
    b.copy_from_slice(&a.bytes);
    solana_pubkey::Pubkey::new_from_array(b)
}

#[test]
fn derive_is_deterministic_for_equal_inputs() {
    let program = addr(7);
    let tag: Vec<u8> = b"pool".to_vec();
    let comps = vec![vec![1u8; 32], vec![2u8; 32]];
    let r1 = clmm_client::addr::derive(&tag, &comps, &program).unwrap();
    let r2 = clmm_client::addr::derive(&tag, &comps, &program).unwrap();
    assert_eq!(r1.0.bytes, r2.0.bytes);
    assert_eq!(r1.1, r2.1);
}

#[test]
fn derive_rejects_overlong_seed_component() {
    let program = addr(7);
    let tag: Vec<u8> = vec![0u8; 33];
    let comps: Vec<Vec<u8>> = Vec::new();
    assert!(matches!(clmm_client::addr::derive(&tag, &comps, &program), Err(DerivationError::SeedTooLong)));
    let tag2: Vec<u8> = b"pool".to_vec();
    let comps2 = vec![vec![1u8; 32], vec![2u8; 40]];
    assert!(matches!(clmm_client::addr::derive(&tag2, &comps2, &program), Err(DerivationError::SeedTooLong)));
}

#[test]
fn derive_rejects_too_many_seed_components() {
    let program = addr(7);
    let tag: Vec<u8> = b"pool".to_vec();
    let comps = vec![vec![1u8; 8]; 15];
    assert!(matches!(clmm_client::addr::derive(&tag, &comps, &program), Err(DerivationError::SeedTooLong)));
}

#[test]
fn derive_pool_is_mint_order_invariant() {
    let program = addr(9);
    let config = addr(3);
    let mint_a = addr(1);
    let mint_b = addr(2);
    let ab = derive_pool(&program, &config, &mint_a, &mint_b).unwrap();
    let ba = derive_pool(&program, &config, &mint_b, &mint_a).unwrap();
    assert_eq!(ab.0.bytes, ba.0.bytes);
    assert_eq!(ab.1, ba.1);
}

#[test]
fn derive_amm_config_matches_reference_derivation() {
    let program = addr(9);
    let ours = derive_amm_config(&program, 3).unwrap();
    let (theirs, bump) = solana_pubkey::Pubkey::find_program_address(
        &[b"amm_config", &3u16.to_be_bytes()],
        &solana_key(&program),
    );
    assert_eq!(ours.0.bytes, theirs.to_bytes().to_vec());
    assert_eq!(ours.1, bump);
}

#[test]
fn scenario_pool_derivation_with_ordered_mints() {
    let program = addr(9);
    let mint_a = addr(1);
    let mint_b = addr(2);
    assert!(mint_a.bytes < mint_b.bytes);
    let config = derive_amm_config(&program, 3).unwrap().0;
    let ours = derive_pool(&program, &config, &mint_a, &mint_b).unwrap();
    let (theirs, bump) = solana_pubkey::Pubkey::find_program_address(
        &[
            b"pool",
            config.bytes.as_slice(),
            mint_a.bytes.as_slice(),
            mint_b.bytes.as_slice(),
        ],
        &solana_key(&program),
    );
    assert_eq!(ours.0.bytes, theirs.to_bytes().to_vec());
    assert_eq!(ours.1, bump);
}

#[test]
fn derive_tick_array_matches_reference_derivation() {
    let program = addr(9);
    let pool = addr(4);
    let ours = derive_tick_array(&program, &pool, -600).unwrap();
    let (theirs, _) = solana_pubkey::Pubkey::find_program_address(
        &[b"tick_array", pool.bytes.as_slice(), &(-600i32).to_be_bytes()],
        &solana_key(&program),
    );
    assert_eq!(ours.0.bytes, theirs.to_bytes().to_vec());
}

#[test]
fn derive_position_matches_reference_derivation() {
    let program = addr(9);
    let mint = addr(5);
    let ours = derive_position(&program, &mint).unwrap();
    let (theirs, _) = solana_pubkey::Pubkey::find_program_address(
        &[b"position", mint.bytes.as_slice()],
        &solana_key(&program),
    );
    assert_eq!(ours.0.bytes, theirs.to_bytes().to_vec());
}

#[test]
fn derive_bitmap_extension_matches_reference_derivation() {
    let program = addr(9);
    let pool = addr(4);
    let ours = derive_bitmap_extension(&program, &pool).unwrap();
    let (theirs, _) = solana_pubkey::Pubkey::find_program_address(
        &[b"pool_tick_array_bitmap_extension", pool.bytes.as_slice()],
        &solana_key(&program),
    );
    assert_eq!(ours.0.bytes, theirs.to_bytes().to_vec());
}

#[test]
fn derive_support_mint_matches_reference_derivation() {
    let program = addr(9);
    let mint = addr(5);
    let ours = derive_support_mint(&program, &mint).unwrap();
    let (theirs, _) = solana_pubkey::Pubkey::find_program_address(
        &[b"support_mint", mint.bytes.as_slice()],
        &solana_key(&program),
    );
    assert_eq!(ours.0.bytes, theirs.to_bytes().to_vec());
}

#[test]
fn resolve_pool_addresses_canonicalizes_the_mint_pair() {
    let program = addr(9);
    let mint_a = addr(1);
    let mint_b = addr(2);
    let swapped = resolve_pool_addresses(&program, 3, &Some(mint_b.clone()), &Some(mint_a.clone()))
        .unwrap();
    let ordered = resolve_pool_addresses(&program, 3, &Some(mint_a.clone()), &Some(mint_b.clone()))
        .unwrap();
    assert_eq!(swapped.mint0.as_ref().unwrap().bytes, mint_a.bytes);
    assert_eq!(swapped.mint1.as_ref().unwrap().bytes, mint_b.bytes);
    assert_eq!(
        swapped.pool_id_account.as_ref().unwrap().bytes,
        ordered.pool_id_account.as_ref().unwrap().bytes
    );
    let direct = derive_pool(&program, &ordered.amm_config_key, &mint_a, &mint_b).unwrap();
    assert_eq!(ordered.pool_id_account.as_ref().unwrap().bytes, direct.0.bytes);
    let ext = derive_bitmap_extension(&program, &direct.0).unwrap();
    assert_eq!(
        ordered.tickarray_bitmap_extension.as_ref().unwrap().bytes,
        ext.0.bytes
    );
}

#[test]
fn resolve_pool_addresses_without_a_full_pair_derives_no_pool() {
    let program = addr(9);
    let mint_a = addr(1);
    let keys = resolve_pool_addresses(&program, 0, &Some(mint_a.clone()), &None).unwrap();
    assert_eq!(keys.mint0.as_ref().unwrap().bytes, mint_a.bytes);
    assert!(keys.mint1.is_none());
    assert!(keys.pool_id_account.is_none());
    assert!(keys.tickarray_bitmap_extension.is_none());
}

#[test]
fn path_existence_probe() {
    assert!(clmm_client::util::path_is_exist("/"));
    assert!(!clmm_client::util::path_is_exist("/no_such_path_anywhere_here"));
}

#[test]
fn u16_big_endian_layout() {
    assert_eq!(u16_be(0x1234), vec![0x12u8, 0x34]);
    assert_eq!(u16_be(3), 3u16.to_be_bytes().to_vec());
}

#[test]
fn i32_big_endian_layout() {
    assert_eq!(i32_be(-1), vec![0xffu8, 0xff, 0xff, 0xff]);
    assert_eq!(i32_be(-600), (-600i32).to_be_bytes().to_vec());
    assert_eq!(i32_be(0x0102_0304), vec![1u8, 2, 3, 4]);
}

#[test]
fn position_ownership_check_accepts_only_the_derived_address() {
    let program = addr(9);
    let mint = addr(5);
    let real = derive_position(&program, &mint).unwrap().0;
    assert!(clmm_client::seeds::position_matches_mint(&program, &mint, &real));
    let forged = addr(6);
    assert!(!clmm_client::seeds::position_matches_mint(&program, &mint, &forged));
}

#[test]
fn support_mint_registration_records_mint_and_bump() {
    let mint = addr(5);
    let state = create_support_mint_associated(&mint, 254);
    assert_eq!(state.mint.bytes, mint.bytes);
    assert_eq!(state.bump, 254);
}

#[test]
fn support_mint_account_set_validation() {
    let program = addr(9);
    let admin = addr(1);
    let registrar = addr(2);
    let mint = addr(5);
    let entry = derive_support_mint(&program, &mint).unwrap().0;
    let good = clmm_client::support::CreateSupportMintAssociated {
        owner: addr(1),
        token_mint: addr(5),
        support_mint_associated: entry,
        system_program: addr(0),
    };
    assert!(clmm_client::support::validate_create_support_mint_accounts(
        &good, &program, &admin, &registrar
    ));
    let wrong_entry = clmm_client::support::CreateSupportMintAssociated {
        owner: addr(1),
        token_mint: addr(5),
        support_mint_associated: addr(6),
        system_program: addr(0),
    };
    assert!(!clmm_client::support::validate_create_support_mint_accounts(
        &wrong_entry, &program, &admin, &registrar
    ));
    let wrong_owner = clmm_client::support::CreateSupportMintAssociated {
        owner: addr(3),
        token_mint: addr(5),
        support_mint_associated: derive_support_mint(&program, &mint).unwrap().0,
        system_program: addr(0),
    };
    assert!(!clmm_client::support::validate_create_support_mint_accounts(
        &wrong_owner, &program, &admin, &registrar
    ));
}

#[test]
fn support_mint_authority_check() {
    let admin = addr(1);
    let registrar = addr(2);
    let stranger = addr(3);
    assert!(support_mint_authority_approved(&admin, &admin, &registrar));
    assert!(support_mint_authority_approved(&registrar, &admin, &registrar));
    assert!(!support_mint_authority_approved(&stranger, &admin, &registrar));
}
