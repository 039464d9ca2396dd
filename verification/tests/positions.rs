use clmm_client::addr::Address;
use clmm_client::positions::{
    get_all_nft_and_position_by_owner, get_nft_account_and_position_by_owner, TokenAccountRecord,
};

fn addr(byte: u8) -> Address {
    Address::new(vec![byte; 32])
}

fn record(key: u8, mint: u8, amount: u64, decimals: u8) -> TokenAccountRecord {
    TokenAccountRecord { pubkey: addr(key), mint: addr(mint), amount, decimals }
}

fn solana_key(a: &Address) -> solana_pubkey::Pubkey {
    let mut b = [0u8; 32];
    b.copy_from_slice(&a.bytes);
    solana_pubkey::Pubkey::new_from_array(b)
}

#[test]
fn only_unit_zero_decimal_holdings_are_positions() {
    let program = addr(9);
    let token_program = addr(8);
    let records = vec![
        record(10, 20, 1, 0),
        record(11, 21, 2, 0),
        record(12, 22, 1, 9),
        record(13, 23, 1, 0),
    ];
    let infos = get_nft_account_and_position_by_owner(&records, &token_program, &program).unwrap();
    assert_eq!(infos.len(), 2);
    assert_eq!(infos[0].key.bytes, vec![10u8; 32]);
    assert_eq!(infos[0].mint.bytes, vec![20u8; 32]);
    assert_eq!(infos[0].amount, 1);
    assert_eq!(infos[0].decimals, 0);
    assert_eq!(infos[1].key.bytes, vec![13u8; 32]);
    assert_eq!(infos[1].mint.bytes, vec![23u8; 32]);
    let (expected, _) = solana_pubkey::Pubkey::find_program_address(
        &[b"position", infos[0].mint.bytes.as_slice()],
        &solana_key(&program),
    );
    assert_eq!(infos[0].position.bytes, expected.to_bytes().to_vec());
    assert_eq!(infos[0].program.bytes, token_program.bytes);
}

#[test]
fn zero_qualifying_records_yield_empty_list() {
    let program = addr(9);
    let token_program = addr(8);
    let records = vec![record(10, 20, 5, 0), record(11, 21, 1, 6)];
    let infos = get_nft_account_and_position_by_owner(&records, &token_program, &program).unwrap();
    assert!(infos.is_empty());
}

#[test]
fn both_token_standards_are_united_without_omission() {
    let program = addr(9);
    let legacy_program = addr(7);
    let modern_program = addr(8);
    let legacy = vec![record(10, 20, 1, 0), record(11, 21, 3, 0)];
    let modern = vec![record(12, 22, 1, 0), record(13, 23, 1, 0)];
    let infos = get_all_nft_and_position_by_owner(
        &legacy,
        &legacy_program,
        &modern,
        &modern_program,
        &program,
    )
    .unwrap();
    assert_eq!(infos.len(), 3);
    assert_eq!(infos[0].mint.bytes, vec![20u8; 32]);
    assert_eq!(infos[0].program.bytes, legacy_program.bytes);
    assert_eq!(infos[1].mint.bytes, vec![22u8; 32]);
    assert_eq!(infos[1].program.bytes, modern_program.bytes);
    assert_eq!(infos[2].mint.bytes, vec![23u8; 32]);
    assert_eq!(infos[2].program.bytes, modern_program.bytes);
    let mut seen: Vec<Vec<u8>> = infos.iter().map(|i| i.key.bytes.clone()).collect();
    seen.dedup();
    assert_eq!(seen.len(), 3);
}
