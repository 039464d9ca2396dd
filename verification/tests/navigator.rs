use clmm_client::addr::Address;
use clmm_client::navigate::{
    get_first_initialized_tick_array, is_tick_array_initialized,
    next_initialized_tick_array_start_index, swap_tick_array_start_indices, tick_array_addresses,
    tick_array_start_index,
};
use clmm_client::state::{PoolState, TickArrayBitmapExtension};

fn addr(byte: u8) -> Address {
    Address::new(vec![byte; 32])
}

fn empty_pool(tick_current: i32, tick_spacing: u16) -> PoolState {
    PoolState {
        amm_config: addr(1),
        tick_current,
        tick_spacing,
        liquidity: 0,
        sqrt_price_x64: 1 << 64,
        tick_array_bitmap: vec![0u64; 16],
    }
}

fn empty_ext() -> TickArrayBitmapExtension {
    TickArrayBitmapExtension {
        pool_id: addr(2),
        positive_tick_array_bitmap: vec![0u64; 112],
        negative_tick_array_bitmap: vec![0u64; 112],
    }
}

/// Sets the bitmap bit of array offset `m` in the proper bit-space.
fn set_bit(pool: &mut PoolState, ext: &mut TickArrayBitmapExtension, m: i32) {
    if (-512..512).contains(&m) {
        let i = (m + 512) as usize;
        pool.tick_array_bitmap[i / 64] |= 1u64 << (i % 64);
    } else if m >= 512 {
        let i = (m - 512) as usize;
        ext.positive_tick_array_bitmap[i / 64] |= 1u64 << (i % 64);
    } else {
        let i = (-m - 513) as usize;
        ext.negative_tick_array_bitmap[i / 64] |= 1u64 << (i % 64);
    }
}

#[test]
fn start_index_floors_toward_negative_infinity() {
    assert_eq!(tick_array_start_index(-120, 10), -600);
    assert_eq!(tick_array_start_index(-601, 1), -660);
    assert_eq!(tick_array_start_index(-600, 1), -600);
    assert_eq!(tick_array_start_index(-1, 1), -60);
    assert_eq!(tick_array_start_index(0, 1), 0);
    assert_eq!(tick_array_start_index(59, 1), 0);
    assert_eq!(tick_array_start_index(443636, 1), 443580);
    assert_eq!(tick_array_start_index(-443636, 1), -443640);
}

#[test]
fn exhausted_pool_yields_empty_continuation() {
    let pool = empty_pool(0, 1);
    let ext = empty_ext();
    assert_eq!(swap_tick_array_start_indices(&pool, &ext, true), Vec::<i32>::new());
    assert_eq!(swap_tick_array_start_indices(&pool, &ext, false), Vec::<i32>::new());
}

#[test]
fn traversal_is_bounded_and_monotonic() {
    let mut pool = empty_pool(0, 1);
    let mut ext = empty_ext();
    for m in -9..=0 {
        set_bit(&mut pool, &mut ext, m);
    }
    let down = swap_tick_array_start_indices(&pool, &ext, true);
    assert_eq!(down, vec![0, -60, -120, -180, -240, -300]);
    assert!(down.len() <= 6);
    for w in down.windows(2) {
        assert!(w[1] < w[0]);
    }

    let mut pool_up = empty_pool(0, 1);
    let mut ext_up = empty_ext();
    for m in 0..=9 {
        set_bit(&mut pool_up, &mut ext_up, m);
    }
    let up = swap_tick_array_start_indices(&pool_up, &ext_up, false);
    assert_eq!(up, vec![0, 60, 120, 180, 240, 300]);
    for w in up.windows(2) {
        assert!(w[0] < w[1]);
    }
}

#[test]
fn traversal_skips_uninitialized_gaps() {
    let mut pool = empty_pool(0, 1);
    let mut ext = empty_ext();
    set_bit(&mut pool, &mut ext, -3);
    set_bit(&mut pool, &mut ext, -100);
    let down = swap_tick_array_start_indices(&pool, &ext, true);
    assert_eq!(down, vec![-180, -6000]);
}

#[test]
fn seam_array_on_extension_side_is_found_in_both_directions() {
    // The only initialized array is the first one past the inline bitmap.
    let mut pool_up = empty_pool(0, 1);
    let mut ext_up = empty_ext();
    set_bit(&mut pool_up, &mut ext_up, 512);
    assert_eq!(swap_tick_array_start_indices(&pool_up, &ext_up, false), vec![512 * 60]);

    let mut pool_down = empty_pool(513 * 60, 1);
    let mut ext_down = empty_ext();
    set_bit(&mut pool_down, &mut ext_down, 512);
    assert_eq!(swap_tick_array_start_indices(&pool_down, &ext_down, true), vec![512 * 60]);
}

#[test]
fn seam_array_on_inline_side_is_found_in_both_directions() {
    // The only initialized array is the last one before the extension.
    let mut pool_up = empty_pool(510 * 60, 1);
    let mut ext_up = empty_ext();
    set_bit(&mut pool_up, &mut ext_up, 511);
    assert_eq!(swap_tick_array_start_indices(&pool_up, &ext_up, false), vec![511 * 60]);

    let mut pool_down = empty_pool(513 * 60, 1);
    let mut ext_down = empty_ext();
    set_bit(&mut pool_down, &mut ext_down, 511);
    assert_eq!(swap_tick_array_start_indices(&pool_down, &ext_down, true), vec![511 * 60]);
}

#[test]
fn negative_extension_side_is_reachable() {
    let mut pool = empty_pool(0, 1);
    let mut ext = empty_ext();
    set_bit(&mut pool, &mut ext, -600);
    let down = swap_tick_array_start_indices(&pool, &ext, true);
    assert_eq!(down, vec![-600 * 60]);
}

#[test]
fn first_array_is_flagged_when_current_tick_is_covered() {
    let mut pool = empty_pool(75, 1);
    let mut ext = empty_ext();
    set_bit(&mut pool, &mut ext, 1);
    let first = get_first_initialized_tick_array(&pool, &ext, true).unwrap();
    assert_eq!(first, (true, 60));
    assert!(is_tick_array_initialized(&pool, &ext, 1));
    assert!(!is_tick_array_initialized(&pool, &ext, 0));
}

#[test]
fn next_initialized_walks_and_exhausts() {
    let mut pool = empty_pool(0, 1);
    let mut ext = empty_ext();
    set_bit(&mut pool, &mut ext, 0);
    set_bit(&mut pool, &mut ext, 7);
    assert_eq!(next_initialized_tick_array_start_index(&pool, &ext, 0, false), Some(7 * 60));
    assert_eq!(next_initialized_tick_array_start_index(&pool, &ext, 7 * 60, false), None);
    assert_eq!(next_initialized_tick_array_start_index(&pool, &ext, 0, true), None);
}

#[test]
fn tick_array_addresses_match_reference_derivation() {
    let program = addr(9);
    let pool = addr(4);
    let starts = vec![0i32, -600];
    let ours = tick_array_addresses(&program, &pool, &starts).unwrap();
    assert_eq!(ours.len(), 2);
    let mut pk = [0u8; 32];
    pk.copy_from_slice(&program.bytes);
    let program_key = solana_pubkey::Pubkey::new_from_array(pk);
    for (i, s) in starts.iter().enumerate() {
        let (expected, _) = solana_pubkey::Pubkey::find_program_address(
            &[b"tick_array", pool.bytes.as_slice(), &s.to_be_bytes()],
            &program_key,
        );
        assert_eq!(ours[i].bytes, expected.to_bytes().to_vec());
    }
}
