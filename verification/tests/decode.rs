use clmm_client::state::{
    decode_bitmap_extension, decode_pool, decode_tick_array, DecodeError, BITMAP_EXTENSION_LEN,
    POOL_STATE_LEN, TICK_ARRAY_STATE_LEN,
};

const POOL_DISC: [u8; 8] = [247, 237, 227, 245, 215, 195, 222, 70];
const EXT_DISC: [u8; 8] = [60, 150, 36, 219, 97, 128, 139, 153];
const TICK_ARRAY_DISC: [u8; 8] = [192, 155, 85, 205, 49, 86, 28, 55];

fn pool_bytes(tick_current: i32, tick_spacing: u16) -> Vec<u8> {
    let mut b = Vec::new();
    b.extend_from_slice(&POOL_DISC);
    b.extend_from_slice(&[7u8; 32]);
    b.extend_from_slice(&tick_current.to_le_bytes());
    b.extend_from_slice(&tick_spacing.to_le_bytes());
    b.extend_from_slice(&55u128.to_le_bytes());
    b.extend_from_slice(&(1u128 << 64).to_le_bytes());
    for w in 0..16u64 {
        b.extend_from_slice(&(w * 3).to_le_bytes());
    }
    assert_eq!(b.len(), POOL_STATE_LEN);
    b
}

#[test]
fn pool_decodes_exactly() {
    let b = pool_bytes(-120, 10);
    let p = decode_pool(&b).unwrap();
    assert_eq!(p.amm_config.bytes, vec![7u8; 32]);
    assert_eq!(p.tick_current, -120);
    assert_eq!(p.tick_spacing, 10);
    assert_eq!(p.liquidity, 55);
    assert_eq!(p.sqrt_price_x64, 1u128 << 64);
    assert_eq!(p.tick_array_bitmap.len(), 16);
    assert_eq!(p.tick_array_bitmap[5], 15);
}

#[test]
fn wrong_discriminant_is_rejected_not_confused() {
    let mut b = pool_bytes(-120, 10);
    b[0] ^= 0xff;
    assert!(matches!(decode_pool(&b), Err(DecodeError::WrongDiscriminant)));
    // A valid tick-array buffer is not a pool either.
    let t = tick_array_bytes(0);
    assert!(matches!(decode_pool(&t), Err(DecodeError::WrongDiscriminant)));
}

#[test]
fn truncated_pool_is_rejected() {
    let b = pool_bytes(0, 1);
    assert!(matches!(decode_pool(&b[..4].to_vec()), Err(DecodeError::Truncated)));
    assert!(matches!(decode_pool(&b[..100].to_vec()), Err(DecodeError::Truncated)));
}

#[test]
fn out_of_range_pool_fields_are_rejected() {
    assert!(matches!(decode_pool(&pool_bytes(0, 0)), Err(DecodeError::OutOfRange)));
    assert!(matches!(decode_pool(&pool_bytes(500_000, 1)), Err(DecodeError::OutOfRange)));
    assert!(matches!(decode_pool(&pool_bytes(-500_000, 1)), Err(DecodeError::OutOfRange)));
}

fn ext_bytes() -> Vec<u8> {
    let mut b = Vec::new();
    b.extend_from_slice(&EXT_DISC);
    b.extend_from_slice(&[9u8; 32]);
    for w in 0..112u64 {
        b.extend_from_slice(&w.to_le_bytes());
    }
    for w in 0..112u64 {
        b.extend_from_slice(&(w + 1000).to_le_bytes());
    }
    assert_eq!(b.len(), BITMAP_EXTENSION_LEN);
    b
}

#[test]
fn bitmap_extension_decodes_exactly() {
    let b = ext_bytes();
    let e = decode_bitmap_extension(&b).unwrap();
    assert_eq!(e.pool_id.bytes, vec![9u8; 32]);
    assert_eq!(e.positive_tick_array_bitmap.len(), 112);
    assert_eq!(e.negative_tick_array_bitmap.len(), 112);
    assert_eq!(e.positive_tick_array_bitmap[3], 3);
    assert_eq!(e.negative_tick_array_bitmap[3], 1003);
}

#[test]
fn bitmap_extension_rejects_wrong_discriminant_and_truncation() {
    let mut b = ext_bytes();
    b[7] ^= 1;
    assert!(matches!(decode_bitmap_extension(&b), Err(DecodeError::WrongDiscriminant)));
    let good = ext_bytes();
    assert!(matches!(decode_bitmap_extension(&good[..40].to_vec()), Err(DecodeError::Truncated)));
}

fn tick_array_bytes(start: i32) -> Vec<u8> {
    let mut b = Vec::new();
    b.extend_from_slice(&TICK_ARRAY_DISC);
    b.extend_from_slice(&[4u8; 32]);
    b.extend_from_slice(&start.to_le_bytes());
    for k in 0..60i32 {
        b.extend_from_slice(&(start + k).to_le_bytes());
        b.extend_from_slice(&((k as i128) - 30).to_le_bytes());
        b.extend_from_slice(&(k as u128 * 2).to_le_bytes());
    }
    assert_eq!(b.len(), TICK_ARRAY_STATE_LEN);
    b
}

#[test]
fn tick_array_decodes_exactly() {
    let b = tick_array_bytes(-600);
    let a = decode_tick_array(&b).unwrap();
    assert_eq!(a.pool_id.bytes, vec![4u8; 32]);
    assert_eq!(a.start_tick_index, -600);
    assert_eq!(a.ticks.len(), 60);
    assert_eq!(a.ticks[0].tick, -600);
    assert_eq!(a.ticks[0].liquidity_net, -30);
    assert_eq!(a.ticks[59].tick, -541);
    assert_eq!(a.ticks[59].liquidity_net, 29);
    assert_eq!(a.ticks[59].liquidity_gross, 118);
}

fn pool_bytes_with_bitmap(tick_current: i32, tick_spacing: u16, words: [u64; 16]) -> Vec<u8> {
    let mut b = Vec::new();
    b.extend_from_slice(&POOL_DISC);
    b.extend_from_slice(&[7u8; 32]);
    b.extend_from_slice(&tick_current.to_le_bytes());
    b.extend_from_slice(&tick_spacing.to_le_bytes());
    b.extend_from_slice(&55u128.to_le_bytes());
    b.extend_from_slice(&(1u128 << 64).to_le_bytes());
    for w in words {
        b.extend_from_slice(&w.to_le_bytes());
    }
    b
}

#[test]
fn scenario_decoded_pool_navigates_from_floored_start() {
    // Current tick -120 with spacing 10 lies in the array starting at -600
    // (floor toward negative infinity), whose bitmap bit is array offset -1:
    // inline bit 511, the top bit of word 7.
    let mut words = [0u64; 16];
    words[7] = 1u64 << 63;
    let b = pool_bytes_with_bitmap(-120, 10, words);
    let p = clmm_client::state::decode_pool(&b).unwrap();
    assert_eq!(
        clmm_client::navigate::tick_array_start_index(p.tick_current, p.tick_spacing),
        -600
    );
    let ext = clmm_client::state::TickArrayBitmapExtension {
        pool_id: clmm_client::addr::Address::new(vec![7u8; 32]),
        positive_tick_array_bitmap: vec![0u64; 112],
        negative_tick_array_bitmap: vec![0u64; 112],
    };
    let first = clmm_client::navigate::get_first_initialized_tick_array(&p, &ext, true).unwrap();
    assert_eq!(first, (true, -600));
    assert_eq!(clmm_client::navigate::swap_tick_array_start_indices(&p, &ext, true), vec![-600]);
}

#[test]
fn tick_array_rejects_wrong_discriminant_and_truncation() {
    let mut b = tick_array_bytes(0);
    b[0] = 0;
    assert!(matches!(decode_tick_array(&b), Err(DecodeError::WrongDiscriminant)));
    let good = tick_array_bytes(0);
    assert!(matches!(decode_tick_array(&good[..2000].to_vec()), Err(DecodeError::Truncated)));
    assert!(matches!(decode_tick_array(&Vec::new()), Err(DecodeError::Truncated)));
}
