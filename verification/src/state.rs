//! Pool state reader: typed records decoded from raw account bytes. A buffer
//! either carries the expected discriminant and the full fixed layout of the
//! requested record, or the decode fails; nothing is guessed or defaulted.

use vstd::prelude::*;
use crate::addr::Address;
use crate::bytes::{
    le128_spec, le16_spec, le64_spec, le_i128_spec, le_i32_spec, read_i128_le, read_i32_le,
    read_u128_le, read_u16_le, read_u64_le,
};

verus! {

/// Ticks per tick array, in units of the pool's tick spacing.
pub const TICK_ARRAY_SIZE: i32 = 60;

/// The smallest tick index the protocol prices.
pub const MIN_TICK: i32 = -443636;

/// The largest tick index the protocol prices.
pub const MAX_TICK: i32 = 443636;

/// 64-bit words in the pool's inline tick-array bitmap.
pub const INLINE_BITMAP_WORDS: usize = 16;

/// 64-bit words in each side of the tick-array bitmap extension.
pub const EXTENSION_BITMAP_WORDS: usize = 112;

/// Serialized length of a pool record.
pub const POOL_STATE_LEN: usize = 206;

/// Serialized length of a bitmap extension record.
pub const BITMAP_EXTENSION_LEN: usize = 1832;

/// Serialized length of a tick-array record.
pub const TICK_ARRAY_STATE_LEN: usize = 2204;

pub struct PoolState {
    pub amm_config: Address,
    pub tick_current: i32,
    pub tick_spacing: u16,
    pub liquidity: u128,
    pub sqrt_price_x64: u128,
    pub tick_array_bitmap: Vec<u64>,
}

impl PoolState {
    pub open spec fn wf(&self) -> bool {
        &&& self.amm_config.wf()
        &&& 1 <= self.tick_spacing
        &&& MIN_TICK <= self.tick_current <= MAX_TICK
        &&& self.tick_array_bitmap@.len() == INLINE_BITMAP_WORDS
    }
}

pub struct TickArrayBitmapExtension {
    pub pool_id: Address,
    pub positive_tick_array_bitmap: Vec<u64>,
    pub negative_tick_array_bitmap: Vec<u64>,
}

impl TickArrayBitmapExtension {
    pub open spec fn wf(&self) -> bool {
        &&& self.pool_id.wf()
        &&& self.positive_tick_array_bitmap@.len() == EXTENSION_BITMAP_WORDS
        &&& self.negative_tick_array_bitmap@.len() == EXTENSION_BITMAP_WORDS
    }
}

#[derive(Clone, Copy)]
pub struct TickState {
    pub tick: i32,
    pub liquidity_net: i128,
    pub liquidity_gross: u128,
}

pub struct TickArrayState {
    pub pool_id: Address,
    pub start_tick_index: i32,
    pub ticks: Vec<TickState>,
}

impl TickArrayState {
    pub open spec fn wf(&self) -> bool {
        &&& self.pool_id.wf()
        &&& self.ticks@.len() == TICK_ARRAY_SIZE
    }
}

#[derive(Clone, Copy, Debug, PartialEq, Eq, Structural)]
pub enum DecodeError {
    /// The discriminant prefix does not name the requested record type.
    WrongDiscriminant,
    /// Fewer bytes are present than the fixed layout requires.
    Truncated,
    /// A decoded field lies outside the range the record allows.
    OutOfRange,
}

/// The discriminant prefix of a pool record.
pub open spec fn pool_state_disc() -> Seq<u8> {
    seq![247u8, 237, 227, 245, 215, 195, 222, 70]
}

/// The discriminant prefix of a bitmap extension record.
pub open spec fn bitmap_extension_disc() -> Seq<u8> {
    seq![60u8, 150, 36, 219, 97, 128, 139, 153]
}

/// The discriminant prefix of a tick-array record.
pub open spec fn tick_array_state_disc() -> Seq<u8> {
    seq![192u8, 155, 85, 205, 49, 86, 28, 55]
}

fn pool_state_disc_bytes() -> (r: Vec<u8>)
    ensures
        r@ == pool_state_disc(),
{
    let mut v: Vec<u8> = Vec::new();
    v.push(247);
    v.push(237);
    v.push(227);
    v.push(245);
    v.push(215);
    v.push(195);
    v.push(222);
    v.push(70);
    proof {
        assert(v@ =~= pool_state_disc());
    }
    v
}

fn bitmap_extension_disc_bytes() -> (r: Vec<u8>)
    ensures
        r@ == bitmap_extension_disc(),
{
    let mut v: Vec<u8> = Vec::new();
    v.push(60);
    v.push(150);
    v.push(36);
    v.push(219);
    v.push(97);
    v.push(128);
    v.push(139);
    v.push(153);
    proof {
        assert(v@ =~= bitmap_extension_disc());
    }
    v
}

fn tick_array_state_disc_bytes() -> (r: Vec<u8>)
    ensures
        r@ == tick_array_state_disc(),
{
    let mut v: Vec<u8> = Vec::new();
    v.push(192);
    v.push(155);
    v.push(85);
    v.push(205);
    v.push(49);
    v.push(86);
    v.push(28);
    v.push(55);
    proof {
        assert(v@ =~= tick_array_state_disc());
    }
    v
}

fn disc_matches(b: &Vec<u8>, d: &Vec<u8>) -> (r: bool)
    requires
        b@.len() >= 8,
        d@.len() == 8,
    ensures
        r == (b@.subrange(0, 8) == d@),
{
    let mut i: usize = 0;
    while i < 8
        invariant
            i <= 8,
            b@.len() >= 8,
            d@.len() == 8,
            forall|j: int| 0 <= j < i ==> b@[j] == d@[j],
        decreases 8 - i,
    {
        if b[i] != d[i] {
            proof {
                assert(b@.subrange(0, 8)[i as int] == b@[i as int]);
            }
            return false;
        }
        i += 1;
    }
    proof {
        assert(b@.subrange(0, 8) =~= d@);
    }
    true
}

/// Copies `b[lo..hi)` into a fresh vector.
fn copy_range(b: &Vec<u8>, lo: usize, hi: usize) -> (r: Vec<u8>)
    requires
        lo <= hi <= b@.len(),
    ensures
        r@ == b@.subrange(lo as int, hi as int),
{
    let mut out: Vec<u8> = Vec::new();
    let mut i: usize = lo;
    while i < hi
        invariant
            lo <= i <= hi <= b@.len(),
            out@ =~= b@.subrange(lo as int, i as int),
        decreases hi - i,
    {
        out.push(b[i]);
        i += 1;
    }
    proof {
        assert(out@ =~= b@.subrange(lo as int, hi as int));
    }
    out
}

/// The bytes carry a pool record's discriminant and full layout.
pub open spec fn pool_bytes_ok(b: Seq<u8>) -> bool {
    b.len() >= POOL_STATE_LEN && b.subrange(0, 8) == pool_state_disc()
}

/// The pool fields encoded in `b` lie in the ranges a pool allows.
pub open spec fn pool_fields_in_range(b: Seq<u8>) -> bool {
    &&& 1 <= le16_spec(b, 44)
    &&& MIN_TICK <= le_i32_spec(b, 40) <= MAX_TICK
}

/// `p` holds exactly the fields encoded in `b`.
pub open spec fn pool_matches(p: PoolState, b: Seq<u8>) -> bool {
    &&& p.amm_config@ == b.subrange(8, 40)
    &&& p.tick_current == le_i32_spec(b, 40)
    &&& p.tick_spacing == le16_spec(b, 44)
    &&& p.liquidity == le128_spec(b, 46)
    &&& p.sqrt_price_x64 == le128_spec(b, 62)
    &&& p.tick_array_bitmap@.len() == INLINE_BITMAP_WORDS
    &&& forall|k: int|
        0 <= k < INLINE_BITMAP_WORDS ==> p.tick_array_bitmap@[k] == le64_spec(b, 78 + 8 * k)
}

/// Decodes a pool record from raw account bytes.
pub fn decode_pool(b: &Vec<u8>) -> (r: Result<PoolState, DecodeError>)
    ensures
        b@.len() < 8 ==> r matches Err(DecodeError::Truncated),
        b@.len() >= 8 && b@.subrange(0, 8) != pool_state_disc() ==> r matches Err(
            DecodeError::WrongDiscriminant,
        ),
        b@.len() >= 8 && b@.subrange(0, 8) == pool_state_disc() && b@.len() < POOL_STATE_LEN
            ==> r matches Err(DecodeError::Truncated),
        pool_bytes_ok(b@) && !pool_fields_in_range(b@) ==> r matches Err(DecodeError::OutOfRange),
        pool_bytes_ok(b@) && pool_fields_in_range(b@) ==> (r matches Ok(p) && pool_matches(p, b@)
            && p.wf()),
{
    let n = b.len();
    if n < 8 {
        return Err(DecodeError::Truncated);
    }
    let d = pool_state_disc_bytes();
    if !disc_matches(b, &d) {
        return Err(DecodeError::WrongDiscriminant);
    }
    if n < POOL_STATE_LEN {
        return Err(DecodeError::Truncated);
    }
    let tick_current = read_i32_le(b, 40);
    let tick_spacing = read_u16_le(b, 44);
    if tick_spacing == 0 || tick_current < MIN_TICK || tick_current > MAX_TICK {
        return Err(DecodeError::OutOfRange);
    }
    let liquidity = read_u128_le(b, 46);
    let sqrt_price_x64 = read_u128_le(b, 62);
    let amm_config = Address::new(copy_range(b, 8, 40));
    let mut bitmap: Vec<u64> = Vec::new();
    let mut k: usize = 0;
    while k < INLINE_BITMAP_WORDS
        invariant
            k <= INLINE_BITMAP_WORDS,
            b@.len() >= POOL_STATE_LEN,
            bitmap@.len() == k,
            forall|j: int| 0 <= j < k ==> bitmap@[j] == le64_spec(b@, 78 + 8 * j),
        decreases INLINE_BITMAP_WORDS - k,
    {
        bitmap.push(read_u64_le(b, 78 + 8 * k));
        k += 1;
    }
    Ok(
        PoolState {
            amm_config,
            tick_current,
            tick_spacing,
            liquidity,
            sqrt_price_x64,
            tick_array_bitmap: bitmap,
        },
    )
}

/// `e` holds exactly the bitmap-extension fields encoded in `b`.
pub open spec fn bitmap_extension_matches(e: TickArrayBitmapExtension, b: Seq<u8>) -> bool {
    &&& e.pool_id@ == b.subrange(8, 40)
    &&& e.positive_tick_array_bitmap@.len() == EXTENSION_BITMAP_WORDS
    &&& e.negative_tick_array_bitmap@.len() == EXTENSION_BITMAP_WORDS
    &&& forall|k: int|
        0 <= k < EXTENSION_BITMAP_WORDS ==> e.positive_tick_array_bitmap@[k] == le64_spec(
            b,
            40 + 8 * k,
        )
    &&& forall|k: int|
        0 <= k < EXTENSION_BITMAP_WORDS ==> e.negative_tick_array_bitmap@[k] == le64_spec(
            b,
            936 + 8 * k,
        )
}

/// Decodes a tick-array bitmap extension record from raw account bytes.
pub fn decode_bitmap_extension(b: &Vec<u8>) -> (r: Result<TickArrayBitmapExtension, DecodeError>)
    ensures
        b@.len() < 8 ==> r matches Err(DecodeError::Truncated),
        b@.len() >= 8 && b@.subrange(0, 8) != bitmap_extension_disc() ==> r matches Err(
            DecodeError::WrongDiscriminant,
        ),
        b@.len() >= 8 && b@.subrange(0, 8) == bitmap_extension_disc() && b@.len()
            < BITMAP_EXTENSION_LEN ==> r matches Err(DecodeError::Truncated),
        b@.len() >= BITMAP_EXTENSION_LEN && b@.subrange(0, 8) == bitmap_extension_disc()
            ==> (r matches Ok(e) && bitmap_extension_matches(e, b@) && e.wf()),
{
    let n = b.len();
    if n < 8 {
        return Err(DecodeError::Truncated);
    }
    let d = bitmap_extension_disc_bytes();
    if !disc_matches(b, &d) {
        return Err(DecodeError::WrongDiscriminant);
    }
    if n < BITMAP_EXTENSION_LEN {
        return Err(DecodeError::Truncated);
    }
    let pool_id = Address::new(copy_range(b, 8, 40));
    let mut pos: Vec<u64> = Vec::new();
    let mut k: usize = 0;
    while k < EXTENSION_BITMAP_WORDS
        invariant
            k <= EXTENSION_BITMAP_WORDS,
            b@.len() >= BITMAP_EXTENSION_LEN,
            pos@.len() == k,
            forall|j: int| 0 <= j < k ==> pos@[j] == le64_spec(b@, 40 + 8 * j),
        decreases EXTENSION_BITMAP_WORDS - k,
    {
        pos.push(read_u64_le(b, 40 + 8 * k));
        k += 1;
    }
    let mut neg: Vec<u64> = Vec::new();
    let mut k2: usize = 0;
    while k2 < EXTENSION_BITMAP_WORDS
        invariant
            k2 <= EXTENSION_BITMAP_WORDS,
            b@.len() >= BITMAP_EXTENSION_LEN,
            neg@.len() == k2,
            forall|j: int| 0 <= j < k2 ==> neg@[j] == le64_spec(b@, 936 + 8 * j),
        decreases EXTENSION_BITMAP_WORDS - k2,
    {
        neg.push(read_u64_le(b, 936 + 8 * k2));
        k2 += 1;
    }
    Ok(
        TickArrayBitmapExtension {
            pool_id,
            positive_tick_array_bitmap: pos,
            negative_tick_array_bitmap: neg,
        },
    )
}

/// `t` holds exactly the tick fields encoded at offset `base` of `b`.
pub open spec fn tick_matches(t: TickState, b: Seq<u8>, base: int) -> bool {
    &&& t.tick == le_i32_spec(b, base)
    &&& t.liquidity_net == le_i128_spec(b, base + 4)
    &&& t.liquidity_gross == le128_spec(b, base + 20)
}

/// `a` holds exactly the tick-array fields encoded in `b`.
pub open spec fn tick_array_matches(a: TickArrayState, b: Seq<u8>) -> bool {
    &&& a.pool_id@ == b.subrange(8, 40)
    &&& a.start_tick_index == le_i32_spec(b, 40)
    &&& a.ticks@.len() == TICK_ARRAY_SIZE
    &&& forall|k: int|
        0 <= k < TICK_ARRAY_SIZE ==> #[trigger] tick_matches(a.ticks@[k], b, 44 + 36 * k)
}

/// Decodes a tick-array record from raw account bytes.
pub fn decode_tick_array(b: &Vec<u8>) -> (r: Result<TickArrayState, DecodeError>)
    ensures
        b@.len() < 8 ==> r matches Err(DecodeError::Truncated),
        b@.len() >= 8 && b@.subrange(0, 8) != tick_array_state_disc() ==> r matches Err(
            DecodeError::WrongDiscriminant,
        ),
        b@.len() >= 8 && b@.subrange(0, 8) == tick_array_state_disc() && b@.len()
            < TICK_ARRAY_STATE_LEN ==> r matches Err(DecodeError::Truncated),
        b@.len() >= TICK_ARRAY_STATE_LEN && b@.subrange(0, 8) == tick_array_state_disc()
            ==> (r matches Ok(a) && tick_array_matches(a, b@) && a.wf()),
{
    let n = b.len();
    if n < 8 {
        return Err(DecodeError::Truncated);
    }
    let d = tick_array_state_disc_bytes();
    if !disc_matches(b, &d) {
        return Err(DecodeError::WrongDiscriminant);
    }
    if n < TICK_ARRAY_STATE_LEN {
        return Err(DecodeError::Truncated);
    }
    let pool_id = Address::new(copy_range(b, 8, 40));
    let start_tick_index = read_i32_le(b, 40);
    let mut ticks: Vec<TickState> = Vec::new();
    let mut k: usize = 0;
    while k < 60
        invariant
            k <= 60,
            b@.len() >= TICK_ARRAY_STATE_LEN,
            ticks@.len() == k,
            forall|j: int| 0 <= j < k ==> #[trigger] tick_matches(ticks@[j], b@, 44 + 36 * j),
        decreases 60 - k,
    {
        let base: usize = 44 + 36 * k;
        let t = TickState {
            tick: read_i32_le(b, base),
            liquidity_net: read_i128_le(b, base + 4),
            liquidity_gross: read_u128_le(b, base + 20),
        };
        ticks.push(t);
        k += 1;
    }
    Ok(TickArrayState { pool_id, start_tick_index, ticks })
}

} // verus!
