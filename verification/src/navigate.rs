//! Tick-array bitmap navigator: finds which tick arrays hold liquidity and
//! walks them from the pool's current tick in a traversal direction. The
//! inline bitmap and the extension are treated as one contiguous bit-space,
//! so a traversal never stops at the seam between them.

use vstd::prelude::*;
use vstd::arithmetic::div_mod::{
    lemma_div_is_ordered, lemma_div_multiples_vanish, lemma_fundamental_div_mod,
    lemma_hoist_over_denominator, lemma_mod_multiples_basic,
};
use vstd::arithmetic::mul::lemma_mul_inequality;
use crate::addr::{Address, DerivationError};
use crate::seeds::derive_tick_array_spec;
use crate::state::{PoolState, TickArrayBitmapExtension, MAX_TICK, MIN_TICK, TICK_ARRAY_SIZE};

verus! {

/// Initialized tick arrays the navigator returns beyond the first.
pub const MAX_LOOKAHEAD_ARRAYS: usize = 5;

/// Ticks covered by one tick array of a pool with this tick spacing.
pub open spec fn ticks_in_array(tick_spacing: u16) -> int {
    (TICK_ARRAY_SIZE as int) * (tick_spacing as int)
}

/// The offset (signed array count from tick zero) of the array containing
/// `tick`, rounding toward negative infinity.
pub open spec fn array_index_of_tick(tick: int, tick_spacing: u16) -> int {
    tick / ticks_in_array(tick_spacing)
}

/// The first tick of the array containing `tick`: `tick` rounded toward
/// negative infinity to a multiple of the array span.
pub open spec fn array_start_index(tick: int, tick_spacing: u16) -> int {
    array_index_of_tick(tick, tick_spacing) * ticks_in_array(tick_spacing)
}

/// The smallest array offset that overlaps the priced tick range.
pub open spec fn min_array_offset(tick_spacing: u16) -> int {
    (MIN_TICK as int) / ticks_in_array(tick_spacing)
}

/// The largest array offset that overlaps the priced tick range.
pub open spec fn max_array_offset(tick_spacing: u16) -> int {
    (MAX_TICK as int) / ticks_in_array(tick_spacing)
}

pub proof fn lemma_span_bounds(tick_spacing: u16)
    requires
        1 <= tick_spacing,
    ensures
        60 <= ticks_in_array(tick_spacing) <= 3932100,
{
    lemma_mul_inequality(1, tick_spacing as int, 60);
    lemma_mul_inequality(tick_spacing as int, 65535, 60);
}

pub proof fn lemma_array_offset_bounds(tick_spacing: u16)
    requires
        1 <= tick_spacing,
    ensures
        -7394 <= min_array_offset(tick_spacing) <= -1,
        0 <= max_array_offset(tick_spacing) <= 7393,
{
    let d = ticks_in_array(tick_spacing);
    lemma_span_bounds(tick_spacing);
    let qmin = min_array_offset(tick_spacing);
    let qmax = max_array_offset(tick_spacing);
    lemma_fundamental_div_mod(MIN_TICK as int, d);
    lemma_fundamental_div_mod(MAX_TICK as int, d);
    assert(-7394 <= qmin) by {
        if qmin <= -7395 {
            lemma_mul_inequality(qmin, -7395, d);
            lemma_mul_inequality(60, d, 7395);
        }
    }
    assert(qmin <= -1) by {
        if qmin >= 0 {
            lemma_mul_inequality(0, qmin, d);
        }
    }
    assert(qmax <= 7393) by {
        if qmax >= 7394 {
            lemma_mul_inequality(7394, qmax, d);
            lemma_mul_inequality(60, d, 7394);
        }
    }
    assert(0 <= qmax) by {
        if qmax <= -1 {
            lemma_mul_inequality(qmax, -1, d);
        }
    }
}

/// The array offset of the array containing `tick`, rounding toward negative
/// infinity.
pub fn tick_array_offset(tick: i32, tick_spacing: u16) -> (r: i32)
    requires
        1 <= tick_spacing,
        -8000 * ticks_in_array(tick_spacing) <= tick <= 8000 * ticks_in_array(tick_spacing),
    ensures
        r == array_index_of_tick(tick as int, tick_spacing),
{
    proof {
        lemma_span_bounds(tick_spacing);
    }
    let span: i64 = 60i64 * (tick_spacing as i64);
    let shifted: i64 = (tick as i64) + span * 8000;
    let q: u64 = (shifted as u64) / (span as u64);
    proof {
        let d = ticks_in_array(tick_spacing);
        lemma_hoist_over_denominator(tick as int, 8000, d as nat);
        assert(q == (tick as int + 8000 * d) / d);
        assert((tick as int) / d + 8000 == (tick as int + 8000 * d) / d);
        assert(q <= 16000) by {
            lemma_div_is_ordered(tick as int + 8000 * d, 16000 * d, d);
            lemma_div_multiples_vanish(16000, d);
        }
    }
    (q as i64 - 8000) as i32
}

/// The start index (first tick) of the array at offset `m`.
pub fn offset_to_start_index(m: i32, tick_spacing: u16) -> (r: i32)
    requires
        1 <= tick_spacing,
        min_array_offset(tick_spacing) <= m <= max_array_offset(tick_spacing),
    ensures
        r == m * ticks_in_array(tick_spacing),
        MIN_TICK - ticks_in_array(tick_spacing) < r <= MAX_TICK,
{
    proof {
        lemma_span_bounds(tick_spacing);
        lemma_array_offset_bounds(tick_spacing);
    }
    let span: i64 = 60i64 * (tick_spacing as i64);
    proof {
        let d = ticks_in_array(tick_spacing);
        lemma_fundamental_div_mod(MIN_TICK as int, d);
        lemma_fundamental_div_mod(MAX_TICK as int, d);
        lemma_mul_inequality(m as int, max_array_offset(tick_spacing), d);
        lemma_mul_inequality(min_array_offset(tick_spacing), m as int, d);
    }
    let r64: i64 = (m as i64) * span;
    r64 as i32
}

/// The bit of `words` at position `i`.
pub open spec fn word_bit(words: Seq<u64>, i: int) -> bool {
    (words[i / 64] >> ((i % 64) as u64)) & 1u64 == 1u64
}

/// Whether the bitmap bit of array offset `m` is set, in the inline bitmap
/// or on the proper side of the extension.
pub open spec fn array_marked(pool: PoolState, ext: TickArrayBitmapExtension, m: int) -> bool {
    if -512 <= m < 512 {
        word_bit(pool.tick_array_bitmap@, m + 512)
    } else if m >= 512 {
        word_bit(ext.positive_tick_array_bitmap@, m - 512)
    } else {
        word_bit(ext.negative_tick_array_bitmap@, -m - 513)
    }
}

/// The array offset overlaps the tick range the pool prices.
pub open spec fn offset_in_coverage(pool: PoolState, m: int) -> bool {
    min_array_offset(pool.tick_spacing) <= m <= max_array_offset(pool.tick_spacing)
}

/// The tick array at offset `m` holds liquidity: it is in coverage and its
/// bitmap bit is set.
pub open spec fn tick_array_initialized(
    pool: PoolState,
    ext: TickArrayBitmapExtension,
    m: int,
) -> bool {
    offset_in_coverage(pool, m) && array_marked(pool, ext, m)
}

/// Tests the bitmap bit of the array at offset `m`.
pub fn is_tick_array_initialized(pool: &PoolState, ext: &TickArrayBitmapExtension, m: i32) -> (r:
    bool)
    requires
        pool.wf(),
        ext.wf(),
    ensures
        r == tick_array_initialized(*pool, *ext, m as int),
{
    proof {
        lemma_span_bounds(pool.tick_spacing);
        lemma_array_offset_bounds(pool.tick_spacing);
    }
    let m_min = tick_array_offset(MIN_TICK, pool.tick_spacing);
    let m_max = tick_array_offset(MAX_TICK, pool.tick_spacing);
    if m < m_min || m > m_max {
        return false;
    }
    if m >= -512 && m < 512 {
        let i: usize = (m + 512) as usize;
        let w = pool.tick_array_bitmap[i / 64];
        ((w >> ((i % 64) as u64)) & 1) == 1
    } else if m >= 512 {
        let i: usize = (m - 512) as usize;
        let w = ext.positive_tick_array_bitmap[i / 64];
        ((w >> ((i % 64) as u64)) & 1) == 1
    } else {
        let i: usize = (-m - 513) as usize;
        let w = ext.negative_tick_array_bitmap[i / 64];
        ((w >> ((i % 64) as u64)) & 1) == 1
    }
}

/// No initialized tick array has an offset in `[lo, hi)`.
pub open spec fn none_initialized_in(
    pool: PoolState,
    ext: TickArrayBitmapExtension,
    lo: int,
    hi: int,
) -> bool {
    forall|m: int| lo <= m < hi ==> !tick_array_initialized(pool, ext, m)
}

/// The nearest initialized tick array strictly below offset `from`.
fn search_down(pool: &PoolState, ext: &TickArrayBitmapExtension, from: i32) -> (r: Option<i32>)
    requires
        pool.wf(),
        ext.wf(),
        min_array_offset(pool.tick_spacing) - 1 <= from <= max_array_offset(pool.tick_spacing) + 1,
    ensures
        r matches Some(m) ==> tick_array_initialized(*pool, *ext, m as int) && m < from
            && none_initialized_in(*pool, *ext, m + 1, from as int),
        r is None ==> none_initialized_in(
            *pool,
            *ext,
            min_array_offset(pool.tick_spacing),
            from as int,
        ),
{
    proof {
        lemma_span_bounds(pool.tick_spacing);
        lemma_array_offset_bounds(pool.tick_spacing);
    }
    let m_min = tick_array_offset(MIN_TICK, pool.tick_spacing);
    let mut m = from;
    while m > m_min
        invariant
            pool.wf(),
            ext.wf(),
            m_min == min_array_offset(pool.tick_spacing),
            -7394 <= m_min <= -1,
            m <= from,
            none_initialized_in(*pool, *ext, m as int, from as int),
        decreases m - m_min,
    {
        m -= 1;
        if is_tick_array_initialized(pool, ext, m) {
            return Some(m);
        }
    }
    None
}

/// The nearest initialized tick array strictly above offset `from`.
fn search_up(pool: &PoolState, ext: &TickArrayBitmapExtension, from: i32) -> (r: Option<i32>)
    requires
        pool.wf(),
        ext.wf(),
        min_array_offset(pool.tick_spacing) - 1 <= from <= max_array_offset(pool.tick_spacing) + 1,
    ensures
        r matches Some(m) ==> tick_array_initialized(*pool, *ext, m as int) && m > from
            && none_initialized_in(*pool, *ext, from + 1, m as int),
        r is None ==> none_initialized_in(
            *pool,
            *ext,
            from + 1,
            max_array_offset(pool.tick_spacing) + 1,
        ),
{
    proof {
        lemma_span_bounds(pool.tick_spacing);
        lemma_array_offset_bounds(pool.tick_spacing);
    }
    let m_max = tick_array_offset(MAX_TICK, pool.tick_spacing);
    let mut m = from;
    while m < m_max
        invariant
            pool.wf(),
            ext.wf(),
            m_max == max_array_offset(pool.tick_spacing),
            0 <= m_max <= 7393,
            m >= from,
            none_initialized_in(*pool, *ext, from + 1, m as int + 1),
        decreases m_max - m,
    {
        m += 1;
        if is_tick_array_initialized(pool, ext, m) {
            return Some(m);
        }
    }
    None
}

/// `s` is the start index of an array the pool can price.
pub open spec fn is_valid_array_start_index(s: int, tick_spacing: u16) -> bool {
    &&& s % ticks_in_array(tick_spacing) == 0
    &&& min_array_offset(tick_spacing) <= s / ticks_in_array(tick_spacing) <= max_array_offset(
        tick_spacing,
    )
}

/// The start index of the tick array containing `tick` (floor toward
/// negative infinity, never truncation toward zero).
pub fn tick_array_start_index(tick: i32, tick_spacing: u16) -> (r: i32)
    requires
        1 <= tick_spacing,
        MIN_TICK <= tick <= MAX_TICK,
    ensures
        r == array_start_index(tick as int, tick_spacing),
        is_valid_array_start_index(r as int, tick_spacing),
{
    proof {
        lemma_span_bounds(tick_spacing);
        lemma_array_offset_bounds(tick_spacing);
        let d = ticks_in_array(tick_spacing);
        lemma_mul_inequality(60, d, 8000);
        lemma_div_is_ordered(MIN_TICK as int, tick as int, d);
        lemma_div_is_ordered(tick as int, MAX_TICK as int, d);
    }
    let m = tick_array_offset(tick, tick_spacing);
    proof {
        lemma_div_multiples_vanish(m as int, ticks_in_array(tick_spacing));
        lemma_mod_multiples_basic(m as int, ticks_in_array(tick_spacing));
    }
    offset_to_start_index(m, tick_spacing)
}

/// The start index of the nearest initialized tick array strictly beyond
/// `start_index` in the traversal direction (`zero_for_one` walks toward
/// lower ticks), or `None` when the bitmap is exhausted in that direction.
pub fn next_initialized_tick_array_start_index(
    pool: &PoolState,
    ext: &TickArrayBitmapExtension,
    start_index: i32,
    zero_for_one: bool,
) -> (r: Option<i32>)
    requires
        pool.wf(),
        ext.wf(),
        is_valid_array_start_index(start_index as int, pool.tick_spacing),
    ensures
        ({
            let m0 = array_index_of_tick(start_index as int, pool.tick_spacing);
            &&& (r matches Some(s) ==> ({
                let m = array_index_of_tick(s as int, pool.tick_spacing);
                &&& s == m * ticks_in_array(pool.tick_spacing)
                &&& tick_array_initialized(*pool, *ext, m)
                &&& (zero_for_one ==> m < m0 && none_initialized_in(*pool, *ext, m + 1, m0))
                &&& (!zero_for_one ==> m > m0 && none_initialized_in(*pool, *ext, m0 + 1, m))
            }))
            &&& (r is None && zero_for_one ==> none_initialized_in(
                *pool,
                *ext,
                min_array_offset(pool.tick_spacing),
                m0,
            ))
            &&& (r is None && !zero_for_one ==> none_initialized_in(
                *pool,
                *ext,
                m0 + 1,
                max_array_offset(pool.tick_spacing) + 1,
            ))
        }),
{
    proof {
        lemma_span_bounds(pool.tick_spacing);
        lemma_array_offset_bounds(pool.tick_spacing);
        let d = ticks_in_array(pool.tick_spacing);
        let q = start_index as int / d;
        lemma_fundamental_div_mod(start_index as int, d);
        lemma_mul_inequality(q, max_array_offset(pool.tick_spacing), d);
        lemma_mul_inequality(min_array_offset(pool.tick_spacing), q, d);
        lemma_mul_inequality(-8000, min_array_offset(pool.tick_spacing), d);
        lemma_mul_inequality(max_array_offset(pool.tick_spacing), 8000, d);
    }
    let m0 = tick_array_offset(start_index, pool.tick_spacing);
    let nxt = if zero_for_one {
        search_down(pool, ext, m0)
    } else {
        search_up(pool, ext, m0)
    };
    match nxt {
        None => None,
        Some(m) => {
            proof {
                lemma_div_multiples_vanish(m as int, ticks_in_array(pool.tick_spacing));
            }
            let s = offset_to_start_index(m, pool.tick_spacing);
            Some(s)
        },
    }
}

/// The first tick array a traversal will use: the array of the current tick
/// when that array is initialized (flagged `true`), else the nearest
/// initialized array in the traversal direction (flagged `false`), or `None`
/// when no initialized array exists in that direction.
pub fn get_first_initialized_tick_array(
    pool: &PoolState,
    ext: &TickArrayBitmapExtension,
    zero_for_one: bool,
) -> (r: Option<(bool, i32)>)
    requires
        pool.wf(),
        ext.wf(),
    ensures
        ({
            let m0 = array_index_of_tick(pool.tick_current as int, pool.tick_spacing);
            let d = ticks_in_array(pool.tick_spacing);
            &&& (tick_array_initialized(*pool, *ext, m0) ==> (r matches Some(p) && p.0 == true
                && p.1 == m0 * d))
            &&& (!tick_array_initialized(*pool, *ext, m0) ==> {
                &&& (r matches Some(p) ==> ({
                    let m = array_index_of_tick(p.1 as int, pool.tick_spacing);
                    &&& p.0 == false
                    &&& p.1 == m * d
                    &&& tick_array_initialized(*pool, *ext, m)
                    &&& (zero_for_one ==> m < m0 && none_initialized_in(*pool, *ext, m + 1, m0))
                    &&& (!zero_for_one ==> m > m0 && none_initialized_in(*pool, *ext, m0 + 1, m))
                }))
                &&& (r is None && zero_for_one ==> none_initialized_in(
                    *pool,
                    *ext,
                    min_array_offset(pool.tick_spacing),
                    m0 + 1,
                ))
                &&& (r is None && !zero_for_one ==> none_initialized_in(
                    *pool,
                    *ext,
                    m0,
                    max_array_offset(pool.tick_spacing) + 1,
                ))
            })
        }),
{
    proof {
        lemma_span_bounds(pool.tick_spacing);
        lemma_array_offset_bounds(pool.tick_spacing);
        let d = ticks_in_array(pool.tick_spacing);
        lemma_mul_inequality(60, d, 8000);
        lemma_div_is_ordered(MIN_TICK as int, pool.tick_current as int, d);
        lemma_div_is_ordered(pool.tick_current as int, MAX_TICK as int, d);
    }
    let m0 = tick_array_offset(pool.tick_current, pool.tick_spacing);
    if is_tick_array_initialized(pool, ext, m0) {
        proof {
            lemma_div_multiples_vanish(m0 as int, ticks_in_array(pool.tick_spacing));
        }
        let s = offset_to_start_index(m0, pool.tick_spacing);
        return Some((true, s));
    }
    let nxt = if zero_for_one {
        search_down(pool, ext, m0)
    } else {
        search_up(pool, ext, m0)
    };
    match nxt {
        None => {
            proof {
                if zero_for_one {
                    assert forall|m: int|
                        min_array_offset(pool.tick_spacing) <= m < m0 as int
                            + 1 implies !tick_array_initialized(*pool, *ext, m) by {
                        if m < m0 as int {
                            assert(!tick_array_initialized(*pool, *ext, m));
                        }
                    }
                } else {
                    assert forall|m: int|
                        m0 as int <= m < max_array_offset(pool.tick_spacing)
                            + 1 implies !tick_array_initialized(*pool, *ext, m) by {
                        if m > m0 as int {
                            assert(!tick_array_initialized(*pool, *ext, m));
                        }
                    }
                }
            }
            None
        },
        Some(m) => {
            proof {
                lemma_div_multiples_vanish(m as int, ticks_in_array(pool.tick_spacing));
            }
            let s = offset_to_start_index(m, pool.tick_spacing);
            Some((false, s))
        },
    }
}

/// The array offset of a returned start index.
pub open spec fn offset_of_start(pool: PoolState, s: i32) -> int {
    array_index_of_tick(s as int, pool.tick_spacing)
}

/// The ordered start indices of the tick arrays a swap will need: the first
/// initialized array at or beyond the current tick in the traversal
/// direction, then up to `MAX_LOOKAHEAD_ARRAYS` further initialized arrays.
/// A pool with no initialized array in the direction yields an empty list,
/// not an error. The list never exceeds `1 + MAX_LOOKAHEAD_ARRAYS` entries,
/// its start indices are strictly monotonic in the traversal direction, and
/// no initialized array between two returned neighbours is skipped — in
/// particular the walk crosses the inline/extension bitmap seam.
pub fn swap_tick_array_start_indices(
    pool: &PoolState,
    ext: &TickArrayBitmapExtension,
    zero_for_one: bool,
) -> (r: Vec<i32>)
    requires
        pool.wf(),
        ext.wf(),
    ensures
        r@.len() <= 1 + MAX_LOOKAHEAD_ARRAYS,
        forall|i: int|
            0 <= i < r@.len() ==> #[trigger] r@[i] == offset_of_start(*pool, r@[i])
                * ticks_in_array(pool.tick_spacing) && tick_array_initialized(
                *pool,
                *ext,
                offset_of_start(*pool, r@[i]),
            ),
        forall|i: int, j: int|
            0 <= i < j < r@.len() ==> (if zero_for_one {
                r@[j] < r@[i]
            } else {
                r@[i] < r@[j]
            }),
        r@.len() > 0 && zero_for_one ==> offset_of_start(*pool, r@[0]) <= array_index_of_tick(
            pool.tick_current as int,
            pool.tick_spacing,
        ) && none_initialized_in(
            *pool,
            *ext,
            offset_of_start(*pool, r@[0]) + 1,
            array_index_of_tick(pool.tick_current as int, pool.tick_spacing) + 1,
        ),
        r@.len() > 0 && !zero_for_one ==> offset_of_start(*pool, r@[0]) >= array_index_of_tick(
            pool.tick_current as int,
            pool.tick_spacing,
        ) && none_initialized_in(
            *pool,
            *ext,
            array_index_of_tick(pool.tick_current as int, pool.tick_spacing),
            offset_of_start(*pool, r@[0]),
        ),
        forall|i: int|
            0 <= i < r@.len() - 1 ==> (if zero_for_one {
                none_initialized_in(
                    *pool,
                    *ext,
                    offset_of_start(*pool, r@[i + 1]) + 1,
                    offset_of_start(*pool, #[trigger] r@[i]),
                )
            } else {
                none_initialized_in(
                    *pool,
                    *ext,
                    offset_of_start(*pool, #[trigger] r@[i]) + 1,
                    offset_of_start(*pool, r@[i + 1]),
                )
            }),
        (r@.len() == 0 <==> (if zero_for_one {
            none_initialized_in(
                *pool,
                *ext,
                min_array_offset(pool.tick_spacing),
                array_index_of_tick(pool.tick_current as int, pool.tick_spacing) + 1,
            )
        } else {
            none_initialized_in(
                *pool,
                *ext,
                array_index_of_tick(pool.tick_current as int, pool.tick_spacing),
                max_array_offset(pool.tick_spacing) + 1,
            )
        })),
        0 < r@.len() < 1 + MAX_LOOKAHEAD_ARRAYS ==> (if zero_for_one {
            none_initialized_in(
                *pool,
                *ext,
                min_array_offset(pool.tick_spacing),
                offset_of_start(*pool, r@[r@.len() - 1]),
            )
        } else {
            none_initialized_in(
                *pool,
                *ext,
                offset_of_start(*pool, r@[r@.len() - 1]) + 1,
                max_array_offset(pool.tick_spacing) + 1,
            )
        }),
{
    let ghost m0 = array_index_of_tick(pool.tick_current as int, pool.tick_spacing);
    let ghost d = ticks_in_array(pool.tick_spacing);
    proof {
        lemma_span_bounds(pool.tick_spacing);
        lemma_array_offset_bounds(pool.tick_spacing);
    }
    let mut out: Vec<i32> = Vec::new();
    let first = get_first_initialized_tick_array(pool, ext, zero_for_one);
    let s0: i32;
    match first {
        None => {
            return out;
        },
        Some(p) => {
            s0 = p.1;
            proof {
                if p.0 {
                    lemma_div_multiples_vanish(m0, d);
                }
            }
        },
    }
    out.push(s0);
    proof {
        let f = offset_of_start(*pool, s0);
        lemma_div_multiples_vanish(f, d);
        if zero_for_one {
            assert forall|m: int| f + 1 <= m < m0 + 1 implies !tick_array_initialized(
                *pool,
                *ext,
                m,
            ) by {
                if m < m0 {
                    assert(!tick_array_initialized(*pool, *ext, m));
                }
            }
        } else {
            assert(none_initialized_in(*pool, *ext, m0, f));
        }
    }
    let mut count: usize = 0;
    let mut done = false;
    while count < MAX_LOOKAHEAD_ARRAYS && !done
        invariant
            pool.wf(),
            ext.wf(),
            m0 == array_index_of_tick(pool.tick_current as int, pool.tick_spacing),
            d == ticks_in_array(pool.tick_spacing),
            count <= MAX_LOOKAHEAD_ARRAYS,
            out@.len() == count + 1,
            forall|i: int|
                0 <= i < out@.len() ==> #[trigger] out@[i] == offset_of_start(*pool, out@[i]) * d
                    && tick_array_initialized(*pool, *ext, offset_of_start(*pool, out@[i])),
            forall|i: int, j: int|
                0 <= i < j < out@.len() ==> (if zero_for_one {
                    out@[j] < out@[i]
                } else {
                    out@[i] < out@[j]
                }),
            zero_for_one ==> offset_of_start(*pool, out@[0]) <= m0 && none_initialized_in(
                *pool,
                *ext,
                offset_of_start(*pool, out@[0]) + 1,
                m0 + 1,
            ),
            !zero_for_one ==> offset_of_start(*pool, out@[0]) >= m0 && none_initialized_in(
                *pool,
                *ext,
                m0,
                offset_of_start(*pool, out@[0]),
            ),
            forall|i: int|
                0 <= i < out@.len() - 1 ==> (if zero_for_one {
                    none_initialized_in(
                        *pool,
                        *ext,
                        offset_of_start(*pool, out@[i + 1]) + 1,
                        offset_of_start(*pool, #[trigger] out@[i]),
                    )
                } else {
                    none_initialized_in(
                        *pool,
                        *ext,
                        offset_of_start(*pool, #[trigger] out@[i]) + 1,
                        offset_of_start(*pool, out@[i + 1]),
                    )
                }),
            done ==> (if zero_for_one {
                none_initialized_in(
                    *pool,
                    *ext,
                    min_array_offset(pool.tick_spacing),
                    offset_of_start(*pool, out@[out@.len() - 1]),
                )
            } else {
                none_initialized_in(
                    *pool,
                    *ext,
                    offset_of_start(*pool, out@[out@.len() - 1]) + 1,
                    max_array_offset(pool.tick_spacing) + 1,
                )
            }),
        decreases MAX_LOOKAHEAD_ARRAYS + 1 - count - (if done {
            1int
        } else {
            0int
        }),
    {
        let last = out[out.len() - 1];
        proof {
            lemma_span_bounds(pool.tick_spacing);
            lemma_array_offset_bounds(pool.tick_spacing);
            let li = out@.len() - 1;
            assert(out@[li] == offset_of_start(*pool, out@[li]) * d && tick_array_initialized(
                *pool,
                *ext,
                offset_of_start(*pool, out@[li]),
            ));
            let off = offset_of_start(*pool, last);
            lemma_fundamental_div_mod(last as int, d);
            assert(last as int == off * d);
            assert(last as int % d == last as int - d * off);
            assert(off * d == d * off);
            assert(last as int % d == 0);
        }
        match next_initialized_tick_array_start_index(pool, ext, last, zero_for_one) {
            None => {
                done = true;
            },
            Some(s2) => {
                proof {
                    let mlast = offset_of_start(*pool, last);
                    let mnew = offset_of_start(*pool, s2);
                    if zero_for_one {
                        vstd::arithmetic::mul::lemma_mul_strict_inequality(mnew, mlast, d);
                    } else {
                        vstd::arithmetic::mul::lemma_mul_strict_inequality(mlast, mnew, d);
                    }
                }
                out.push(s2);
                count += 1;
            },
        }
    }
    proof {
        let f = offset_of_start(*pool, out@[0]);
        assert(tick_array_initialized(*pool, *ext, f));
        if zero_for_one {
            assert(!none_initialized_in(*pool, *ext, min_array_offset(pool.tick_spacing), m0 + 1));
        } else {
            assert(!none_initialized_in(
                *pool,
                *ext,
                m0,
                max_array_offset(pool.tick_spacing) + 1,
            ));
        }
    }
    out
}

/// Derives the tick-array account address of each start index in `starts`,
/// in order; fails only when some start index admits no bump discriminant.
pub fn tick_array_addresses(program_id: &Address, pool_id: &Address, starts: &Vec<i32>) -> (r:
    Result<Vec<Address>, DerivationError>)
    requires
        program_id.wf(),
        pool_id.wf(),
    ensures
        r matches Ok(v) ==> v@.len() == starts@.len() && forall|i: int|
            0 <= i < starts@.len() ==> (derive_tick_array_spec(
                program_id@,
                pool_id@,
                #[trigger] starts@[i],
            ) matches Some(q) && v@[i]@ == q.0 && v@[i].wf()),
        r matches Err(e) ==> e == DerivationError::BumpNotFound && exists|i: int|
            0 <= i < starts@.len() && derive_tick_array_spec(
                program_id@,
                pool_id@,
                #[trigger] starts@[i],
            ) is None,
{
    let mut out: Vec<Address> = Vec::new();
    let mut i: usize = 0;
    while i < starts.len()
        invariant
            program_id.wf(),
            pool_id.wf(),
            i <= starts@.len(),
            out@.len() == i,
            forall|j: int|
                0 <= j < i ==> (derive_tick_array_spec(
                    program_id@,
                    pool_id@,
                    #[trigger] starts@[j],
                ) matches Some(q) && out@[j]@ == q.0 && out@[j].wf()),
        decreases starts@.len() - i,
    {
        match crate::seeds::derive_tick_array(program_id, pool_id, starts[i]) {
            Ok(p) => {
                out.push(p.0);
            },
            Err(_) => {
                return Err(DerivationError::BumpNotFound);
            },
        }
        i += 1;
    }
    Ok(out)
}

} // verus!
