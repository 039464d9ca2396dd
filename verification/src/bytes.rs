//! Canonical byte encodings: big-endian integers as seed components, and
//! little-endian integers as record fields.

use vstd::prelude::*;

verus! {

/// Big-endian bytes of a `u16`, as used in seed tuples.
pub open spec fn u16_be_spec(x: u16) -> Seq<u8> {
    seq![(x / 256) as u8, (x % 256) as u8]
}

/// The unsigned 32-bit two's-complement representative of an `i32`.
pub open spec fn i32_rep(x: i32) -> int {
    if x >= 0 {
        x as int
    } else {
        x as int + 0x1_0000_0000
    }
}

/// Big-endian bytes of a 32-bit unsigned value given as an `int`.
pub open spec fn u32_be_of(n: int) -> Seq<u8> {
    seq![
        ((n / 0x100_0000) % 256) as u8,
        ((n / 0x1_0000) % 256) as u8,
        ((n / 0x100) % 256) as u8,
        (n % 256) as u8,
    ]
}

/// Big-endian bytes of an `i32` (two's complement), as used in seed tuples.
pub open spec fn i32_be_spec(x: i32) -> Seq<u8> {
    u32_be_of(i32_rep(x))
}

pub fn u16_be(x: u16) -> (r: Vec<u8>)
    ensures
        r@ == u16_be_spec(x),
{
    let mut v: Vec<u8> = Vec::new();
    v.push((x / 256) as u8);
    v.push((x % 256) as u8);
    proof {
        assert(v@ =~= u16_be_spec(x));
    }
    v
}

pub fn i32_be(x: i32) -> (r: Vec<u8>)
    ensures
        r@ == i32_be_spec(x),
{
    let n: u64 = if x >= 0 {
        x as u64
    } else {
        (x as i64 + 0x1_0000_0000) as u64
    };
    let mut v: Vec<u8> = Vec::new();
    v.push(((n / 0x100_0000) % 256) as u8);
    v.push(((n / 0x1_0000) % 256) as u8);
    v.push(((n / 0x100) % 256) as u8);
    v.push((n % 256) as u8);
    proof {
        assert(v@ =~= i32_be_spec(x));
    }
    v
}

/// Little-endian 16-bit value at offset `i` of `b`.
pub open spec fn le16_spec(b: Seq<u8>, i: int) -> int {
    b[i] + 0x100 * b[i + 1]
}

/// Little-endian 32-bit value at offset `i` of `b`.
pub open spec fn le32_spec(b: Seq<u8>, i: int) -> int {
    b[i] + 0x100 * b[i + 1] + 0x1_0000 * b[i + 2] + 0x100_0000 * b[i + 3]
}

/// Little-endian 64-bit value at offset `i` of `b`.
pub open spec fn le64_spec(b: Seq<u8>, i: int) -> int {
    le32_spec(b, i) + 0x1_0000_0000 * le32_spec(b, i + 4)
}

/// Little-endian 128-bit value at offset `i` of `b`.
pub open spec fn le128_spec(b: Seq<u8>, i: int) -> int {
    le64_spec(b, i) + 0x1_0000_0000_0000_0000 * le64_spec(b, i + 8)
}

/// The signed value of an unsigned 32-bit two's-complement representative.
pub open spec fn i32_of_rep(n: int) -> int {
    if n < 0x8000_0000 {
        n
    } else {
        n - 0x1_0000_0000
    }
}

/// Little-endian `i32` at offset `i` of `b`.
pub open spec fn le_i32_spec(b: Seq<u8>, i: int) -> int {
    i32_of_rep(le32_spec(b, i))
}

/// The signed value of an unsigned 128-bit two's-complement representative.
pub open spec fn i128_of_rep(n: int) -> int {
    if n < 0x8000_0000_0000_0000_0000_0000_0000_0000 {
        n
    } else {
        n - 0x1_0000_0000_0000_0000_0000_0000_0000_0000
    }
}

/// Little-endian `i128` at offset `i` of `b`.
pub open spec fn le_i128_spec(b: Seq<u8>, i: int) -> int {
    i128_of_rep(le128_spec(b, i))
}

pub fn read_u16_le(b: &Vec<u8>, i: usize) -> (r: u16)
    requires
        i + 2 <= b@.len(),
    ensures
        r == le16_spec(b@, i as int),
{
    let _len: usize = b.len();
    b[i] as u16 + (b[i + 1] as u16) * 0x100
}

pub fn read_u32_le(b: &Vec<u8>, i: usize) -> (r: u32)
    requires
        i + 4 <= b@.len(),
    ensures
        r == le32_spec(b@, i as int),
{
    let _len: usize = b.len();
    b[i] as u32 + (b[i + 1] as u32) * 0x100 + (b[i + 2] as u32) * 0x1_0000 + (b[i + 3] as u32)
        * 0x100_0000
}

pub fn read_u64_le(b: &Vec<u8>, i: usize) -> (r: u64)
    requires
        i + 8 <= b@.len(),
    ensures
        r == le64_spec(b@, i as int),
{
    let _len: usize = b.len();
    let lo = read_u32_le(b, i);
    let hi = read_u32_le(b, i + 4);
    lo as u64 + (hi as u64) * 0x1_0000_0000
}

pub fn read_u128_le(b: &Vec<u8>, i: usize) -> (r: u128)
    requires
        i + 16 <= b@.len(),
    ensures
        r == le128_spec(b@, i as int),
{
    let _len: usize = b.len();
    let lo = read_u64_le(b, i);
    let hi = read_u64_le(b, i + 8);
    lo as u128 + (hi as u128) * 0x1_0000_0000_0000_0000
}

pub fn read_i32_le(b: &Vec<u8>, i: usize) -> (r: i32)
    requires
        i + 4 <= b@.len(),
    ensures
        r == le_i32_spec(b@, i as int),
{
    let n = read_u32_le(b, i);
    if n < 0x8000_0000 {
        n as i32
    } else {
        ((n as i64) - 0x1_0000_0000) as i32
    }
}

pub fn read_i128_le(b: &Vec<u8>, i: usize) -> (r: i128)
    requires
        i + 16 <= b@.len(),
    ensures
        r == le_i128_spec(b@, i as int),
{
    let n = read_u128_le(b, i);
    if n < 0x8000_0000_0000_0000_0000_0000_0000_0000 {
        n as i128
    } else {
        let d: u128 = n - 0x8000_0000_0000_0000_0000_0000_0000_0000;
        (d as i128) + i128::MIN
    }
}

/// Copies a byte vector; the copy holds exactly the same bytes.
pub fn clone_bytes(v: &Vec<u8>) -> (r: Vec<u8>)
    ensures
        r@ == v@,
{
    let mut out: Vec<u8> = Vec::new();
    let mut i: usize = 0;
    while i < v.len()
        invariant
            i <= v@.len(),
            out@ =~= v@.subrange(0, i as int),
        decreases v@.len() - i,
    {
        out.push(v[i]);
        i += 1;
    }
    proof {
        assert(out@ =~= v@);
    }
    out
}

} // verus!
