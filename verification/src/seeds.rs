//! Derivation of each protocol entity's address: one domain tag per entity
//! kind, and the exact seed layout of each.

use vstd::prelude::*;
use crate::addr::{addr_lt, find_pda, lex_lt, lemma_lex_lt_asymmetric, lemma_lex_lt_connected,
    pda_of, views_of, Address, DerivationError};
use crate::bytes::{clone_bytes, i32_be, i32_be_spec, u16_be, u16_be_spec};

verus! {

/// The domain tag "amm_config".
pub open spec fn amm_config_tag() -> Seq<u8> {
    seq![97u8, 109, 109, 95, 99, 111, 110, 102, 105, 103]
}

fn amm_config_tag_bytes() -> (r: Vec<u8>)
    ensures
        r@ == amm_config_tag(),
{
    let mut v: Vec<u8> = Vec::new();
    v.push(97);
    v.push(109);
    v.push(109);
    v.push(95);
    v.push(99);
    v.push(111);
    v.push(110);
    v.push(102);
    v.push(105);
    v.push(103);
    proof {
        assert(v@ =~= amm_config_tag());
    }
    v
}

/// The domain tag "pool".
pub open spec fn pool_tag() -> Seq<u8> {
    seq![112u8, 111, 111, 108]
}

fn pool_tag_bytes() -> (r: Vec<u8>)
    ensures
        r@ == pool_tag(),
{
    let mut v: Vec<u8> = Vec::new();
    v.push(112);
    v.push(111);
    v.push(111);
    v.push(108);
    proof {
        assert(v@ =~= pool_tag());
    }
    v
}

/// The domain tag "tick_array".
pub open spec fn tick_array_tag() -> Seq<u8> {
    seq![116u8, 105, 99, 107, 95, 97, 114, 114, 97, 121]
}

fn tick_array_tag_bytes() -> (r: Vec<u8>)
    ensures
        r@ == tick_array_tag(),
{
    let mut v: Vec<u8> = Vec::new();
    v.push(116);
    v.push(105);
    v.push(99);
    v.push(107);
    v.push(95);
    v.push(97);
    v.push(114);
    v.push(114);
    v.push(97);
    v.push(121);
    proof {
        assert(v@ =~= tick_array_tag());
    }
    v
}

/// The domain tag "position".
pub open spec fn position_tag() -> Seq<u8> {
    seq![112u8, 111, 115, 105, 116, 105, 111, 110]
}

fn position_tag_bytes() -> (r: Vec<u8>)
    ensures
        r@ == position_tag(),
{
    let mut v: Vec<u8> = Vec::new();
    v.push(112);
    v.push(111);
    v.push(115);
    v.push(105);
    v.push(116);
    v.push(105);
    v.push(111);
    v.push(110);
    proof {
        assert(v@ =~= position_tag());
    }
    v
}

/// The domain tag "pool_tick_array_bitmap_extension".
pub open spec fn bitmap_extension_tag() -> Seq<u8> {
    seq![112u8, 111, 111, 108, 95, 116, 105, 99, 107, 95, 97, 114, 114, 97, 121, 95, 98, 105, 116, 109, 97, 112, 95, 101, 120, 116, 101, 110, 115, 105, 111, 110]
}

fn bitmap_extension_tag_bytes() -> (r: Vec<u8>)
    ensures
        r@ == bitmap_extension_tag(),
{
    let mut v: Vec<u8> = Vec::new();
    v.push(112);
    v.push(111);
    v.push(111);
    v.push(108);
    v.push(95);
    v.push(116);
    v.push(105);
    v.push(99);
    v.push(107);
    v.push(95);
    v.push(97);
    v.push(114);
    v.push(114);
    v.push(97);
    v.push(121);
    v.push(95);
    v.push(98);
    v.push(105);
    v.push(116);
    v.push(109);
    v.push(97);
    v.push(112);
    v.push(95);
    v.push(101);
    v.push(120);
    v.push(116);
    v.push(101);
    v.push(110);
    v.push(115);
    v.push(105);
    v.push(111);
    v.push(110);
    proof {
        assert(v@ =~= bitmap_extension_tag());
    }
    v
}

/// The domain tag "support_mint".
pub open spec fn support_mint_tag() -> Seq<u8> {
    seq![115u8, 117, 112, 112, 111, 114, 116, 95, 109, 105, 110, 116]
}

fn support_mint_tag_bytes() -> (r: Vec<u8>)
    ensures
        r@ == support_mint_tag(),
{
    let mut v: Vec<u8> = Vec::new();
    v.push(115);
    v.push(117);
    v.push(112);
    v.push(112);
    v.push(111);
    v.push(114);
    v.push(116);
    v.push(95);
    v.push(109);
    v.push(105);
    v.push(110);
    v.push(116);
    proof {
        assert(v@ =~= support_mint_tag());
    }
    v
}

/// The mint pair in canonical order: the mint whose raw bytes sort lower
/// comes first.
pub open spec fn canonical_mint_pair(mint_a: Seq<u8>, mint_b: Seq<u8>) -> (Seq<u8>, Seq<u8>) {
    if lex_lt(mint_b, mint_a) {
        (mint_b, mint_a)
    } else {
        (mint_a, mint_b)
    }
}

pub open spec fn amm_config_seeds(index: u16) -> Seq<Seq<u8>> {
    seq![amm_config_tag(), u16_be_spec(index)]
}

pub open spec fn pool_seeds(config: Seq<u8>, mint_a: Seq<u8>, mint_b: Seq<u8>) -> Seq<Seq<u8>> {
    seq![
        pool_tag(),
        config,
        canonical_mint_pair(mint_a, mint_b).0,
        canonical_mint_pair(mint_a, mint_b).1,
    ]
}

pub open spec fn tick_array_seeds(pool_id: Seq<u8>, start_index: i32) -> Seq<Seq<u8>> {
    seq![tick_array_tag(), pool_id, i32_be_spec(start_index)]
}

pub open spec fn position_seeds(nft_mint: Seq<u8>) -> Seq<Seq<u8>> {
    seq![position_tag(), nft_mint]
}

pub open spec fn bitmap_extension_seeds(pool_id: Seq<u8>) -> Seq<Seq<u8>> {
    seq![bitmap_extension_tag(), pool_id]
}

pub open spec fn support_mint_seeds(token_mint: Seq<u8>) -> Seq<Seq<u8>> {
    seq![support_mint_tag(), token_mint]
}

pub open spec fn derive_amm_config_spec(program_id: Seq<u8>, index: u16) -> Option<(Seq<u8>, u8)> {
    pda_of(amm_config_seeds(index), program_id)
}

pub open spec fn derive_pool_spec(
    program_id: Seq<u8>,
    config: Seq<u8>,
    mint_a: Seq<u8>,
    mint_b: Seq<u8>,
) -> Option<(Seq<u8>, u8)> {
    pda_of(pool_seeds(config, mint_a, mint_b), program_id)
}

pub open spec fn derive_tick_array_spec(
    program_id: Seq<u8>,
    pool_id: Seq<u8>,
    start_index: i32,
) -> Option<(Seq<u8>, u8)> {
    pda_of(tick_array_seeds(pool_id, start_index), program_id)
}

pub open spec fn derive_position_spec(program_id: Seq<u8>, nft_mint: Seq<u8>) -> Option<
    (Seq<u8>, u8),
> {
    pda_of(position_seeds(nft_mint), program_id)
}

pub open spec fn derive_bitmap_extension_spec(program_id: Seq<u8>, pool_id: Seq<u8>) -> Option<
    (Seq<u8>, u8),
> {
    pda_of(bitmap_extension_seeds(pool_id), program_id)
}

pub open spec fn derive_support_mint_spec(program_id: Seq<u8>, token_mint: Seq<u8>) -> Option<
    (Seq<u8>, u8),
> {
    pda_of(support_mint_seeds(token_mint), program_id)
}

/// Derives the global fee/tick-spacing configuration account of `index`.
pub fn derive_amm_config(program_id: &Address, index: u16) -> (r: Result<
    (Address, u8),
    DerivationError,
>)
    requires
        program_id.wf(),
    ensures
        r is Ok <==> derive_amm_config_spec(program_id@, index) is Some,
        r matches Ok(p) ==> derive_amm_config_spec(program_id@, index) matches Some(q) && p.0@
            == q.0 && p.1 == q.1 && p.0.wf(),
        r matches Err(e) ==> e == DerivationError::BumpNotFound,
{
    let mut seeds: Vec<Vec<u8>> = Vec::new();
    seeds.push(amm_config_tag_bytes());
    seeds.push(u16_be(index));
    proof {
        assert(views_of(seeds@) =~= amm_config_seeds(index));
    }
    match find_pda(&seeds, program_id) {
        Some(p) => Ok(p),
        None => Err(DerivationError::BumpNotFound),
    }
}

/// Derives the pool account of a configuration and a mint pair; the pair is
/// canonicalized first, so the order of the two mints does not matter.
pub fn derive_pool(program_id: &Address, config: &Address, mint_a: &Address, mint_b: &Address) -> (r:
    Result<(Address, u8), DerivationError>)
    requires
        program_id.wf(),
        config.wf(),
        mint_a.wf(),
        mint_b.wf(),
    ensures
        r is Ok <==> derive_pool_spec(program_id@, config@, mint_a@, mint_b@) is Some,
        r matches Ok(p) ==> derive_pool_spec(program_id@, config@, mint_a@, mint_b@) matches Some(q)
            && p.0@ == q.0 && p.1 == q.1 && p.0.wf(),
        r matches Err(e) ==> e == DerivationError::BumpNotFound,
{
    let swap = addr_lt(mint_b, mint_a);
    let (m0, m1) = if swap {
        (mint_b, mint_a)
    } else {
        (mint_a, mint_b)
    };
    let mut seeds: Vec<Vec<u8>> = Vec::new();
    seeds.push(pool_tag_bytes());
    seeds.push(clone_bytes(&config.bytes));
    seeds.push(clone_bytes(&m0.bytes));
    seeds.push(clone_bytes(&m1.bytes));
    proof {
        assert(views_of(seeds@) =~= pool_seeds(config@, mint_a@, mint_b@));
    }
    match find_pda(&seeds, program_id) {
        Some(p) => Ok(p),
        None => Err(DerivationError::BumpNotFound),
    }
}

/// Derives the tick-array account of a pool that starts at `start_index`.
pub fn derive_tick_array(program_id: &Address, pool_id: &Address, start_index: i32) -> (r: Result<
    (Address, u8),
    DerivationError,
>)
    requires
        program_id.wf(),
        pool_id.wf(),
    ensures
        r is Ok <==> derive_tick_array_spec(program_id@, pool_id@, start_index) is Some,
        r matches Ok(p) ==> derive_tick_array_spec(program_id@, pool_id@, start_index) matches Some(
            q,
        ) && p.0@ == q.0 && p.1 == q.1 && p.0.wf(),
        r matches Err(e) ==> e == DerivationError::BumpNotFound,
{
    let mut seeds: Vec<Vec<u8>> = Vec::new();
    seeds.push(tick_array_tag_bytes());
    seeds.push(clone_bytes(&pool_id.bytes));
    seeds.push(i32_be(start_index));
    proof {
        assert(views_of(seeds@) =~= tick_array_seeds(pool_id@, start_index));
    }
    match find_pda(&seeds, program_id) {
        Some(p) => Ok(p),
        None => Err(DerivationError::BumpNotFound),
    }
}

/// Derives the position account backed by a position NFT mint.
pub fn derive_position(program_id: &Address, nft_mint: &Address) -> (r: Result<
    (Address, u8),
    DerivationError,
>)
    requires
        program_id.wf(),
        nft_mint.wf(),
    ensures
        r is Ok <==> derive_position_spec(program_id@, nft_mint@) is Some,
        r matches Ok(p) ==> derive_position_spec(program_id@, nft_mint@) matches Some(q) && p.0@
            == q.0 && p.1 == q.1 && p.0.wf(),
        r matches Err(e) ==> e == DerivationError::BumpNotFound,
{
    let mut seeds: Vec<Vec<u8>> = Vec::new();
    seeds.push(position_tag_bytes());
    seeds.push(clone_bytes(&nft_mint.bytes));
    proof {
        assert(views_of(seeds@) =~= position_seeds(nft_mint@));
    }
    match find_pda(&seeds, program_id) {
        Some(p) => Ok(p),
        None => Err(DerivationError::BumpNotFound),
    }
}

/// Derives the tick-array bitmap extension account of a pool.
pub fn derive_bitmap_extension(program_id: &Address, pool_id: &Address) -> (r: Result<
    (Address, u8),
    DerivationError,
>)
    requires
        program_id.wf(),
        pool_id.wf(),
    ensures
        r is Ok <==> derive_bitmap_extension_spec(program_id@, pool_id@) is Some,
        r matches Ok(p) ==> derive_bitmap_extension_spec(program_id@, pool_id@) matches Some(q)
            && p.0@ == q.0 && p.1 == q.1 && p.0.wf(),
        r matches Err(e) ==> e == DerivationError::BumpNotFound,
{
    let mut seeds: Vec<Vec<u8>> = Vec::new();
    seeds.push(bitmap_extension_tag_bytes());
    seeds.push(clone_bytes(&pool_id.bytes));
    proof {
        assert(views_of(seeds@) =~= bitmap_extension_seeds(pool_id@));
    }
    match find_pda(&seeds, program_id) {
        Some(p) => Ok(p),
        None => Err(DerivationError::BumpNotFound),
    }
}

/// Derives the allow-list entry marking a token mint as vetted pool
/// collateral.
pub fn derive_support_mint(program_id: &Address, token_mint: &Address) -> (r: Result<
    (Address, u8),
    DerivationError,
>)
    requires
        program_id.wf(),
        token_mint.wf(),
    ensures
        r is Ok <==> derive_support_mint_spec(program_id@, token_mint@) is Some,
        r matches Ok(p) ==> derive_support_mint_spec(program_id@, token_mint@) matches Some(q)
            && p.0@ == q.0 && p.1 == q.1 && p.0.wf(),
        r matches Err(e) ==> e == DerivationError::BumpNotFound,
{
    let mut seeds: Vec<Vec<u8>> = Vec::new();
    seeds.push(support_mint_tag_bytes());
    seeds.push(clone_bytes(&token_mint.bytes));
    proof {
        assert(views_of(seeds@) =~= support_mint_seeds(token_mint@));
    }
    match find_pda(&seeds, program_id) {
        Some(p) => Ok(p),
        None => Err(DerivationError::BumpNotFound),
    }
}

/// Checks that a claimed position address is exactly the one derivable from
/// the claimed NFT mint; a mismatch signals a caller bug or malicious input.
pub fn position_matches_mint(program_id: &Address, nft_mint: &Address, claimed: &Address) -> (r:
    bool)
    requires
        program_id.wf(),
        nft_mint.wf(),
        claimed.wf(),
    ensures
        r == (derive_position_spec(program_id@, nft_mint@) matches Some(q) && claimed@ == q.0),
{
    match derive_position(program_id, nft_mint) {
        Ok(p) => crate::addr::addr_eq(claimed, &p.0),
        Err(_) => false,
    }
}

/// Law: derivation is deterministic — the same seed tuple under the same
/// program identity always yields the same address and bump discriminant.
pub proof fn lemma_derive_deterministic(
    seeds_fst: Seq<Seq<u8>>,
    program_fst: Seq<u8>,
    seeds_snd: Seq<Seq<u8>>,
    program_snd: Seq<u8>,
)
    requires
        seeds_fst == seeds_snd,
        program_fst == program_snd,
    ensures
        pda_of(seeds_fst, program_fst) == pda_of(seeds_snd, program_snd),
{
}

/// Law: deriving a pool does not depend on the order in which the two mints
/// of its pair are given.
pub proof fn lemma_derive_pool_mint_order(
    program_id: Seq<u8>,
    config: Seq<u8>,
    mint_a: Seq<u8>,
    mint_b: Seq<u8>,
)
    requires
        mint_a.len() == mint_b.len(),
    ensures
        derive_pool_spec(program_id, config, mint_a, mint_b) == derive_pool_spec(
            program_id,
            config,
            mint_b,
            mint_a,
        ),
{
    lemma_lex_lt_asymmetric(mint_a, mint_b);
    if !lex_lt(mint_a, mint_b) && !lex_lt(mint_b, mint_a) {
        lemma_lex_lt_connected(mint_a, mint_b);
    }
    assert(pool_seeds(config, mint_a, mint_b) =~= pool_seeds(config, mint_b, mint_a));
}

} // verus!
