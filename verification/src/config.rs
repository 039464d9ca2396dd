//! Resolution of the account addresses a client works with, from its
//! configured program identity, config index and optional mint pair.

use vstd::prelude::*;
use crate::addr::{addr_lt, Address, DerivationError};
use crate::seeds::{
    canonical_mint_pair, derive_amm_config, derive_amm_config_spec, derive_bitmap_extension,
    derive_bitmap_extension_spec, derive_pool, derive_pool_spec,
};

verus! {

/// The accounts a client has collected for one pool.
pub struct PoolAccounts {
    pub pool_id: Option<Address>,
    pub pool_config: Option<Address>,
    pub pool_observation: Option<Address>,
    pub pool_protocol_positions: Vec<Address>,
    pub pool_personal_positions: Vec<Address>,
    pub pool_tick_arrays: Vec<Address>,
}

impl Default for PoolAccounts {
    fn default() -> (r: Self)
        ensures
            r.pool_id is None,
            r.pool_config is None,
            r.pool_observation is None,
            r.pool_protocol_positions@.len() == 0,
            r.pool_personal_positions@.len() == 0,
            r.pool_tick_arrays@.len() == 0,
    {
        PoolAccounts {
            pool_id: None,
            pool_config: None,
            pool_observation: None,
            pool_protocol_positions: Vec::new(),
            pool_personal_positions: Vec::new(),
            pool_tick_arrays: Vec::new(),
        }
    }
}

/// The derived addresses of a client configuration: the fee/tick-spacing
/// config account, the canonicalized mint pair, and — when both mints are
/// configured — the pool and its bitmap extension.
pub struct ResolvedPoolKeys {
    pub amm_config_key: Address,
    pub mint0: Option<Address>,
    pub mint1: Option<Address>,
    pub pool_id_account: Option<Address>,
    pub tickarray_bitmap_extension: Option<Address>,
}

/// Every derivation the configuration asks for admits a bump discriminant:
/// the config account always, and — when both mints are given — the pool of
/// the pair under that config, and the pool's bitmap extension.
pub open spec fn resolution_succeeds(
    program_id: Seq<u8>,
    amm_config_index: u16,
    mint0: Option<Address>,
    mint1: Option<Address>,
) -> bool {
    &&& derive_amm_config_spec(program_id, amm_config_index) is Some
    &&& (mint0 matches Some(a) ==> (mint1 matches Some(b) ==> (derive_amm_config_spec(
        program_id,
        amm_config_index,
    ) matches Some(c) && derive_pool_spec(program_id, c.0, a@, b@) matches Some(p)
        && derive_bitmap_extension_spec(program_id, p.0) is Some)))
}

/// Derives every address a client configuration names. The mint pair is
/// canonicalized (lower raw bytes first) before the pool is derived, so the
/// order in which the two mints are configured does not matter.
pub fn resolve_pool_addresses(
    raydium_v3_program: &Address,
    amm_config_index: u16,
    mint0: &Option<Address>,
    mint1: &Option<Address>,
) -> (r: Result<ResolvedPoolKeys, DerivationError>)
    requires
        raydium_v3_program.wf(),
        mint0 matches Some(m) ==> m.wf(),
        mint1 matches Some(m) ==> m.wf(),
    ensures
        r is Ok <==> resolution_succeeds(raydium_v3_program@, amm_config_index, *mint0, *mint1),
        r matches Ok(k) ==> derive_amm_config_spec(raydium_v3_program@, amm_config_index)
            matches Some(q) && k.amm_config_key@ == q.0,
        r matches Ok(k) ==> (mint0 matches Some(a) ==> (mint1 matches Some(b)
            ==> k.mint0 matches Some(c0) && c0@ == canonical_mint_pair(a@, b@).0)),
        r matches Ok(k) ==> (mint0 matches Some(a) ==> (mint1 matches Some(b)
            ==> k.mint1 matches Some(c1) && c1@ == canonical_mint_pair(a@, b@).1)),
        r matches Ok(k) ==> (mint0 matches Some(a) ==> (mint1 matches Some(b)
            ==> k.pool_id_account matches Some(p) && derive_pool_spec(
            raydium_v3_program@,
            k.amm_config_key@,
            a@,
            b@,
        ) matches Some(pq) && p@ == pq.0)),
        r matches Ok(k) ==> (mint0 matches Some(a) ==> (mint1 matches Some(b)
            ==> k.pool_id_account matches Some(p) && derive_bitmap_extension_spec(
            raydium_v3_program@,
            p@,
        ) matches Some(eq) && k.tickarray_bitmap_extension matches Some(e) && e@ == eq.0)),
        r matches Ok(k) ==> ((mint0 is None || mint1 is None) ==> k.pool_id_account is None
            && k.tickarray_bitmap_extension is None),
        r matches Ok(k) ==> (mint0 is None ==> k.mint0 is None),
        r matches Ok(k) ==> (mint1 is None ==> k.mint1 is None),
        r matches Ok(k) ==> (mint1 is None ==> (mint0 matches Some(a) ==> k.mint0 matches Some(c)
            && c@ == a@)),
        r matches Ok(k) ==> (mint0 is None ==> (mint1 matches Some(b) ==> k.mint1 matches Some(c)
            && c@ == b@)),
        r matches Err(e) ==> e == DerivationError::BumpNotFound,
{
    let amm_config_key: Address;
    match derive_amm_config(raydium_v3_program, amm_config_index) {
        Ok(p) => {
            amm_config_key = p.0;
        },
        Err(_) => {
            return Err(DerivationError::BumpNotFound);
        },
    }
    match (mint0, mint1) {
        (Some(a), Some(b)) => {
            let swap = addr_lt(b, a);
            let (c0, c1) = if swap {
                (b.clone(), a.clone())
            } else {
                (a.clone(), b.clone())
            };
            proof {
                assert(c0@ == canonical_mint_pair(a@, b@).0);
                assert(c1@ == canonical_mint_pair(a@, b@).1);
            }
            let pool_id: Address;
            match derive_pool(raydium_v3_program, &amm_config_key, a, b) {
                Ok(p) => {
                    pool_id = p.0;
                },
                Err(_) => {
                    return Err(DerivationError::BumpNotFound);
                },
            }
            match derive_bitmap_extension(raydium_v3_program, &pool_id) {
                Ok(p) => Ok(
                    ResolvedPoolKeys {
                        amm_config_key,
                        mint0: Some(c0),
                        mint1: Some(c1),
                        pool_id_account: Some(pool_id),
                        tickarray_bitmap_extension: Some(p.0),
                    },
                ),
                Err(_) => Err(DerivationError::BumpNotFound),
            }
        },
        (Some(a), None) => Ok(
            ResolvedPoolKeys {
                amm_config_key,
                mint0: Some(a.clone()),
                mint1: None,
                pool_id_account: None,
                tickarray_bitmap_extension: None,
            },
        ),
        (None, Some(b)) => Ok(
            ResolvedPoolKeys {
                amm_config_key,
                mint0: None,
                mint1: Some(b.clone()),
                pool_id_account: None,
                tickarray_bitmap_extension: None,
            },
        ),
        (None, None) => Ok(
            ResolvedPoolKeys {
                amm_config_key,
                mint0: None,
                mint1: None,
                pool_id_account: None,
                tickarray_bitmap_extension: None,
            },
        ),
    }
}

} // verus!
