//! Position/ownership enumerator: finds the NFT-backed liquidity positions
//! an owner holds. A token account counts as a position holding exactly when
//! it holds one unit of a zero-decimal mint; the position address is derived
//! from that mint. Both token-standard variants must be enumerated, and
//! their results are concatenated without deduplication.

use vstd::prelude::*;
use crate::addr::{Address, DerivationError};
use crate::seeds::{derive_position, derive_position_spec};

verus! {

/// What the enumerator reads of one token account, as plain values.
pub struct TokenAccountRecord {
    pub pubkey: Address,
    pub mint: Address,
    pub amount: u64,
    pub decimals: u8,
}

impl TokenAccountRecord {
    pub open spec fn wf(&self) -> bool {
        self.pubkey.wf() && self.mint.wf()
    }
}

/// One NFT-backed position holding.
pub struct PositionNftTokenInfo {
    pub key: Address,
    pub program: Address,
    pub position: Address,
    pub mint: Address,
    pub amount: u64,
    pub decimals: u8,
}

/// The protocol's NFT convention: a position holding is exactly one unit of
/// a zero-decimal mint.
pub open spec fn is_position_nft(decimals: u8, amount: u64) -> bool {
    decimals == 0 && amount == 1
}

/// The records of `records` that satisfy the NFT convention, in input order.
pub open spec fn qualifying(records: Seq<TokenAccountRecord>) -> Seq<TokenAccountRecord>
    decreases records.len(),
{
    if records.len() == 0 {
        Seq::empty()
    } else {
        qualifying(records.drop_last()) + (if is_position_nft(
            records.last().decimals,
            records.last().amount,
        ) {
            seq![records.last()]
        } else {
            Seq::empty()
        })
    }
}

/// Every qualifying record's mint admits a position derivation.
pub open spec fn all_derivable(records: Seq<TokenAccountRecord>, program_id: Seq<u8>) -> bool {
    forall|i: int|
        0 <= i < records.len() && is_position_nft(
            #[trigger] records[i].decimals,
            records[i].amount,
        ) ==> derive_position_spec(program_id, records[i].mint@) is Some
}

/// `info` reports `rec`'s holding under `token_program`, with the position
/// address derived from `rec`'s mint under `program_id`.
pub open spec fn info_matches(
    info: PositionNftTokenInfo,
    rec: TokenAccountRecord,
    token_program: Seq<u8>,
    program_id: Seq<u8>,
) -> bool {
    &&& info.key@ == rec.pubkey@
    &&& info.program@ == token_program
    &&& info.mint@ == rec.mint@
    &&& info.amount == rec.amount
    &&& info.decimals == rec.decimals
    &&& derive_position_spec(program_id, rec.mint@) matches Some(q) && info.position@ == q.0
}

/// Enumerates the position holdings among `records`, all fetched under one
/// token-standard program, deriving each position address.
pub fn get_nft_account_and_position_by_owner(
    records: &Vec<TokenAccountRecord>,
    token_program: &Address,
    raydium_amm_v3_program: &Address,
) -> (r: Result<Vec<PositionNftTokenInfo>, DerivationError>)
    requires
        token_program.wf(),
        raydium_amm_v3_program.wf(),
        forall|i: int| 0 <= i < records@.len() ==> (#[trigger] records@[i]).wf(),
    ensures
        r is Ok <==> all_derivable(records@, raydium_amm_v3_program@),
        r matches Ok(v) ==> v@.len() == qualifying(records@).len() && forall|j: int|
            0 <= j < v@.len() ==> info_matches(
                #[trigger] v@[j],
                qualifying(records@)[j],
                token_program@,
                raydium_amm_v3_program@,
            ),
        r matches Err(e) ==> e == DerivationError::BumpNotFound,
{
    let mut out: Vec<PositionNftTokenInfo> = Vec::new();
    let mut i: usize = 0;
    while i < records.len()
        invariant
            token_program.wf(),
            raydium_amm_v3_program.wf(),
            forall|k: int| 0 <= k < records@.len() ==> (#[trigger] records@[k]).wf(),
            i <= records@.len(),
            out@.len() == qualifying(records@.take(i as int)).len(),
            forall|j: int|
                0 <= j < out@.len() ==> info_matches(
                    #[trigger] out@[j],
                    qualifying(records@.take(i as int))[j],
                    token_program@,
                    raydium_amm_v3_program@,
                ),
            all_derivable(records@.take(i as int), raydium_amm_v3_program@),
        decreases records@.len() - i,
    {
        proof {
            assert(records@.take(i as int + 1).drop_last() =~= records@.take(i as int));
            assert(records@.take(i as int + 1).last() == records@[i as int]);
        }
        let rec = &records[i];
        if rec.decimals == 0 && rec.amount == 1 {
            match derive_position(raydium_amm_v3_program, &rec.mint) {
                Ok(p) => {
                    let info = PositionNftTokenInfo {
                        key: rec.pubkey.clone(),
                        program: token_program.clone(),
                        position: p.0,
                        mint: rec.mint.clone(),
                        amount: rec.amount,
                        decimals: rec.decimals,
                    };
                    out.push(info);
                },
                Err(_) => {
                    proof {
                        assert(is_position_nft(records@[i as int].decimals, records@[i as int].amount));
                        assert(!all_derivable(records@, raydium_amm_v3_program@));
                    }
                    return Err(DerivationError::BumpNotFound);
                },
            }
        }
        i += 1;
    }
    proof {
        assert(records@.take(records@.len() as int) =~= records@);
    }
    Ok(out)
}

/// Enumerates an owner's position holdings across both token-standard
/// variants: the holdings fetched under the legacy standard, then those
/// fetched under the extensible standard, concatenated in order with no
/// deduplication and no omission.
pub fn get_all_nft_and_position_by_owner(
    spl_records: &Vec<TokenAccountRecord>,
    spl_token_program: &Address,
    spl_2022_records: &Vec<TokenAccountRecord>,
    spl_token_2022_program: &Address,
    raydium_amm_v3_program: &Address,
) -> (r: Result<Vec<PositionNftTokenInfo>, DerivationError>)
    requires
        spl_token_program.wf(),
        spl_token_2022_program.wf(),
        raydium_amm_v3_program.wf(),
        forall|i: int| 0 <= i < spl_records@.len() ==> (#[trigger] spl_records@[i]).wf(),
        forall|i: int| 0 <= i < spl_2022_records@.len() ==> (#[trigger] spl_2022_records@[i]).wf(),
    ensures
        r is Ok <==> all_derivable(spl_records@, raydium_amm_v3_program@) && all_derivable(
            spl_2022_records@,
            raydium_amm_v3_program@,
        ),
        r matches Ok(v) ==> ({
            let q1 = qualifying(spl_records@);
            let q2 = qualifying(spl_2022_records@);
            &&& v@.len() == q1.len() + q2.len()
            &&& forall|j: int|
                0 <= j < q1.len() ==> info_matches(
                    #[trigger] v@[j],
                    q1[j],
                    spl_token_program@,
                    raydium_amm_v3_program@,
                )
            &&& forall|j: int|
                q1.len() <= j < v@.len() ==> info_matches(
                    #[trigger] v@[j],
                    q2[j - q1.len()],
                    spl_token_2022_program@,
                    raydium_amm_v3_program@,
                )
        }),
        r matches Err(e) ==> e == DerivationError::BumpNotFound,
{
    let first = get_nft_account_and_position_by_owner(
        spl_records,
        spl_token_program,
        raydium_amm_v3_program,
    );
    let mut out: Vec<PositionNftTokenInfo>;
    match first {
        Ok(v) => {
            out = v;
        },
        Err(e) => {
            return Err(e);
        },
    }
    let second = get_nft_account_and_position_by_owner(
        spl_2022_records,
        spl_token_2022_program,
        raydium_amm_v3_program,
    );
    match second {
        Ok(v) => {
            let mut tail = v;
            out.append(&mut tail);
            Ok(out)
        },
        Err(e) => Err(e),
    }
}

} // verus!
