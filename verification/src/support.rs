//! Support-mint allow-list: the registration state marking a non-standard
//! token mint as vetted pool collateral. An entry is created once by an
//! authorized signer and never mutated; it is only ever present or absent.

use vstd::prelude::*;
use crate::addr::{addr_eq, Address};

verus! {

/// Allow-list entry: records the vetted mint and the bump discriminant of
/// the entry's derived address.
pub struct SupportMintAssociated {
    pub bump: u8,
    pub mint: Address,
}

impl SupportMintAssociated {
    pub open spec fn wf(&self) -> bool {
        self.mint.wf()
    }
}

/// Whether `owner` may register a support mint: only the protocol admin or
/// the dedicated registration authority is approved.
pub fn support_mint_authority_approved(owner: &Address, admin: &Address, registrar: &Address) -> (r:
    bool)
    requires
        owner.wf(),
        admin.wf(),
        registrar.wf(),
    ensures
        r == (owner@ == admin@ || owner@ == registrar@),
{
    if addr_eq(owner, admin) {
        true
    } else {
        addr_eq(owner, registrar)
    }
}

/// The account set a support-mint registration names: the signing owner, the
/// mint being vetted, the allow-list entry to create, and the runtime's
/// account-creation program.
pub struct CreateSupportMintAssociated {
    pub owner: Address,
    pub token_mint: Address,
    pub support_mint_associated: Address,
    pub system_program: Address,
}

impl CreateSupportMintAssociated {
    pub open spec fn wf(&self) -> bool {
        &&& self.owner.wf()
        &&& self.token_mint.wf()
        &&& self.support_mint_associated.wf()
        &&& self.system_program.wf()
    }
}

/// Validates a registration account set: the owner must be an approved
/// authority and the allow-list entry must be exactly the address derivable
/// from the mint — a mismatch signals a caller bug or malicious input.
pub fn validate_create_support_mint_accounts(
    accounts: &CreateSupportMintAssociated,
    program_id: &Address,
    admin: &Address,
    registrar: &Address,
) -> (r: bool)
    requires
        accounts.wf(),
        program_id.wf(),
        admin.wf(),
        registrar.wf(),
    ensures
        r == ((accounts.owner@ == admin@ || accounts.owner@ == registrar@)
            && (crate::seeds::derive_support_mint_spec(program_id@, accounts.token_mint@)
            matches Some(q) && accounts.support_mint_associated@ == q.0)),
{
    if !support_mint_authority_approved(&accounts.owner, admin, registrar) {
        return false;
    }
    match crate::seeds::derive_support_mint(program_id, &accounts.token_mint) {
        Ok(p) => addr_eq(&accounts.support_mint_associated, &p.0),
        Err(_) => false,
    }
}

/// The state transition of registering a support mint: the new entry records
/// the mint and the bump discriminant of its derived address.
pub fn create_support_mint_associated(token_mint: &Address, bump: u8) -> (r: SupportMintAssociated)
    requires
        token_mint.wf(),
    ensures
        r.mint@ == token_mint@,
        r.bump == bump,
        r.wf(),
{
    SupportMintAssociated { bump, mint: token_mint.clone() }
}

} // verus!
