//! Address derivation engine: deterministic account addresses from seed
//! tuples (a textual domain tag plus binary components) and a program
//! identity.

use vstd::prelude::*;
use crate::bytes::{clone_bytes, i32_be, i32_be_spec, u16_be, u16_be_spec};

verus! {

/// The longest seed component the derivation accepts, in bytes.
pub const MAX_SEED_LEN: usize = 32;

/// The most seed components one derivation accepts (the bump discriminant
/// that the search appends is not counted here).
pub const MAX_SEED_COUNT: usize = 15;

/// A 32-byte account address.
pub struct Address {
    pub bytes: Vec<u8>,
}

impl View for Address {
    type V = Seq<u8>;

    open spec fn view(&self) -> Seq<u8> {
        self.bytes@
    }
}

impl Address {
    pub open spec fn wf(&self) -> bool {
        self@.len() == 32
    }

    pub fn new(bytes: Vec<u8>) -> (r: Address)
        requires
            bytes@.len() == 32,
        ensures
            r@ == bytes@,
            r.wf(),
    {
        Address { bytes }
    }
}

impl Clone for Address {
    fn clone(&self) -> (r: Self)
        ensures
            r@ == self@,
    {
        Address { bytes: clone_bytes(&self.bytes) }
    }
}

/// Lexicographic order on byte strings: the order in which a mint pair is
/// canonicalized before a pool address is derived.
pub open spec fn lex_lt(a: Seq<u8>, b: Seq<u8>) -> bool
    decreases a.len(),
{
    if b.len() == 0 {
        false
    } else if a.len() == 0 {
        true
    } else if a[0] < b[0] {
        true
    } else if a[0] > b[0] {
        false
    } else {
        lex_lt(a.drop_first(), b.drop_first())
    }
}

pub proof fn lemma_lex_lt_asymmetric(a: Seq<u8>, b: Seq<u8>)
    ensures
        !(lex_lt(a, b) && lex_lt(b, a)),
    decreases a.len(),
{
    if a.len() != 0 && b.len() != 0 && a[0] == b[0] {
        lemma_lex_lt_asymmetric(a.drop_first(), b.drop_first());
    }
}

pub proof fn lemma_lex_lt_connected(a: Seq<u8>, b: Seq<u8>)
    requires
        a.len() == b.len(),
        !lex_lt(a, b),
        !lex_lt(b, a),
    ensures
        a == b,
    decreases a.len(),
{
    if a.len() == 0 {
        assert(a =~= b);
    } else {
        lemma_lex_lt_connected(a.drop_first(), b.drop_first());
        assert forall|j: int| 0 <= j < a.len() implies a[j] == b[j] by {
            if j > 0 {
                assert(a.drop_first()[j - 1] == b.drop_first()[j - 1]);
            }
        }
        assert(a =~= b);
    }
}

/// Compares two addresses in lexicographic byte order.
pub fn addr_lt(a: &Address, b: &Address) -> (r: bool)
    requires
        a.wf(),
        b.wf(),
    ensures
        r == lex_lt(a@, b@),
{
    proof {
        assert(a@.skip(0) =~= a@);
        assert(b@.skip(0) =~= b@);
    }
    let mut i: usize = 0;
    while i < 32
        invariant
            i <= 32,
            a.wf(),
            b.wf(),
            lex_lt(a@, b@) == lex_lt(a@.skip(i as int), b@.skip(i as int)),
        decreases 32 - i,
    {
        let x = a.bytes[i];
        let y = b.bytes[i];
        proof {
            assert(a@.skip(i as int)[0] == a@[i as int]);
            assert(b@.skip(i as int)[0] == b@[i as int]);
            assert(a@.skip(i as int).len() == 32 - i);
            assert(b@.skip(i as int).len() == 32 - i);
        }
        if x < y {
            return true;
        }
        if x > y {
            return false;
        }
        proof {
            assert(a@.skip(i as int).drop_first() =~= a@.skip(i as int + 1));
            assert(b@.skip(i as int).drop_first() =~= b@.skip(i as int + 1));
        }
        i += 1;
    }
    proof {
        assert(a@.skip(32).len() == 0);
        assert(b@.skip(32).len() == 0);
    }
    false
}

/// Compares two addresses for byte equality.
pub fn addr_eq(a: &Address, b: &Address) -> (r: bool)
    requires
        a.wf(),
        b.wf(),
    ensures
        r == (a@ == b@),
{
    let mut i: usize = 0;
    while i < 32
        invariant
            i <= 32,
            a.wf(),
            b.wf(),
            forall|j: int| 0 <= j < i ==> a@[j] == b@[j],
        decreases 32 - i,
    {
        if a.bytes[i] != b.bytes[i] {
            return false;
        }
        i += 1;
    }
    proof {
        assert(a@ =~= b@);
    }
    true
}

/// The views of a sequence of byte vectors.
pub open spec fn views_of(seeds: Seq<Vec<u8>>) -> Seq<Seq<u8>> {
    Seq::new(seeds.len(), |i: int| seeds[i]@)
}

/// The address and bump discriminant that the program-derived-address search
/// yields for a seed tuple under a program identity, or `None` when no bump
/// discriminant works or the seed tuple breaks the derivation's limits. The
/// result depends on the seed bytes and the program identity alone.
pub uninterp spec fn pda_of(seeds: Seq<Seq<u8>>, program_id: Seq<u8>) -> Option<(Seq<u8>, u8)>;

/// Relies on `solana_pubkey::Pubkey::try_find_program_address`: the derived
/// address and bump depend only on the seed bytes and the program identity;
/// the call returns `None` instead of panicking when the search fails.
#[verifier::external_body]
pub(crate) fn find_pda(seeds: &Vec<Vec<u8>>, program_id: &Address) -> (r: Option<(Address, u8)>)
    requires
        program_id.wf(),
    ensures
        r is Some <==> pda_of(views_of(seeds@), program_id@) is Some,
        r matches Some(p) ==> pda_of(views_of(seeds@), program_id@) matches Some(q) && p.0@ == q.0
            && p.1 == q.1 && p.0.wf(),
{
    let seed_slices: Vec<&[u8]> = seeds.iter().map(|s| s.as_slice()).collect();
    let mut id_bytes = [0u8; 32];
    id_bytes.copy_from_slice(program_id.bytes.as_slice());
    let pk = solana_pubkey::Pubkey::new_from_array(id_bytes);
    match solana_pubkey::Pubkey::try_find_program_address(&seed_slices, &pk) {
        Some((a, bump)) => Some((Address { bytes: a.to_bytes().to_vec() }, bump)),
        None => None,
    }
}

#[derive(Clone, Copy, Debug, PartialEq, Eq, Structural)]
pub enum DerivationError {
    /// The seed tuple exceeds the maximum encoded length.
    SeedTooLong,
    /// No valid bump discriminant was found.
    BumpNotFound,
}

/// A seed tuple the derivation accepts: at most `MAX_SEED_COUNT` components,
/// each of at most `MAX_SEED_LEN` bytes.
pub open spec fn seeds_well_formed(seeds: Seq<Seq<u8>>) -> bool {
    &&& seeds.len() <= MAX_SEED_COUNT
    &&& forall|i: int| 0 <= i < seeds.len() ==> #[trigger] seeds[i].len() <= MAX_SEED_LEN
}

/// The full seed tuple of a derivation: the domain tag, then the components.
pub open spec fn full_seed_tuple(tag: Seq<u8>, components: Seq<Seq<u8>>) -> Seq<Seq<u8>> {
    seq![tag] + components
}

/// Derives the address and bump discriminant of the seed tuple made of
/// `tag` followed by `components`, under `program_id`.
pub fn derive(tag: &Vec<u8>, components: &Vec<Vec<u8>>, program_id: &Address) -> (r: Result<
    (Address, u8),
    DerivationError,
>)
    requires
        program_id.wf(),
    ensures
        !seeds_well_formed(full_seed_tuple(tag@, views_of(components@))) ==> r matches Err(
            DerivationError::SeedTooLong,
        ),
        seeds_well_formed(full_seed_tuple(tag@, views_of(components@))) ==> {
            &&& (r is Ok <==> pda_of(full_seed_tuple(tag@, views_of(components@)), program_id@)
                is Some)
            &&& (r matches Ok(p) ==> pda_of(
                full_seed_tuple(tag@, views_of(components@)),
                program_id@,
            ) matches Some(q) && p.0@ == q.0 && p.1 == q.1 && p.0.wf())
            &&& (r is Err ==> r matches Err(DerivationError::BumpNotFound))
        },
{
    let ghost s = full_seed_tuple(tag@, views_of(components@));
    if tag.len() > MAX_SEED_LEN {
        assert(s[0].len() > MAX_SEED_LEN);
        return Err(DerivationError::SeedTooLong);
    }
    if components.len() > MAX_SEED_COUNT - 1 {
        assert(s.len() > MAX_SEED_COUNT);
        return Err(DerivationError::SeedTooLong);
    }
    let mut seeds: Vec<Vec<u8>> = Vec::new();
    seeds.push(clone_bytes(tag));
    let mut i: usize = 0;
    while i < components.len()
        invariant
            s == full_seed_tuple(tag@, views_of(components@)),
            i <= components@.len(),
            tag@.len() <= MAX_SEED_LEN,
            components@.len() <= MAX_SEED_COUNT - 1,
            seeds@.len() == i + 1,
            seeds@[0]@ == tag@,
            forall|j: int| 0 <= j < i ==> #[trigger] seeds@[j + 1]@ == components@[j]@,
            forall|j: int| 0 <= j < i ==> #[trigger] components@[j]@.len() <= MAX_SEED_LEN,
        decreases components@.len() - i,
    {
        if components[i].len() > MAX_SEED_LEN {
            proof {
                assert(s[i + 1] == views_of(components@)[i as int]);
                assert(views_of(components@)[i as int] == components@[i as int]@);
            }
            return Err(DerivationError::SeedTooLong);
        }
        seeds.push(clone_bytes(&components[i]));
        i += 1;
    }
    proof {
        assert(s.len() == 1 + components@.len());
        assert forall|k: int| 0 <= k < s.len() implies views_of(seeds@)[k] == s[k] by {
            assert(views_of(seeds@)[k] == seeds@[k]@);
            if k == 0 {
            } else {
                assert(seeds@[(k - 1) + 1]@ == components@[k - 1]@);
                assert(s[k] == views_of(components@)[k - 1]);
                assert(views_of(components@)[k - 1] == components@[k - 1]@);
            }
        }
        assert(views_of(seeds@) =~= s);
        assert forall|j: int| 0 <= j < s.len() implies #[trigger] s[j].len() <= MAX_SEED_LEN by {
            if j > 0 {
                assert(s[j] == views_of(components@)[j - 1]);
                assert(views_of(components@)[j - 1] == components@[j - 1]@);
                assert(components@[j - 1]@.len() <= MAX_SEED_LEN);
            }
        }
        assert(seeds_well_formed(s));
    }
    match find_pda(&seeds, program_id) {
        Some(p) => Ok(p),
        None => Err(DerivationError::BumpNotFound),
    }
}

} // verus!
