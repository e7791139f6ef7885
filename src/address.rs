//! Public keys and program-derived addresses.
//!
//! A program-derived address is computed by anchor_lang (through
//! solana_program's `Pubkey`) from a list of seeds and a program id. The
//! computation hashes its inputs and tests the hash against the ed25519 curve,
//! so its result is named here rather than written out.
use vstd::prelude::*;

verus! {

/// Largest number of seeds that an address derivation accepts.
pub const MAX_SEEDS: usize = 16;

/// Largest length of a single seed.
pub const MAX_SEED_LEN: usize = 32;

/// A 32-byte public key: an account's owner or an account's address.
#[derive(Clone, Copy, Debug)]
pub struct Pubkey {
    pub bytes: [u8; 32],
}

impl Pubkey {
    pub open spec fn view(&self) -> Seq<u8> {
        self.bytes@
    }

    pub fn new_from_array(bytes: [u8; 32]) -> (r: Pubkey)
        ensures
            r.bytes == bytes,
    {
        Pubkey { bytes }
    }

    pub fn to_bytes(&self) -> (r: [u8; 32])
        ensures
            r == self.bytes,
    {
        self.bytes
    }

    /// Whether two keys hold the same bytes.
    pub fn same_key(&self, other: &Pubkey) -> (r: bool)
        ensures
            r == (self@ == other@),
    {
        let mut i: usize = 0;
        while i < 32
            invariant
                0 <= i <= 32,
                self.bytes@.len() == 32,
                other.bytes@.len() == 32,
                forall|j: int| 0 <= j < i ==> self.bytes@[j] == other.bytes@[j],
            decreases 32 - i,
        {
            if self.bytes[i] != other.bytes[i] {
                return false;
            }
            i = i + 1;
        }
        assert(self.bytes@ =~= other.bytes@);
        true
    }

    /// The key's bytes as a seed for an address derivation.
    pub fn as_seed(&self) -> (r: Vec<u8>)
        ensures
            r@ == self@,
    {
        let mut r: Vec<u8> = Vec::new();
        let mut i: usize = 0;
        while i < 32
            invariant
                0 <= i <= 32,
                self.bytes@.len() == 32,
                r@ == self.bytes@.subrange(0, i as int),
            decreases 32 - i,
        {
            r.push(self.bytes[i]);
            i = i + 1;
        }
        assert(r@ =~= self.bytes@);
        r
    }
}

/// The address that `create_program_address` derives from `seeds` and
/// `program_id`, or `None` where the hash of the inputs lies on the ed25519
/// curve. Speaks of seeds that satisfy `seeds_fit`.
pub uninterp spec fn program_address(seeds: Seq<Seq<u8>>, program_id: Seq<u8>) -> Option<Seq<u8>>;

/// The limits on seeds under which a derivation is attempted at all.
pub open spec fn seeds_fit(seeds: Seq<Seq<u8>>) -> bool {
    &&& seeds.len() <= MAX_SEEDS
    &&& forall|i: int| 0 <= i < seeds.len() ==> #[trigger] seeds[i].len() <= MAX_SEED_LEN
}

pub open spec fn seeds_view(seeds: Seq<Vec<u8>>) -> Seq<Seq<u8>> {
    seeds.map_values(|s: Vec<u8>| s@)
}

pub open spec fn key_view(k: Option<Pubkey>) -> Option<Seq<u8>> {
    match k {
        Some(k) => Some(k@),
        None => None,
    }
}

/// The search for a bump seed: from `bump` down to 1, the first one that,
/// appended to `seeds` as a one-byte seed, yields an address.
pub open spec fn bump_search(seeds: Seq<Seq<u8>>, program_id: Seq<u8>, bump: int) -> Option<(Seq<u8>, u8)>
    decreases bump,
{
    if bump < 1 {
        None
    } else {
        match program_address(seeds.push(seq![bump as u8]), program_id) {
            Some(a) => Some((a, bump as u8)),
            None => bump_search(seeds, program_id, bump - 1),
        }
    }
}

/// The canonical address of `seeds`: the search from the largest bump seed.
pub open spec fn canonical_address(seeds: Seq<Seq<u8>>, program_id: Seq<u8>) -> Option<(Seq<u8>, u8)> {
    bump_search(seeds, program_id, 255)
}

/// Relies on `Pubkey::create_program_address` of anchor_lang (solana_program):
/// it refuses seeds beyond `MAX_SEEDS` / `MAX_SEED_LEN`, and otherwise returns
/// the address that the seeds and the program id determine, or an error where
/// the hash is a curve point.
#[verifier::external_body]
pub(crate) fn create_address(seeds: &Vec<Vec<u8>>, program_id: &Pubkey) -> (r: Option<Pubkey>)
    ensures
        !seeds_fit(seeds_view(seeds@)) ==> r.is_none(),
        seeds_fit(seeds_view(seeds@)) ==> key_view(r) == program_address(seeds_view(seeds@), program_id@),
{
    let refs: Vec<&[u8]> = seeds.iter().map(|s| s.as_slice()).collect();
    let id = anchor_lang::prelude::Pubkey::new_from_array(program_id.bytes);
    match anchor_lang::prelude::Pubkey::create_program_address(&refs, &id) {
        Ok(a) => Some(Pubkey { bytes: a.to_bytes() }),
        Err(_) => None,
    }
}

/// Relies on `Pubkey::try_find_program_address` of anchor_lang (solana_program):
/// it tries the bump seeds 255 down to 1, appending each to `seeds`, and returns
/// the first address that `create_program_address` yields with its bump seed.
#[verifier::external_body]
pub(crate) fn find_address(seeds: &Vec<Vec<u8>>, program_id: &Pubkey) -> (r: Option<(Pubkey, u8)>)
    requires
        seeds@.len() < MAX_SEEDS,
        seeds_fit(seeds_view(seeds@)),
    ensures
        match r {
            Some((a, b)) => canonical_address(seeds_view(seeds@), program_id@) == Some((a@, b)),
            None => canonical_address(seeds_view(seeds@), program_id@).is_none(),
        },
{
    let refs: Vec<&[u8]> = seeds.iter().map(|s| s.as_slice()).collect();
    let id = anchor_lang::prelude::Pubkey::new_from_array(program_id.bytes);
    anchor_lang::prelude::Pubkey::try_find_program_address(&refs, &id)
        .map(|(a, b)| (Pubkey { bytes: a.to_bytes() }, b))
}

} // verus!
