//! Addresses, and the addresses that a program derives from seeds.
//!
//! A derived address has no signing key. It is computed from a list of seed
//! parts, one closing part of a single byte (the bump) and the address of the
//! program, and the computation fails where the result would be an address
//! that somebody could hold a key for. To derive an address is to look for the
//! highest bump for which it does not fail.

use crate::codec::{le_bytes, lemma_le_bytes_injective, lemma_radix_values, u64_bytes};
use solana_program::pubkey::{Pubkey, PubkeyError};
use vstd::prelude::*;

verus! {

/// The address of an account or of a program: 32 bytes.
#[derive(Clone, Copy, Debug, Eq, Hash)]
pub struct Address {
    pub bytes: [u8; 32],
}

impl View for Address {
    type V = Seq<u8>;

    open spec fn view(&self) -> Seq<u8> {
        self.bytes@
    }
}

impl PartialEq for Address {
    fn eq(&self, other: &Address) -> (same: bool) {
        let mut at: usize = 0;
        while at < 32
            invariant
                at <= 32,
                forall|i: int| 0 <= i < at ==> self.bytes@[i] == other.bytes@[i],
            decreases 32 - at,
        {
            if self.bytes[at] != other.bytes[at] {
                return false;
            }
            at += 1;
        }
        assert(self.bytes@ =~= other.bytes@);
        true
    }
}

impl vstd::std_specs::cmp::PartialEqSpecImpl for Address {
    open spec fn obeys_eq_spec() -> bool {
        true
    }

    open spec fn eq_spec(&self, other: &Address) -> bool {
        self.bytes@ == other.bytes@
    }
}

impl Address {
    /// The address with the bytes given.
    pub fn new(bytes: [u8; 32]) -> (address: Address)
        ensures
            address@ == bytes@,
    {
        Address { bytes }
    }

    /// The 32 bytes, as a seed part.
    pub fn to_vec(&self) -> (bytes: Vec<u8>)
        ensures
            bytes@ == self@,
    {
        let mut bytes: Vec<u8> = Vec::new();
        let mut at: usize = 0;
        while at < 32
            invariant
                at <= 32,
                bytes@ == self.bytes@.subrange(0, at as int),
            decreases 32 - at,
        {
            bytes.push(self.bytes[at]);
            at += 1;
        }
        bytes
    }
}

/// The seed parts of a list, each as its bytes.
pub open spec fn parts_of(seeds: &Vec<Vec<u8>>) -> Seq<Seq<u8>> {
    Seq::new(seeds@.len(), |i: int| seeds@[i]@)
}

/// The two families of managed buffer. Each has a tag of its own, so that an
/// authority and a mint with the same bytes do not share buffers.
#[derive(Clone, Copy, Debug, PartialEq, Eq, Hash, Structural)]
pub enum Family {
    /// Keyed by an authority and a seed.
    Authorized,
    /// Keyed by a mint and a price.
    Vending,
}

impl Family {
    /// The tag of the family: the letters of `authority`, or of `vending`.
    pub open spec fn tag(self) -> Seq<u8> {
        match self {
            Family::Authorized => seq![0x61u8, 0x75, 0x74, 0x68, 0x6f, 0x72, 0x69, 0x74, 0x79],
            Family::Vending => seq![0x76u8, 0x65, 0x6e, 0x64, 0x69, 0x6e, 0x67],
        }
    }

    /// The seed parts of a managed buffer: the tag of its family, the address
    /// it is keyed by, and its number (the seed, or the price) as eight bytes,
    /// lowest first.
    pub open spec fn parts(self, key: Seq<u8>, number: u64) -> Seq<Seq<u8>> {
        seq![self.tag(), key, le_bytes(number as nat, 8)]
    }

    /// The tag of the family, as a seed part.
    pub fn tag_bytes(&self) -> (tag: Vec<u8>)
        ensures
            tag@ == self.tag(),
    {
        let tag = match self {
            Family::Authorized => vec![0x61u8, 0x75, 0x74, 0x68, 0x6f, 0x72, 0x69, 0x74, 0x79],
            Family::Vending => vec![0x76u8, 0x65, 0x6e, 0x64, 0x69, 0x6e, 0x67],
        };
        tag
    }

    /// The seed parts of the managed buffer of this family with the key and
    /// the number given.
    pub fn seeds(&self, key: &Address, number: u64) -> (seeds: Vec<Vec<u8>>)
        ensures
            parts_of(&seeds) == self.parts(key@, number),
    {
        let mut seeds: Vec<Vec<u8>> = Vec::new();
        seeds.push(self.tag_bytes());
        seeds.push(key.to_vec());
        seeds.push(u64_bytes(number));
        seeds
    }
}

/// The address that `seeds`, the last of them the bump, derive for the
/// program at `program_id`, or `None` where the derivation fails: what
/// `Pubkey::create_program_address` returns.
pub uninterp spec fn spec_create_program_address(
    seeds: Seq<Seq<u8>>,
    program_id: Seq<u8>,
) -> Option<Seq<u8>>;

/// The address that `parts` and `bump` derive, if they derive one.
pub open spec fn address_for(parts: Seq<Seq<u8>>, program_id: Seq<u8>, bump: u8) -> Option<
    Seq<u8>,
> {
    spec_create_program_address(parts.push(seq![bump]), program_id)
}

/// `bump` is the highest bump of 1 to 255 with which `parts` derive an
/// address, and `address` is that address.
pub open spec fn derives(parts: Seq<Seq<u8>>, program_id: Seq<u8>, address: Seq<u8>, bump: u8) -> bool {
    &&& bump >= 1
    &&& address_for(parts, program_id, bump) == Some(address)
    &&& forall|higher: u8| bump < higher ==> #[trigger] address_for(parts, program_id, higher) is None
}

/// No bump of 1 to 255 makes `parts` derive an address.
pub open spec fn underivable(parts: Seq<Seq<u8>>, program_id: Seq<u8>) -> bool {
    forall|bump: u8| bump >= 1 ==> #[trigger] address_for(parts, program_id, bump) is None
}

/// What a search for the bump of `parts` finds.
pub open spec fn derivation(parts: Seq<Seq<u8>>, program_id: Seq<u8>) -> Option<(Seq<u8>, u8)> {
    if exists|address: Seq<u8>, bump: u8| derives(parts, program_id, address, bump) {
        Some(choose|found: (Seq<u8>, u8)| derives(parts, program_id, found.0, found.1))
    } else {
        None
    }
}

/// The failure of a derivation, as the ledger's own library reports it.
#[verifier::external_type_specification]
#[verifier::external_body]
pub struct ExPubkeyError(PubkeyError);

/// `Pubkey::create_program_address`, on the seeds as given (the bump is the
/// last of them). It hashes the seeds and the program address and fails where
/// the hash is an address that a key could sign for, or where the seeds are
/// too many or too long. Its result depends on nothing but the seeds and the
/// program address; the contract gives that result a name and says no more
/// of it.
#[verifier::external_body]
fn create_program_address(seeds: &Vec<Vec<u8>>, program_id: &Address) -> (r: Result<
    Address,
    PubkeyError,
>)
    ensures
        r is Ok <==> spec_create_program_address(parts_of(seeds), program_id@) is Some,
        r matches Ok(address) ==> spec_create_program_address(parts_of(seeds), program_id@)
            == Some(address@),
{
    let parts: Vec<&[u8]> = seeds.iter().map(|part| part.as_slice()).collect();
    match Pubkey::create_program_address(&parts, &Pubkey::new_from_array(program_id.bytes)) {
        Ok(key) => Ok(Address { bytes: key.to_bytes() }),
        Err(failure) => Err(failure),
    }
}

/// `Pubkey::try_find_program_address`. It calls
/// `Pubkey::create_program_address` on the seeds closed by each bump from 255
/// down to 1 (it never tries 0) and returns the first address that comes out,
/// with its bump. It returns `None` where every bump fails. It also gives up
/// at a failure for seeds that are too many or too long; such a failure comes
/// of the lengths of the seeds, and so with every bump alike.
#[verifier::external_body]
fn try_find_program_address(seeds: &Vec<Vec<u8>>, program_id: &Address) -> (r: Option<
    (Address, u8),
>)
    ensures
        r matches Some((address, bump)) ==> derives(parts_of(seeds), program_id@, address@, bump),
        r is None ==> underivable(parts_of(seeds), program_id@),
{
    let parts: Vec<&[u8]> = seeds.iter().map(|part| part.as_slice()).collect();
    match Pubkey::try_find_program_address(&parts, &Pubkey::new_from_array(program_id.bytes)) {
        Some((key, bump)) => Some((Address { bytes: key.to_bytes() }, bump)),
        None => None,
    }
}

/// Searches the bump of `seeds` for the program at `program_id`: the highest
/// bump of 1 to 255 with which the seeds derive an address. Returns that
/// address and the bump, or `None` where no bump derives one.
pub fn derive(seeds: &Vec<Vec<u8>>, program_id: &Address) -> (found: Option<(Address, u8)>)
    ensures
        match found {
            Some((address, bump)) => {
                &&& derives(parts_of(seeds), program_id@, address@, bump)
                &&& derivation(parts_of(seeds), program_id@) == Some((address@, bump))
            },
            None => {
                &&& underivable(parts_of(seeds), program_id@)
                &&& derivation(parts_of(seeds), program_id@) is None
            },
        },
{
    let found = try_find_program_address(seeds, program_id);
    proof {
        match found {
            Some((address, bump)) => lemma_derivation_found(
                parts_of(seeds),
                program_id@,
                address@,
                bump,
            ),
            None => lemma_derivation_missing(parts_of(seeds), program_id@),
        }
    }
    found
}

/// Says whether a derivation came out, and came out as `expected`.
pub fn is_address(derived: Option<Address>, expected: &Address) -> (same: bool)
    ensures
        same == (derived matches Some(address) && address@ == expected@),
{
    match derived {
        Some(address) => address == *expected,
        None => false,
    }
}

/// Derives the address of `seeds` with the bump given, without a search, and
/// says whether it is `expected`.
pub fn verify(seeds: Vec<Vec<u8>>, bump: u8, expected: &Address, program_id: &Address) -> (ok:
    bool)
    ensures
        ok == (address_for(parts_of(&seeds), program_id@, bump) == Some(expected@)),
{
    let ghost parts = parts_of(&seeds);
    let mut closed = seeds;
    let mut last: Vec<u8> = Vec::new();
    last.push(bump);
    closed.push(last);
    assert(parts_of(&closed) =~= parts.push(seq![bump]));
    let derived = match create_program_address(&closed, program_id) {
        Ok(address) => Some(address),
        Err(_) => None,
    };
    is_address(derived, expected)
}

/// Seeds tell managed buffers apart: buffers with the same seed parts are of
/// the same family and have the same key and the same number.
pub proof fn lemma_parts_tell_apart(
    first: (Family, Seq<u8>, u64),
    second: (Family, Seq<u8>, u64),
)
    requires
        first.0.parts(first.1, first.2) == second.0.parts(second.1, second.2),
    ensures
        first == second,
{
    let a = first.0.parts(first.1, first.2);
    let b = second.0.parts(second.1, second.2);
    assert(a[0] == b[0] && a[1] == b[1] && a[2] == b[2]);
    lemma_radix_values();
    lemma_le_bytes_injective(first.2 as nat, second.2 as nat, 8);
}

/// A search finds at most one address and bump: whoever searches with the
/// same seeds for the same program finds the same.
pub proof fn lemma_derives_once(
    parts: Seq<Seq<u8>>,
    program_id: Seq<u8>,
    first: (Seq<u8>, u8),
    second: (Seq<u8>, u8),
)
    requires
        derives(parts, program_id, first.0, first.1),
        derives(parts, program_id, second.0, second.1),
    ensures
        first == second,
{
    if first.1 < second.1 {
        assert(address_for(parts, program_id, second.1) is None);
    }
    if second.1 < first.1 {
        assert(address_for(parts, program_id, first.1) is None);
    }
}

/// Where an address and a bump are the highest hit, the search finds them.
pub proof fn lemma_derivation_found(
    parts: Seq<Seq<u8>>,
    program_id: Seq<u8>,
    address: Seq<u8>,
    bump: u8,
)
    requires
        derives(parts, program_id, address, bump),
    ensures
        derivation(parts, program_id) == Some((address, bump)),
{
    let hit = (address, bump);
    assert(derives(parts, program_id, hit.0, hit.1));
    let found = choose|found: (Seq<u8>, u8)| derives(parts, program_id, found.0, found.1);
    lemma_derives_once(parts, program_id, found, hit);
}

/// Where no bump hits, the search finds nothing.
pub proof fn lemma_derivation_missing(parts: Seq<Seq<u8>>, program_id: Seq<u8>)
    requires
        underivable(parts, program_id),
    ensures
        derivation(parts, program_id) is None,
{
}

/// What the search finds is the first hit from 255 downwards: its bump
/// derives its address, and no higher bump derives any. What it finds passes
/// a later check with that bump and that address, and with no other address.
pub proof fn lemma_derivation_first_hit(parts: Seq<Seq<u8>>, program_id: Seq<u8>)
    ensures
        match derivation(parts, program_id) {
            Some((address, bump)) => derives(parts, program_id, address, bump),
            None => underivable(parts, program_id),
        },
{
    if exists|address: Seq<u8>, bump: u8| derives(parts, program_id, address, bump) {
        let (address, bump) = choose|address: Seq<u8>, bump: u8|
            derives(parts, program_id, address, bump);
        lemma_derivation_found(parts, program_id, address, bump);
    } else {
        assert forall|bump: u8| bump >= 1 implies #[trigger] address_for(
            parts,
            program_id,
            bump,
        ) is None by {
            if address_for(parts, program_id, bump) is Some {
                lemma_highest_hit(parts, program_id, bump, 255);
            }
        }
    }
}

/// Where some bump from 1 up to `top` hits, and none above `top` does, there is a highest hit.
proof fn lemma_highest_hit(parts: Seq<Seq<u8>>, program_id: Seq<u8>, low: u8, top: u8)
    requires
        1 <= low <= top,
        address_for(parts, program_id, low) is Some,
        forall|higher: u8| top < higher ==> #[trigger] address_for(parts, program_id, higher) is None,
    ensures
        exists|address: Seq<u8>, bump: u8| derives(parts, program_id, address, bump),
    decreases top - low,
{
    if address_for(parts, program_id, top) is Some {
        assert(derives(parts, program_id, address_for(parts, program_id, top)->Some_0, top));
    } else {
        lemma_highest_hit(parts, program_id, low, (top - 1) as u8);
    }
}

} // verus!
