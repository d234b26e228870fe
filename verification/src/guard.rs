//! The checks that stand before every change of a managed buffer.
//!
//! A managed buffer is created only at the address that its seeds derive, and
//! is written only where the header it stores still derives the address of the
//! account that holds it.

use crate::address::{address_for, derivation, verify, Address, Family};
use crate::error::{EchoError, Rejection};
use crate::processor::assert_with_msg;
use vstd::prelude::*;

verus! {

/// The bump for a new managed buffer at `buffer_key`, where the seeds derive
/// that address, and `AddressMismatch` where they derive another or none.
pub open spec fn creation_guard(
    family: Family,
    program_id: Seq<u8>,
    buffer_key: Seq<u8>,
    key: Seq<u8>,
    number: u64,
) -> Result<u8, EchoError> {
    match derivation(family.parts(key, number), program_id) {
        Some((address, bump)) => if address == buffer_key {
            Ok(bump)
        } else {
            Err(EchoError::AddressMismatch)
        },
        None => Err(EchoError::AddressMismatch),
    }
}

/// The seeds, closed by the bump that a header stores, derive `buffer_key`.
pub open spec fn write_guard(
    family: Family,
    program_id: Seq<u8>,
    buffer_key: Seq<u8>,
    key: Seq<u8>,
    bump: u8,
    number: u64,
) -> bool {
    address_for(family.parts(key, number), program_id, bump) == Some(buffer_key)
}

/// Passes when `signed` holds, and rejects with `MissingSigner` when not.
pub fn require_signer(signed: bool) -> (r: Result<(), Rejection>)
    ensures
        signed ==> r is Ok,
        !signed ==> r is Err && r->Err_0.reports(EchoError::MissingSigner),
{
    assert_with_msg(signed, EchoError::MissingSigner, EchoError::MissingSigner.message())
}

/// Holds what a search for a derived address found against the address that
/// was presented: returns the bump where the search found that very address,
/// and rejects with `AddressMismatch` where it found another or none.
pub fn match_derived(found: Option<(Address, u8)>, presented: &Address) -> (r: Result<
    u8,
    Rejection,
>)
    ensures
        match found {
            Some((address, bump)) if address@ == presented@ => r == Ok::<u8, Rejection>(bump),
            _ => r is Err && r->Err_0.reports(EchoError::AddressMismatch),
        },
{
    match found {
        Some((address, bump)) => {
            if address == *presented {
                Ok(bump)
            } else {
                Err(Rejection::new(EchoError::AddressMismatch))
            }
        },
        None => Err(Rejection::new(EchoError::AddressMismatch)),
    }
}

/// Holds the outcome of a check of a stored bump: passes where the check
/// held, and rejects with `AddressMismatch` where not.
pub fn match_verified(verified: bool) -> (r: Result<(), Rejection>)
    ensures
        verified ==> r is Ok,
        !verified ==> r is Err && r->Err_0.reports(EchoError::AddressMismatch),
{
    assert_with_msg(verified, EchoError::AddressMismatch, EchoError::AddressMismatch.message())
}

/// Decides whether a managed buffer may be created at `buffer_key`, and with
/// which bump.
pub fn guard_creation(
    family: Family,
    program_id: &Address,
    buffer_key: &Address,
    key: &Address,
    number: u64,
) -> (r: Result<u8, Rejection>)
    ensures
        match creation_guard(family, program_id@, buffer_key@, key@, number) {
            Ok(bump) => r == Ok::<u8, Rejection>(bump),
            Err(kind) => r is Err && r->Err_0.reports(kind),
        },
{
    let seeds = family.seeds(key, number);
    let found = crate::address::derive(&seeds, program_id);
    match_derived(found, buffer_key)
}

/// Decides whether the managed buffer at `buffer_key` may be written to: it
/// may where the seeds and the bump of its header derive its address.
pub fn guard_write(
    family: Family,
    program_id: &Address,
    buffer_key: &Address,
    key: &Address,
    bump: u8,
    number: u64,
) -> (r: Result<(), Rejection>)
    ensures
        write_guard(family, program_id@, buffer_key@, key@, bump, number) ==> r is Ok,
        !write_guard(family, program_id@, buffer_key@, key@, bump, number) ==> r is Err
            && r->Err_0.reports(EchoError::AddressMismatch),
{
    let seeds = family.seeds(key, number);
    let verified = verify(seeds, bump, buffer_key, program_id);
    match_verified(verified)
}

/// A buffer that may be created with a bump may be written to with that bump:
/// what the search found at creation passes the check at every later write.
pub proof fn lemma_created_may_be_written(
    family: Family,
    program_id: Seq<u8>,
    buffer_key: Seq<u8>,
    key: Seq<u8>,
    number: u64,
)
    requires
        creation_guard(family, program_id, buffer_key, key, number) is Ok,
    ensures
        write_guard(
            family,
            program_id,
            buffer_key,
            key,
            creation_guard(family, program_id, buffer_key, key, number)->Ok_0,
            number,
        ),
{
    crate::address::lemma_derivation_first_hit(family.parts(key, number), program_id);
}

} // verus!
