//! Deterministic derivation of record addresses.
//!
//! Every long-lived record sits at an address derived from the program
//! identity and one 32-byte seed: the program identity itself for the
//! central-state singleton, the pool owner's key for a stake pool. The
//! ledger never trusts a caller-supplied address: it recomputes the
//! derivation and demands equality.

use vstd::prelude::*;

use crate::addr::Addr;

verus! {

/// The derived address and bump seed for one 32-byte seed under a program
/// identity, or nothing in the statistically improbable case that no bump
/// seed works. The derivation is a fixed hash construction, so the result is
/// a function of the seed and the program identity alone.
pub uninterp spec fn derived_key_of(seed: Seq<u8>, program_id: Seq<u8>) -> Option<(Seq<u8>, u8)>;

/// Relies on solana_pubkey::Pubkey::try_find_program_address: a pure hash
/// walk over bump seeds, deterministic in the seeds and the program
/// identity, here applied to a single 32-byte seed.
#[verifier::external_body]
pub(crate) fn find_derived_key(seed: &Addr, program_id: &Addr) -> (r: Option<(Addr, u8)>)
    ensures
        match r {
            Some(p) => derived_key_of(seed.bytes@, program_id.bytes@) == Some((p.0.bytes@, p.1)),
            None => derived_key_of(seed.bytes@, program_id.bytes@) is None,
        },
{
    let pk = solana_pubkey::Pubkey::new_from_array(program_id.bytes);
    match solana_pubkey::Pubkey::try_find_program_address(&[&seed.bytes], &pk) {
        Some((address, bump)) => Some((Addr { bytes: address.to_bytes() }, bump)),
        None => None,
    }
}

} // verus!
