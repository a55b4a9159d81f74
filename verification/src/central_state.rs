//! Creation of the singleton central state.
//!
//! The caller hands in the accounts it loaded and the creation parameters;
//! this module checks every structural precondition — account order, system
//! program key, ownership, freshness, and the deterministic derivation of
//! the state address — and only then builds the record.

use vstd::prelude::*;

use crate::addr::{Addr, spec_system_program_id, system_program_id};
use crate::derivation::{derived_key_of, find_derived_key};
use crate::error::AccessError;
use crate::state::{CentralState, TAG_UNINITIALIZED};

verus! {

broadcast use vstd::array::group_array_axioms;

/// The parameters of central-state creation.
pub struct Params {
    /// Reward tokens issued per day across all pools.
    pub daily_inflation: u64,
    /// The identity permitted to change global parameters.
    pub authority: Addr,
}

/// What the ledger reads of one loaded account: its key and the program that
/// owns it.
#[derive(Clone, Copy, PartialEq, Eq, Debug)]
pub struct AccountView {
    /// The account's address.
    pub key: Addr,
    /// The program that owns the account.
    pub owner: Addr,
}

/// The accounts required to create the central state, in calling order: the
/// state account, the system program, the fee payer, and the token mint.
pub struct Accounts {
    /// The account the central state will live in.
    pub state_account: AccountView,
    /// The system program account.
    pub system_program: AccountView,
    /// The account paying for the creation.
    pub fee_payer: AccountView,
    /// The mint of the staked token.
    pub mint: AccountView,
}

impl Accounts {
    /// Takes the first four loaded accounts and checks them: the system
    /// program must be the real one, and the state account must still belong
    /// to the system program (that is, not yet to this program).
    pub fn parse(accounts: &Vec<AccountView>) -> (r: Result<Accounts, AccessError>)
        ensures
            accounts@.len() < 4 ==> r is Err && r->Err_0 == AccessError::DataTypeMismatch,
            accounts@.len() >= 4 ==> {
                &&& (accounts@[1].key.bytes@ != spec_system_program_id() ==> r is Err && r->Err_0
                    == AccessError::WrongSystemProgram)
                &&& (accounts@[1].key.bytes@ == spec_system_program_id()
                    && accounts@[0].owner.bytes@ != spec_system_program_id() ==> r is Err
                    && r->Err_0 == AccessError::WrongOwner)
                &&& (r is Ok <==> accounts@[1].key.bytes@ == spec_system_program_id()
                    && accounts@[0].owner.bytes@ == spec_system_program_id())
                &&& (r is Ok ==> r->Ok_0 == (Accounts {
                    state_account: accounts@[0],
                    system_program: accounts@[1],
                    fee_payer: accounts@[2],
                    mint: accounts@[3],
                }))
            },
    {
        if accounts.len() < 4 {
            return Err(AccessError::DataTypeMismatch);
        }
        let parsed = Accounts {
            state_account: accounts[0],
            system_program: accounts[1],
            fee_payer: accounts[2],
            mint: accounts[3],
        };
        let system_id = system_program_id();
        if !parsed.system_program.key.equals(&system_id) {
            return Err(AccessError::WrongSystemProgram);
        }
        if !parsed.state_account.owner.equals(&system_id) {
            return Err(AccessError::WrongOwner);
        }
        Ok(parsed)
    }
}

/// Creates the singleton central state.
///
/// Checks the loaded accounts, recomputes the deterministic state address
/// and demands that the supplied state account sit exactly there, refuses an
/// account at that address which already holds data, then builds the record
/// with nothing staked. `existing_state_data` is the state account's current
/// content; a fresh account is empty or still carries the uninitialized tag.
pub fn process_create_central_state(
    program_id: &Addr,
    accounts: &Vec<AccountView>,
    params: &Params,
    existing_state_data: &Vec<u8>,
) -> (r: Result<CentralState, AccessError>)
    ensures
        ({
            let parse_ok = accounts@.len() >= 4 && accounts@[1].key.bytes@
                == spec_system_program_id() && accounts@[0].owner.bytes@
                == spec_system_program_id();
            let fresh = existing_state_data@.len() == 0 || existing_state_data@[0]
                == TAG_UNINITIALIZED;
            let derived = derived_key_of(program_id.bytes@, program_id.bytes@);
            &&& (parse_ok && !(derived matches Some(d) && d.0 == accounts@[0].key.bytes@) ==> r
                is Err && r->Err_0 == AccessError::AccountNotDeterministic)
            &&& (parse_ok && (derived matches Some(d) && d.0 == accounts@[0].key.bytes@) && !fresh
                ==> r is Err && r->Err_0 == AccessError::AlreadyInitialized)
            &&& (r is Ok <==> parse_ok && (derived matches Some(d) && d.0
                == accounts@[0].key.bytes@) && fresh)
            &&& (r is Ok ==> (derived matches Some(d) && r->Ok_0 == (CentralState {
                nonce: d.1,
                daily_inflation: params.daily_inflation,
                token_mint: accounts@[3].key,
                authority: params.authority,
                total_staked: 0,
            })))
        }),
{
    let parsed = match Accounts::parse(accounts) {
        Ok(a) => a,
        Err(e) => {
            return Err(e);
        },
    };
    let (derived_key, nonce) = match find_derived_key(program_id, program_id) {
        Some(p) => p,
        None => {
            return Err(AccessError::AccountNotDeterministic);
        },
    };
    if !parsed.state_account.key.equals(&derived_key) {
        return Err(AccessError::AccountNotDeterministic);
    }
    if existing_state_data.len() > 0 && existing_state_data[0] != TAG_UNINITIALIZED {
        return Err(AccessError::AlreadyInitialized);
    }
    Ok(
        CentralState::new(
            nonce,
            params.daily_inflation,
            parsed.mint.key,
            params.authority,
        ),
    )
}

} // verus!
