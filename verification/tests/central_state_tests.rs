use stake_ledger::addr::Addr;
use stake_ledger::central_state::{AccountView, Accounts, Params, process_create_central_state};
use stake_ledger::error::AccessError;
use stake_ledger::ledger::Ledger;

use solana_pubkey::Pubkey;

fn addr(b: u8) -> Addr {
    Addr::new([b; 32])
}

fn system_owned(key: Addr) -> AccountView {
    AccountView { key, owner: Addr::new([0; 32]) }
}

fn derived_state_key(program_id: [u8; 32]) -> (Addr, u8) {
    let program = Pubkey::new_from_array(program_id);
    let (key, bump) = Pubkey::try_find_program_address(&[&program_id], &program).unwrap();
    (Addr::new(key.to_bytes()), bump)
}

fn good_accounts(state_key: Addr) -> Vec<AccountView> {
    vec![
        system_owned(state_key),
        system_owned(Addr::new([0; 32])),
        system_owned(addr(20)),
        system_owned(addr(21)),
    ]
}

#[test]
fn parse_accepts_well_formed_accounts() {
    let accounts = good_accounts(addr(5));
    let parsed = Accounts::parse(&accounts).unwrap();
    assert_eq!(parsed.state_account.key, addr(5));
    assert_eq!(parsed.mint.key, addr(21));
}

#[test]
fn parse_rejects_wrong_system_program() {
    let mut accounts = good_accounts(addr(5));
    accounts[1].key = addr(9);
    assert!(matches!(Accounts::parse(&accounts), Err(AccessError::WrongSystemProgram)));
}

#[test]
fn parse_rejects_wrong_state_owner() {
    let mut accounts = good_accounts(addr(5));
    accounts[0].owner = addr(9);
    assert!(matches!(Accounts::parse(&accounts), Err(AccessError::WrongOwner)));
}

#[test]
fn parse_rejects_missing_accounts() {
    let accounts = vec![system_owned(addr(5))];
    assert!(matches!(Accounts::parse(&accounts), Err(AccessError::DataTypeMismatch)));
}

#[test]
fn central_state_is_created_at_the_derived_address() {
    let program_id = [7u8; 32];
    let (state_key, bump) = derived_state_key(program_id);
    let accounts = good_accounts(state_key);
    let params = Params { daily_inflation: 5, authority: addr(12) };

    let state = process_create_central_state(
        &Addr::new(program_id),
        &accounts,
        &params,
        &Vec::new(),
    )
    .unwrap();
    assert_eq!(state.nonce, bump);
    assert_eq!(state.daily_inflation, 5);
    assert_eq!(state.token_mint, addr(21));
    assert_eq!(state.authority, addr(12));
    assert_eq!(state.total_staked, 0);

    // A fresh ledger grows out of the created singleton.
    let ledger = Ledger::new(state);
    assert_eq!(ledger.central.total_staked, 0);
}

#[test]
fn central_state_rejects_a_non_derived_address() {
    let program_id = [7u8; 32];
    let accounts = good_accounts(addr(33));
    let params = Params { daily_inflation: 5, authority: addr(12) };
    let r = process_create_central_state(&Addr::new(program_id), &accounts, &params, &Vec::new());
    assert!(matches!(r, Err(AccessError::AccountNotDeterministic)));
}

#[test]
fn derivation_mismatch_outranks_staleness() {
    // Stale data in an account that is not at the derived address: the
    // address check comes first.
    let program_id = [7u8; 32];
    let accounts = good_accounts(addr(33));
    let params = Params { daily_inflation: 5, authority: addr(12) };
    let existing = vec![1u8, 0u8];
    let r = process_create_central_state(&Addr::new(program_id), &accounts, &params, &existing);
    assert!(matches!(r, Err(AccessError::AccountNotDeterministic)));
}

#[test]
fn central_state_rejects_an_initialized_account() {
    let program_id = [7u8; 32];
    let (state_key, _) = derived_state_key(program_id);
    let accounts = good_accounts(state_key);
    let params = Params { daily_inflation: 5, authority: addr(12) };
    let existing = vec![1u8, 0u8];
    let r = process_create_central_state(&Addr::new(program_id), &accounts, &params, &existing);
    assert!(matches!(r, Err(AccessError::AlreadyInitialized)));
}
