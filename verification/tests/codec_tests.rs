use stake_ledger::addr::Addr;
use stake_ledger::error::AccessError;
use stake_ledger::state::{BondAccount, CentralState, StakeAccount, StakePool};

fn sample_state() -> CentralState {
    CentralState {
        nonce: 7,
        daily_inflation: 0x0102030405060708,
        token_mint: Addr::new([3; 32]),
        authority: Addr::new([4; 32]),
        total_staked: 600,
    }
}

#[test]
fn central_state_record_layout_is_exact() {
    let bytes = sample_state().to_bytes();
    assert_eq!(bytes.len(), 82);
    assert_eq!(bytes[0], 1); // tag
    assert_eq!(bytes[1], 7); // nonce
    // Daily inflation, little endian.
    assert_eq!(&bytes[2..10], &[0x08, 0x07, 0x06, 0x05, 0x04, 0x03, 0x02, 0x01]);
    assert_eq!(&bytes[10..42], &[3u8; 32]);
    assert_eq!(&bytes[42..74], &[4u8; 32]);
    assert_eq!(&bytes[74..82], &[0x58, 0x02, 0, 0, 0, 0, 0, 0]); // 600
}

#[test]
fn central_state_round_trips_through_bytes() {
    let state = sample_state();
    let bytes = state.to_bytes();
    let read_back = CentralState::from_bytes(&bytes).unwrap();
    assert_eq!(read_back, state);
}

#[test]
fn from_bytes_rejects_a_wrong_tag() {
    let mut bytes = sample_state().to_bytes();
    bytes[0] = 3;
    assert!(matches!(CentralState::from_bytes(&bytes), Err(AccessError::DataTypeMismatch)));
}

#[test]
fn from_bytes_rejects_a_wrong_length() {
    let mut bytes = sample_state().to_bytes();
    bytes.pop();
    assert!(matches!(CentralState::from_bytes(&bytes), Err(AccessError::DataTypeMismatch)));
    assert!(matches!(CentralState::from_bytes(&Vec::new()), Err(AccessError::DataTypeMismatch)));
}

#[test]
fn stake_pool_round_trips_through_bytes() {
    let pool = StakePool {
        address: Addr::new([5; 32]),
        owner: Addr::new([6; 32]),
        total_staked: 123_456,
        minimum_stake_amount: 1000,
        is_active: true,
        nonce: 254,
    };
    let bytes = pool.to_bytes();
    assert_eq!(bytes.len(), 83);
    assert_eq!(bytes[0], 2);
    assert_eq!(bytes[81], 1); // active flag
    assert_eq!(bytes[82], 254); // nonce
    assert_eq!(StakePool::from_bytes(&bytes).unwrap(), pool);
}

#[test]
fn stake_pool_rejects_a_mangled_flag() {
    let pool = StakePool {
        address: Addr::new([5; 32]),
        owner: Addr::new([6; 32]),
        total_staked: 0,
        minimum_stake_amount: 0,
        is_active: false,
        nonce: 0,
    };
    let mut bytes = pool.to_bytes();
    bytes[81] = 2;
    assert!(matches!(StakePool::from_bytes(&bytes), Err(AccessError::DataTypeMismatch)));
}

#[test]
fn stake_account_round_trips_through_bytes() {
    let account = StakeAccount {
        owner: Addr::new([7; 32]),
        stake_pool: Addr::new([5; 32]),
        stake_amount: 42,
        last_settled_time: 1_650_000_000,
    };
    let bytes = account.to_bytes();
    assert_eq!(bytes.len(), 81);
    assert_eq!(bytes[0], 3);
    assert_eq!(StakeAccount::from_bytes(&bytes).unwrap(), account);
}

#[test]
fn bond_account_round_trips_through_bytes() {
    let bond = BondAccount {
        owner: Addr::new([7; 32]),
        stake_pool: Addr::new([5; 32]),
        seller: Addr::new([2; 32]),
        total_amount: 10_000,
        unlock_start: 100,
        unlock_period: 3600,
        amount_claimed: 2_500,
    };
    let bytes = bond.to_bytes();
    assert_eq!(bytes.len(), 129);
    assert_eq!(bytes[0], 4);
    assert_eq!(BondAccount::from_bytes(&bytes).unwrap(), bond);
}

#[test]
fn records_are_not_confused_across_kinds() {
    let state = sample_state();
    let state_bytes = state.to_bytes();
    assert!(matches!(StakeAccount::from_bytes(&state_bytes), Err(AccessError::DataTypeMismatch)));
    let account = StakeAccount {
        owner: Addr::new([7; 32]),
        stake_pool: Addr::new([5; 32]),
        stake_amount: 42,
        last_settled_time: 0,
    };
    let account_bytes = account.to_bytes();
    assert!(matches!(
        CentralState::from_bytes(&account_bytes),
        Err(AccessError::DataTypeMismatch)
    ));
}

#[test]
fn serialized_sizes_match_the_images() {
    assert_eq!(CentralState::serialized_len(), 82);
    assert_eq!(StakePool::serialized_len(), 83);
    assert_eq!(StakeAccount::serialized_len(), 81);
    assert_eq!(BondAccount::serialized_len(), 129);
}
