//! The persisted byte layout of the ledger's records.
//!
//! Each entity serializes to a fixed-length, versioned image: a leading tag
//! byte naming the entity kind, then the fields in order, integers
//! little-endian, addresses as their raw bytes, flags as one byte. Reading a
//! record back checks the length, the tag and every flag byte, so stale or
//! foreign data is refused instead of being misread.

use vstd::prelude::*;

use vstd::bytes::{
    lemma_auto_spec_u64_to_from_le_bytes, spec_u64_from_le_bytes, spec_u64_to_le_bytes,
    u64_from_le_bytes, u64_to_le_bytes,
};
use vstd::slice::slice_subrange;

use crate::addr::Addr;
use crate::error::AccessError;
use crate::state::{
    BondAccount, CentralState, StakeAccount, StakePool, TAG_BOND_ACCOUNT, TAG_CENTRAL_STATE,
    TAG_STAKE_ACCOUNT, TAG_STAKE_POOL,
};

verus! {

broadcast use vstd::array::group_array_axioms;

/// Appends an address's raw bytes to an image under construction.
fn push_address(out: &mut Vec<u8>, a: &Addr)
    ensures
        final(out)@ == old(out)@ + a.bytes@,
{
    let mut i: usize = 0;
    while i < 32
        invariant
            i <= 32,
            out@ == old(out)@ + a.bytes@.subrange(0, i as int),
        decreases 32 - i,
    {
        out.push(a.bytes[i]);
        proof {
            assert(a.bytes@.subrange(0, i + 1) =~= a.bytes@.subrange(0, i as int).push(
                a.bytes@[i as int],
            ));
        }
        i += 1;
    }
    proof {
        assert(a.bytes@.subrange(0, 32) =~= a.bytes@);
    }
}

/// Appends an integer's little-endian bytes to an image under construction.
fn push_u64(out: &mut Vec<u8>, x: u64)
    ensures
        final(out)@ == old(out)@ + spec_u64_to_le_bytes(x),
{
    let mut bytes = u64_to_le_bytes(x);
    out.append(&mut bytes);
}

/// Reads an address back out of an image.
fn read_address(data: &Vec<u8>, offset: usize) -> (r: Addr)
    requires
        offset + 32 <= data.len(),
    ensures
        r.bytes@ == data@.subrange(offset as int, offset as int + 32),
{
    let mut bytes = [0u8; 32];
    let mut i: usize = 0;
    while i < 32
        invariant
            i <= 32,
            offset + 32 <= data.len(),
            forall|k: int| 0 <= k < i ==> bytes@[k] == data@[offset + k],
        decreases 32 - i,
    {
        bytes[i] = data[offset + i];
        i += 1;
    }
    let r = Addr { bytes };
    proof {
        assert(r.bytes@ =~= data@.subrange(offset as int, offset as int + 32));
    }
    r
}

/// Reads an integer back out of an image, little endian.
fn read_u64(data: &Vec<u8>, offset: usize) -> (r: u64)
    requires
        offset + 8 <= data.len(),
    ensures
        r == spec_u64_from_le_bytes(data@.subrange(offset as int, offset as int + 8)),
{
    u64_from_le_bytes(slice_subrange(data.as_slice(), offset, offset + 8))
}

/// The serialized image of a central-state record: 82 bytes.
pub open spec fn spec_central_state_bytes(s: CentralState) -> Seq<u8> {
    seq![1u8, s.nonce] + spec_u64_to_le_bytes(s.daily_inflation) + s.token_mint.bytes@
        + s.authority.bytes@ + spec_u64_to_le_bytes(s.total_staked)
}

impl CentralState {
    /// Serializes the record into its persisted image.
    pub fn to_bytes(&self) -> (r: Vec<u8>)
        ensures
            r@ == spec_central_state_bytes(*self),
            r@.len() == 82,
    {
        proof {
            lemma_auto_spec_u64_to_from_le_bytes();
        }
        let mut out: Vec<u8> = Vec::new();
        out.push(TAG_CENTRAL_STATE);
        out.push(self.nonce);
        push_u64(&mut out, self.daily_inflation);
        push_address(&mut out, &self.token_mint);
        push_address(&mut out, &self.authority);
        push_u64(&mut out, self.total_staked);
        proof {
            assert(out@ =~= spec_central_state_bytes(*self));
        }
        out
    }

    /// Reads a record back from its persisted image. Anything that is not
    /// exactly an 82-byte central-state record is refused as
    /// `DataTypeMismatch`.
    pub fn from_bytes(data: &Vec<u8>) -> (r: Result<CentralState, AccessError>)
        ensures
            r is Ok <==> data@.len() == 82 && data@[0] == 1u8,
            r is Err ==> r->Err_0 == AccessError::DataTypeMismatch,
            r is Ok ==> ({
                let s = r->Ok_0;
                &&& s.nonce == data@[1]
                &&& s.daily_inflation == spec_u64_from_le_bytes(data@.subrange(2, 10))
                &&& s.token_mint.bytes@ == data@.subrange(10, 42)
                &&& s.authority.bytes@ == data@.subrange(42, 74)
                &&& s.total_staked == spec_u64_from_le_bytes(data@.subrange(74, 82))
            }),
    {
        if data.len() != 82 {
            return Err(AccessError::DataTypeMismatch);
        }
        if data[0] != TAG_CENTRAL_STATE {
            return Err(AccessError::DataTypeMismatch);
        }
        Ok(
            CentralState {
                nonce: data[1],
                daily_inflation: read_u64(data, 2),
                token_mint: read_address(data, 10),
                authority: read_address(data, 42),
                total_staked: read_u64(data, 74),
            },
        )
    }
}

/// The serialized image of a stake-pool record: 83 bytes.
pub open spec fn spec_stake_pool_bytes(s: StakePool) -> Seq<u8> {
    seq![2u8] + s.address.bytes@ + s.owner.bytes@ + spec_u64_to_le_bytes(s.total_staked)
        + spec_u64_to_le_bytes(s.minimum_stake_amount) + seq![
        if s.is_active {
            1u8
        } else {
            0u8
        },
        s.nonce,
    ]
}

impl StakePool {
    /// Serializes the record into its persisted image.
    pub fn to_bytes(&self) -> (r: Vec<u8>)
        ensures
            r@ == spec_stake_pool_bytes(*self),
            r@.len() == 83,
    {
        proof {
            lemma_auto_spec_u64_to_from_le_bytes();
        }
        let mut out: Vec<u8> = Vec::new();
        out.push(TAG_STAKE_POOL);
        push_address(&mut out, &self.address);
        push_address(&mut out, &self.owner);
        push_u64(&mut out, self.total_staked);
        push_u64(&mut out, self.minimum_stake_amount);
        out.push(if self.is_active { 1 } else { 0 });
        out.push(self.nonce);
        proof {
            assert(out@ =~= spec_stake_pool_bytes(*self));
        }
        out
    }

    /// Reads a record back from its persisted image. Anything that is not
    /// exactly an 83-byte stake-pool record, flag byte included, is refused
    /// as `DataTypeMismatch`.
    pub fn from_bytes(data: &Vec<u8>) -> (r: Result<StakePool, AccessError>)
        ensures
            r is Ok <==> data@.len() == 83 && data@[0] == 2u8 && (data@[81] == 0u8 || data@[81]
                == 1u8),
            r is Err ==> r->Err_0 == AccessError::DataTypeMismatch,
            r is Ok ==> ({
                let s = r->Ok_0;
                &&& s.address.bytes@ == data@.subrange(1, 33)
                &&& s.owner.bytes@ == data@.subrange(33, 65)
                &&& s.total_staked == spec_u64_from_le_bytes(data@.subrange(65, 73))
                &&& s.minimum_stake_amount == spec_u64_from_le_bytes(data@.subrange(73, 81))
                &&& s.is_active == (data@[81] == 1u8)
                &&& s.nonce == data@[82]
            }),
    {
        if data.len() != 83 {
            return Err(AccessError::DataTypeMismatch);
        }
        if data[0] != TAG_STAKE_POOL {
            return Err(AccessError::DataTypeMismatch);
        }
        if data[81] > 1 {
            return Err(AccessError::DataTypeMismatch);
        }
        Ok(
            StakePool {
                address: read_address(data, 1),
                owner: read_address(data, 33),
                total_staked: read_u64(data, 65),
                minimum_stake_amount: read_u64(data, 73),
                is_active: data[81] == 1,
                nonce: data[82],
            },
        )
    }
}

/// The serialized image of a stake-account record: 81 bytes.
pub open spec fn spec_stake_account_bytes(s: StakeAccount) -> Seq<u8> {
    seq![3u8] + s.owner.bytes@ + s.stake_pool.bytes@ + spec_u64_to_le_bytes(s.stake_amount)
        + spec_u64_to_le_bytes(s.last_settled_time)
}

impl StakeAccount {
    /// Serializes the record into its persisted image.
    pub fn to_bytes(&self) -> (r: Vec<u8>)
        ensures
            r@ == spec_stake_account_bytes(*self),
            r@.len() == 81,
    {
        proof {
            lemma_auto_spec_u64_to_from_le_bytes();
        }
        let mut out: Vec<u8> = Vec::new();
        out.push(TAG_STAKE_ACCOUNT);
        push_address(&mut out, &self.owner);
        push_address(&mut out, &self.stake_pool);
        push_u64(&mut out, self.stake_amount);
        push_u64(&mut out, self.last_settled_time);
        proof {
            assert(out@ =~= spec_stake_account_bytes(*self));
        }
        out
    }

    /// Reads a record back from its persisted image. Anything that is not
    /// exactly an 81-byte stake-account record is refused as
    /// `DataTypeMismatch`.
    pub fn from_bytes(data: &Vec<u8>) -> (r: Result<StakeAccount, AccessError>)
        ensures
            r is Ok <==> data@.len() == 81 && data@[0] == 3u8,
            r is Err ==> r->Err_0 == AccessError::DataTypeMismatch,
            r is Ok ==> ({
                let s = r->Ok_0;
                &&& s.owner.bytes@ == data@.subrange(1, 33)
                &&& s.stake_pool.bytes@ == data@.subrange(33, 65)
                &&& s.stake_amount == spec_u64_from_le_bytes(data@.subrange(65, 73))
                &&& s.last_settled_time == spec_u64_from_le_bytes(data@.subrange(73, 81))
            }),
    {
        if data.len() != 81 {
            return Err(AccessError::DataTypeMismatch);
        }
        if data[0] != TAG_STAKE_ACCOUNT {
            return Err(AccessError::DataTypeMismatch);
        }
        Ok(
            StakeAccount {
                owner: read_address(data, 1),
                stake_pool: read_address(data, 33),
                stake_amount: read_u64(data, 65),
                last_settled_time: read_u64(data, 73),
            },
        )
    }
}

/// The serialized image of a bond-account record: 129 bytes.
pub open spec fn spec_bond_account_bytes(s: BondAccount) -> Seq<u8> {
    seq![4u8] + s.owner.bytes@ + s.stake_pool.bytes@ + s.seller.bytes@ + spec_u64_to_le_bytes(
        s.total_amount,
    ) + spec_u64_to_le_bytes(s.unlock_start) + spec_u64_to_le_bytes(s.unlock_period)
        + spec_u64_to_le_bytes(s.amount_claimed)
}

impl BondAccount {
    /// Serializes the record into its persisted image.
    pub fn to_bytes(&self) -> (r: Vec<u8>)
        ensures
            r@ == spec_bond_account_bytes(*self),
            r@.len() == 129,
    {
        proof {
            lemma_auto_spec_u64_to_from_le_bytes();
        }
        let mut out: Vec<u8> = Vec::new();
        out.push(TAG_BOND_ACCOUNT);
        push_address(&mut out, &self.owner);
        push_address(&mut out, &self.stake_pool);
        push_address(&mut out, &self.seller);
        push_u64(&mut out, self.total_amount);
        push_u64(&mut out, self.unlock_start);
        push_u64(&mut out, self.unlock_period);
        push_u64(&mut out, self.amount_claimed);
        proof {
            assert(out@ =~= spec_bond_account_bytes(*self));
        }
        out
    }

    /// Reads a record back from its persisted image. Anything that is not
    /// exactly a 129-byte bond-account record is refused as
    /// `DataTypeMismatch`.
    pub fn from_bytes(data: &Vec<u8>) -> (r: Result<BondAccount, AccessError>)
        ensures
            r is Ok <==> data@.len() == 129 && data@[0] == 4u8,
            r is Err ==> r->Err_0 == AccessError::DataTypeMismatch,
            r is Ok ==> ({
                let s = r->Ok_0;
                &&& s.owner.bytes@ == data@.subrange(1, 33)
                &&& s.stake_pool.bytes@ == data@.subrange(33, 65)
                &&& s.seller.bytes@ == data@.subrange(65, 97)
                &&& s.total_amount == spec_u64_from_le_bytes(data@.subrange(97, 105))
                &&& s.unlock_start == spec_u64_from_le_bytes(data@.subrange(105, 113))
                &&& s.unlock_period == spec_u64_from_le_bytes(data@.subrange(113, 121))
                &&& s.amount_claimed == spec_u64_from_le_bytes(data@.subrange(121, 129))
            }),
    {
        if data.len() != 129 {
            return Err(AccessError::DataTypeMismatch);
        }
        if data[0] != TAG_BOND_ACCOUNT {
            return Err(AccessError::DataTypeMismatch);
        }
        Ok(
            BondAccount {
                owner: read_address(data, 1),
                stake_pool: read_address(data, 33),
                seller: read_address(data, 65),
                total_amount: read_u64(data, 97),
                unlock_start: read_u64(data, 105),
                unlock_period: read_u64(data, 113),
                amount_claimed: read_u64(data, 121),
            },
        )
    }
}

/// Serializing a central-state record and reading it back yields the record
/// itself: the persisted image loses nothing.
pub proof fn lemma_central_state_round_trip(s: CentralState)
    ensures
        ({
            let image = spec_central_state_bytes(s);
            &&& image.len() == 82
            &&& image[0] == 1u8
            &&& image[1] == s.nonce
            &&& spec_u64_from_le_bytes(image.subrange(2, 10)) == s.daily_inflation
            &&& image.subrange(10, 42) == s.token_mint.bytes@
            &&& image.subrange(42, 74) == s.authority.bytes@
            &&& spec_u64_from_le_bytes(image.subrange(74, 82)) == s.total_staked
        }),
{
    lemma_auto_spec_u64_to_from_le_bytes();
    let image = spec_central_state_bytes(s);
    assert(image.subrange(2, 10) =~= spec_u64_to_le_bytes(s.daily_inflation));
    assert(image.subrange(10, 42) =~= s.token_mint.bytes@);
    assert(image.subrange(42, 74) =~= s.authority.bytes@);
    assert(image.subrange(74, 82) =~= spec_u64_to_le_bytes(s.total_staked));
}

} // verus!
