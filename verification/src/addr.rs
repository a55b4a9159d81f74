//! Raw 32-byte account addresses.
//!
//! The ledger never computes trust from an address: it only stores addresses
//! and compares them for equality. Deriving an address from seeds is the job
//! of the surrounding runtime (see `derivation`).

use vstd::prelude::*;

verus! {

broadcast use vstd::array::group_array_axioms;

/// A 32-byte account address, held as plain bytes.
#[derive(Clone, Copy, PartialEq, Eq, Debug)]
pub struct Addr {
    pub bytes: [u8; 32],
}

impl Addr {
    /// Builds an address from its raw bytes.
    pub fn new(bytes: [u8; 32]) -> (r: Addr)
        ensures
            r.bytes == bytes,
    {
        Addr { bytes }
    }

    /// Compares two addresses byte by byte.
    pub fn equals(&self, other: &Addr) -> (r: bool)
        ensures
            r <==> self.bytes == other.bytes,
            r <==> self.bytes@ == other.bytes@,
            r <==> *self == *other,
    {
        let mut i: usize = 0;
        while i < 32
            invariant
                i <= 32,
                forall|j: int| 0 <= j < i ==> self.bytes[j] == other.bytes[j],
            decreases 32 - i,
        {
            if self.bytes[i] != other.bytes[i] {
                return false;
            }
            i += 1;
        }
        proof {
            assert(self.bytes =~= other.bytes);
        }
        true
    }
}

/// The fixed key of the system program: thirty-two zero bytes.
pub open spec fn spec_system_program_id() -> Seq<u8> {
    Seq::new(32, |i: int| 0u8)
}

/// Returns the system program's address.
pub fn system_program_id() -> (r: Addr)
    ensures
        r.bytes@ == spec_system_program_id(),
{
    let r = Addr { bytes: [0u8; 32] };
    proof {
        assert(r.bytes@ =~= spec_system_program_id());
    }
    r
}

} // verus!
