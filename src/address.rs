use vstd::prelude::*;
use vstd::array::{array_fill_for_copy_types, spec_array_fill_for_copy_type};

verus! {

/// A 20-byte account address.
#[derive(Clone, Copy, Debug, PartialEq, Eq, Hash)]
pub struct Address(pub [u8; 20]);

impl Address {
    /// The all-zero address, used as the "no account" side of mint and burn records.
    pub open spec fn zero_spec() -> Address {
        Address(spec_array_fill_for_copy_type::<u8, 20>(0u8))
    }

    pub fn new(bytes: [u8; 20]) -> (r: Address)
        ensures
            r.0 == bytes,
    {
        Address(bytes)
    }

    pub fn zero() -> (r: Address)
        ensures
            r == Address::zero_spec(),
    {
        Address(array_fill_for_copy_types::<u8, 20>(0u8))
    }

    pub fn to_bytes(&self) -> (r: [u8; 20])
        ensures
            r == self.0,
    {
        self.0
    }

    /// Byte-wise comparison of two addresses.
    pub fn same(&self, other: &Address) -> (r: bool)
        ensures
            r == (*self == *other),
    {
        let mut i: usize = 0;
        while i < 20
            invariant
                0 <= i <= 20,
                forall|j: int| 0 <= j < i ==> self.0[j] == other.0[j],
            decreases 20 - i,
        {
            if self.0[i] != other.0[i] {
                return false;
            }
            i = i + 1;
        }
        proof {
            assert(self.0 =~= other.0);
        }
        true
    }
}

} // verus!
