//! Block hashes and block headers, the plain values every other module works on.

use vstd::prelude::*;
use vstd::std_specs::cmp::PartialEqSpecImpl;

verus! {

/// A 32-byte hash.
#[derive(Clone, Copy, Debug)]
pub struct Bytes32 {
    pub bytes: [u8; 32],
}

impl View for Bytes32 {
    type V = Seq<u8>;

    open spec fn view(&self) -> Seq<u8> {
        self.bytes@
    }
}

impl PartialEq for Bytes32 {
    /// Byte-wise comparison.
    fn eq(&self, other: &Bytes32) -> (r: bool) {
        let mut i: usize = 0;
        while i < 32
            invariant
                i <= 32,
                forall|j: int| 0 <= j < i ==> self.bytes[j] == other.bytes[j],
            decreases 32 - i,
        {
            if self.bytes[i] != other.bytes[i] {
                return false;
            }
            i += 1;
        }
        proof {
            assert(self.bytes =~= other.bytes);
        }
        true
    }
}

impl Eq for Bytes32 {

}

impl PartialEqSpecImpl for Bytes32 {
    open spec fn obeys_eq_spec() -> bool {
        true
    }

    open spec fn eq_spec(&self, other: &Bytes32) -> bool {
        *self == *other
    }
}

impl Bytes32 {
    /// The hash made of the given bytes.
    pub fn new(bytes: [u8; 32]) -> (r: Bytes32)
        ensures
            r.bytes == bytes,
    {
        Bytes32 { bytes }
    }
}

/// What the monitor keeps of a block. A header is never changed once observed.
#[derive(Clone, Copy, Debug)]
pub struct BlockHeader {
    pub height: u64,
    pub hash: Bytes32,
    pub parent_hash: Bytes32,
    pub timestamp: u64,
    pub gas_used: u64,
    pub gas_limit: u64,
    pub tx_count: u32,
}

impl PartialEq for BlockHeader {
    /// Field-wise comparison.
    fn eq(&self, other: &BlockHeader) -> (r: bool) {
        self.height == other.height && self.hash == other.hash && self.parent_hash
            == other.parent_hash && self.timestamp == other.timestamp && self.gas_used
            == other.gas_used && self.gas_limit == other.gas_limit && self.tx_count
            == other.tx_count
    }
}

impl Eq for BlockHeader {

}

impl PartialEqSpecImpl for BlockHeader {
    open spec fn obeys_eq_spec() -> bool {
        true
    }

    open spec fn eq_spec(&self, other: &BlockHeader) -> bool {
        *self == *other
    }
}

impl BlockHeader {
    /// `self` is the direct parent of `child`: one block lower, and named by
    /// `child` as its parent.
    pub open spec fn is_parent_of(self, child: BlockHeader) -> bool {
        self.height + 1 == child.height && self.hash == child.parent_hash
    }

    /// Whether `self` is the direct parent of `child`.
    pub fn links_to(&self, child: &BlockHeader) -> (r: bool)
        ensures
            r == self.is_parent_of(*child),
    {
        child.height > 0 && self.height == child.height - 1 && self.hash == child.parent_hash
    }

    /// The gas fields describe a block: a positive limit, and no more gas used
    /// than the limit allows.
    pub open spec fn gas_is_valid(self) -> bool {
        0 < self.gas_limit && self.gas_used <= self.gas_limit
    }

    /// Whether the gas fields describe a block.
    pub fn has_valid_gas(&self) -> (r: bool)
        ensures
            r == self.gas_is_valid(),
    {
        0 < self.gas_limit && self.gas_used <= self.gas_limit
    }
}

} // verus!
