use vstd::prelude::*;

verus! {

/// An opaque 32-byte account identifier, held as its first and last
/// sixteen bytes read big-endian.
#[derive(Clone, Copy, Debug, PartialEq, Eq, Hash, Structural)]
pub struct AccountId {
    pub hi: u128,
    pub lo: u128,
}

impl AccountId {
    /// Builds the identifier from its two halves.
    pub fn new(hi: u128, lo: u128) -> (r: AccountId)
        ensures
            r.hi == hi,
            r.lo == lo,
    {
        AccountId { hi, lo }
    }
}

} // verus!
