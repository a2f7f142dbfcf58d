//! Fixed-size byte values.
use vstd::prelude::*;

verus! {

/// An account address.
pub type Address = [u8; 20];

/// A 256-bit hash.
pub type B256 = [u8; 32];

/// A 256-bit unsigned integer, most significant byte first.
pub type U256 = [u8; 32];

/// The nonce field of a block header.
pub type B64 = [u8; 8];

/// The logs bloom filter of a block header.
pub type Bloom = [u8; 256];

/// `n` zero bytes.
pub open spec fn zeros(n: nat) -> Seq<u8> {
    Seq::new(n, |i: int| 0u8)
}

/// Every one of the bytes is zero, and there are as many as asked for.
pub proof fn law_zeros_are_zero(n: nat)
    ensures
        zeros(n).len() == n,
        forall|i: int| 0 <= i < n ==> #[trigger] zeros(n)[i] == 0,
{
}

/// The number zero.
pub open spec fn zero() -> U256 {
    vstd::array::spec_array_fill_for_copy_type(0u8)
}

/// Every byte of the number zero is zero.
pub proof fn lemma_zero_bytes()
    ensures
        zero()@ == zeros(32),
{
    assert(zero()@ =~= zeros(32));
}

/// Whether two addresses hold the same bytes.
pub fn same_address(a: &Address, b: &Address) -> (same: bool)
    ensures
        same == (a@ == b@),
{
    let mut i: usize = 0;
    while i < 20
        invariant
            i <= 20,
            forall|j: int| 0 <= j < i ==> a@[j] == b@[j],
        decreases 20 - i,
    {
        if a[i] != b[i] {
            return false;
        }
        i += 1;
    }
    assert(a@ =~= b@);
    true
}

/// A copy of `bytes`.
pub fn copy_bytes(bytes: &Vec<u8>) -> (copy: Vec<u8>)
    ensures
        copy@ == bytes@,
{
    let copy = bytes.clone();
    assert(copy@ =~= bytes@);
    copy
}

} // verus!
