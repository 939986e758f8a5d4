//! Account identities.

use vstd::prelude::*;

verus! {

/// The identity of an account: 32 bytes, compared by value.
pub type Address = [u8; 32];

/// The number of bytes in an [`Address`].
pub const ADDRESS_BYTES: usize = 32;

/// The sentinel identity that fills a member slot nobody holds: 32 zero bytes.
pub open spec fn spec_empty_address() -> Seq<u8> {
    Seq::new(32, |i: int| 0u8)
}

/// The sentinel identity of an unused member slot.
pub fn empty_address() -> (a: Address)
    ensures
        a@ == spec_empty_address(),
{
    let a = [0u8; 32];
    assert(a@ =~= spec_empty_address());
    a
}

/// The bytes of each identity of a list.
pub open spec fn address_bytes(addresses: Seq<Address>) -> Seq<Seq<u8>> {
    Seq::new(addresses.len(), |i: int| addresses[i]@)
}

/// Whether two identities hold the same bytes.
pub fn address_eq(a: &Address, b: &Address) -> (same: bool)
    ensures
        same == (a@ == b@),
        same == (*a == *b),
{
    let mut i: usize = 0;
    while i < 32
        invariant
            i <= 32,
            forall|j: int| 0 <= j < i ==> a@[j] == b@[j],
        decreases 32 - i,
    {
        if a[i] != b[i] {
            return false;
        }
        i += 1;
    }
    assert(a@ =~= b@);
    assert(*a =~= *b);
    true
}

/// Whether `a` is the sentinel identity.
pub fn is_empty_address(a: &Address) -> (empty: bool)
    ensures
        empty == (a@ == spec_empty_address()),
{
    let zero = empty_address();
    address_eq(a, &zero)
}

/// The identity held in the 32 bytes of `data` from `offset`.
pub fn read_address(data: &[u8], offset: usize) -> (a: Address)
    requires
        offset + 32 <= data.len(),
    ensures
        a@ == data@.subrange(offset as int, offset + 32),
{
    let mut a = [0u8; 32];
    let mut i: usize = 0;
    while i < 32
        invariant
            i <= 32,
            offset + 32 <= data.len(),
            forall|j: int| 0 <= j < i ==> a@[j] == data@[offset + j],
        decreases 32 - i,
    {
        a[i] = data[offset + i];
        i += 1;
    }
    assert(a@ =~= data@.subrange(offset as int, offset + 32));
    a
}

/// Two identities with the same bytes are the same value.
pub proof fn lemma_address_ext(a: Address, b: Address)
    requires
        a@ == b@,
    ensures
        a == b,
{
    assert(a =~= b);
}

} // verus!
