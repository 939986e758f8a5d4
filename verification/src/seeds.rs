//! Address derivation: the seeds each account of the program is derived
//! from, and the check of a supplied address against the derived one.
//!
//! An address is derived from a namespace tag, the identifiers of the
//! accounts it hangs below, and a bump. The derivation itself is a service of
//! the host, which alone can tell whether a hash lies off the curve. This
//! module says which seeds the host is to derive from, and compares what the
//! host derived with the address that a caller supplied. It never searches
//! for a bump: the caller supplies the one chosen at creation.

use vstd::prelude::*;
use crate::address::{address_eq, Address};
use crate::codec::{lemma_u64_le_len, put_bytes, put_u64_le, u64_le};
use crate::error::MultisigError;

verus! {

/// The most seeds a derivation takes.
pub const MAX_SEEDS: usize = 16;

/// The most bytes one seed may have.
pub const MAX_SEED_LEN: usize = 32;

/// The tag of group records: the ASCII bytes of `multisig`.
pub open spec fn multisig_tag() -> Seq<u8> {
    seq![109u8, 117u8, 108u8, 116u8, 105u8, 115u8, 105u8, 103u8]
}

/// The tag of group configuration records: the ASCII bytes of
/// `multisig_config`.
pub open spec fn multisig_config_tag() -> Seq<u8> {
    seq![
        109u8,
        117u8,
        108u8,
        116u8,
        105u8,
        115u8,
        105u8,
        103u8,
        95u8,
        99u8,
        111u8,
        110u8,
        102u8,
        105u8,
        103u8,
    ]
}

/// The tag of group treasuries: the ASCII bytes of `treasury`.
pub open spec fn treasury_tag() -> Seq<u8> {
    seq![116u8, 114u8, 101u8, 97u8, 115u8, 117u8, 114u8, 121u8]
}

/// The tag of transfer records: the ASCII bytes of `transaction`.
pub open spec fn transaction_tag() -> Seq<u8> {
    seq![116u8, 114u8, 97u8, 110u8, 115u8, 97u8, 99u8, 116u8, 105u8, 111u8, 110u8]
}

/// The seeds of a derivation: the tag, then the ancestors in order, then the
/// bump as one byte.
pub open spec fn seed_list(tag: Seq<u8>, ancestors: Seq<Seq<u8>>, bump: u8) -> Seq<Seq<u8>> {
    seq![tag] + ancestors + seq![seq![bump]]
}

/// The seeds of a group record: tag `multisig`, below its creator.
pub open spec fn spec_multisig_seeds(creator: Seq<u8>, bump: u8) -> Seq<Seq<u8>> {
    seed_list(multisig_tag(), seq![creator], bump)
}

/// The seeds of a group's configuration record: tag `multisig_config`,
/// below the group.
pub open spec fn spec_multisig_config_seeds(multisig: Seq<u8>, bump: u8) -> Seq<Seq<u8>> {
    seed_list(multisig_config_tag(), seq![multisig], bump)
}

/// The seeds of a group's treasury: tag `treasury`, below the group.
pub open spec fn spec_treasury_seeds(multisig: Seq<u8>, bump: u8) -> Seq<Seq<u8>> {
    seed_list(treasury_tag(), seq![multisig], bump)
}

/// The seeds of a transfer record: tag `transaction`, below the group and
/// the transfer's sequence index in eight little-endian bytes.
pub open spec fn spec_transaction_seeds(multisig: Seq<u8>, index: u64, bump: u8) -> Seq<Seq<u8>> {
    seed_list(transaction_tag(), seq![multisig, u64_le(index)], bump)
}

/// Whether a derivation takes these seeds: at most 16 of them, of at most 32
/// bytes each.
pub open spec fn within_limits(seeds: Seq<Seq<u8>>) -> bool {
    &&& seeds.len() <= MAX_SEEDS
    &&& forall|i: int| 0 <= i < seeds.len() ==> (#[trigger] seeds[i]).len() <= MAX_SEED_LEN
}

/// The bytes of each seed of a list.
pub open spec fn seed_bytes(seeds: Seq<Vec<u8>>) -> Seq<Seq<u8>> {
    Seq::new(seeds.len(), |i: int| seeds[i]@)
}

/// Whether the host derived an address, and it is `supplied`.
pub open spec fn is_derived(supplied: Seq<u8>, derived: Option<Address>) -> bool {
    derived matches Some(address) && address@ == supplied
}

/// The seeds of every account of the program are seeds a derivation takes.
pub proof fn lemma_seeds_within_limits(ancestor: Seq<u8>, index: u64, bump: u8)
    requires
        ancestor.len() == 32,
    ensures
        within_limits(spec_multisig_seeds(ancestor, bump)),
        within_limits(spec_multisig_config_seeds(ancestor, bump)),
        within_limits(spec_treasury_seeds(ancestor, bump)),
        within_limits(spec_transaction_seeds(ancestor, index, bump)),
{
    lemma_u64_le_len(index);
}

/// Seeds are told apart by what they are derived for: no two of the four
/// kinds of account share their seeds, and within one kind the seeds
/// determine the ancestor, the index and the bump.
#[verifier::rlimit(50)]
pub proof fn lemma_seeds_injective(
    a: Seq<u8>,
    index_a: u64,
    bump_a: u8,
    b: Seq<u8>,
    index_b: u64,
    bump_b: u8,
)
    ensures
        spec_multisig_seeds(a, bump_a) == spec_multisig_seeds(b, bump_b) ==> a == b && bump_a
            == bump_b,
        spec_multisig_config_seeds(a, bump_a) == spec_multisig_config_seeds(b, bump_b) ==> a == b
            && bump_a == bump_b,
        spec_treasury_seeds(a, bump_a) == spec_treasury_seeds(b, bump_b) ==> a == b && bump_a
            == bump_b,
        spec_transaction_seeds(a, index_a, bump_a) == spec_transaction_seeds(b, index_b, bump_b)
            ==> a == b && index_a == index_b && bump_a == bump_b,
        spec_multisig_seeds(a, bump_a) != spec_multisig_config_seeds(b, bump_b),
        spec_multisig_seeds(a, bump_a) != spec_treasury_seeds(b, bump_b),
        spec_multisig_seeds(a, bump_a) != spec_transaction_seeds(b, index_b, bump_b),
        spec_multisig_config_seeds(a, bump_a) != spec_treasury_seeds(b, bump_b),
        spec_multisig_config_seeds(a, bump_a) != spec_transaction_seeds(b, index_b, bump_b),
        spec_treasury_seeds(a, bump_a) != spec_transaction_seeds(b, index_b, bump_b),
{
    let ma = spec_multisig_seeds(a, bump_a);
    let mb = spec_multisig_seeds(b, bump_b);
    let ca = spec_multisig_config_seeds(a, bump_a);
    let cb = spec_multisig_config_seeds(b, bump_b);
    let ta = spec_treasury_seeds(a, bump_a);
    let tb = spec_treasury_seeds(b, bump_b);
    let xa = spec_transaction_seeds(a, index_a, bump_a);
    let xb = spec_transaction_seeds(b, index_b, bump_b);
    assert(ma[0] == multisig_tag() && mb[0] == multisig_tag());
    assert(ca[0] == multisig_config_tag() && cb[0] == multisig_config_tag());
    assert(ta[0] == treasury_tag() && tb[0] == treasury_tag());
    assert(xa[0] == transaction_tag() && xb[0] == transaction_tag());
    assert(multisig_tag().len() == 8 && multisig_config_tag().len() == 15);
    assert(treasury_tag().len() == 8 && transaction_tag().len() == 11);
    assert(multisig_tag()[0] == 109u8 && treasury_tag()[0] == 116u8);
    assert(ma.len() == 3 && xb.len() == 4);
    if ma == mb {
        assert(ma[1] == a && mb[1] == b);
        assert(ma[2][0] == bump_a && mb[2][0] == bump_b);
    }
    if ca == cb {
        assert(ca[1] == a && cb[1] == b);
        assert(ca[2][0] == bump_a && cb[2][0] == bump_b);
    }
    if ta == tb {
        assert(ta[1] == a && tb[1] == b);
        assert(ta[2][0] == bump_a && tb[2][0] == bump_b);
    }
    if xa == xb {
        assert(xa[1] == a && xb[1] == b);
        assert(xa[2] == u64_le(index_a) && xb[2] == u64_le(index_b));
        assert(xa[3][0] == bump_a && xb[3][0] == bump_b);
        crate::codec::lemma_le_u64_of_u64_le(index_a);
        crate::codec::lemma_le_u64_of_u64_le(index_b);
    }
}

/// The seeds for tag, one ancestor and bump.
fn seeds_below(tag: &[u8], ancestor: &Address, bump: u8) -> (seeds: Vec<Vec<u8>>)
    ensures
        seed_bytes(seeds@) == seed_list(tag@, seq![ancestor@], bump),
{
    let mut first: Vec<u8> = Vec::new();
    put_bytes(&mut first, tag);
    let mut second: Vec<u8> = Vec::new();
    put_bytes(&mut second, ancestor);
    let mut third: Vec<u8> = Vec::new();
    third.push(bump);
    let mut seeds: Vec<Vec<u8>> = Vec::new();
    seeds.push(first);
    seeds.push(second);
    seeds.push(third);
    proof {
        assert(seeds@[0]@ =~= tag@);
        assert(seeds@[1]@ =~= ancestor@);
        assert(seeds@[2]@ =~= seq![bump]);
        assert(seed_bytes(seeds@) =~= seed_list(tag@, seq![ancestor@], bump));
    }
    seeds
}

/// The seeds the address of a group record is derived from.
pub fn multisig_seeds(creator: &Address, bump: u8) -> (seeds: Vec<Vec<u8>>)
    ensures
        seed_bytes(seeds@) == spec_multisig_seeds(creator@, bump),
        within_limits(seed_bytes(seeds@)),
{
    let tag: [u8; 8] = [109, 117, 108, 116, 105, 115, 105, 103];
    proof {
        assert(tag@ =~= multisig_tag());
        lemma_seeds_within_limits(creator@, 0, bump);
    }
    seeds_below(&tag, creator, bump)
}

/// The seeds the address of a group's configuration record is derived from.
pub fn multisig_config_seeds(multisig: &Address, bump: u8) -> (seeds: Vec<Vec<u8>>)
    ensures
        seed_bytes(seeds@) == spec_multisig_config_seeds(multisig@, bump),
        within_limits(seed_bytes(seeds@)),
{
    let tag: [u8; 15] = [109, 117, 108, 116, 105, 115, 105, 103, 95, 99, 111, 110, 102, 105, 103];
    proof {
        assert(tag@ =~= multisig_config_tag());
        lemma_seeds_within_limits(multisig@, 0, bump);
    }
    seeds_below(&tag, multisig, bump)
}

/// The seeds the address of a group's treasury is derived from.
pub fn treasury_seeds(multisig: &Address, bump: u8) -> (seeds: Vec<Vec<u8>>)
    ensures
        seed_bytes(seeds@) == spec_treasury_seeds(multisig@, bump),
        within_limits(seed_bytes(seeds@)),
{
    let tag: [u8; 8] = [116, 114, 101, 97, 115, 117, 114, 121];
    proof {
        assert(tag@ =~= treasury_tag());
        lemma_seeds_within_limits(multisig@, 0, bump);
    }
    seeds_below(&tag, multisig, bump)
}

/// The seeds the address of a transfer record is derived from.
pub fn transaction_seeds(multisig: &Address, index: u64, bump: u8) -> (seeds: Vec<Vec<u8>>)
    ensures
        seed_bytes(seeds@) == spec_transaction_seeds(multisig@, index, bump),
        within_limits(seed_bytes(seeds@)),
{
    let tag: [u8; 11] = [116, 114, 97, 110, 115, 97, 99, 116, 105, 111, 110];
    let mut first: Vec<u8> = Vec::new();
    put_bytes(&mut first, &tag);
    let mut second: Vec<u8> = Vec::new();
    put_bytes(&mut second, multisig);
    let mut third: Vec<u8> = Vec::new();
    put_u64_le(&mut third, index);
    let mut fourth: Vec<u8> = Vec::new();
    fourth.push(bump);
    let mut seeds: Vec<Vec<u8>> = Vec::new();
    seeds.push(first);
    seeds.push(second);
    seeds.push(third);
    seeds.push(fourth);
    proof {
        assert(tag@ =~= transaction_tag());
        assert(seeds@[0]@ =~= transaction_tag());
        assert(seeds@[1]@ =~= multisig@);
        assert(seeds@[2]@ =~= u64_le(index));
        assert(seeds@[3]@ =~= seq![bump]);
        assert(seed_bytes(seeds@) =~= spec_transaction_seeds(multisig@, index, bump));
        lemma_seeds_within_limits(multisig@, index, bump);
    }
    seeds
}

/// Checks a supplied address against the one the host derived for it.
///
/// Succeeds exactly when the host derived an address and it is the supplied
/// one. A mismatch means a client error or a substituted account, and is
/// fatal to the call.
pub fn verify_address(supplied: &Address, derived: &Option<Address>) -> (r: Result<
    (),
    MultisigError,
>)
    ensures
        r is Ok <==> is_derived(supplied@, *derived),
        r is Err ==> r == Err::<(), MultisigError>(MultisigError::AddressMismatch),
{
    match derived {
        Some(address) => {
            if address_eq(address, supplied) {
                Ok(())
            } else {
                Err(MultisigError::AddressMismatch)
            }
        },
        None => Err(MultisigError::AddressMismatch),
    }
}

} // verus!
