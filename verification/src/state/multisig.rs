//! The group record: who created the group and who its members are.

use vstd::prelude::*;
use crate::account::Account;
use crate::address::{
    address_bytes, address_eq, empty_address, is_empty_address, read_address, spec_empty_address,
    Address,
};
use crate::codec::put_bytes;
use crate::error::MultisigError;
use crate::state::transaction::{tally, MAX_MEMBERS};

verus! {

/// The member identities laid end to end, 32 bytes each.
pub open spec fn member_bytes(members: Seq<Seq<u8>>) -> Seq<u8>
    decreases members.len(),
{
    if members.len() == 0 {
        Seq::empty()
    } else {
        member_bytes(members.drop_last()) + members.last()
    }
}

/// The identities that `n` runs of 32 bytes of `bytes` from `offset` hold.
pub open spec fn members_at(bytes: Seq<u8>, offset: int, n: nat) -> Seq<Seq<u8>> {
    Seq::new(n, |i: int| bytes.subrange(offset + 32 * i, offset + 32 * i + 32))
}

/// Laid end to end, `members` take 32 bytes each, and member `i` lies at
/// byte `32 * i`.
#[verifier::rlimit(50)]
pub proof fn lemma_member_bytes(members: Seq<Seq<u8>>)
    requires
        forall|i: int| 0 <= i < members.len() ==> (#[trigger] members[i]).len() == 32,
    ensures
        member_bytes(members).len() == 32 * members.len(),
        members_at(member_bytes(members), 0, members.len()) == members,
    decreases members.len(),
{
    if members.len() > 0 {
        let front = members.drop_last();
        lemma_member_bytes(front);
        let all = member_bytes(members);
        assert forall|i: int| 0 <= i < members.len() implies all.subrange(32 * i, 32 * i + 32)
            == members[i] by {
            if i < front.len() {
                assert(members_at(member_bytes(front), 0, front.len())[i] == front[i]);
                assert(all.subrange(32 * i, 32 * i + 32) =~= member_bytes(front).subrange(
                    32 * i,
                    32 * i + 32,
                ));
            } else {
                assert(all.subrange(32 * i, 32 * i + 32) =~= members.last());
            }
        }
        assert(members_at(all, 0, members.len()) =~= members);
    } else {
        assert(members_at(member_bytes(members), 0, 0) =~= members);
    }
}

/// Whether none of `members` is the sentinel identity. The sentinel marks a
/// slot that nobody holds, so it is nobody's identity.
pub open spec fn none_empty(members: Seq<Seq<u8>>) -> bool {
    forall|i: int| 0 <= i < members.len() ==> #[trigger] members[i] != spec_empty_address()
}

/// The mathematical content of a group record.
pub struct MultisigView {
    /// Who created and paid for the group.
    pub creator: Seq<u8>,
    /// The ten member slots, in the order the members were supplied at
    /// creation; a slot nobody holds has the sentinel identity.
    pub members: Seq<Seq<u8>>,
    /// How many slots are held. They are the first ones.
    pub num_members: u8,
    /// The bump the record's own address was derived with.
    pub bump: u8,
}

impl MultisigView {
    /// The record's invariant: identities are 32 bytes, there are ten slots,
    /// at most ten are held, no slot below `num_members` has the sentinel
    /// identity, and every slot from `num_members` on has it. So the member
    /// count is the number of slots with another identity than the sentinel.
    pub open spec fn wf(self) -> bool {
        &&& self.creator.len() == 32
        &&& self.members.len() == MAX_MEMBERS
        &&& forall|i: int| 0 <= i < MAX_MEMBERS ==> (#[trigger] self.members[i]).len() == 32
        &&& self.num_members <= MAX_MEMBERS
        &&& forall|i: int|
            0 <= i < self.num_members ==> #[trigger] self.members[i] != spec_empty_address()
        &&& forall|i: int|
            self.num_members <= i < MAX_MEMBERS ==> #[trigger] self.members[i]
                == spec_empty_address()
    }

    /// Whether `who` is the member registered at `slot`.
    pub open spec fn is_member_at(self, slot: int, who: Seq<u8>) -> bool {
        0 <= slot < self.num_members && self.members[slot] == who
    }

    /// For each slot, whether it holds an identity other than the sentinel.
    pub open spec fn populated(self) -> Seq<bool> {
        Seq::new(self.members.len(), |i: int| self.members[i] != spec_empty_address())
    }

    /// The record of a group that `creator` founds with `members`, supplied
    /// in slot order.
    pub open spec fn founded(creator: Seq<u8>, members: Seq<Seq<u8>>, bump: u8) -> MultisigView
        recommends
            members.len() <= MAX_MEMBERS,
            none_empty(members),
    {
        MultisigView {
            creator,
            members: Seq::new(
                MAX_MEMBERS as nat,
                |i: int|
                    if i < members.len() {
                        members[i]
                    } else {
                        spec_empty_address()
                    },
            ),
            num_members: members.len() as u8,
            bump,
        }
    }

    /// The 354 bytes the record is stored as, field after field and without
    /// padding: creator (32), the ten member slots (32 each), member count
    /// (1), bump (1).
    pub open spec fn encoding(self) -> Seq<u8> {
        self.creator + member_bytes(self.members) + seq![self.num_members] + seq![self.bump]
    }

    /// The fields that the first 354 bytes of `bytes` hold.
    pub open spec fn fields_of(bytes: Seq<u8>) -> MultisigView {
        MultisigView {
            creator: bytes.subrange(0, 32),
            members: members_at(bytes, 32, 10),
            num_members: bytes[352],
            bump: bytes[353],
        }
    }

    /// Whether `bytes` begin with a stored record: long enough, a member
    /// count of at most ten, another identity than the sentinel in every
    /// slot below the count, and the sentinel in every slot from the count on.
    pub open spec fn well_encoded(bytes: Seq<u8>) -> bool {
        &&& bytes.len() >= Multisig::LEN
        &&& bytes[352] <= MAX_MEMBERS
        &&& forall|i: int|
            0 <= i < bytes[352] ==> #[trigger] members_at(bytes, 32, 10)[i]
                != spec_empty_address()
        &&& forall|i: int|
            bytes[352] <= i < MAX_MEMBERS ==> #[trigger] members_at(bytes, 32, 10)[i]
                == spec_empty_address()
    }

    /// The record that `bytes` begin with, if they begin with one.
    pub open spec fn parse(bytes: Seq<u8>) -> Option<MultisigView> {
        if Self::well_encoded(bytes) {
            Some(Self::fields_of(bytes))
        } else {
            None
        }
    }
}

/// The record of a newly founded group satisfies the invariant, holds the
/// supplied members in their order, and counts them.
pub proof fn lemma_founded(creator: Seq<u8>, members: Seq<Seq<u8>>, bump: u8)
    requires
        creator.len() == 32,
        members.len() <= MAX_MEMBERS,
        forall|i: int| 0 <= i < members.len() ==> (#[trigger] members[i]).len() == 32,
        none_empty(members),
    ensures
        MultisigView::founded(creator, members, bump).wf(),
        MultisigView::founded(creator, members, bump).num_members == members.len(),
        MultisigView::founded(creator, members, bump).members.take(members.len() as int)
            == members,
{
    let g = MultisigView::founded(creator, members, bump);
    assert(g.members.take(members.len() as int) =~= members);
}

/// In every record a slot has another identity than the sentinel exactly
/// when it is held, so the member count is the number of slots with another
/// identity than the sentinel.
pub proof fn lemma_populated_slots(g: MultisigView)
    requires
        g.wf(),
    ensures
        forall|i: int|
            0 <= i < MAX_MEMBERS ==> (#[trigger] g.members[i] != spec_empty_address()) == (i
                < g.num_members),
        tally(g.populated()) == g.num_members,
{
    lemma_tally_prefix(g.populated(), g.num_members as nat);
}

/// The sentinel identity is no member of any group, at any slot.
pub proof fn lemma_sentinel_is_no_member(g: MultisigView, slot: int)
    requires
        g.wf(),
    ensures
        !g.is_member_at(slot, spec_empty_address()),
{
}

/// Flags that are set exactly below `n` have tally `n`.
pub proof fn lemma_tally_prefix(flags: Seq<bool>, n: nat)
    requires
        n <= flags.len(),
        forall|i: int| 0 <= i < flags.len() ==> flags[i] == (i < n),
    ensures
        tally(flags) == n,
    decreases flags.len(),
{
    if flags.len() > 0 {
        if n == flags.len() {
            lemma_tally_prefix(flags.drop_last(), (n - 1) as nat);
        } else {
            lemma_tally_prefix(flags.drop_last(), n);
        }
    }
}

/// A stored record has 354 bytes and decodes to the record it stores,
/// whatever bytes follow it.
#[verifier::rlimit(50)]
pub proof fn lemma_parse_encoding(g: MultisigView, rest: Seq<u8>)
    requires
        g.wf(),
    ensures
        g.encoding().len() == Multisig::LEN,
        MultisigView::parse(g.encoding() + rest) == Some(g),
{
    let bytes = g.encoding() + rest;
    lemma_member_bytes(g.members);
    let packed = member_bytes(g.members);
    assert(bytes.subrange(0, 32) =~= g.creator);
    assert forall|i: int| 0 <= i < 10 implies #[trigger] members_at(bytes, 32, 10)[i]
        == g.members[i] by {
        assert(members_at(packed, 0, 10)[i] == g.members[i]);
        assert(bytes.subrange(32 + 32 * i, 32 + 32 * i + 32) =~= packed.subrange(
            32 * i,
            32 * i + 32,
        ));
    }
    assert(members_at(bytes, 32, 10) =~= g.members);
}

/// Bytes that decode to a record begin with that record's encoding, and the
/// record satisfies the invariant.
#[verifier::rlimit(50)]
pub proof fn lemma_encoding_parse(bytes: Seq<u8>)
    requires
        MultisigView::parse(bytes) is Some,
    ensures
        MultisigView::parse(bytes)->Some_0.wf(),
        MultisigView::parse(bytes)->Some_0.encoding() == bytes.subrange(0, Multisig::LEN as int),
{
    let g = MultisigView::parse(bytes)->Some_0;
    lemma_members_at(bytes, 32, 10);
    assert(g.encoding() =~= bytes.subrange(0, Multisig::LEN as int));
}

/// Runs of 32 bytes cut out of `bytes`, laid end to end again, are the bytes
/// they were cut from.
pub proof fn lemma_members_at(bytes: Seq<u8>, offset: int, n: nat)
    requires
        0 <= offset,
        offset + 32 * n <= bytes.len(),
    ensures
        member_bytes(members_at(bytes, offset, n)) == bytes.subrange(offset, offset + 32 * n),
    decreases n,
{
    let cut = members_at(bytes, offset, n);
    if n > 0 {
        lemma_members_at(bytes, offset, (n - 1) as nat);
        assert(cut.drop_last() =~= members_at(bytes, offset, (n - 1) as nat));
        assert(member_bytes(cut) =~= bytes.subrange(offset, offset + 32 * n));
    } else {
        assert(member_bytes(cut) =~= bytes.subrange(offset, offset + 32 * n));
    }
}

/// A group record.
#[derive(Clone, Copy, Debug, PartialEq, Eq)]
pub struct Multisig {
    creator: Address,
    members: [Address; 10],
    num_members: u8,
    bump: u8,
}

impl View for Multisig {
    type V = MultisigView;

    closed spec fn view(&self) -> MultisigView {
        MultisigView {
            creator: self.creator@,
            members: Seq::new(10, |i: int| self.members@[i]@),
            num_members: self.num_members,
            bump: self.bump,
        }
    }
}

impl Multisig {
    /// The size of a stored record in bytes.
    pub const LEN: usize = 32 + 32 * 10 + 1 + 1;

    #[verifier::type_invariant]
    spec fn inv(&self) -> bool {
        self@.wf()
    }

    /// The record of a group that `creator` founds with `members`, supplied
    /// in slot order. More than ten members, and the sentinel identity as a
    /// member, are refused as invalid data.
    pub fn new(creator: Address, members: &[Address], bump: u8) -> (r: Result<
        Multisig,
        MultisigError,
    >)
        ensures
            r is Ok <==> members@.len() <= MAX_MEMBERS && none_empty(address_bytes(members@)),
            match r {
                Ok(g) => g@ == MultisigView::founded(creator@, address_bytes(members@), bump)
                    && g@.wf(),
                Err(e) => e == MultisigError::InvalidAccountData,
            },
    {
        if members.len() > MAX_MEMBERS {
            return Err(MultisigError::InvalidAccountData);
        }
        let ghost supplied = address_bytes(members@);
        let mut slots = [empty_address(); 10];
        let mut i: usize = 0;
        while i < members.len()
            invariant
                i <= members.len() <= MAX_MEMBERS,
                supplied == address_bytes(members@),
                forall|j: int| 0 <= j < i ==> slots@[j] == members@[j],
                forall|j: int| 0 <= j < i ==> #[trigger] supplied[j] != spec_empty_address(),
                forall|j: int| i <= j < 10 ==> (#[trigger] slots@[j])@ == spec_empty_address(),
            decreases members.len() - i,
        {
            if is_empty_address(&members[i]) {
                assert(supplied[i as int] == spec_empty_address());
                return Err(MultisigError::InvalidAccountData);
            }
            slots[i] = members[i];
            i += 1;
        }
        proof {
            assert(Seq::new(10, |i: int| slots@[i]@) =~= MultisigView::founded(
                creator@,
                supplied,
                bump,
            ).members);
            lemma_founded(creator@, supplied, bump);
        }
        Ok(Multisig { creator, members: slots, num_members: members.len() as u8, bump })
    }

    /// Decodes the record at the start of an account's data.
    ///
    /// The data may be longer than a record, not shorter. Data that is too
    /// short, stores a member count above ten, holds the sentinel in a slot
    /// below the count, or holds another identity than the sentinel in a slot
    /// from the count on is refused as invalid account data.
    #[verifier::rlimit(50)]
    pub fn from_account_info(account_info: &Account) -> (r: Result<Multisig, MultisigError>)
        ensures
            match r {
                Ok(g) => MultisigView::parse(account_info.data@) == Some(g@) && g@.wf(),
                Err(e) => e == MultisigError::InvalidAccountData && MultisigView::parse(account_info.data@)
                    is None,
            },
    {
        let data = account_info.data.as_slice();
        if data.len() < Self::LEN {
            return Err(MultisigError::InvalidAccountData);
        }
        let num_members = data[352];
        if num_members as usize > MAX_MEMBERS {
            return Err(MultisigError::InvalidAccountData);
        }
        let mut members = [empty_address(); 10];
        let mut i: usize = 0;
        while i < 10
            invariant
                data@ == account_info.data@,
                i <= 10,
                data.len() >= Self::LEN,
                num_members == data@[352],
                forall|j: int| 0 <= j < i ==> (#[trigger] members@[j])@ == members_at(
                    data@,
                    32,
                    10,
                )[j],
                forall|j: int|
                    0 <= j < i && j < num_members ==> #[trigger] members_at(data@, 32, 10)[j]
                        != spec_empty_address(),
                forall|j: int|
                    num_members <= j < i ==> #[trigger] members_at(data@, 32, 10)[j]
                        == spec_empty_address(),
            decreases 10 - i,
        {
            let member = read_address(data, 32 + 32 * i);
            if (i < num_members as usize) == is_empty_address(&member) {
                assert(members_at(data@, 32, 10)[i as int] == member@);
                return Err(MultisigError::InvalidAccountData);
            }
            members[i] = member;
            i += 1;
        }
        proof {
            assert(Seq::new(10, |i: int| members@[i]@) =~= members_at(data@, 32, 10));
        }
        Ok(Multisig { creator: read_address(data, 0), members, num_members, bump: data[353] })
    }

    /// Decodes the record at the start of data that is known to hold one.
    pub fn from_account_info_unchecked(account_info: &Account) -> (g: Multisig)
        requires
            MultisigView::parse(account_info.data@) is Some,
        ensures
            MultisigView::parse(account_info.data@) == Some(g@),
            g@.wf(),
    {
        let data = account_info.data.as_slice();
        let mut members = [empty_address(); 10];
        let mut i: usize = 0;
        while i < 10
            invariant
                data@ == account_info.data@,
                i <= 10,
                data.len() >= Self::LEN,
                forall|j: int| 0 <= j < i ==> (#[trigger] members@[j])@ == members_at(
                    data@,
                    32,
                    10,
                )[j],
            decreases 10 - i,
        {
            members[i] = read_address(data, 32 + 32 * i);
            i += 1;
        }
        proof {
            assert(Seq::new(10, |i: int| members@[i]@) =~= members_at(data@, 32, 10));
        }
        Multisig {
            creator: read_address(data, 0),
            members,
            num_members: data[352],
            bump: data[353],
        }
    }

    /// The bytes the record is stored as.
    #[verifier::rlimit(50)]
    pub fn to_bytes(&self) -> (out: Vec<u8>)
        ensures
            out@ == self@.encoding(),
            out@.len() == Self::LEN,
    {
        proof {
            use_type_invariant(self);
        }
        let mut out: Vec<u8> = Vec::with_capacity(Self::LEN);
        put_bytes(&mut out, &self.creator);
        let mut i: usize = 0;
        while i < 10
            invariant
                i <= 10,
                out@ == self.creator@ + member_bytes(self@.members.take(i as int)),
                out@.len() == 32 + 32 * i,
            decreases 10 - i,
        {
            put_bytes(&mut out, &self.members[i]);
            i += 1;
            proof {
                assert(self@.members.take(i as int).drop_last() =~= self@.members.take(i - 1));
                assert(out@ =~= self.creator@ + member_bytes(self@.members.take(i as int)));
            }
        }
        proof {
            assert(self@.members.take(10) =~= self@.members);
        }
        out.push(self.num_members);
        out.push(self.bump);
        proof {
            assert(out@ =~= self@.encoding());
        }
        out
    }

    /// Who created the group.
    pub fn creator(&self) -> (a: Address)
        ensures
            a@ == self@.creator,
    {
        self.creator
    }

    /// How many member slots are held.
    pub fn num_members(&self) -> (n: u8)
        ensures
            n == self@.num_members,
            n <= MAX_MEMBERS,
    {
        proof {
            use_type_invariant(self);
        }
        self.num_members
    }

    /// The ten member slots.
    pub fn members(&self) -> (slots: [Address; 10])
        ensures
            forall|i: int| 0 <= i < 10 ==> (#[trigger] slots@[i])@ == self@.members[i],
    {
        self.members
    }

    /// The bump the record's own address was derived with.
    pub fn bump(&self) -> (b: u8)
        ensures
            b == self@.bump,
    {
        self.bump
    }

    /// Whether `who` is the member registered at `slot`. A slot that is not
    /// held has no member.
    pub fn is_member_at(&self, slot: usize, who: &Address) -> (held: bool)
        ensures
            held == self@.is_member_at(slot as int, who@),
    {
        if slot >= self.num_members as usize {
            return false;
        }
        proof {
            use_type_invariant(self);
        }
        address_eq(&self.members[slot], who)
    }
}

} // verus!
