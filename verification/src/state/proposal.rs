//! The proposal record and its status.

use vstd::prelude::*;
use crate::account::Account;
use crate::address::{empty_address, read_address, Address};
use crate::codec::{
    le_u64, lemma_le_u64_of_u64_le, lemma_le_u64_range, lemma_u64_le_len, lemma_u64_le_of_le_u64,
    put_bytes, put_u64_le, read_u64_le, u64_le,
};
use crate::error::MultisigError;
use crate::state::multisig::{lemma_member_bytes, lemma_members_at, member_bytes, members_at};

verus! {

/// How far a proposal has come.
#[derive(Clone, Copy, Debug, PartialEq, Eq, Structural)]
pub enum ProposalStatus {
    Draft,
    Active,
    Failed,
    Succeeded,
    Cancelled,
}

impl ProposalStatus {
    /// The status that a byte stands for: 0 to 4, in the order of the
    /// variants. No other byte stands for a status.
    pub open spec fn of_byte(byte: u8) -> Option<ProposalStatus> {
        if byte == 0 {
            Some(ProposalStatus::Draft)
        } else if byte == 1 {
            Some(ProposalStatus::Active)
        } else if byte == 2 {
            Some(ProposalStatus::Failed)
        } else if byte == 3 {
            Some(ProposalStatus::Succeeded)
        } else if byte == 4 {
            Some(ProposalStatus::Cancelled)
        } else {
            None
        }
    }

    /// The byte that stands for the status.
    pub open spec fn spec_byte(self) -> u8 {
        match self {
            ProposalStatus::Draft => 0,
            ProposalStatus::Active => 1,
            ProposalStatus::Failed => 2,
            ProposalStatus::Succeeded => 3,
            ProposalStatus::Cancelled => 4,
        }
    }

    /// The byte that stands for the status.
    pub fn byte(self) -> (b: u8)
        ensures
            b == self.spec_byte(),
            Self::of_byte(b) == Some(self),
    {
        match self {
            ProposalStatus::Draft => 0,
            ProposalStatus::Active => 1,
            ProposalStatus::Failed => 2,
            ProposalStatus::Succeeded => 3,
            ProposalStatus::Cancelled => 4,
        }
    }
}

impl<'a> TryFrom<&'a u8> for ProposalStatus {
    type Error = MultisigError;

    fn try_from(value: &'a u8) -> (r: Result<Self, Self::Error>) {
        match *value {
            0 => Ok(ProposalStatus::Draft),
            1 => Ok(ProposalStatus::Active),
            2 => Ok(ProposalStatus::Failed),
            3 => Ok(ProposalStatus::Succeeded),
            4 => Ok(ProposalStatus::Cancelled),
            _ => Err(MultisigError::InvalidInstructionData),
        }
    }
}

impl<'a> vstd::std_specs::convert::TryFromSpecImpl<&'a u8> for ProposalStatus {
    open spec fn obeys_try_from_spec() -> bool {
        true
    }

    open spec fn try_from_spec(value: &'a u8) -> Result<Self, Self::Error> {
        match Self::of_byte(*value) {
            Some(status) => Ok(status),
            None => Err(MultisigError::InvalidInstructionData),
        }
    }
}

/// The mathematical content of a proposal record.
pub struct ProposalStateView {
    pub proposal_id: u64,
    pub expiry: u64,
    pub result: ProposalStatus,
    pub bump: u8,
    pub active_members: Seq<Seq<u8>>,
    pub votes: Seq<u8>,
    pub created_time: u64,
}

impl ProposalStateView {
    /// The shape of a record: ten member identities of 32 bytes and ten
    /// vote bytes.
    pub open spec fn wf(self) -> bool {
        &&& self.active_members.len() == 10
        &&& forall|i: int| 0 <= i < 10 ==> (#[trigger] self.active_members[i]).len() == 32
        &&& self.votes.len() == 10
    }

    /// The 356 bytes the record is stored as, field after field and without
    /// padding: proposal id (8, little-endian), expiry (8, little-endian),
    /// status (1), bump (1), ten member identities (32 each), ten vote bytes,
    /// creation time (8, little-endian).
    pub open spec fn encoding(self) -> Seq<u8> {
        u64_le(self.proposal_id) + u64_le(self.expiry) + seq![self.result.spec_byte()]
            + seq![self.bump] + member_bytes(self.active_members) + self.votes + u64_le(
            self.created_time,
        )
    }

    /// The record that `bytes` begin with, if they are long enough and hold
    /// a status byte.
    pub open spec fn parse(bytes: Seq<u8>) -> Option<ProposalStateView> {
        if bytes.len() >= ProposalState::LEN && ProposalStatus::of_byte(bytes[16]) is Some {
            Some(
                ProposalStateView {
                    proposal_id: le_u64(bytes.subrange(0, 8)) as u64,
                    expiry: le_u64(bytes.subrange(8, 16)) as u64,
                    result: ProposalStatus::of_byte(bytes[16])->Some_0,
                    bump: bytes[17],
                    active_members: members_at(bytes, 18, 10),
                    votes: bytes.subrange(338, 348),
                    created_time: le_u64(bytes.subrange(348, 356)) as u64,
                },
            )
        } else {
            None
        }
    }
}

/// A stored record has 356 bytes and decodes to the record it stores,
/// whatever bytes follow it.
#[verifier::rlimit(50)]
pub proof fn lemma_parse_encoding(v: ProposalStateView, rest: Seq<u8>)
    requires
        v.wf(),
    ensures
        v.encoding().len() == ProposalState::LEN,
        ProposalStateView::parse(v.encoding() + rest) == Some(v),
{
    let bytes = v.encoding() + rest;
    lemma_le_u64_of_u64_le(v.proposal_id);
    lemma_le_u64_of_u64_le(v.expiry);
    lemma_le_u64_of_u64_le(v.created_time);
    lemma_member_bytes(v.active_members);
    let packed = member_bytes(v.active_members);
    assert(bytes.subrange(0, 8) =~= u64_le(v.proposal_id));
    assert(bytes.subrange(8, 16) =~= u64_le(v.expiry));
    assert(bytes.subrange(338, 348) =~= v.votes);
    assert(bytes.subrange(348, 356) =~= u64_le(v.created_time));
    assert forall|i: int| 0 <= i < 10 implies #[trigger] members_at(bytes, 18, 10)[i]
        == v.active_members[i] by {
        assert(members_at(packed, 0, 10)[i] == v.active_members[i]);
        assert(bytes.subrange(18 + 32 * i, 18 + 32 * i + 32) =~= packed.subrange(
            32 * i,
            32 * i + 32,
        ));
    }
    assert(members_at(bytes, 18, 10) =~= v.active_members);
}

/// Bytes that decode to a record begin with that record's encoding.
#[verifier::rlimit(50)]
pub proof fn lemma_encoding_parse(bytes: Seq<u8>)
    requires
        ProposalStateView::parse(bytes) is Some,
    ensures
        ProposalStateView::parse(bytes)->Some_0.wf(),
        ProposalStateView::parse(bytes)->Some_0.encoding() == bytes.subrange(
            0,
            ProposalState::LEN as int,
        ),
{
    let v = ProposalStateView::parse(bytes)->Some_0;
    lemma_u64_le_of_le_u64(bytes.subrange(0, 8));
    lemma_u64_le_of_le_u64(bytes.subrange(8, 16));
    lemma_u64_le_of_le_u64(bytes.subrange(348, 356));
    lemma_le_u64_range(bytes.subrange(0, 8));
    lemma_le_u64_range(bytes.subrange(8, 16));
    lemma_le_u64_range(bytes.subrange(348, 356));
    lemma_members_at(bytes, 18, 10);
    assert(v.encoding() =~= bytes.subrange(0, ProposalState::LEN as int));
}

/// A proposal record.
#[derive(Clone, Copy, Debug, PartialEq, Eq)]
pub struct ProposalState {
    /// What tells the proposal from others.
    pub proposal_id: u64,
    /// The time after which the proposal is dead.
    pub expiry: u64,
    /// How far the proposal has come.
    pub result: ProposalStatus,
    /// The bump the record's own address was derived with.
    pub bump: u8,
    /// The members that may vote.
    pub active_members: [Address; 10],
    /// One vote byte per member.
    pub votes: [u8; 10],
    /// When the proposal was made.
    pub created_time: u64,
}

impl View for ProposalState {
    type V = ProposalStateView;

    open spec fn view(&self) -> ProposalStateView {
        ProposalStateView {
            proposal_id: self.proposal_id,
            expiry: self.expiry,
            result: self.result,
            bump: self.bump,
            active_members: Seq::new(10, |i: int| self.active_members@[i]@),
            votes: self.votes@,
            created_time: self.created_time,
        }
    }
}

impl ProposalState {
    /// The size of a stored record in bytes.
    pub const LEN: usize = 8 + 8 + 1 + 1 + 32 * 10 + 10 + 8;

    /// Decodes the record at the start of an account's data. Data that is
    /// too short or holds no status byte is refused as invalid account data.
    pub fn from_account_info(account_info: &Account) -> (r: Result<ProposalState, MultisigError>)
        ensures
            match r {
                Ok(p) => ProposalStateView::parse(account_info.data@) == Some(p@),
                Err(e) => e == MultisigError::InvalidAccountData && ProposalStateView::parse(account_info.data@)
                    is None,
            },
    {
        let data = account_info.data.as_slice();
        if data.len() < Self::LEN {
            return Err(MultisigError::InvalidAccountData);
        }
        match ProposalStatus::try_from(&data[16]) {
            Ok(_) => Ok(Self::from_account_info_unchecked(account_info)),
            Err(_) => Err(MultisigError::InvalidAccountData),
        }
    }

    /// Decodes the record at the start of data that is known to hold one.
    #[verifier::rlimit(50)]
    pub fn from_account_info_unchecked(account_info: &Account) -> (p: ProposalState)
        requires
            ProposalStateView::parse(account_info.data@) is Some,
        ensures
            ProposalStateView::parse(account_info.data@) == Some(p@),
    {
        let data = account_info.data.as_slice();
        let result = match ProposalStatus::try_from(&data[16]) {
            Ok(status) => status,
            Err(_) => ProposalStatus::Draft,
        };
        let mut active_members = [empty_address(); 10];
        let mut i: usize = 0;
        while i < 10
            invariant
                data@ == account_info.data@,
                i <= 10,
                data.len() >= Self::LEN,
                forall|j: int| 0 <= j < i ==> (#[trigger] active_members@[j])@ == members_at(
                    data@,
                    18,
                    10,
                )[j],
            decreases 10 - i,
        {
            active_members[i] = read_address(data, 18 + 32 * i);
            i += 1;
        }
        let mut votes = [0u8; 10];
        let mut k: usize = 0;
        while k < 10
            invariant
                data@ == account_info.data@,
                k <= 10,
                data.len() >= Self::LEN,
                forall|j: int| 0 <= j < k ==> votes@[j] == data@[338 + j],
            decreases 10 - k,
        {
            votes[k] = data[338 + k];
            k += 1;
        }
        proof {
            assert(Seq::new(10, |i: int| active_members@[i]@) =~= members_at(data@, 18, 10));
            assert(votes@ =~= data@.subrange(338, 348));
            lemma_le_u64_range(data@.subrange(0, 8));
            lemma_le_u64_range(data@.subrange(8, 16));
            lemma_le_u64_range(data@.subrange(348, 356));
        }
        ProposalState {
            proposal_id: read_u64_le(data, 0),
            expiry: read_u64_le(data, 8),
            result,
            bump: data[17],
            active_members,
            votes,
            created_time: read_u64_le(data, 348),
        }
    }

    /// The bytes the record is stored as.
    #[verifier::rlimit(50)]
    pub fn to_bytes(&self) -> (out: Vec<u8>)
        ensures
            out@ == self@.encoding(),
            out@.len() == Self::LEN,
    {
        let mut out: Vec<u8> = Vec::with_capacity(Self::LEN);
        put_u64_le(&mut out, self.proposal_id);
        put_u64_le(&mut out, self.expiry);
        out.push(self.result.byte());
        out.push(self.bump);
        proof {
            lemma_u64_le_len(self.proposal_id);
            lemma_u64_le_len(self.expiry);
            lemma_u64_le_len(self.created_time);
        }
        let ghost head = out@;
        let mut i: usize = 0;
        while i < 10
            invariant
                i <= 10,
                head.len() == 18,
                out@ == head + member_bytes(self@.active_members.take(i as int)),
                out@.len() == 18 + 32 * i,
            decreases 10 - i,
        {
            put_bytes(&mut out, &self.active_members[i]);
            i += 1;
            proof {
                assert(self@.active_members.take(i as int).drop_last()
                    =~= self@.active_members.take(i - 1));
                assert(out@ =~= head + member_bytes(self@.active_members.take(i as int)));
            }
        }
        proof {
            assert(self@.active_members.take(10) =~= self@.active_members);
        }
        put_bytes(&mut out, &self.votes);
        put_u64_le(&mut out, self.created_time);
        proof {
            assert(out@ =~= self@.encoding());
        }
        out
    }
}

} // verus!
