//! The vote record.

use vstd::prelude::*;
use crate::account::Account;
use crate::codec::{
    flag_byte, is_flag_byte, le_u64, lemma_le_u64_of_u64_le, lemma_le_u64_range, lemma_u64_le_len,
    lemma_u64_le_of_le_u64, put_flag, put_u64_le, read_u64_le, u64_le,
};
use crate::error::MultisigError;

verus! {

/// What an account may do in votes, and how often it did.
#[derive(Clone, Copy, Debug, PartialEq, Eq, Structural)]
pub struct VoteState {
    /// Whether the account may vote.
    pub has_permission: bool,
    /// The vote counter.
    pub vote_count: u64,
    /// The bump the record's own address was derived with.
    pub bump: u8,
}

impl VoteState {
    /// The size of a stored record in bytes.
    pub const LEN: usize = 1 + 8 + 1;

    /// The 10 bytes the record is stored as, field after field and without
    /// padding: permission flag (1), vote counter (8, little-endian), bump (1).
    pub open spec fn encoding(self) -> Seq<u8> {
        seq![flag_byte(self.has_permission)] + u64_le(self.vote_count) + seq![self.bump]
    }

    /// The record that `bytes` begin with, if they are long enough and the
    /// flag byte is 0 or 1.
    pub open spec fn parse(bytes: Seq<u8>) -> Option<VoteState> {
        if bytes.len() >= Self::LEN && is_flag_byte(bytes[0]) {
            Some(
                VoteState {
                    has_permission: bytes[0] == 1u8,
                    vote_count: le_u64(bytes.subrange(1, 9)) as u64,
                    bump: bytes[9],
                },
            )
        } else {
            None
        }
    }

    /// A stored record has 10 bytes and decodes to the record it stores,
    /// whatever bytes follow it.
    pub proof fn lemma_parse_encoding(self, rest: Seq<u8>)
        ensures
            self.encoding().len() == Self::LEN,
            Self::parse(self.encoding() + rest) == Some(self),
    {
        let bytes = self.encoding() + rest;
        lemma_le_u64_of_u64_le(self.vote_count);
        assert(bytes.subrange(1, 9) =~= u64_le(self.vote_count));
    }

    /// Bytes that decode to a record begin with that record's encoding.
    pub proof fn lemma_encoding_parse(bytes: Seq<u8>)
        requires
            Self::parse(bytes) is Some,
        ensures
            Self::parse(bytes)->Some_0.encoding() == bytes.subrange(0, Self::LEN as int),
    {
        lemma_u64_le_of_le_u64(bytes.subrange(1, 9));
        lemma_le_u64_range(bytes.subrange(1, 9));
        assert(Self::parse(bytes)->Some_0.encoding() =~= bytes.subrange(0, Self::LEN as int));
    }

    /// Decodes the record at the start of an account's data. Data that is
    /// too short, or whose flag byte is neither 0 nor 1, is refused as
    /// invalid account data.
    pub fn from_account_info(account_info: &Account) -> (r: Result<VoteState, MultisigError>)
        ensures
            match r {
                Ok(v) => Self::parse(account_info.data@) == Some(v),
                Err(e) => e == MultisigError::InvalidAccountData && Self::parse(account_info.data@) is None,
            },
    {
        let data = account_info.data.as_slice();
        if data.len() < Self::LEN || data[0] > 1 {
            return Err(MultisigError::InvalidAccountData);
        }
        Ok(Self::from_account_info_unchecked(account_info))
    }

    /// Decodes the record at the start of data that is known to hold one.
    pub fn from_account_info_unchecked(account_info: &Account) -> (v: VoteState)
        requires
            Self::parse(account_info.data@) is Some,
        ensures
            Self::parse(account_info.data@) == Some(v),
    {
        let data = account_info.data.as_slice();
        proof {
            lemma_le_u64_range(data@.subrange(1, 9));
        }
        VoteState { has_permission: data[0] == 1, vote_count: read_u64_le(data, 1), bump: data[9] }
    }

    /// The bytes the record is stored as.
    pub fn to_bytes(&self) -> (out: Vec<u8>)
        ensures
            out@ == self.encoding(),
            out@.len() == Self::LEN,
    {
        let mut out: Vec<u8> = Vec::with_capacity(Self::LEN);
        put_flag(&mut out, self.has_permission);
        put_u64_le(&mut out, self.vote_count);
        out.push(self.bump);
        proof {
            lemma_u64_le_len(self.vote_count);
            assert(out@ =~= self.encoding());
        }
        out
    }
}

} // verus!
