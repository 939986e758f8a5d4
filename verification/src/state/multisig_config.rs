//! The group configuration record.

use vstd::prelude::*;
use crate::account::Account;
use crate::codec::{
    le_u64, lemma_le_u64_of_u64_le, lemma_le_u64_range, lemma_u64_le_len, lemma_u64_le_of_le_u64,
    put_u64_le, read_u64_le, u64_le,
};
use crate::error::MultisigError;

verus! {

/// The configuration of a group.
#[derive(Clone, Copy, Debug, PartialEq, Eq, Structural)]
pub struct MultisigConfig {
    /// How many approvals a transfer needs before it may be executed.
    pub min_threshold: u64,
    /// The latest expiry a proposal may ask for.
    pub max_expiry: u64,
    /// How many proposals the group has seen.
    pub proposal_count: u64,
    /// The bump the record's own address was derived with.
    pub bump: u8,
}

impl MultisigConfig {
    /// The size of a stored record in bytes.
    pub const LEN: usize = 8 + 8 + 8 + 1;

    /// The 25 bytes the record is stored as, field after field and without
    /// padding: threshold, latest expiry, proposal count (8 each,
    /// little-endian), bump (1).
    pub open spec fn encoding(self) -> Seq<u8> {
        u64_le(self.min_threshold) + u64_le(self.max_expiry) + u64_le(self.proposal_count)
            + seq![self.bump]
    }

    /// The record that `bytes` begin with, if they are long enough.
    pub open spec fn parse(bytes: Seq<u8>) -> Option<MultisigConfig> {
        if bytes.len() >= Self::LEN {
            Some(
                MultisigConfig {
                    min_threshold: le_u64(bytes.subrange(0, 8)) as u64,
                    max_expiry: le_u64(bytes.subrange(8, 16)) as u64,
                    proposal_count: le_u64(bytes.subrange(16, 24)) as u64,
                    bump: bytes[24],
                },
            )
        } else {
            None
        }
    }

    /// A stored record has 25 bytes and decodes to the record it stores,
    /// whatever bytes follow it.
    pub proof fn lemma_parse_encoding(self, rest: Seq<u8>)
        ensures
            self.encoding().len() == Self::LEN,
            Self::parse(self.encoding() + rest) == Some(self),
    {
        let bytes = self.encoding() + rest;
        lemma_le_u64_of_u64_le(self.min_threshold);
        lemma_le_u64_of_u64_le(self.max_expiry);
        lemma_le_u64_of_u64_le(self.proposal_count);
        assert(bytes.subrange(0, 8) =~= u64_le(self.min_threshold));
        assert(bytes.subrange(8, 16) =~= u64_le(self.max_expiry));
        assert(bytes.subrange(16, 24) =~= u64_le(self.proposal_count));
    }

    /// Bytes that decode to a record begin with that record's encoding.
    pub proof fn lemma_encoding_parse(bytes: Seq<u8>)
        requires
            Self::parse(bytes) is Some,
        ensures
            Self::parse(bytes)->Some_0.encoding() == bytes.subrange(0, Self::LEN as int),
    {
        lemma_u64_le_of_le_u64(bytes.subrange(0, 8));
        lemma_u64_le_of_le_u64(bytes.subrange(8, 16));
        lemma_u64_le_of_le_u64(bytes.subrange(16, 24));
        lemma_le_u64_range(bytes.subrange(0, 8));
        lemma_le_u64_range(bytes.subrange(8, 16));
        lemma_le_u64_range(bytes.subrange(16, 24));
        assert(Self::parse(bytes)->Some_0.encoding() =~= bytes.subrange(0, Self::LEN as int));
    }

    /// Decodes the record at the start of an account's data. Data that is
    /// too short is refused as invalid account data.
    pub fn from_account_info(account_info: &Account) -> (r: Result<MultisigConfig, MultisigError>)
        ensures
            match r {
                Ok(c) => Self::parse(account_info.data@) == Some(c),
                Err(e) => e == MultisigError::InvalidAccountData && Self::parse(account_info.data@) is None,
            },
    {
        let data = account_info.data.as_slice();
        if data.len() < Self::LEN {
            return Err(MultisigError::InvalidAccountData);
        }
        Ok(Self::from_account_info_unchecked(account_info))
    }

    /// Decodes the record at the start of data that is known to hold one.
    pub fn from_account_info_unchecked(account_info: &Account) -> (c: MultisigConfig)
        requires
            Self::parse(account_info.data@) is Some,
        ensures
            Self::parse(account_info.data@) == Some(c),
    {
        let data = account_info.data.as_slice();
        proof {
            lemma_le_u64_range(data@.subrange(0, 8));
            lemma_le_u64_range(data@.subrange(8, 16));
            lemma_le_u64_range(data@.subrange(16, 24));
        }
        MultisigConfig {
            min_threshold: read_u64_le(data, 0),
            max_expiry: read_u64_le(data, 8),
            proposal_count: read_u64_le(data, 16),
            bump: data[24],
        }
    }

    /// The bytes the record is stored as.
    pub fn to_bytes(&self) -> (out: Vec<u8>)
        ensures
            out@ == self.encoding(),
            out@.len() == Self::LEN,
    {
        let mut out: Vec<u8> = Vec::with_capacity(Self::LEN);
        put_u64_le(&mut out, self.min_threshold);
        put_u64_le(&mut out, self.max_expiry);
        put_u64_le(&mut out, self.proposal_count);
        out.push(self.bump);
        proof {
            lemma_u64_le_len(self.min_threshold);
            lemma_u64_le_len(self.max_expiry);
            lemma_u64_le_len(self.proposal_count);
            assert(out@ =~= self.encoding());
        }
        out
    }
}

} // verus!
