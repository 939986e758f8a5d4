//! Proposing a transfer.

use vstd::prelude::*;
use crate::account::Account;
use crate::address::{address_eq, read_address, Address};
use crate::codec::{le_u64, lemma_le_u64_range, read_u64_le};
use crate::error::MultisigError;
use crate::instructions::{DerivedAddresses, NewAccount};
use crate::seeds::{is_derived, verify_address};
use crate::state::transaction::{Transaction, TransactionView};

verus! {

/// The mathematical content of the payload that proposes a transfer.
pub struct InitTransactionArgsView {
    pub bump: u8,
    pub index: u64,
    pub lamports: u64,
    pub expiry: u64,
    pub receiver: Seq<u8>,
}

/// The payload that proposes a transfer: the bump of the transfer's address,
/// its sequence index, the amount, the expiry and the receiver.
#[derive(Clone, Copy, Debug, PartialEq, Eq)]
pub struct InitTransactionArgs {
    pub bump: u8,
    pub index: u64,
    pub lamports: u64,
    pub expiry: u64,
    pub receiver: Address,
}

impl View for InitTransactionArgs {
    type V = InitTransactionArgsView;

    open spec fn view(&self) -> InitTransactionArgsView {
        InitTransactionArgsView {
            bump: self.bump,
            index: self.index,
            lamports: self.lamports,
            expiry: self.expiry,
            receiver: self.receiver@,
        }
    }
}

impl InitTransactionArgs {
    /// The size of the payload in bytes.
    pub const LEN: usize = 1 + 8 + 8 + 8 + 32;

    /// What the 57 bytes `[bump:1][index:8][amount:8][expiry:8][receiver:32]`
    /// decode to, the integers little-endian. A shorter payload is invalid
    /// instruction data; bytes after the receiver are not read.
    pub open spec fn decode(data: Seq<u8>) -> Result<InitTransactionArgsView, MultisigError> {
        if data.len() < Self::LEN {
            Err(MultisigError::InvalidInstructionData)
        } else {
            Ok(
                InitTransactionArgsView {
                    bump: data[0],
                    index: le_u64(data.subrange(1, 9)) as u64,
                    lamports: le_u64(data.subrange(9, 17)) as u64,
                    expiry: le_u64(data.subrange(17, 25)) as u64,
                    receiver: data.subrange(25, 57),
                },
            )
        }
    }

    /// Decodes the payload that proposes a transfer.
    pub fn parse(data: &[u8]) -> (r: Result<InitTransactionArgs, MultisigError>)
        ensures
            match r {
                Ok(args) => Self::decode(data@) == Ok::<InitTransactionArgsView, MultisigError>(
                    args@,
                ),
                Err(e) => Self::decode(data@) == Err::<InitTransactionArgsView, MultisigError>(e),
            },
    {
        if data.len() < Self::LEN {
            return Err(MultisigError::InvalidInstructionData);
        }
        proof {
            lemma_le_u64_range(data@.subrange(1, 9));
            lemma_le_u64_range(data@.subrange(9, 17));
            lemma_le_u64_range(data@.subrange(17, 25));
        }
        Ok(
            InitTransactionArgs {
                bump: data[0],
                index: read_u64_le(data, 1),
                lamports: read_u64_le(data, 9),
                expiry: read_u64_le(data, 17),
                receiver: read_address(data, 25),
            },
        )
    }
}

/// The record of a transfer as it is proposed: no approvals, not executed.
pub open spec fn proposed(proposer: Seq<u8>, args: InitTransactionArgsView) -> TransactionView {
    TransactionView {
        index: args.index,
        proposer,
        approvals: Seq::new(10, |i: int| false),
        num_approvals: 0,
        executed: false,
        expiry: args.expiry,
        receiver: args.receiver,
        lamports: args.lamports,
        bump: args.bump,
    }
}

/// What proposing a transfer comes to.
///
/// The accounts are, in order, the proposer, the group and the transfer
/// account to create. The checks are made in this order, and the first that
/// fails decides the error: fewer than three accounts; a transfer account
/// that this program already owns; a payload that is too short; a transfer
/// address that the host did not derive. Otherwise the outcome is the
/// transfer account to create: paid for by the proposer, owned by this
/// program, of the size of a transfer record, and holding the proposed
/// record.
pub open spec fn init_transaction_outcome(
    id: Address,
    accounts: Seq<Account>,
    data: Seq<u8>,
    derived: DerivedAddresses,
) -> Result<NewAccount<TransactionView>, MultisigError> {
    if accounts.len() < 3 {
        Err(MultisigError::NotEnoughAccountKeys)
    } else if accounts[2].owner == id {
        Err(MultisigError::AccountAlreadyInitialized)
    } else {
        match InitTransactionArgs::decode(data) {
            Err(e) => Err(e),
            Ok(args) => if is_derived(accounts[2].key@, derived.transaction) {
                Ok(
                    NewAccount {
                        payer: accounts[0].key,
                        address: accounts[2].key,
                        owner: id,
                        space: Transaction::LEN,
                        record: proposed(accounts[0].key@, args),
                    },
                )
            } else {
                Err(MultisigError::AddressMismatch)
            },
        }
    }
}

/// A transfer account that this program already owns is never proposed
/// again: the call is refused as already initialised, whatever the payload
/// and whatever the host derived.
pub proof fn lemma_owned_transfer_is_not_proposed(
    id: Address,
    accounts: Seq<Account>,
    data: Seq<u8>,
    derived: DerivedAddresses,
)
    requires
        accounts.len() >= 3,
        accounts[2].owner == id,
    ensures
        init_transaction_outcome(id, accounts, data, derived) == Err::<
            NewAccount<TransactionView>,
            MultisigError,
        >(MultisigError::AccountAlreadyInitialized),
{
}

/// Proposes a transfer: checks the call and returns the account to create
/// for the transfer record.
///
/// `id` is this program's own identity. `derived` holds what the host
/// derived from the seeds of the transfer: below the group and the sequence
/// index of the payload, with the bump of the payload. Nothing is created
/// unless every check has passed.
pub fn process_init_transaction_instruction(
    id: &Address,
    accounts: &[Account],
    data: &[u8],
    derived: &DerivedAddresses,
) -> (r: Result<NewAccount<Transaction>, MultisigError>)
    ensures
        match r {
            Ok(created) => init_transaction_outcome(*id, accounts@, data@, *derived)
                == Ok::<NewAccount<TransactionView>, MultisigError>(created@)
                && created.record@.wf(),
            Err(e) => init_transaction_outcome(*id, accounts@, data@, *derived) == Err::<
                NewAccount<TransactionView>,
                MultisigError,
            >(e),
        },
{
    if accounts.len() < 3 {
        return Err(MultisigError::NotEnoughAccountKeys);
    }
    let proposer = &accounts[0];
    let transaction_account = &accounts[2];
    if address_eq(&transaction_account.owner, id) {
        return Err(MultisigError::AccountAlreadyInitialized);
    }
    let args = match InitTransactionArgs::parse(data) {
        Ok(args) => args,
        Err(e) => {
            return Err(e);
        },
    };
    if verify_address(&transaction_account.key, &derived.transaction).is_err() {
        return Err(MultisigError::AddressMismatch);
    }
    let record = Transaction::new(
        args.index,
        proposer.key,
        args.expiry,
        args.receiver,
        args.lamports,
        args.bump,
    );
    Ok(
        NewAccount {
            payer: proposer.key,
            address: transaction_account.key,
            owner: *id,
            space: Transaction::LEN,
            record,
        },
    )
}

} // verus!
