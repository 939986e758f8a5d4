//! The operations of the program: what each one checks, in which order, and
//! what it asks the host to do.
//!
//! An operation reads the accounts and the payload of a call, the addresses
//! the host derived for it and, where time matters, the host's clock. It
//! either fails with one typed error, or returns what is to be created,
//! stored or moved. It validates everything before it returns anything, so a
//! failed call leaves no trace.

pub mod approve;
pub mod close;
pub mod init_multisig;
pub mod init_transaction;
pub mod plan;

pub use approve::process_approve_instruction;
pub use close::{process_close_proposal_instruction, Settlement, SettlementView};
pub use init_multisig::{process_init_multisig_instruction, InitMultisigArgs};
pub use init_transaction::{process_init_transaction_instruction, InitTransactionArgs};
pub use plan::{SeedPlan, SeedPlanView};

use vstd::prelude::*;
use crate::address::Address;
use crate::error::MultisigError;

verus! {

/// The operation that the leading byte of the instruction data selects.
#[derive(Clone, Copy, Debug, PartialEq, Eq, Structural)]
pub enum MultisigInstructions {
    /// Opcode 0: found a group.
    InitMultisig,
    /// Opcode 1: change a group.
    UpdateMultisig,
    /// Opcode 2: propose a transfer.
    CreateProposal,
    /// Opcode 3: approve a transfer.
    Vote,
    /// Opcode 4: execute a transfer that reached quorum, or close one that
    /// died.
    CloseProposal,
}

impl MultisigInstructions {
    /// The operation that an opcode selects. Opcodes above 4 select none.
    pub open spec fn of_opcode(opcode: u8) -> Option<MultisigInstructions> {
        if opcode == 0 {
            Some(MultisigInstructions::InitMultisig)
        } else if opcode == 1 {
            Some(MultisigInstructions::UpdateMultisig)
        } else if opcode == 2 {
            Some(MultisigInstructions::CreateProposal)
        } else if opcode == 3 {
            Some(MultisigInstructions::Vote)
        } else if opcode == 4 {
            Some(MultisigInstructions::CloseProposal)
        } else {
            None
        }
    }

    /// The opcode that selects the operation.
    pub fn opcode(self) -> (opcode: u8)
        ensures
            Self::of_opcode(opcode) == Some(self),
    {
        match self {
            MultisigInstructions::InitMultisig => 0,
            MultisigInstructions::UpdateMultisig => 1,
            MultisigInstructions::CreateProposal => 2,
            MultisigInstructions::Vote => 3,
            MultisigInstructions::CloseProposal => 4,
        }
    }
}

impl<'a> TryFrom<&'a u8> for MultisigInstructions {
    type Error = MultisigError;

    fn try_from(value: &'a u8) -> (r: Result<Self, Self::Error>) {
        match *value {
            0 => Ok(MultisigInstructions::InitMultisig),
            1 => Ok(MultisigInstructions::UpdateMultisig),
            2 => Ok(MultisigInstructions::CreateProposal),
            3 => Ok(MultisigInstructions::Vote),
            4 => Ok(MultisigInstructions::CloseProposal),
            _ => Err(MultisigError::InvalidInstructionData),
        }
    }
}

impl<'a> vstd::std_specs::convert::TryFromSpecImpl<&'a u8> for MultisigInstructions {
    open spec fn obeys_try_from_spec() -> bool {
        true
    }

    open spec fn try_from_spec(value: &'a u8) -> Result<Self, Self::Error> {
        match Self::of_opcode(*value) {
            Some(instruction) => Ok(instruction),
            None => Err(MultisigError::InvalidInstructionData),
        }
    }
}

/// The addresses the host derived for a call, each from the seeds that the
/// program names for it. `None` stands for a derivation that the host
/// refused. An operation reads only the entries it needs.
#[derive(Clone, Copy, Debug, PartialEq, Eq)]
pub struct DerivedAddresses {
    /// From the seeds of the group record.
    pub multisig: Option<Address>,
    /// From the seeds of the group's configuration record.
    pub multisig_config: Option<Address>,
    /// From the seeds of the group's treasury.
    pub treasury: Option<Address>,
    /// From the seeds of the transfer record.
    pub transaction: Option<Address>,
}

/// An account for the host to create: `space` bytes at `address`, owned by
/// `owner`, funded by `payer` with the least balance that exempts it from
/// rent, and filled with the bytes of `record`.
#[derive(Clone, Copy, Debug, PartialEq, Eq)]
pub struct NewAccount<R> {
    pub payer: Address,
    pub address: Address,
    pub owner: Address,
    pub space: usize,
    pub record: R,
}

impl<R: View> View for NewAccount<R> {
    type V = NewAccount<R::V>;

    open spec fn view(&self) -> NewAccount<R::V> {
        NewAccount {
            payer: self.payer,
            address: self.address,
            owner: self.owner,
            space: self.space,
            record: self.record@,
        }
    }
}

} // verus!
