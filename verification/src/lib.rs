//! A multi-party wallet: members of a group jointly authorise transfers out of
//! a shared account by reaching a quorum of approvals.
//!
//! The library decides; the host acts. Every operation takes the accounts
//! and the payload of a call as plain values, together with what only the
//! host can supply: the addresses it derived and its clock. It returns
//! either one typed error or what is to be created, stored or moved.

pub mod account;
pub mod address;
pub mod codec;
pub mod error;
pub mod instructions;
pub mod processor;
pub mod seeds;
pub mod state;

pub use account::Account;
pub use address::Address;
pub use error::MultisigError;
pub use instructions::{
    process_approve_instruction, process_close_proposal_instruction,
    process_init_multisig_instruction, process_init_transaction_instruction, DerivedAddresses,
    MultisigInstructions, NewAccount, SeedPlan, Settlement,
};
pub use processor::{derivation_plan, process_instruction, route_instruction, Outcome};
pub use state::{
    Multisig, MultisigConfig, ProposalState, ProposalStatus, Transaction, VoteState,
};
