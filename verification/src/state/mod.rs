//! The records the program keeps in accounts it owns.

pub mod multisig;
pub mod multisig_config;
pub mod proposal;
pub mod transaction;
pub mod vote;

pub use multisig::{Multisig, MultisigView};
pub use multisig_config::MultisigConfig;
pub use proposal::{ProposalState, ProposalStateView, ProposalStatus};
pub use transaction::{Transaction, TransactionEvent, TransactionView};
pub use vote::VoteState;
