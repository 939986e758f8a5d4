//! The typed failures an operation can end in.

use vstd::prelude::*;

verus! {

/// Why an operation was refused. Every failure aborts the whole operation:
/// nothing is created, stored or moved.
#[derive(Clone, Copy, Debug, PartialEq, Eq, Structural)]
pub enum MultisigError {
    /// Fewer accounts were supplied than the operation's positional list needs.
    NotEnoughAccountKeys,
    /// The opcode is unknown, or the payload is shorter than its fixed layout.
    InvalidInstructionData,
    /// The instruction data is empty, a member count is out of range, a
    /// supplied member is the sentinel identity, or an account's bytes are
    /// too short or do not hold a valid record.
    InvalidAccountData,
    /// A member slot lies outside the approval flags.
    InvalidArgument,
    /// The call was addressed to another program.
    IncorrectProgramId,
    /// A record's account is not owned by this program.
    InvalidAccountOwner,
    /// The address derived for an account differs from the address supplied.
    AddressMismatch,
    /// The account to create is already owned by this program.
    AccountAlreadyInitialized,
    /// The approving member did not authorise the call.
    MissingRequiredSignature,
    /// The caller is not the member registered at the slot it named.
    AuthorizationMismatch,
    /// The transfer was already executed.
    AlreadyExecuted,
    /// The transfer's expiry has passed.
    Expired,
    /// The transfer has fewer approvals than the group's threshold.
    QuorumNotReached,
}

} // verus!
