//! Approving a transfer.

use vstd::prelude::*;
use crate::account::Account;
use crate::address::{address_eq, Address};
use crate::error::MultisigError;
use crate::instructions::DerivedAddresses;
use crate::seeds::{is_derived, verify_address};
use crate::state::multisig::{Multisig, MultisigView};
use crate::state::transaction::{
    lemma_approve_effect, lemma_tally_below, Transaction, TransactionEvent, TransactionView,
    MAX_MEMBERS,
};

verus! {

/// What the approval of a transfer by `member` for `slot` comes to at time
/// `now`, by the state of the group and of the transfer alone.
///
/// The checks are made in this order, and the first that fails decides the
/// error: the transfer was executed; its expiry has passed; the slot is not
/// held in the group; the slot is held by somebody else; the member did not
/// authorise the call. Otherwise the outcome is the record with the slot's
/// approval registered.
pub open spec fn member_approval(
    group: MultisigView,
    transfer: TransactionView,
    member: Seq<u8>,
    authorised: bool,
    slot: int,
    now: u64,
) -> Result<TransactionView, MultisigError> {
    if transfer.executed {
        Err(MultisigError::AlreadyExecuted)
    } else if transfer.is_expired(now) {
        Err(MultisigError::Expired)
    } else if slot < 0 || slot >= group.num_members {
        Err(MultisigError::InvalidArgument)
    } else if group.members[slot] != member {
        Err(MultisigError::AuthorizationMismatch)
    } else if !authorised {
        Err(MultisigError::MissingRequiredSignature)
    } else {
        Ok(transfer.approve(slot))
    }
}

/// Whether every approval of `transfer` belongs to a slot that is held in
/// `group`.
pub open spec fn approvals_within(group: MultisigView, transfer: TransactionView) -> bool {
    forall|i: int| 0 <= i < MAX_MEMBERS && #[trigger] transfer.approvals[i] ==> i < group.num_members
}

/// An accepted approval is the registered approval of a held slot by its
/// own member, on a transfer that is neither executed nor expired.
pub proof fn lemma_member_approval_accepts(
    group: MultisigView,
    transfer: TransactionView,
    member: Seq<u8>,
    authorised: bool,
    slot: int,
    now: u64,
)
    ensures
        member_approval(group, transfer, member, authorised, slot, now) is Ok <==> {
            &&& !transfer.executed
            &&& now <= transfer.expiry
            &&& group.is_member_at(slot, member)
            &&& authorised
        },
        member_approval(group, transfer, member, authorised, slot, now) matches Ok(next)
            ==> next == transfer.approve(slot),
{
}

/// An approval that was accepted is accepted again for as long as the
/// transfer has not expired, and changes nothing the second time: the flag
/// and the count match a single approval.
pub proof fn lemma_member_approval_idempotent(
    group: MultisigView,
    transfer: TransactionView,
    member: Seq<u8>,
    authorised: bool,
    slot: int,
    now: u64,
    later: u64,
)
    requires
        group.wf(),
        transfer.wf(),
        member_approval(group, transfer, member, authorised, slot, now) is Ok,
        later <= transfer.expiry,
    ensures
        member_approval(
            group,
            member_approval(group, transfer, member, authorised, slot, now)->Ok_0,
            member,
            authorised,
            slot,
            later,
        ) == member_approval(group, transfer, member, authorised, slot, now),
{
}

/// A refused approval names its reason: a caller who is not the member at a
/// held slot is refused for the mismatch, and an executed transfer refuses
/// everybody as a replay.
pub proof fn lemma_member_approval_refuses(
    group: MultisigView,
    transfer: TransactionView,
    member: Seq<u8>,
    authorised: bool,
    slot: int,
    now: u64,
)
    ensures
        transfer.executed ==> member_approval(group, transfer, member, authorised, slot, now)
            == Err::<TransactionView, MultisigError>(MultisigError::AlreadyExecuted),
        !transfer.executed && now <= transfer.expiry && 0 <= slot < group.num_members
            && group.members[slot] != member ==> member_approval(
            group,
            transfer,
            member,
            authorised,
            slot,
            now,
        ) == Err::<TransactionView, MultisigError>(MultisigError::AuthorizationMismatch),
{
}

/// Approvals stay within the held slots of the group, so a transfer never
/// counts more approvals than the group has members.
pub proof fn lemma_member_approval_within(
    group: MultisigView,
    transfer: TransactionView,
    member: Seq<u8>,
    authorised: bool,
    slot: int,
    now: u64,
)
    requires
        group.wf(),
        transfer.wf(),
        approvals_within(group, transfer),
    ensures
        transfer.num_approvals <= group.num_members,
        member_approval(group, transfer, member, authorised, slot, now) matches Ok(next) ==> {
            &&& next.wf()
            &&& approvals_within(group, next)
            &&& next.num_approvals <= group.num_members
        },
{
    lemma_tally_below(transfer.approvals, group.num_members as nat);
    if member_approval(group, transfer, member, authorised, slot, now) is Ok {
        let next = transfer.approve(slot);
        lemma_approve_effect(transfer, slot);
        lemma_tally_below(next.approvals, group.num_members as nat);
    }
}

/// What approving a transfer comes to.
///
/// The accounts are, in order, the approving member, the group and the
/// transfer. The payload is one byte, the member's slot. The checks are made
/// in this order, and the first that fails decides the error: fewer than
/// three accounts; an empty payload; a group or transfer account that this
/// program does not own; bytes that hold no group record, or no transfer
/// record; an address of the group or of the transfer that the host did not
/// derive; then the checks of [`member_approval`]. Otherwise the outcome is
/// the transfer record to store.
pub open spec fn approve_outcome(
    id: Address,
    accounts: Seq<Account>,
    data: Seq<u8>,
    derived: DerivedAddresses,
    now: u64,
) -> Result<TransactionView, MultisigError> {
    if accounts.len() < 3 {
        Err(MultisigError::NotEnoughAccountKeys)
    } else if data.len() < 1 {
        Err(MultisigError::InvalidInstructionData)
    } else if accounts[1].owner != id || accounts[2].owner != id {
        Err(MultisigError::InvalidAccountOwner)
    } else if MultisigView::parse(accounts[1].data@) is None || TransactionView::parse(
        accounts[2].data@,
    ) is None {
        Err(MultisigError::InvalidAccountData)
    } else if !is_derived(accounts[1].key@, derived.multisig) || !is_derived(
        accounts[2].key@,
        derived.transaction,
    ) {
        Err(MultisigError::AddressMismatch)
    } else {
        member_approval(
            MultisigView::parse(accounts[1].data@)->Some_0,
            TransactionView::parse(accounts[2].data@)->Some_0,
            accounts[0].key@,
            accounts[0].is_signer,
            data[0] as int,
            now,
        )
    }
}

/// An accepted approval found the stored transfer unexecuted and unexpired,
/// was made by the member at the slot it names, and returns the stored
/// record with that slot's approval registered and nothing else changed. A
/// stored transfer that is executed is therefore never changed by an
/// approval.
pub proof fn lemma_approve_accepts(
    id: Address,
    accounts: Seq<Account>,
    data: Seq<u8>,
    derived: DerivedAddresses,
    now: u64,
)
    requires
        approve_outcome(id, accounts, data, derived, now) is Ok,
    ensures
        ({
            let group = MultisigView::parse(accounts[1].data@)->Some_0;
            let stored = TransactionView::parse(accounts[2].data@)->Some_0;
            let record = approve_outcome(id, accounts, data, derived, now)->Ok_0;
            &&& !stored.executed
            &&& now <= stored.expiry
            &&& group.is_member_at(data[0] as int, accounts[0].key@)
            &&& accounts[0].is_signer
            &&& record == stored.approve(data[0] as int)
            &&& record.wf()
            &&& !record.executed
        }),
{
    crate::state::multisig::lemma_encoding_parse(accounts[1].data@);
    crate::state::transaction::lemma_encoding_parse(accounts[2].data@);
    lemma_approve_effect(TransactionView::parse(accounts[2].data@)->Some_0, data[0] as int);
}

/// An accepted approval is one approval event on the stored record, so
/// what holds after every run of events holds after every run of accepted
/// calls.
pub proof fn lemma_approve_is_event(
    id: Address,
    accounts: Seq<Account>,
    data: Seq<u8>,
    derived: DerivedAddresses,
    now: u64,
    threshold: u64,
)
    requires
        approve_outcome(id, accounts, data, derived, now) is Ok,
    ensures
        approve_outcome(id, accounts, data, derived, now)->Ok_0 == TransactionView::parse(
            accounts[2].data@,
        )->Some_0.after(threshold, TransactionEvent::Approve { slot: data[0] as int }),
{
    crate::state::multisig::lemma_encoding_parse(accounts[1].data@);
}

/// Approves a transfer: checks the call and returns the transfer record to
/// store in the transfer account.
///
/// `id` is this program's own identity. `derived` holds what the host
/// derived from the seeds of the group (below the creator that the group
/// record names, with the record's bump) and of the transfer (below the
/// group and the index that the transfer record names, with the record's
/// bump). `now` is the host's clock. Both records are decoded afresh from the
/// accounts handed in. A refused call returns no record, so nothing is
/// stored.
pub fn process_approve_instruction(
    id: &Address,
    accounts: &[Account],
    data: &[u8],
    derived: &DerivedAddresses,
    now: u64,
) -> (r: Result<Transaction, MultisigError>)
    ensures
        match r {
            Ok(record) => approve_outcome(*id, accounts@, data@, *derived, now) == Ok::<
                TransactionView,
                MultisigError,
            >(record@) && record@.wf(),
            Err(e) => approve_outcome(*id, accounts@, data@, *derived, now) == Err::<
                TransactionView,
                MultisigError,
            >(e),
        },
{
    if accounts.len() < 3 {
        return Err(MultisigError::NotEnoughAccountKeys);
    }
    if data.len() < 1 {
        return Err(MultisigError::InvalidInstructionData);
    }
    let member = &accounts[0];
    let multisig = &accounts[1];
    let transaction_account = &accounts[2];
    if !address_eq(&multisig.owner, id) || !address_eq(
        &transaction_account.owner,
        id,
    ) {
        return Err(MultisigError::InvalidAccountOwner);
    }
    let group = match Multisig::from_account_info(multisig) {
        Ok(group) => group,
        Err(e) => {
            return Err(e);
        },
    };
    let mut transfer = match Transaction::from_account_info(transaction_account) {
        Ok(transfer) => transfer,
        Err(e) => {
            return Err(e);
        },
    };
    if verify_address(&multisig.key, &derived.multisig).is_err() {
        return Err(MultisigError::AddressMismatch);
    }
    if verify_address(&transaction_account.key, &derived.transaction).is_err() {
        return Err(MultisigError::AddressMismatch);
    }
    let slot = data[0] as usize;
    if transfer.executed() {
        return Err(MultisigError::AlreadyExecuted);
    }
    if transfer.is_expired(now) {
        return Err(MultisigError::Expired);
    }
    if slot >= group.num_members() as usize {
        return Err(MultisigError::InvalidArgument);
    }
    if !group.is_member_at(slot, &member.key) {
        return Err(MultisigError::AuthorizationMismatch);
    }
    if !member.is_signer {
        return Err(MultisigError::MissingRequiredSignature);
    }
    match transfer.approve(slot) {
        Ok(()) => Ok(transfer),
        Err(e) => Err(e),
    }
}

} // verus!
