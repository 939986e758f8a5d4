//! Settling a transfer: executing one that reached quorum, or closing one
//! that died.
//!
//! The quorum threshold of a group is the `min_threshold` of the group's
//! configuration record: the record stored in the account whose address is
//! derived below the group with the tag `multisig_config`. It is read from
//! that account on every call. No operation here creates or changes that
//! record.

use vstd::prelude::*;
use crate::account::Account;
use crate::address::{address_eq, Address};
use crate::error::MultisigError;
use crate::instructions::DerivedAddresses;
use crate::seeds::{is_derived, verify_address};
use crate::state::multisig::{Multisig, MultisigView};
use crate::state::multisig_config::MultisigConfig;
use crate::state::transaction::{Transaction, TransactionEvent, TransactionView};

verus! {

/// How a transfer was settled, and what the host is to do about it.
#[derive(Clone, Copy, Debug, PartialEq, Eq)]
pub enum Settlement {
    /// The transfer is executed: the host moves `lamports` from the treasury
    /// `from` to the receiver `to` and, if that succeeded, stores `record` in
    /// the transfer account `account`. If the movement fails nothing is
    /// stored, and the transfer stays unexecuted.
    Executed { record: Transaction, account: Address, from: Address, to: Address, lamports: u64 },
    /// The proposal is dead: the host closes the transfer account `account`
    /// and refunds its balance to the proposer `refund_to`. No value leaves
    /// the treasury.
    Closed { account: Address, refund_to: Address },
}

/// The mathematical content of a [`Settlement`].
pub enum SettlementView {
    Executed { record: TransactionView, account: Address, from: Address, to: Address, lamports: u64 },
    Closed { account: Address, refund_to: Address },
}

impl View for Settlement {
    type V = SettlementView;

    open spec fn view(&self) -> SettlementView {
        match *self {
            Settlement::Executed { record, account, from, to, lamports } => SettlementView::Executed {
                record: record@,
                account,
                from,
                to,
                lamports,
            },
            Settlement::Closed { account, refund_to } => SettlementView::Closed {
                account,
                refund_to,
            },
        }
    }
}

/// What settling `transfer` comes to at time `now` under `threshold`, by the
/// state of the transfer alone: `Ok(None)` for a proposal to close,
/// `Ok(Some(record))` for a transfer to execute, with the record to store.
///
/// An executed transfer refuses to be settled again. A proposal that has
/// expired short of quorum is closed. Every other transfer is executed if it
/// can be: refused after expiry, refused below quorum.
pub open spec fn settlement(transfer: TransactionView, threshold: u64, now: u64) -> Result<
    Option<TransactionView>,
    MultisigError,
> {
    if transfer.executed {
        Err(MultisigError::AlreadyExecuted)
    } else if transfer.closable(threshold, now) {
        Ok(None)
    } else {
        match transfer.execute_outcome(threshold, now) {
            Ok(record) => Ok(Some(record)),
            Err(e) => Err(e),
        }
    }
}

/// A settlement says exactly what the state of the transfer allows: it
/// executes only a transfer with quorum before expiry, closes only an
/// unexecuted proposal that expired short of quorum, refuses an executed
/// transfer as a replay, and otherwise names what is missing.
pub proof fn lemma_settlement_cases(transfer: TransactionView, threshold: u64, now: u64)
    ensures
        settlement(transfer, threshold, now) matches Ok(Some(record)) ==> {
            &&& !transfer.executed
            &&& transfer.num_approvals >= threshold
            &&& now <= transfer.expiry
            &&& record == TransactionView { executed: true, ..transfer }
        },
        settlement(transfer, threshold, now) == Ok::<Option<TransactionView>, MultisigError>(None)
            <==> !transfer.executed && now > transfer.expiry && transfer.num_approvals
            < threshold,
        settlement(transfer, threshold, now) is Ok <==> !transfer.executed && ((now
            <= transfer.expiry) == (transfer.num_approvals >= threshold)),
        transfer.executed ==> settlement(transfer, threshold, now) == Err::<
            Option<TransactionView>,
            MultisigError,
        >(MultisigError::AlreadyExecuted),
        !transfer.executed && now <= transfer.expiry && transfer.num_approvals < threshold
            ==> settlement(transfer, threshold, now) == Err::<
            Option<TransactionView>,
            MultisigError,
        >(MultisigError::QuorumNotReached),
        !transfer.executed && now > transfer.expiry && transfer.num_approvals >= threshold
            ==> settlement(transfer, threshold, now) == Err::<
            Option<TransactionView>,
            MultisigError,
        >(MultisigError::Expired),
{
}

/// What settling a transfer comes to.
///
/// The accounts are, in order, the caller, the group, the group's
/// configuration, the transfer, the group's treasury, the receiver and the
/// proposer. The checks are made in this order, and the first that fails
/// decides the error: fewer than seven accounts; a group, configuration or
/// transfer account that this program does not own; bytes that hold no
/// group, configuration or transfer record; an address of the group, the
/// configuration, the transfer or the treasury that the host did not derive;
/// a receiver or proposer account other than the one the transfer names;
/// then the checks of [`settlement`] under the threshold of the
/// configuration.
pub open spec fn close_proposal_outcome(
    id: Address,
    accounts: Seq<Account>,
    derived: DerivedAddresses,
    now: u64,
) -> Result<SettlementView, MultisigError> {
    if accounts.len() < 7 {
        Err(MultisigError::NotEnoughAccountKeys)
    } else if accounts[1].owner != id || accounts[2].owner != id
        || accounts[3].owner != id {
        Err(MultisigError::InvalidAccountOwner)
    } else if MultisigView::parse(accounts[1].data@) is None || MultisigConfig::parse(
        accounts[2].data@,
    ) is None || TransactionView::parse(accounts[3].data@) is None {
        Err(MultisigError::InvalidAccountData)
    } else if !is_derived(accounts[1].key@, derived.multisig) || !is_derived(
        accounts[2].key@,
        derived.multisig_config,
    ) || !is_derived(accounts[3].key@, derived.transaction) || !is_derived(
        accounts[4].key@,
        derived.treasury,
    ) {
        Err(MultisigError::AddressMismatch)
    } else {
        let config = MultisigConfig::parse(accounts[2].data@)->Some_0;
        let transfer = TransactionView::parse(accounts[3].data@)->Some_0;
        if accounts[5].key@ != transfer.receiver || accounts[6].key@ != transfer.proposer {
            Err(MultisigError::AddressMismatch)
        } else {
            match settlement(transfer, config.min_threshold, now) {
                Err(e) => Err(e),
                Ok(None) => Ok(
                    SettlementView::Closed {
                        account: accounts[3].key,
                        refund_to: accounts[6].key,
                    },
                ),
                Ok(Some(record)) => Ok(
                    SettlementView::Executed {
                        record,
                        account: accounts[3].key,
                        from: accounts[4].key,
                        to: accounts[5].key,
                        lamports: transfer.lamports,
                    },
                ),
            }
        }
    }
}

/// An accepted settlement found the stored transfer unexecuted. It executes
/// only with the quorum of the configuration reached and the expiry not
/// passed, moves exactly the stored amount from the treasury to the stored
/// receiver, and changes nothing of the record but the executed flag. It
/// closes only a proposal that expired short of quorum, and then moves no
/// value.
pub proof fn lemma_close_proposal_accepts(
    id: Address,
    accounts: Seq<Account>,
    derived: DerivedAddresses,
    now: u64,
)
    requires
        close_proposal_outcome(id, accounts, derived, now) is Ok,
    ensures
        ({
            let config = MultisigConfig::parse(accounts[2].data@)->Some_0;
            let stored = TransactionView::parse(accounts[3].data@)->Some_0;
            let settled = close_proposal_outcome(id, accounts, derived, now)->Ok_0;
            &&& !stored.executed
            &&& settled matches SettlementView::Executed { record, account, from, to, lamports }
                ==> {
                &&& stored.num_approvals >= config.min_threshold
                &&& now <= stored.expiry
                &&& record == TransactionView { executed: true, ..stored }
                &&& record.wf()
                &&& account == accounts[3].key
                &&& from == accounts[4].key
                &&& to@ == stored.receiver
                &&& lamports == stored.lamports
            }
            &&& settled matches SettlementView::Closed { account, refund_to } ==> {
                &&& stored.num_approvals < config.min_threshold
                &&& now > stored.expiry
                &&& account == accounts[3].key
                &&& refund_to@ == stored.proposer
            }
        }),
{
    crate::state::transaction::lemma_encoding_parse(accounts[3].data@);
}

/// An accepted execution is one execution event on the stored record under
/// the threshold of the configuration, so what holds after every run of
/// events holds after every run of accepted calls.
pub proof fn lemma_execution_is_event(
    id: Address,
    accounts: Seq<Account>,
    derived: DerivedAddresses,
    now: u64,
)
    requires
        close_proposal_outcome(id, accounts, derived, now) is Ok,
        close_proposal_outcome(id, accounts, derived, now)->Ok_0 is Executed,
    ensures
        close_proposal_outcome(id, accounts, derived, now)->Ok_0->record == TransactionView::parse(
            accounts[3].data@,
        )->Some_0.after(
            MultisigConfig::parse(accounts[2].data@)->Some_0.min_threshold,
            TransactionEvent::Execute { now },
        ),
{
}

/// Settles a transfer: checks the call and returns what the host is to do.
///
/// `id` is this program's own identity. `derived` holds what the host
/// derived from the seeds of the group (below the creator that the group
/// record names), of the group's configuration and treasury (below the
/// group), each with the group record's bump, and of the transfer (below the
/// group and the index that the transfer record names, with the transfer
/// record's bump). `now` is the host's clock. All three records are decoded
/// afresh from the accounts handed in. A refused call returns nothing to do.
pub fn process_close_proposal_instruction(
    id: &Address,
    accounts: &[Account],
    derived: &DerivedAddresses,
    now: u64,
) -> (r: Result<Settlement, MultisigError>)
    ensures
        match r {
            Ok(settled) => close_proposal_outcome(*id, accounts@, *derived, now) == Ok::<
                SettlementView,
                MultisigError,
            >(settled@) && (settled matches Settlement::Executed { record, .. } ==> record@.wf()),
            Err(e) => close_proposal_outcome(*id, accounts@, *derived, now) == Err::<
                SettlementView,
                MultisigError,
            >(e),
        },
{
    if accounts.len() < 7 {
        return Err(MultisigError::NotEnoughAccountKeys);
    }
    let multisig = &accounts[1];
    let multisig_config = &accounts[2];
    let transaction_account = &accounts[3];
    let treasury = &accounts[4];
    let receiver = &accounts[5];
    let proposer = &accounts[6];
    if !address_eq(&multisig.owner, id) || !address_eq(&multisig_config.owner, id)
        || !address_eq(&transaction_account.owner, id) {
        return Err(MultisigError::InvalidAccountOwner);
    }
    if Multisig::from_account_info(multisig).is_err() {
        return Err(MultisigError::InvalidAccountData);
    }
    let config = match MultisigConfig::from_account_info(multisig_config) {
        Ok(config) => config,
        Err(e) => {
            return Err(e);
        },
    };
    let mut transfer = match Transaction::from_account_info(transaction_account) {
        Ok(transfer) => transfer,
        Err(e) => {
            return Err(e);
        },
    };
    if verify_address(&multisig.key, &derived.multisig).is_err() {
        return Err(MultisigError::AddressMismatch);
    }
    if verify_address(&multisig_config.key, &derived.multisig_config).is_err() {
        return Err(MultisigError::AddressMismatch);
    }
    if verify_address(&transaction_account.key, &derived.transaction).is_err() {
        return Err(MultisigError::AddressMismatch);
    }
    if verify_address(&treasury.key, &derived.treasury).is_err() {
        return Err(MultisigError::AddressMismatch);
    }
    if !address_eq(&receiver.key, &transfer.receiver()) || !address_eq(
        &proposer.key,
        &transfer.proposer(),
    ) {
        return Err(MultisigError::AddressMismatch);
    }
    if transfer.executed() {
        return Err(MultisigError::AlreadyExecuted);
    }
    if transfer.can_close(config.min_threshold, now) {
        return Ok(Settlement::Closed { account: transaction_account.key, refund_to: proposer.key });
    }
    let lamports = transfer.lamports();
    match transfer.execute(config.min_threshold, now) {
        Ok(()) => Ok(
            Settlement::Executed {
                record: transfer,
                account: transaction_account.key,
                from: treasury.key,
                to: receiver.key,
                lamports,
            },
        ),
        Err(e) => Err(e),
    }
}

} // verus!
