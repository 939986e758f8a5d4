//! Which addresses the host is to derive for a call, and from which seeds.
//!
//! The seeds of a call depend on its payload and on the records in its
//! accounts, so the program names them before the host derives anything.
//! What is checked here is checked again, in the same order, when the call
//! is processed: a call that is refused here is refused there with the same
//! error, whatever the host would have derived.

use vstd::prelude::*;
use crate::account::Account;
use crate::address::{address_eq, Address};
use crate::error::MultisigError;
use crate::instructions::approve::approve_outcome;
use crate::instructions::close::close_proposal_outcome;
use crate::instructions::init_multisig::{init_multisig_outcome, InitMultisigArgs};
use crate::instructions::init_transaction::{init_transaction_outcome, InitTransactionArgs};
use crate::instructions::DerivedAddresses;
use crate::seeds::{
    multisig_config_seeds, multisig_seeds, seed_bytes, spec_multisig_config_seeds,
    spec_multisig_seeds, spec_transaction_seeds, spec_treasury_seeds, transaction_seeds,
    treasury_seeds,
};
use crate::state::multisig::{Multisig, MultisigView};
use crate::state::multisig_config::MultisigConfig;
use crate::state::transaction::{Transaction, TransactionView};

verus! {

/// The mathematical content of a [`SeedPlan`].
pub struct SeedPlanView {
    pub multisig: Option<Seq<Seq<u8>>>,
    pub multisig_config: Option<Seq<Seq<u8>>>,
    pub treasury: Option<Seq<Seq<u8>>>,
    pub transaction: Option<Seq<Seq<u8>>>,
}

/// The seeds of each address that the host is to derive for a call. An
/// entry is `None` where the call needs no such address.
#[derive(Clone, Debug, PartialEq, Eq)]
pub struct SeedPlan {
    /// The seeds of the group record.
    pub multisig: Option<Vec<Vec<u8>>>,
    /// The seeds of the group's configuration record.
    pub multisig_config: Option<Vec<Vec<u8>>>,
    /// The seeds of the group's treasury.
    pub treasury: Option<Vec<Vec<u8>>>,
    /// The seeds of the transfer record.
    pub transaction: Option<Vec<Vec<u8>>>,
}

/// The bytes of the seeds of one entry of a plan.
pub open spec fn entry_bytes(entry: Option<Vec<Vec<u8>>>) -> Option<Seq<Seq<u8>>> {
    match entry {
        Some(seeds) => Some(seed_bytes(seeds@)),
        None => None,
    }
}

impl View for SeedPlan {
    type V = SeedPlanView;

    open spec fn view(&self) -> SeedPlanView {
        SeedPlanView {
            multisig: entry_bytes(self.multisig),
            multisig_config: entry_bytes(self.multisig_config),
            treasury: entry_bytes(self.treasury),
            transaction: entry_bytes(self.transaction),
        }
    }
}

/// The seeds for founding a group: the group below the creator, its
/// configuration and its treasury below the group, all with the bump of the
/// payload.
pub open spec fn init_multisig_plan(id: Address, accounts: Seq<Account>, data: Seq<u8>) -> Result<
    SeedPlanView,
    MultisigError,
> {
    if accounts.len() < 4 {
        Err(MultisigError::NotEnoughAccountKeys)
    } else if accounts[1].owner == id {
        Err(MultisigError::AccountAlreadyInitialized)
    } else {
        match InitMultisigArgs::decode(data) {
            Err(e) => Err(e),
            Ok(args) => Ok(
                SeedPlanView {
                    multisig: Some(spec_multisig_seeds(accounts[0].key@, args.bump)),
                    multisig_config: Some(
                        spec_multisig_config_seeds(accounts[1].key@, args.bump),
                    ),
                    treasury: Some(spec_treasury_seeds(accounts[1].key@, args.bump)),
                    transaction: None,
                },
            ),
        }
    }
}

/// The seeds for proposing a transfer: the transfer below the group and the
/// sequence index of the payload, with the bump of the payload.
pub open spec fn init_transaction_plan(
    id: Address,
    accounts: Seq<Account>,
    data: Seq<u8>,
) -> Result<SeedPlanView, MultisigError> {
    if accounts.len() < 3 {
        Err(MultisigError::NotEnoughAccountKeys)
    } else if accounts[2].owner == id {
        Err(MultisigError::AccountAlreadyInitialized)
    } else {
        match InitTransactionArgs::decode(data) {
            Err(e) => Err(e),
            Ok(args) => Ok(
                SeedPlanView {
                    multisig: None,
                    multisig_config: None,
                    treasury: None,
                    transaction: Some(
                        spec_transaction_seeds(accounts[1].key@, args.index, args.bump),
                    ),
                },
            ),
        }
    }
}

/// The seeds for approving a transfer: the group below the creator its
/// record names, the transfer below the group and the index its record
/// names, each with the bump of its record.
pub open spec fn approve_plan(id: Address, accounts: Seq<Account>, data: Seq<u8>) -> Result<
    SeedPlanView,
    MultisigError,
> {
    if accounts.len() < 3 {
        Err(MultisigError::NotEnoughAccountKeys)
    } else if data.len() < 1 {
        Err(MultisigError::InvalidInstructionData)
    } else if accounts[1].owner != id || accounts[2].owner != id {
        Err(MultisigError::InvalidAccountOwner)
    } else if MultisigView::parse(accounts[1].data@) is None || TransactionView::parse(
        accounts[2].data@,
    ) is None {
        Err(MultisigError::InvalidAccountData)
    } else {
        let group = MultisigView::parse(accounts[1].data@)->Some_0;
        let transfer = TransactionView::parse(accounts[2].data@)->Some_0;
        Ok(
            SeedPlanView {
                multisig: Some(spec_multisig_seeds(group.creator, group.bump)),
                multisig_config: None,
                treasury: None,
                transaction: Some(
                    spec_transaction_seeds(accounts[1].key@, transfer.index, transfer.bump),
                ),
            },
        )
    }
}

/// The seeds for settling a transfer: the group below the creator its
/// record names, its configuration and its treasury below the group, all
/// three with the bump of the group record, and the transfer below the group
/// and the index its record names, with the bump of the transfer record.
pub open spec fn close_proposal_plan(id: Address, accounts: Seq<Account>) -> Result<
    SeedPlanView,
    MultisigError,
> {
    if accounts.len() < 7 {
        Err(MultisigError::NotEnoughAccountKeys)
    } else if accounts[1].owner != id || accounts[2].owner != id || accounts[3].owner != id {
        Err(MultisigError::InvalidAccountOwner)
    } else if MultisigView::parse(accounts[1].data@) is None || MultisigConfig::parse(
        accounts[2].data@,
    ) is None || TransactionView::parse(accounts[3].data@) is None {
        Err(MultisigError::InvalidAccountData)
    } else {
        let group = MultisigView::parse(accounts[1].data@)->Some_0;
        let transfer = TransactionView::parse(accounts[3].data@)->Some_0;
        Ok(
            SeedPlanView {
                multisig: Some(spec_multisig_seeds(group.creator, group.bump)),
                multisig_config: Some(spec_multisig_config_seeds(accounts[1].key@, group.bump)),
                treasury: Some(spec_treasury_seeds(accounts[1].key@, group.bump)),
                transaction: Some(
                    spec_transaction_seeds(accounts[1].key@, transfer.index, transfer.bump),
                ),
            },
        )
    }
}

/// A call for which no seeds can be named is refused with the same error
/// when it is processed, whatever the host derived and whatever the time.
pub proof fn lemma_plan_error_is_final(
    id: Address,
    accounts: Seq<Account>,
    data: Seq<u8>,
    derived: DerivedAddresses,
    now: u64,
)
    ensures
        init_multisig_plan(id, accounts, data) matches Err(e) ==> init_multisig_outcome(
            id,
            accounts,
            data,
            derived,
        ) is Err && init_multisig_outcome(id, accounts, data, derived)->Err_0 == e,
        init_transaction_plan(id, accounts, data) matches Err(e) ==> init_transaction_outcome(
            id,
            accounts,
            data,
            derived,
        ) is Err && init_transaction_outcome(id, accounts, data, derived)->Err_0 == e,
        approve_plan(id, accounts, data) matches Err(e) ==> approve_outcome(
            id,
            accounts,
            data,
            derived,
            now,
        ) is Err && approve_outcome(id, accounts, data, derived, now)->Err_0 == e,
        close_proposal_plan(id, accounts) matches Err(e) ==> close_proposal_outcome(
            id,
            accounts,
            derived,
            now,
        ) is Err && close_proposal_outcome(id, accounts, derived, now)->Err_0 == e,
{
}

/// Whether `derived` holds, for each entry of `plan`, what `derive` gives for
/// the entry's seeds and the program `id`.
pub open spec fn derived_by(
    derive: spec_fn(Seq<Seq<u8>>, Address) -> Option<Address>,
    id: Address,
    plan: SeedPlanView,
    derived: DerivedAddresses,
) -> bool {
    &&& plan.multisig matches Some(seeds) ==> derived.multisig == derive(seeds, id)
    &&& plan.multisig_config matches Some(seeds) ==> derived.multisig_config == derive(seeds, id)
    &&& plan.treasury matches Some(seeds) ==> derived.treasury == derive(seeds, id)
    &&& plan.transaction matches Some(seeds) ==> derived.transaction == derive(seeds, id)
}

/// Whatever function the host derives addresses with: where a group is
/// founded, the address of the group account is the one derived from the
/// tag `multisig`, the creator and the bump of the payload, and the new
/// record counts exactly the members that the payload supplied and holds
/// them in their order.
pub proof fn lemma_founded_group_is_derived(
    derive: spec_fn(Seq<Seq<u8>>, Address) -> Option<Address>,
    id: Address,
    accounts: Seq<Account>,
    data: Seq<u8>,
    derived: DerivedAddresses,
)
    requires
        init_multisig_plan(id, accounts, data) matches Ok(plan) && derived_by(
            derive,
            id,
            plan,
            derived,
        ),
        init_multisig_outcome(id, accounts, data, derived) is Ok,
    ensures
        derive(spec_multisig_seeds(accounts[0].key@, data[0]), id) == Some(accounts[1].key),
        derive(spec_multisig_config_seeds(accounts[1].key@, data[0]), id) == Some(
            accounts[2].key,
        ),
        derive(spec_treasury_seeds(accounts[1].key@, data[0]), id) == Some(accounts[3].key),
        init_multisig_outcome(id, accounts, data, derived)->Ok_0.address == accounts[1].key,
        init_multisig_outcome(id, accounts, data, derived)->Ok_0.record.wf(),
        init_multisig_outcome(id, accounts, data, derived)->Ok_0.record.creator
            == accounts[0].key@,
        init_multisig_outcome(id, accounts, data, derived)->Ok_0.record.bump == data[0],
        init_multisig_outcome(id, accounts, data, derived)->Ok_0.record.num_members == data[1],
        init_multisig_outcome(id, accounts, data, derived)->Ok_0.record.members.take(
            data[1] as int,
        ) == InitMultisigArgs::decode(data)->Ok_0.members,
        InitMultisigArgs::decode(data)->Ok_0.members.len() == data[1],
{
    let args = InitMultisigArgs::decode(data)->Ok_0;
    crate::state::multisig::lemma_founded(accounts[0].key@, args.members, args.bump);
    crate::address::lemma_address_ext(derived.multisig->Some_0, accounts[1].key);
    crate::address::lemma_address_ext(derived.multisig_config->Some_0, accounts[2].key);
    crate::address::lemma_address_ext(derived.treasury->Some_0, accounts[3].key);
}

/// Whatever function the host derives addresses with: where a transfer is
/// proposed, the address of the transfer account is the one derived from
/// the tag `transaction`, the group, the sequence index and the bump of the
/// payload.
pub proof fn lemma_proposed_transfer_is_derived(
    derive: spec_fn(Seq<Seq<u8>>, Address) -> Option<Address>,
    id: Address,
    accounts: Seq<Account>,
    data: Seq<u8>,
    derived: DerivedAddresses,
)
    requires
        init_transaction_plan(id, accounts, data) matches Ok(plan) && derived_by(
            derive,
            id,
            plan,
            derived,
        ),
        init_transaction_outcome(id, accounts, data, derived) is Ok,
    ensures
        derive(
            spec_transaction_seeds(
                accounts[1].key@,
                InitTransactionArgs::decode(data)->Ok_0.index,
                data[0],
            ),
            id,
        ) == Some(accounts[2].key),
        init_transaction_outcome(id, accounts, data, derived)->Ok_0.record.wf(),
{
    crate::address::lemma_address_ext(derived.transaction->Some_0, accounts[2].key);
    let record = init_transaction_outcome(id, accounts, data, derived)->Ok_0.record;
    crate::state::transaction::lemma_tally_clear(record.approvals);
}

/// Names the seeds for founding a group.
pub fn plan_init_multisig(id: &Address, accounts: &[Account], data: &[u8]) -> (r: Result<
    SeedPlan,
    MultisigError,
>)
    ensures
        match r {
            Ok(plan) => init_multisig_plan(*id, accounts@, data@) == Ok::<
                SeedPlanView,
                MultisigError,
            >(plan@),
            Err(e) => init_multisig_plan(*id, accounts@, data@) == Err::<
                SeedPlanView,
                MultisigError,
            >(e),
        },
{
    if accounts.len() < 4 {
        return Err(MultisigError::NotEnoughAccountKeys);
    }
    if address_eq(&accounts[1].owner, id) {
        return Err(MultisigError::AccountAlreadyInitialized);
    }
    let args = match InitMultisigArgs::parse(data) {
        Ok(args) => args,
        Err(e) => {
            return Err(e);
        },
    };
    Ok(
        SeedPlan {
            multisig: Some(multisig_seeds(&accounts[0].key, args.bump)),
            multisig_config: Some(multisig_config_seeds(&accounts[1].key, args.bump)),
            treasury: Some(treasury_seeds(&accounts[1].key, args.bump)),
            transaction: None,
        },
    )
}

/// Names the seeds for proposing a transfer.
pub fn plan_init_transaction(id: &Address, accounts: &[Account], data: &[u8]) -> (r: Result<
    SeedPlan,
    MultisigError,
>)
    ensures
        match r {
            Ok(plan) => init_transaction_plan(*id, accounts@, data@) == Ok::<
                SeedPlanView,
                MultisigError,
            >(plan@),
            Err(e) => init_transaction_plan(*id, accounts@, data@) == Err::<
                SeedPlanView,
                MultisigError,
            >(e),
        },
{
    if accounts.len() < 3 {
        return Err(MultisigError::NotEnoughAccountKeys);
    }
    if address_eq(&accounts[2].owner, id) {
        return Err(MultisigError::AccountAlreadyInitialized);
    }
    let args = match InitTransactionArgs::parse(data) {
        Ok(args) => args,
        Err(e) => {
            return Err(e);
        },
    };
    Ok(
        SeedPlan {
            multisig: None,
            multisig_config: None,
            treasury: None,
            transaction: Some(transaction_seeds(&accounts[1].key, args.index, args.bump)),
        },
    )
}

/// Names the seeds for approving a transfer.
pub fn plan_approve(id: &Address, accounts: &[Account], data: &[u8]) -> (r: Result<
    SeedPlan,
    MultisigError,
>)
    ensures
        match r {
            Ok(plan) => approve_plan(*id, accounts@, data@) == Ok::<SeedPlanView, MultisigError>(
                plan@,
            ),
            Err(e) => approve_plan(*id, accounts@, data@) == Err::<SeedPlanView, MultisigError>(e),
        },
{
    if accounts.len() < 3 {
        return Err(MultisigError::NotEnoughAccountKeys);
    }
    if data.len() < 1 {
        return Err(MultisigError::InvalidInstructionData);
    }
    if !address_eq(&accounts[1].owner, id) || !address_eq(&accounts[2].owner, id) {
        return Err(MultisigError::InvalidAccountOwner);
    }
    let group = match Multisig::from_account_info(&accounts[1]) {
        Ok(group) => group,
        Err(e) => {
            return Err(e);
        },
    };
    let transfer = match Transaction::from_account_info(&accounts[2]) {
        Ok(transfer) => transfer,
        Err(e) => {
            return Err(e);
        },
    };
    Ok(
        SeedPlan {
            multisig: Some(multisig_seeds(&group.creator(), group.bump())),
            multisig_config: None,
            treasury: None,
            transaction: Some(
                transaction_seeds(&accounts[1].key, transfer.index(), transfer.bump()),
            ),
        },
    )
}

/// Names the seeds for settling a transfer.
pub fn plan_close_proposal(id: &Address, accounts: &[Account]) -> (r: Result<
    SeedPlan,
    MultisigError,
>)
    ensures
        match r {
            Ok(plan) => close_proposal_plan(*id, accounts@) == Ok::<SeedPlanView, MultisigError>(
                plan@,
            ),
            Err(e) => close_proposal_plan(*id, accounts@) == Err::<SeedPlanView, MultisigError>(e),
        },
{
    if accounts.len() < 7 {
        return Err(MultisigError::NotEnoughAccountKeys);
    }
    if !address_eq(&accounts[1].owner, id) || !address_eq(&accounts[2].owner, id) || !address_eq(
        &accounts[3].owner,
        id,
    ) {
        return Err(MultisigError::InvalidAccountOwner);
    }
    let group = match Multisig::from_account_info(&accounts[1]) {
        Ok(group) => group,
        Err(e) => {
            return Err(e);
        },
    };
    if MultisigConfig::from_account_info(&accounts[2]).is_err() {
        return Err(MultisigError::InvalidAccountData);
    }
    let transfer = match Transaction::from_account_info(&accounts[3]) {
        Ok(transfer) => transfer,
        Err(e) => {
            return Err(e);
        },
    };
    Ok(
        SeedPlan {
            multisig: Some(multisig_seeds(&group.creator(), group.bump())),
            multisig_config: Some(multisig_config_seeds(&accounts[1].key, group.bump())),
            treasury: Some(treasury_seeds(&accounts[1].key, group.bump())),
            transaction: Some(
                transaction_seeds(&accounts[1].key, transfer.index(), transfer.bump()),
            ),
        },
    )
}

} // verus!
