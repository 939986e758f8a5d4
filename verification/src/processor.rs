//! The entry of the program: from the opcode to the operation.

use vstd::prelude::*;
use vstd::slice::slice_subrange;
use crate::account::Account;
use crate::address::{address_eq, Address};
use crate::error::MultisigError;
use crate::instructions::approve::{approve_outcome, process_approve_instruction};
use crate::instructions::close::{
    close_proposal_outcome, process_close_proposal_instruction, Settlement, SettlementView,
};
use crate::instructions::init_multisig::{init_multisig_outcome, process_init_multisig_instruction};
use crate::instructions::init_transaction::{
    init_transaction_outcome, process_init_transaction_instruction,
};
use crate::instructions::plan::{
    approve_plan, close_proposal_plan, derived_by, init_multisig_plan, init_transaction_plan,
    plan_approve, plan_close_proposal, plan_init_multisig, plan_init_transaction, SeedPlan,
    SeedPlanView,
};
use crate::seeds::{lemma_seeds_injective, spec_multisig_seeds, spec_transaction_seeds};
use crate::instructions::{DerivedAddresses, MultisigInstructions, NewAccount};
use crate::state::multisig::{Multisig, MultisigView};
use crate::state::transaction::{Transaction, TransactionView};

verus! {

/// What a call asks the host to do.
#[derive(Clone, Copy, Debug, PartialEq, Eq)]
pub enum Outcome {
    /// Create the account of a group record.
    MultisigCreated(NewAccount<Multisig>),
    /// Create the account of a transfer record.
    TransactionCreated(NewAccount<Transaction>),
    /// Store `record` in the transfer account `account`.
    Approved { account: Address, record: Transaction },
    /// Execute or close a transfer.
    Settled(Settlement),
}

/// The mathematical content of an [`Outcome`].
pub enum OutcomeView {
    MultisigCreated(NewAccount<MultisigView>),
    TransactionCreated(NewAccount<TransactionView>),
    Approved { account: Address, record: TransactionView },
    Settled(SettlementView),
}

impl View for Outcome {
    type V = OutcomeView;

    open spec fn view(&self) -> OutcomeView {
        match *self {
            Outcome::MultisigCreated(created) => OutcomeView::MultisigCreated(created@),
            Outcome::TransactionCreated(created) => OutcomeView::TransactionCreated(created@),
            Outcome::Approved { account, record } => OutcomeView::Approved {
                account,
                record: record@,
            },
            Outcome::Settled(settled) => OutcomeView::Settled(settled@),
        }
    }
}

/// The opcode and the payload of a call addressed to `program_id`, for the
/// program whose own identity is `id`: refused for another program, refused
/// as invalid account data when there is no opcode byte, refused as invalid
/// instruction data when the opcode selects no operation.
pub open spec fn route(program_id: Address, id: Address, data: Seq<u8>) -> Result<
    (MultisigInstructions, Seq<u8>),
    MultisigError,
> {
    if program_id != id {
        Err(MultisigError::IncorrectProgramId)
    } else if data.len() == 0 {
        Err(MultisigError::InvalidAccountData)
    } else {
        match MultisigInstructions::of_opcode(data[0]) {
            None => Err(MultisigError::InvalidInstructionData),
            Some(instruction) => Ok((instruction, data.subrange(1, data.len() as int))),
        }
    }
}

/// What a call comes to: the outcome of the operation that its opcode
/// selects, on the payload after the opcode. Changing a group is not an
/// operation of this program, and is refused as invalid instruction data.
pub open spec fn instruction_outcome(
    program_id: Address,
    id: Address,
    accounts: Seq<Account>,
    data: Seq<u8>,
    derived: DerivedAddresses,
    now: u64,
) -> Result<OutcomeView, MultisigError> {
    match route(program_id, id, data) {
        Err(e) => Err(e),
        Ok((MultisigInstructions::InitMultisig, payload)) => match init_multisig_outcome(
            id,
            accounts,
            payload,
            derived,
        ) {
            Ok(created) => Ok(OutcomeView::MultisigCreated(created)),
            Err(e) => Err(e),
        },
        Ok((MultisigInstructions::UpdateMultisig, payload)) => Err(
            MultisigError::InvalidInstructionData,
        ),
        Ok((MultisigInstructions::CreateProposal, payload)) => match init_transaction_outcome(
            id,
            accounts,
            payload,
            derived,
        ) {
            Ok(created) => Ok(OutcomeView::TransactionCreated(created)),
            Err(e) => Err(e),
        },
        Ok((MultisigInstructions::Vote, payload)) => match approve_outcome(
            id,
            accounts,
            payload,
            derived,
            now,
        ) {
            Ok(record) => Ok(OutcomeView::Approved { account: accounts[2].key, record }),
            Err(e) => Err(e),
        },
        Ok((MultisigInstructions::CloseProposal, payload)) => match close_proposal_outcome(
            id,
            accounts,
            derived,
            now,
        ) {
            Ok(settled) => Ok(OutcomeView::Settled(settled)),
            Err(e) => Err(e),
        },
    }
}

/// The seeds of a call: those of the operation that its opcode selects.
pub open spec fn instruction_plan(
    program_id: Address,
    id: Address,
    accounts: Seq<Account>,
    data: Seq<u8>,
) -> Result<SeedPlanView, MultisigError> {
    match route(program_id, id, data) {
        Err(e) => Err(e),
        Ok((MultisigInstructions::InitMultisig, payload)) => init_multisig_plan(
            id,
            accounts,
            payload,
        ),
        Ok((MultisigInstructions::UpdateMultisig, payload)) => Err(
            MultisigError::InvalidInstructionData,
        ),
        Ok((MultisigInstructions::CreateProposal, payload)) => init_transaction_plan(
            id,
            accounts,
            payload,
        ),
        Ok((MultisigInstructions::Vote, payload)) => approve_plan(id, accounts, payload),
        Ok((MultisigInstructions::CloseProposal, payload)) => close_proposal_plan(id, accounts),
    }
}

/// A call for which no seeds can be named is refused with the same error
/// when it is processed, whatever the host derived and whatever the time.
pub proof fn lemma_instruction_plan_error_is_final(
    program_id: Address,
    id: Address,
    accounts: Seq<Account>,
    data: Seq<u8>,
    derived: DerivedAddresses,
    now: u64,
)
    requires
        instruction_plan(program_id, id, accounts, data) is Err,
    ensures
        instruction_outcome(program_id, id, accounts, data, derived, now) is Err,
        instruction_outcome(program_id, id, accounts, data, derived, now)->Err_0
            == instruction_plan(program_id, id, accounts, data)->Err_0,
{
}

/// Whether the entries of an account list that have one address are one
/// account, as they are in every list that the host passes.
pub open spec fn one_account_per_address(accounts: Seq<Account>) -> bool {
    forall|i: int, j: int|
        0 <= i < accounts.len() && 0 <= j < accounts.len() && accounts[i].key == accounts[j].key
            ==> accounts[i] == accounts[j]
}

/// The data that `account` holds once the host has carried out what a call
/// came to: a new record where the account was created for one, the record
/// to store over the start of the data where one was stored, nothing where
/// the account was closed, and otherwise what it held before the call. A
/// refused call changes no account.
pub open spec fn data_after(result: Result<OutcomeView, MultisigError>, account: Account) -> Seq<
    u8,
> {
    match result {
        Ok(OutcomeView::MultisigCreated(created)) if created.address == account.key
            => created.record.encoding(),
        Ok(OutcomeView::TransactionCreated(created)) if created.address == account.key
            => created.record.encoding(),
        Ok(OutcomeView::Approved { account: stored, record }) if stored == account.key
            => record.encoding() + account.data@.skip(Transaction::LEN as int),
        Ok(
            OutcomeView::Settled(SettlementView::Executed { record, account: stored, .. }),
        ) if stored == account.key => record.encoding() + account.data@.skip(
            Transaction::LEN as int,
        ),
        Ok(OutcomeView::Settled(SettlementView::Closed { account: closed, .. })) if closed
            == account.key => Seq::empty(),
        _ => account.data@,
    }
}

/// Founding a group in an account that this program already owns always
/// fails as already initialised, and leaves every account of the call, the
/// group record among them, byte for byte as it was.
pub proof fn lemma_founding_again_changes_nothing(
    id: Address,
    accounts: Seq<Account>,
    data: Seq<u8>,
    derived: DerivedAddresses,
    now: u64,
    i: int,
)
    requires
        data.len() >= 1,
        data[0] == 0,
        accounts.len() >= 4,
        accounts[1].owner == id,
        0 <= i < accounts.len(),
    ensures
        instruction_outcome(id, id, accounts, data, derived, now) == Err::<
            OutcomeView,
            MultisigError,
        >(MultisigError::AccountAlreadyInitialized),
        data_after(instruction_outcome(id, id, accounts, data, derived, now), accounts[i])
            == accounts[i].data@,
{
}

/// No call, whatever its opcode, its accounts and its payload, changes an
/// account of this program that holds an executed transfer: the executed
/// flag is a one-way latch, and nothing is written behind it.
#[verifier::rlimit(50)]
pub proof fn lemma_executed_transfer_is_never_changed(
    program_id: Address,
    id: Address,
    accounts: Seq<Account>,
    data: Seq<u8>,
    derived: DerivedAddresses,
    now: u64,
    i: int,
)
    requires
        one_account_per_address(accounts),
        0 <= i < accounts.len(),
        accounts[i].owner == id,
        TransactionView::parse(accounts[i].data@) matches Some(stored) && stored.executed,
    ensures
        data_after(
            instruction_outcome(program_id, id, accounts, data, derived, now),
            accounts[i],
        ) == accounts[i].data@,
{
    let result = instruction_outcome(program_id, id, accounts, data, derived, now);
    match result {
        Ok(OutcomeView::MultisigCreated(created)) => {
            assert(accounts[1].key == accounts[i].key ==> accounts[1] == accounts[i]);
        },
        Ok(OutcomeView::TransactionCreated(created)) => {
            assert(accounts[2].key == accounts[i].key ==> accounts[2] == accounts[i]);
        },
        Ok(OutcomeView::Approved { account, record }) => {
            assert(accounts[2].key == accounts[i].key ==> accounts[2] == accounts[i]);
        },
        Ok(OutcomeView::Settled(settled)) => {
            assert(accounts[3].key == accounts[i].key ==> accounts[3] == accounts[i]);
        },
        Err(_) => {},
    }
}

/// Whether `derive` gives an address to one list of seeds only.
pub open spec fn derives_one_to_one(
    derive: spec_fn(Seq<Seq<u8>>, Address) -> Option<Address>,
    id: Address,
) -> bool {
    forall|a: Seq<Seq<u8>>, b: Seq<Seq<u8>>|
        (#[trigger] derive(a, id)) is Some && derive(a, id) == #[trigger] derive(b, id) ==> a == b
}

/// Where the host derives addresses one to one, no call changes the account
/// of a group: the account is owned by this program, so it is not created
/// again, and its address is derived from the seeds of a group, so no
/// transfer record is stored in it.
#[verifier::rlimit(50)]
pub proof fn lemma_group_account_is_never_changed(
    derive: spec_fn(Seq<Seq<u8>>, Address) -> Option<Address>,
    program_id: Address,
    id: Address,
    accounts: Seq<Account>,
    data: Seq<u8>,
    derived: DerivedAddresses,
    now: u64,
    i: int,
    creator: Seq<u8>,
    bump: u8,
)
    requires
        one_account_per_address(accounts),
        derives_one_to_one(derive, id),
        instruction_plan(program_id, id, accounts, data) matches Ok(plan) ==> derived_by(
            derive,
            id,
            plan,
            derived,
        ),
        0 <= i < accounts.len(),
        accounts[i].owner == id,
        derive(spec_multisig_seeds(creator, bump), id) == Some(accounts[i].key),
    ensures
        data_after(
            instruction_outcome(program_id, id, accounts, data, derived, now),
            accounts[i],
        ) == accounts[i].data@,
{
    let result = instruction_outcome(program_id, id, accounts, data, derived, now);
    let group_seeds = spec_multisig_seeds(creator, bump);
    match result {
        Ok(OutcomeView::MultisigCreated(created)) => {
            assert(accounts[1].key == accounts[i].key ==> accounts[1] == accounts[i]);
        },
        Ok(OutcomeView::TransactionCreated(created)) => {
            assert(accounts[2].key == accounts[i].key ==> accounts[2] == accounts[i]);
        },
        Ok(OutcomeView::Approved { account, record }) => {
            if account == accounts[i].key {
                let stored = TransactionView::parse(accounts[2].data@)->Some_0;
                let seeds = spec_transaction_seeds(accounts[1].key@, stored.index, stored.bump);
                crate::address::lemma_address_ext(derived.transaction->Some_0, accounts[2].key);
                assert(derive(seeds, id) == derive(group_seeds, id));
                lemma_seeds_injective(
                    creator,
                    0,
                    bump,
                    accounts[1].key@,
                    stored.index,
                    stored.bump,
                );
            }
        },
        Ok(OutcomeView::Settled(settled)) => {
            let stored = TransactionView::parse(accounts[3].data@)->Some_0;
            let seeds = spec_transaction_seeds(accounts[1].key@, stored.index, stored.bump);
            if accounts[3].key == accounts[i].key {
                crate::address::lemma_address_ext(derived.transaction->Some_0, accounts[3].key);
                assert(derive(seeds, id) == derive(group_seeds, id));
                lemma_seeds_injective(
                    creator,
                    0,
                    bump,
                    accounts[1].key@,
                    stored.index,
                    stored.bump,
                );
            }
        },
        Err(_) => {},
    }
}

/// A call that creates an account leaves in it exactly the new record: the
/// data has the size that was asked for and decodes to the record.
#[verifier::rlimit(50)]
pub proof fn lemma_created_record_is_stored(
    program_id: Address,
    id: Address,
    accounts: Seq<Account>,
    data: Seq<u8>,
    derived: DerivedAddresses,
    now: u64,
)
    requires
        instruction_outcome(program_id, id, accounts, data, derived, now) is Ok,
    ensures
        instruction_outcome(program_id, id, accounts, data, derived, now) matches Ok(
            OutcomeView::MultisigCreated(created),
        ) ==> {
            let stored = data_after(
                instruction_outcome(program_id, id, accounts, data, derived, now),
                accounts[1],
            );
            &&& created.address == accounts[1].key
            &&& created.owner == id
            &&& stored.len() == created.space
            &&& MultisigView::parse(stored) == Some(created.record)
        },
        instruction_outcome(program_id, id, accounts, data, derived, now) matches Ok(
            OutcomeView::TransactionCreated(created),
        ) ==> {
            let stored = data_after(
                instruction_outcome(program_id, id, accounts, data, derived, now),
                accounts[2],
            );
            &&& created.address == accounts[2].key
            &&& created.owner == id
            &&& stored.len() == created.space
            &&& TransactionView::parse(stored) == Some(created.record)
            &&& !created.record.executed
            &&& created.record.num_approvals == 0
        },
{
    let result = instruction_outcome(program_id, id, accounts, data, derived, now);
    let payload = data.subrange(1, data.len() as int);
    match result {
        Ok(OutcomeView::MultisigCreated(created)) => {
            let args = crate::instructions::init_multisig::InitMultisigArgs::decode(payload)->Ok_0;
            crate::state::multisig::lemma_founded(accounts[0].key@, args.members, args.bump);
            crate::state::multisig::lemma_parse_encoding(created.record, Seq::empty());
            assert(created.record.encoding() + Seq::<u8>::empty() =~= created.record.encoding());
        },
        Ok(OutcomeView::TransactionCreated(created)) => {
            crate::state::transaction::lemma_tally_clear(created.record.approvals);
            crate::state::transaction::lemma_parse_encoding(created.record, Seq::empty());
            assert(created.record.encoding() + Seq::<u8>::empty() =~= created.record.encoding());
        },
        _ => {},
    }
}

/// A call that stores a transfer record stores it in place of an unexecuted
/// one: the stored data begins with the new record, and nothing behind the
/// record is changed.
#[verifier::rlimit(50)]
pub proof fn lemma_stored_record_replaces_unexecuted(
    program_id: Address,
    id: Address,
    accounts: Seq<Account>,
    data: Seq<u8>,
    derived: DerivedAddresses,
    now: u64,
)
    requires
        instruction_outcome(program_id, id, accounts, data, derived, now) matches Ok(
            OutcomeView::Approved { .. },
        ),
    ensures
        ({
            let result = instruction_outcome(program_id, id, accounts, data, derived, now);
            let before = TransactionView::parse(accounts[2].data@);
            let after = TransactionView::parse(data_after(result, accounts[2]));
            &&& result->Ok_0->Approved_account == accounts[2].key
            &&& before is Some && !before->Some_0.executed
            &&& after == Some(result->Ok_0->Approved_record)
            &&& data_after(result, accounts[2]).len() == accounts[2].data@.len()
        }),
{
    let result = instruction_outcome(program_id, id, accounts, data, derived, now);
    let record = result->Ok_0->Approved_record;
    let payload = data.subrange(1, data.len() as int);
    crate::instructions::approve::lemma_approve_accepts(id, accounts, payload, derived, now);
    crate::state::transaction::lemma_parse_encoding(
        record,
        accounts[2].data@.skip(Transaction::LEN as int),
    );
}

/// Splits the instruction data of a call addressed to `program_id` into the
/// operation that the opcode selects and the payload after it.
pub fn route_instruction<'a>(program_id: &Address, id: &Address, data: &'a [u8]) -> (r: Result<
    (MultisigInstructions, &'a [u8]),
    MultisigError,
>)
    ensures
        match r {
            Ok((instruction, payload)) => route(*program_id, *id, data@) == Ok::<
                (MultisigInstructions, Seq<u8>),
                MultisigError,
            >((instruction, payload@)),
            Err(e) => route(*program_id, *id, data@) == Err::<
                (MultisigInstructions, Seq<u8>),
                MultisigError,
            >(e),
        },
{
    if !address_eq(program_id, id) {
        return Err(MultisigError::IncorrectProgramId);
    }
    if data.len() == 0 {
        return Err(MultisigError::InvalidAccountData);
    }
    match MultisigInstructions::try_from(&data[0]) {
        Ok(instruction) => Ok((instruction, slice_subrange(data, 1, data.len()))),
        Err(e) => Err(e),
    }
}

/// Names the seeds of every address that the host is to derive before the
/// call can be processed.
pub fn derivation_plan(program_id: &Address, id: &Address, accounts: &[Account], data: &[u8]) -> (r:
    Result<SeedPlan, MultisigError>)
    ensures
        match r {
            Ok(plan) => instruction_plan(*program_id, *id, accounts@, data@) == Ok::<
                SeedPlanView,
                MultisigError,
            >(plan@),
            Err(e) => instruction_plan(*program_id, *id, accounts@, data@) == Err::<
                SeedPlanView,
                MultisigError,
            >(e),
        },
{
    let (instruction, payload) = match route_instruction(program_id, id, data) {
        Ok(routed) => routed,
        Err(e) => {
            return Err(e);
        },
    };
    match instruction {
        MultisigInstructions::InitMultisig => plan_init_multisig(id, accounts, payload),
        MultisigInstructions::UpdateMultisig => Err(MultisigError::InvalidInstructionData),
        MultisigInstructions::CreateProposal => plan_init_transaction(id, accounts, payload),
        MultisigInstructions::Vote => plan_approve(id, accounts, payload),
        MultisigInstructions::CloseProposal => plan_close_proposal(id, accounts),
    }
}

/// Processes a call: selects the operation by the opcode, lets it check the
/// call, and returns what the host is to do.
///
/// `program_id` is the program the call is addressed to and `id` this
/// program's own identity. `derived` holds the addresses that the host
/// derived from the seeds of [`derivation_plan`], and `now` the host's clock.
/// A refused call returns nothing to do.
pub fn process_instruction(
    program_id: &Address,
    id: &Address,
    accounts: &[Account],
    data: &[u8],
    derived: &DerivedAddresses,
    now: u64,
) -> (r: Result<Outcome, MultisigError>)
    ensures
        match r {
            Ok(outcome) => instruction_outcome(
                *program_id,
                *id,
                accounts@,
                data@,
                *derived,
                now,
            ) == Ok::<OutcomeView, MultisigError>(outcome@),
            Err(e) => instruction_outcome(*program_id, *id, accounts@, data@, *derived, now)
                == Err::<OutcomeView, MultisigError>(e),
        },
{
    let (instruction, payload) = match route_instruction(program_id, id, data) {
        Ok(routed) => routed,
        Err(e) => {
            return Err(e);
        },
    };
    match instruction {
        MultisigInstructions::InitMultisig => {
            match process_init_multisig_instruction(id, accounts, payload, derived) {
                Ok(created) => Ok(Outcome::MultisigCreated(created)),
                Err(e) => Err(e),
            }
        },
        MultisigInstructions::UpdateMultisig => Err(MultisigError::InvalidInstructionData),
        MultisigInstructions::CreateProposal => {
            match process_init_transaction_instruction(id, accounts, payload, derived) {
                Ok(created) => Ok(Outcome::TransactionCreated(created)),
                Err(e) => Err(e),
            }
        },
        MultisigInstructions::Vote => {
            match process_approve_instruction(id, accounts, payload, derived, now) {
                Ok(record) => Ok(Outcome::Approved { account: accounts[2].key, record }),
                Err(e) => Err(e),
            }
        },
        MultisigInstructions::CloseProposal => {
            match process_close_proposal_instruction(id, accounts, derived, now) {
                Ok(settled) => Ok(Outcome::Settled(settled)),
                Err(e) => Err(e),
            }
        },
    }
}

} // verus!
