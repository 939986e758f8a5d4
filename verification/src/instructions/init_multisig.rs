//! Founding a group.

use vstd::prelude::*;
use crate::account::Account;
use crate::address::{
    address_bytes, address_eq, is_empty_address, read_address, spec_empty_address, Address,
};
use crate::error::MultisigError;
use crate::instructions::{DerivedAddresses, NewAccount};
use crate::seeds::{is_derived, verify_address};
use crate::state::multisig::{members_at, none_empty, Multisig, MultisigView};
use crate::state::transaction::MAX_MEMBERS;

verus! {

/// The mathematical content of the payload that founds a group.
pub struct InitMultisigArgsView {
    pub bump: u8,
    pub members: Seq<Seq<u8>>,
}

/// The payload that founds a group: the bump of the group's address and the
/// member identities in slot order.
#[derive(Clone, Debug, PartialEq, Eq)]
pub struct InitMultisigArgs {
    pub bump: u8,
    pub members: Vec<Address>,
}

impl View for InitMultisigArgs {
    type V = InitMultisigArgsView;

    open spec fn view(&self) -> InitMultisigArgsView {
        InitMultisigArgsView { bump: self.bump, members: address_bytes(self.members@) }
    }
}

impl InitMultisigArgs {
    /// What the bytes `[bump:1][member_count:1][member_identity:32]` times
    /// `member_count` decode to. Fewer than two bytes, or fewer identities
    /// than the count announces, are invalid instruction data; a count above
    /// ten is invalid account data, whatever else the payload holds; and so
    /// is a supplied identity that is the sentinel, which stands for a slot
    /// nobody holds. Bytes after the last identity are not read.
    pub open spec fn decode(data: Seq<u8>) -> Result<InitMultisigArgsView, MultisigError> {
        if data.len() < 2 {
            Err(MultisigError::InvalidInstructionData)
        } else if data[1] > MAX_MEMBERS {
            Err(MultisigError::InvalidAccountData)
        } else if data.len() < 2 + 32 * data[1] {
            Err(MultisigError::InvalidInstructionData)
        } else if !none_empty(members_at(data, 2, data[1] as nat)) {
            Err(MultisigError::InvalidAccountData)
        } else {
            Ok(InitMultisigArgsView { bump: data[0], members: members_at(data, 2, data[1] as nat) })
        }
    }

    /// Decodes the payload that founds a group.
    pub fn parse(data: &[u8]) -> (r: Result<InitMultisigArgs, MultisigError>)
        ensures
            match r {
                Ok(args) => Self::decode(data@) == Ok::<InitMultisigArgsView, MultisigError>(
                    args@,
                ),
                Err(e) => Self::decode(data@) == Err::<InitMultisigArgsView, MultisigError>(e),
            },
    {
        if data.len() < 2 {
            return Err(MultisigError::InvalidInstructionData);
        }
        let bump = data[0];
        let count = data[1] as usize;
        if count > MAX_MEMBERS {
            return Err(MultisigError::InvalidAccountData);
        }
        if data.len() < 2 + 32 * count {
            return Err(MultisigError::InvalidInstructionData);
        }
        let mut members: Vec<Address> = Vec::with_capacity(count);
        let mut i: usize = 0;
        while i < count
            invariant
                i <= count <= MAX_MEMBERS,
                count == data@[1],
                data.len() >= 2 + 32 * count,
                members@.len() == i,
                forall|j: int| 0 <= j < i ==> (#[trigger] members@[j])@ == members_at(
                    data@,
                    2,
                    count as nat,
                )[j],
                forall|j: int|
                    0 <= j < i ==> #[trigger] members_at(data@, 2, count as nat)[j]
                        != spec_empty_address(),
            decreases count - i,
        {
            let member = read_address(data, 2 + 32 * i);
            if is_empty_address(&member) {
                assert(members_at(data@, 2, count as nat)[i as int] == spec_empty_address());
                return Err(MultisigError::InvalidAccountData);
            }
            members.push(member);
            i += 1;
        }
        proof {
            assert(address_bytes(members@) =~= members_at(data@, 2, count as nat));
        }
        Ok(InitMultisigArgs { bump, members })
    }
}

/// What founding a group comes to.
///
/// The accounts are, in order, the creator, the group account to create,
/// the group's configuration account and the group's treasury. The checks
/// are made in this order, and the first that fails decides the error:
/// fewer than four accounts; a group account that this program already owns;
/// an invalid payload, which includes one that supplies the sentinel
/// identity as a member; an address of the group, its configuration or its
/// treasury that the host did not derive. Otherwise the outcome is the
/// group account to create: paid for by the creator, owned by this program,
/// of the size of a group record, and holding the record of the founded
/// group.
pub open spec fn init_multisig_outcome(
    id: Address,
    accounts: Seq<Account>,
    data: Seq<u8>,
    derived: DerivedAddresses,
) -> Result<NewAccount<MultisigView>, MultisigError> {
    if accounts.len() < 4 {
        Err(MultisigError::NotEnoughAccountKeys)
    } else if accounts[1].owner == id {
        Err(MultisigError::AccountAlreadyInitialized)
    } else {
        match InitMultisigArgs::decode(data) {
            Err(e) => Err(e),
            Ok(args) => if is_derived(accounts[1].key@, derived.multisig) && is_derived(
                accounts[2].key@,
                derived.multisig_config,
            ) && is_derived(accounts[3].key@, derived.treasury) {
                Ok(
                    NewAccount {
                        payer: accounts[0].key,
                        address: accounts[1].key,
                        owner: id,
                        space: Multisig::LEN,
                        record: MultisigView::founded(accounts[0].key@, args.members, args.bump),
                    },
                )
            } else {
                Err(MultisigError::AddressMismatch)
            },
        }
    }
}

/// A group account that this program already owns is never founded again:
/// the call is refused as already initialised, whatever the payload and
/// whatever the host derived, and so nothing is created or stored.
pub proof fn lemma_owned_group_is_not_founded(
    id: Address,
    accounts: Seq<Account>,
    data: Seq<u8>,
    derived: DerivedAddresses,
)
    requires
        accounts.len() >= 4,
        accounts[1].owner == id,
    ensures
        init_multisig_outcome(id, accounts, data, derived) == Err::<
            NewAccount<MultisigView>,
            MultisigError,
        >(MultisigError::AccountAlreadyInitialized),
{
}

/// A payload that announces more than ten members founds nothing: unless
/// the call fails earlier, for too few accounts or a group account that is
/// already owned, it is refused as invalid account data.
pub proof fn lemma_too_many_members(
    id: Address,
    accounts: Seq<Account>,
    data: Seq<u8>,
    derived: DerivedAddresses,
)
    requires
        data.len() >= 2,
        data[1] > MAX_MEMBERS,
    ensures
        init_multisig_outcome(id, accounts, data, derived) is Err,
        accounts.len() >= 4 && accounts[1].owner != id ==> init_multisig_outcome(
            id,
            accounts,
            data,
            derived,
        ) == Err::<NewAccount<MultisigView>, MultisigError>(MultisigError::InvalidAccountData),
{
}

/// A payload that supplies the sentinel identity as a member founds
/// nothing: unless the call fails earlier, for too few accounts or a group
/// account that is already owned, it is refused as invalid account data.
pub proof fn lemma_sentinel_member_is_refused(
    id: Address,
    accounts: Seq<Account>,
    data: Seq<u8>,
    derived: DerivedAddresses,
    slot: int,
)
    requires
        data.len() >= 2,
        data[1] <= MAX_MEMBERS,
        data.len() >= 2 + 32 * data[1],
        0 <= slot < data[1],
        data.subrange(2 + 32 * slot, 2 + 32 * slot + 32) == spec_empty_address(),
    ensures
        init_multisig_outcome(id, accounts, data, derived) is Err,
        accounts.len() >= 4 && accounts[1].owner != id ==> init_multisig_outcome(
            id,
            accounts,
            data,
            derived,
        ) == Err::<NewAccount<MultisigView>, MultisigError>(MultisigError::InvalidAccountData),
{
    assert(members_at(data, 2, data[1] as nat)[slot] == spec_empty_address());
}

/// In the record of every founded group a slot has another identity than
/// the sentinel exactly when it is held: the member count is the number of
/// members supplied, and the number of slots that are not the sentinel.
pub proof fn lemma_founded_record_counts_its_members(
    id: Address,
    accounts: Seq<Account>,
    data: Seq<u8>,
    derived: DerivedAddresses,
)
    requires
        init_multisig_outcome(id, accounts, data, derived) is Ok,
    ensures
        ({
            let record = init_multisig_outcome(id, accounts, data, derived)->Ok_0.record;
            &&& record.wf()
            &&& record.num_members == data[1]
            &&& forall|i: int|
                0 <= i < MAX_MEMBERS ==> (#[trigger] record.members[i] != spec_empty_address())
                    == (i < record.num_members)
            &&& crate::state::transaction::tally(record.populated()) == record.num_members
        }),
{
    let args = InitMultisigArgs::decode(data)->Ok_0;
    crate::state::multisig::lemma_founded(accounts[0].key@, args.members, args.bump);
    crate::state::multisig::lemma_populated_slots(
        init_multisig_outcome(id, accounts, data, derived)->Ok_0.record,
    );
}

/// Founds a group: checks the call and returns the account to create for
/// the group record.
///
/// `id` is this program's own identity. `derived` holds what the host
/// derived from the seeds of the group (below the creator), of its
/// configuration and of its treasury (both below the group), each with the
/// bump of the payload. Nothing is created unless every check has passed.
pub fn process_init_multisig_instruction(
    id: &Address,
    accounts: &[Account],
    data: &[u8],
    derived: &DerivedAddresses,
) -> (r: Result<NewAccount<Multisig>, MultisigError>)
    ensures
        match r {
            Ok(created) => init_multisig_outcome(*id, accounts@, data@, *derived) == Ok::<
                NewAccount<MultisigView>,
                MultisigError,
            >(created@) && created.record@.wf(),
            Err(e) => init_multisig_outcome(*id, accounts@, data@, *derived) == Err::<
                NewAccount<MultisigView>,
                MultisigError,
            >(e),
        },
{
    if accounts.len() < 4 {
        return Err(MultisigError::NotEnoughAccountKeys);
    }
    let creator = &accounts[0];
    let multisig = &accounts[1];
    let multisig_config = &accounts[2];
    let treasury = &accounts[3];
    if address_eq(&multisig.owner, id) {
        return Err(MultisigError::AccountAlreadyInitialized);
    }
    let args = match InitMultisigArgs::parse(data) {
        Ok(args) => args,
        Err(e) => {
            return Err(e);
        },
    };
    if verify_address(&multisig.key, &derived.multisig).is_err() {
        return Err(MultisigError::AddressMismatch);
    }
    if verify_address(&multisig_config.key, &derived.multisig_config).is_err() {
        return Err(MultisigError::AddressMismatch);
    }
    if verify_address(&treasury.key, &derived.treasury).is_err() {
        return Err(MultisigError::AddressMismatch);
    }
    match Multisig::new(creator.key, args.members.as_slice(), args.bump) {
        Ok(record) => Ok(
            NewAccount {
                payer: creator.key,
                address: multisig.key,
                owner: *id,
                space: Multisig::LEN,
                record,
            },
        ),
        Err(e) => Err(e),
    }
}

} // verus!
