use multisig::instructions::{InitMultisigArgs, InitTransactionArgs};
use multisig::state::{Multisig, MultisigConfig, Transaction};
use multisig::{
    process_approve_instruction, process_close_proposal_instruction,
    process_init_multisig_instruction, process_init_transaction_instruction, Account, Address,
    DerivedAddresses, MultisigError, NewAccount, Settlement,
};

const ID: Address = [200u8; 32];
const SYSTEM: Address = [0u8; 32];
const CREATOR: Address = [11u8; 32];
const GROUP: Address = [12u8; 32];
const CONFIG: Address = [13u8; 32];
const TREASURY: Address = [14u8; 32];
const TRANSFER: Address = [15u8; 32];
const RECEIVER: Address = [16u8; 32];
const OUTSIDER: Address = [17u8; 32];
const T: u64 = 1_700_000_000;

fn member(slot: u8) -> Address {
    [100 + slot; 32]
}

fn account(key: Address, owner: Address, is_signer: bool, data: Vec<u8>) -> Account {
    Account { key, owner, is_signer, data }
}

fn none_derived() -> DerivedAddresses {
    DerivedAddresses { multisig: None, multisig_config: None, treasury: None, transaction: None }
}

fn all_derived() -> DerivedAddresses {
    DerivedAddresses {
        multisig: Some(GROUP),
        multisig_config: Some(CONFIG),
        treasury: Some(TREASURY),
        transaction: Some(TRANSFER),
    }
}

fn init_payload(bump: u8, count: u8, supplied: u8) -> Vec<u8> {
    let mut data = vec![bump, count];
    for slot in 0..supplied {
        data.extend_from_slice(&member(slot));
    }
    data
}

fn init_accounts() -> Vec<Account> {
    vec![
        account(CREATOR, SYSTEM, true, vec![]),
        account(GROUP, SYSTEM, false, vec![]),
        account(CONFIG, SYSTEM, false, vec![]),
        account(TREASURY, SYSTEM, false, vec![]),
    ]
}

fn group_of(n: u8) -> Multisig {
    let members: Vec<Address> = (0..n).map(member).collect();
    Multisig::new(CREATOR, &members, 254).unwrap()
}

fn propose_payload(bump: u8, index: u64, amount: u64, expiry: u64, receiver: Address) -> Vec<u8> {
    let mut data = vec![bump];
    data.extend_from_slice(&index.to_le_bytes());
    data.extend_from_slice(&amount.to_le_bytes());
    data.extend_from_slice(&expiry.to_le_bytes());
    data.extend_from_slice(&receiver);
    data
}

fn propose_accounts() -> Vec<Account> {
    vec![
        account(member(0), SYSTEM, true, vec![]),
        account(GROUP, ID, false, group_of(3).to_bytes()),
        account(TRANSFER, SYSTEM, false, vec![]),
    ]
}

fn proposed_transfer() -> Transaction {
    Transaction::new(1, member(0), T + 100, RECEIVER, 1000, 253)
}

fn approve_accounts(who: Address, transfer: &Transaction) -> Vec<Account> {
    vec![
        account(who, SYSTEM, true, vec![]),
        account(GROUP, ID, false, group_of(3).to_bytes()),
        account(TRANSFER, ID, false, transfer.to_bytes()),
    ]
}

fn config(threshold: u64) -> MultisigConfig {
    MultisigConfig { min_threshold: threshold, max_expiry: 0, proposal_count: 0, bump: 254 }
}

fn close_accounts(transfer: &Transaction, threshold: u64) -> Vec<Account> {
    vec![
        account(OUTSIDER, SYSTEM, true, vec![]),
        account(GROUP, ID, false, group_of(3).to_bytes()),
        account(CONFIG, ID, false, config(threshold).to_bytes()),
        account(TRANSFER, ID, false, transfer.to_bytes()),
        account(TREASURY, SYSTEM, false, vec![]),
        account(RECEIVER, SYSTEM, false, vec![]),
        account(member(0), SYSTEM, false, vec![]),
    ]
}

#[test]
fn init_payload_is_bump_count_members() {
    let args = InitMultisigArgs::parse(&init_payload(9, 2, 2)).unwrap();
    assert_eq!(args.bump, 9);
    assert_eq!(args.members, vec![member(0), member(1)]);
    let none = InitMultisigArgs::parse(&[3, 0]).unwrap();
    assert_eq!(none.bump, 3);
    assert!(none.members.is_empty());
    let mut long = init_payload(9, 1, 1);
    long.extend_from_slice(&[0xEE; 5]);
    assert_eq!(InitMultisigArgs::parse(&long).unwrap().members, vec![member(0)]);
}

#[test]
fn malformed_init_payload_is_refused() {
    assert_eq!(InitMultisigArgs::parse(&[]), Err(MultisigError::InvalidInstructionData));
    assert_eq!(InitMultisigArgs::parse(&[1]), Err(MultisigError::InvalidInstructionData));
    assert_eq!(
        InitMultisigArgs::parse(&init_payload(1, 3, 2)),
        Err(MultisigError::InvalidInstructionData)
    );
    let mut short = init_payload(1, 3, 3);
    short.pop();
    assert_eq!(InitMultisigArgs::parse(&short), Err(MultisigError::InvalidInstructionData));
    assert_eq!(
        InitMultisigArgs::parse(&init_payload(1, 11, 11)),
        Err(MultisigError::InvalidAccountData)
    );
    assert_eq!(InitMultisigArgs::parse(&[1, 11]), Err(MultisigError::InvalidAccountData));
    assert_eq!(InitMultisigArgs::parse(&[1, 255]), Err(MultisigError::InvalidAccountData));
}

#[test]
fn founding_a_group_creates_its_record() {
    let created =
        process_init_multisig_instruction(&ID, &init_accounts(), &init_payload(254, 3, 3), &all_derived())
            .unwrap();
    assert_eq!(created.payer, CREATOR);
    assert_eq!(created.address, GROUP);
    assert_eq!(created.owner, ID);
    assert_eq!(created.space, 354);
    assert_eq!(created.record, group_of(3));
    assert_eq!(created.record.creator(), CREATOR);
    assert_eq!(created.record.num_members(), 3);
    assert_eq!(created.record.bump(), 254);
    assert_eq!(created.record.members()[2], member(2));
    assert_eq!(created.record.members()[3], [0u8; 32]);
    assert_eq!(created.record.to_bytes().len(), created.space);
}

#[test]
fn founding_a_group_without_members_is_allowed() {
    let created =
        process_init_multisig_instruction(&ID, &init_accounts(), &[7, 0], &all_derived()).unwrap();
    assert_eq!(created.record.num_members(), 0);
    assert_eq!(created.record.bump(), 7);
}

#[test]
fn founding_needs_four_accounts() {
    let accounts = init_accounts();
    for n in 0..4 {
        assert_eq!(
            process_init_multisig_instruction(&ID, &accounts[..n], &init_payload(254, 3, 3), &all_derived()),
            Err(MultisigError::NotEnoughAccountKeys)
        );
    }
}

#[test]
fn founding_with_eleven_members_is_invalid_data() {
    assert_eq!(
        process_init_multisig_instruction(&ID, &init_accounts(), &init_payload(254, 11, 11), &all_derived()),
        Err(MultisigError::InvalidAccountData)
    );
    assert_eq!(
        process_init_multisig_instruction(&ID, &init_accounts(), &init_payload(254, 11, 0), &none_derived()),
        Err(MultisigError::InvalidAccountData)
    );
}

#[test]
fn founding_with_the_sentinel_as_a_member_is_invalid_data() {
    let mut payload = vec![254u8, 1];
    payload.extend_from_slice(&[0u8; 32]);
    assert_eq!(payload.len(), 34);
    assert_eq!(InitMultisigArgs::parse(&payload), Err(MultisigError::InvalidAccountData));
    assert_eq!(
        process_init_multisig_instruction(&ID, &init_accounts(), &payload, &all_derived()),
        Err(MultisigError::InvalidAccountData)
    );
    let mut second = init_payload(254, 3, 3);
    for byte in second[2 + 32..2 + 64].iter_mut() {
        *byte = 0;
    }
    assert_eq!(
        process_init_multisig_instruction(&ID, &init_accounts(), &second, &all_derived()),
        Err(MultisigError::InvalidAccountData)
    );
    second[2 + 63] = 1;
    let created =
        process_init_multisig_instruction(&ID, &init_accounts(), &second, &all_derived()).unwrap();
    assert_eq!(created.record.num_members(), 3);
    let mut trailing = init_payload(254, 1, 1);
    trailing.extend_from_slice(&[0u8; 32]);
    assert_eq!(
        process_init_multisig_instruction(&ID, &init_accounts(), &trailing, &all_derived())
            .unwrap()
            .record
            .num_members(),
        1
    );
}

#[test]
fn a_short_payload_is_refused_before_its_members_are_read() {
    let mut short = vec![254u8, 2];
    short.extend_from_slice(&[0u8; 32]);
    assert_eq!(InitMultisigArgs::parse(&short), Err(MultisigError::InvalidInstructionData));
}

#[test]
fn founding_an_owned_group_again_is_refused() {
    let mut accounts = init_accounts();
    accounts[1].owner = ID;
    accounts[1].data = group_of(3).to_bytes();
    let before = accounts.clone();
    assert_eq!(
        process_init_multisig_instruction(&ID, &accounts, &init_payload(254, 3, 3), &all_derived()),
        Err(MultisigError::AccountAlreadyInitialized)
    );
    assert_eq!(
        process_init_multisig_instruction(&ID, &accounts, &init_payload(254, 11, 11), &none_derived()),
        Err(MultisigError::AccountAlreadyInitialized)
    );
    assert_eq!(
        process_init_multisig_instruction(&ID, &accounts, &[], &none_derived()),
        Err(MultisigError::AccountAlreadyInitialized)
    );
    assert_eq!(accounts, before);
}

#[test]
fn founding_checks_every_derived_address() {
    let payload = init_payload(254, 3, 3);
    let mut derived = all_derived();
    derived.multisig = Some(OUTSIDER);
    assert_eq!(
        process_init_multisig_instruction(&ID, &init_accounts(), &payload, &derived),
        Err(MultisigError::AddressMismatch)
    );
    let mut derived = all_derived();
    derived.multisig_config = None;
    assert_eq!(
        process_init_multisig_instruction(&ID, &init_accounts(), &payload, &derived),
        Err(MultisigError::AddressMismatch)
    );
    let mut derived = all_derived();
    derived.treasury = Some(CONFIG);
    assert_eq!(
        process_init_multisig_instruction(&ID, &init_accounts(), &payload, &derived),
        Err(MultisigError::AddressMismatch)
    );
    let mut derived = all_derived();
    derived.transaction = None;
    assert!(process_init_multisig_instruction(&ID, &init_accounts(), &payload, &derived).is_ok());
}

#[test]
fn founding_with_a_short_payload_is_refused() {
    assert_eq!(
        process_init_multisig_instruction(&ID, &init_accounts(), &init_payload(254, 3, 2), &all_derived()),
        Err(MultisigError::InvalidInstructionData)
    );
    assert_eq!(
        process_init_multisig_instruction(&ID, &init_accounts(), &[], &all_derived()),
        Err(MultisigError::InvalidInstructionData)
    );
}

#[test]
fn propose_payload_is_bump_index_amount_expiry_receiver() {
    let args = InitTransactionArgs::parse(&propose_payload(253, 1, 1000, T + 100, RECEIVER)).unwrap();
    assert_eq!(
        args,
        InitTransactionArgs { bump: 253, index: 1, lamports: 1000, expiry: T + 100, receiver: RECEIVER }
    );
    assert_eq!(InitTransactionArgs::LEN, 57);
    let mut raw = vec![5u8];
    raw.extend_from_slice(&[1, 2, 0, 0, 0, 0, 0, 0]);
    raw.extend_from_slice(&[3, 0, 0, 0, 0, 0, 0, 0]);
    raw.extend_from_slice(&[0, 0, 1, 0, 0, 0, 0, 0]);
    raw.extend_from_slice(&[8u8; 32]);
    let args = InitTransactionArgs::parse(&raw).unwrap();
    assert_eq!(args.index, 513);
    assert_eq!(args.lamports, 3);
    assert_eq!(args.expiry, 65_536);
    assert_eq!(args.receiver, [8u8; 32]);
    raw.pop();
    assert_eq!(InitTransactionArgs::parse(&raw), Err(MultisigError::InvalidInstructionData));
    assert_eq!(InitTransactionArgs::parse(&[]), Err(MultisigError::InvalidInstructionData));
}

#[test]
fn proposing_creates_a_fresh_transfer() {
    let created = process_init_transaction_instruction(
        &ID,
        &propose_accounts(),
        &propose_payload(253, 1, 1000, T + 100, RECEIVER),
        &all_derived(),
    )
    .unwrap();
    assert_eq!(
        created,
        NewAccount { payer: member(0), address: TRANSFER, owner: ID, space: 101, record: proposed_transfer() }
    );
    assert_eq!(created.record.num_approvals(), 0);
    assert_eq!(created.record.approvals(), [false; 10]);
    assert!(!created.record.executed());
    assert_eq!(created.record.index(), 1);
    assert_eq!(created.record.lamports(), 1000);
    assert_eq!(created.record.expiry(), T + 100);
    assert_eq!(created.record.receiver(), RECEIVER);
    assert_eq!(created.record.proposer(), member(0));
    assert_eq!(created.record.bump(), 253);
}

#[test]
fn proposing_is_refused_for_each_failed_check() {
    let payload = propose_payload(253, 1, 1000, T + 100, RECEIVER);
    let accounts = propose_accounts();
    assert_eq!(
        process_init_transaction_instruction(&ID, &accounts[..2], &payload, &all_derived()),
        Err(MultisigError::NotEnoughAccountKeys)
    );
    let mut owned = propose_accounts();
    owned[2].owner = ID;
    assert_eq!(
        process_init_transaction_instruction(&ID, &owned, &payload, &all_derived()),
        Err(MultisigError::AccountAlreadyInitialized)
    );
    assert_eq!(
        process_init_transaction_instruction(&ID, &owned, &[], &none_derived()),
        Err(MultisigError::AccountAlreadyInitialized)
    );
    assert_eq!(
        process_init_transaction_instruction(&ID, &accounts, &payload[..56], &all_derived()),
        Err(MultisigError::InvalidInstructionData)
    );
    assert_eq!(
        process_init_transaction_instruction(&ID, &accounts, &payload, &none_derived()),
        Err(MultisigError::AddressMismatch)
    );
    let mut derived = all_derived();
    derived.transaction = Some(GROUP);
    assert_eq!(
        process_init_transaction_instruction(&ID, &accounts, &payload, &derived),
        Err(MultisigError::AddressMismatch)
    );
}

#[test]
fn approving_registers_the_member() {
    let transfer = proposed_transfer();
    let record =
        process_approve_instruction(&ID, &approve_accounts(member(1), &transfer), &[1], &all_derived(), T)
            .unwrap();
    assert_eq!(record.num_approvals(), 1);
    assert!(record.approvals()[1]);
    let mut expected = transfer;
    expected.approve(1).unwrap();
    assert_eq!(record, expected);
}

#[test]
fn approving_again_changes_nothing() {
    let transfer = proposed_transfer();
    let once =
        process_approve_instruction(&ID, &approve_accounts(member(1), &transfer), &[1], &all_derived(), T)
            .unwrap();
    let twice =
        process_approve_instruction(&ID, &approve_accounts(member(1), &once), &[1], &all_derived(), T + 1)
            .unwrap();
    assert_eq!(twice, once);
    assert_eq!(twice.num_approvals(), 1);
    assert_eq!(twice.to_bytes(), once.to_bytes());
}

#[test]
fn approving_is_allowed_until_the_expiry_time() {
    let transfer = proposed_transfer();
    let accounts = approve_accounts(member(0), &transfer);
    assert!(process_approve_instruction(&ID, &accounts, &[0], &all_derived(), T + 100).is_ok());
    assert_eq!(
        process_approve_instruction(&ID, &accounts, &[0], &all_derived(), T + 101),
        Err(MultisigError::Expired)
    );
}

#[test]
fn approving_with_the_wrong_identity_is_an_authorization_mismatch() {
    let members: Vec<Address> = (0..6).map(member).collect();
    let group = Multisig::new(CREATOR, &members, 254).unwrap();
    let transfer = proposed_transfer();
    let mut accounts = approve_accounts(OUTSIDER, &transfer);
    accounts[1].data = group.to_bytes();
    assert_eq!(
        process_approve_instruction(&ID, &accounts, &[5], &all_derived(), T),
        Err(MultisigError::AuthorizationMismatch)
    );
    accounts[0].key = member(4);
    assert_eq!(
        process_approve_instruction(&ID, &accounts, &[5], &all_derived(), T),
        Err(MultisigError::AuthorizationMismatch)
    );
    assert_eq!(Transaction::from_account_info(&accounts[2]).unwrap().num_approvals(), 0);
    accounts[0].key = member(5);
    assert_eq!(
        process_approve_instruction(&ID, &accounts, &[5], &all_derived(), T).unwrap().num_approvals(),
        1
    );
}

#[test]
fn approving_for_a_slot_that_is_not_held_is_refused() {
    let transfer = proposed_transfer();
    let accounts = approve_accounts(member(0), &transfer);
    assert_eq!(
        process_approve_instruction(&ID, &accounts, &[3], &all_derived(), T),
        Err(MultisigError::InvalidArgument)
    );
    assert_eq!(
        process_approve_instruction(&ID, &accounts, &[10], &all_derived(), T),
        Err(MultisigError::InvalidArgument)
    );
    assert_eq!(
        process_approve_instruction(&ID, &accounts, &[255], &all_derived(), T),
        Err(MultisigError::InvalidArgument)
    );
    let sentinel = approve_accounts([0u8; 32], &transfer);
    assert_eq!(
        process_approve_instruction(&ID, &sentinel, &[3], &all_derived(), T),
        Err(MultisigError::InvalidArgument)
    );
}

#[test]
fn approving_needs_the_members_signature() {
    let transfer = proposed_transfer();
    let mut accounts = approve_accounts(member(2), &transfer);
    accounts[0].is_signer = false;
    assert_eq!(
        process_approve_instruction(&ID, &accounts, &[2], &all_derived(), T),
        Err(MultisigError::MissingRequiredSignature)
    );
}

#[test]
fn approving_an_executed_transfer_is_a_replay() {
    let mut transfer = proposed_transfer();
    transfer.approve(0).unwrap();
    transfer.approve(1).unwrap();
    transfer.execute(2, T).unwrap();
    let accounts = approve_accounts(member(2), &transfer);
    assert_eq!(
        process_approve_instruction(&ID, &accounts, &[2], &all_derived(), T),
        Err(MultisigError::AlreadyExecuted)
    );
    assert_eq!(
        process_approve_instruction(&ID, &accounts, &[2], &all_derived(), T + 1000),
        Err(MultisigError::AlreadyExecuted)
    );
}

#[test]
fn approving_checks_accounts_before_state() {
    let transfer = proposed_transfer();
    let good = approve_accounts(member(1), &transfer);
    assert_eq!(
        process_approve_instruction(&ID, &good[..2], &[1], &all_derived(), T),
        Err(MultisigError::NotEnoughAccountKeys)
    );
    assert_eq!(
        process_approve_instruction(&ID, &good, &[], &all_derived(), T),
        Err(MultisigError::InvalidInstructionData)
    );
    let mut foreign = good.clone();
    foreign[1].owner = SYSTEM;
    assert_eq!(
        process_approve_instruction(&ID, &foreign, &[1], &all_derived(), T),
        Err(MultisigError::InvalidAccountOwner)
    );
    let mut foreign = good.clone();
    foreign[2].owner = OUTSIDER;
    assert_eq!(
        process_approve_instruction(&ID, &foreign, &[1], &all_derived(), T),
        Err(MultisigError::InvalidAccountOwner)
    );
    let mut short = good.clone();
    short[1].data.truncate(353);
    assert_eq!(
        process_approve_instruction(&ID, &short, &[1], &all_derived(), T),
        Err(MultisigError::InvalidAccountData)
    );
    let mut corrupt = good.clone();
    corrupt[2].data[50] = 4;
    assert_eq!(
        process_approve_instruction(&ID, &corrupt, &[1], &all_derived(), T),
        Err(MultisigError::InvalidAccountData)
    );
    let mut derived = all_derived();
    derived.transaction = Some(OUTSIDER);
    assert_eq!(
        process_approve_instruction(&ID, &good, &[1], &derived, T),
        Err(MultisigError::AddressMismatch)
    );
    let mut derived = all_derived();
    derived.multisig = None;
    assert_eq!(
        process_approve_instruction(&ID, &good, &[1], &derived, T),
        Err(MultisigError::AddressMismatch)
    );
}

#[test]
fn quorum_then_execute_then_replay() {
    let created = process_init_transaction_instruction(
        &ID,
        &propose_accounts(),
        &propose_payload(253, 1, 1000, T + 100, RECEIVER),
        &all_derived(),
    )
    .unwrap();
    let proposed = created.record;

    let after_first =
        process_approve_instruction(&ID, &approve_accounts(member(0), &proposed), &[0], &all_derived(), T + 1)
            .unwrap();
    assert_eq!(after_first.num_approvals(), 1);
    assert_eq!(
        process_close_proposal_instruction(&ID, &close_accounts(&after_first, 2), &all_derived(), T + 2),
        Err(MultisigError::QuorumNotReached)
    );

    let after_second = process_approve_instruction(
        &ID,
        &approve_accounts(member(1), &after_first),
        &[1],
        &all_derived(),
        T + 3,
    )
    .unwrap();
    assert_eq!(after_second.num_approvals(), 2);

    let settled =
        process_close_proposal_instruction(&ID, &close_accounts(&after_second, 2), &all_derived(), T + 99)
            .unwrap();
    let executed = match settled {
        Settlement::Executed { record, account, from, to, lamports } => {
            assert_eq!(account, TRANSFER);
            assert_eq!(from, TREASURY);
            assert_eq!(to, RECEIVER);
            assert_eq!(lamports, 1000);
            assert!(record.executed());
            assert_eq!(record.num_approvals(), 2);
            record
        }
        Settlement::Closed { .. } => panic!("a transfer with quorum is executed, not closed"),
    };

    assert_eq!(
        process_close_proposal_instruction(&ID, &close_accounts(&executed, 2), &all_derived(), T + 99),
        Err(MultisigError::AlreadyExecuted)
    );
    assert_eq!(
        process_close_proposal_instruction(&ID, &close_accounts(&executed, 2), &all_derived(), T + 500),
        Err(MultisigError::AlreadyExecuted)
    );
    assert_eq!(
        process_approve_instruction(&ID, &approve_accounts(member(2), &executed), &[2], &all_derived(), T + 4),
        Err(MultisigError::AlreadyExecuted)
    );
}

#[test]
fn expired_without_approvals_is_closed_not_executed() {
    let mut proposed = proposed_transfer();
    assert_eq!(proposed.execute(2, T + 101), Err(MultisigError::Expired));
    assert!(!proposed.executed());
    let settled =
        process_close_proposal_instruction(&ID, &close_accounts(&proposed, 2), &all_derived(), T + 101)
            .unwrap();
    assert_eq!(settled, Settlement::Closed { account: TRANSFER, refund_to: member(0) });
}

#[test]
fn expired_with_quorum_is_neither_executed_nor_closed() {
    let mut transfer = proposed_transfer();
    transfer.approve(0).unwrap();
    transfer.approve(2).unwrap();
    assert_eq!(
        process_close_proposal_instruction(&ID, &close_accounts(&transfer, 2), &all_derived(), T + 101),
        Err(MultisigError::Expired)
    );
    assert!(
        process_close_proposal_instruction(&ID, &close_accounts(&transfer, 2), &all_derived(), T + 100)
            .is_ok()
    );
}

#[test]
fn the_threshold_is_read_from_the_configuration() {
    let mut transfer = proposed_transfer();
    transfer.approve(0).unwrap();
    assert_eq!(
        process_close_proposal_instruction(&ID, &close_accounts(&transfer, 2), &all_derived(), T),
        Err(MultisigError::QuorumNotReached)
    );
    assert!(matches!(
        process_close_proposal_instruction(&ID, &close_accounts(&transfer, 1), &all_derived(), T),
        Ok(Settlement::Executed { .. })
    ));
    assert!(matches!(
        process_close_proposal_instruction(&ID, &close_accounts(&transfer, 2), &all_derived(), T + 101),
        Ok(Settlement::Closed { .. })
    ));
}

#[test]
fn settling_checks_accounts_before_state() {
    let mut transfer = proposed_transfer();
    transfer.approve(0).unwrap();
    transfer.approve(1).unwrap();
    let good = close_accounts(&transfer, 2);
    assert_eq!(
        process_close_proposal_instruction(&ID, &good[..6], &all_derived(), T),
        Err(MultisigError::NotEnoughAccountKeys)
    );
    for owned in [1usize, 2, 3] {
        let mut foreign = good.clone();
        foreign[owned].owner = SYSTEM;
        assert_eq!(
            process_close_proposal_instruction(&ID, &foreign, &all_derived(), T),
            Err(MultisigError::InvalidAccountOwner)
        );
    }
    for (index, len) in [(1usize, 353usize), (2, 24), (3, 100)] {
        let mut short = good.clone();
        short[index].data.truncate(len);
        assert_eq!(
            process_close_proposal_instruction(&ID, &short, &all_derived(), T),
            Err(MultisigError::InvalidAccountData)
        );
    }
    let mut derived = all_derived();
    derived.multisig = Some(OUTSIDER);
    assert_eq!(
        process_close_proposal_instruction(&ID, &good, &derived, T),
        Err(MultisigError::AddressMismatch)
    );
    let mut derived = all_derived();
    derived.multisig_config = None;
    assert_eq!(
        process_close_proposal_instruction(&ID, &good, &derived, T),
        Err(MultisigError::AddressMismatch)
    );
    let mut derived = all_derived();
    derived.treasury = Some(RECEIVER);
    assert_eq!(
        process_close_proposal_instruction(&ID, &good, &derived, T),
        Err(MultisigError::AddressMismatch)
    );
    let mut derived = all_derived();
    derived.transaction = None;
    assert_eq!(
        process_close_proposal_instruction(&ID, &good, &derived, T),
        Err(MultisigError::AddressMismatch)
    );
    let mut wrong_receiver = good.clone();
    wrong_receiver[5].key = OUTSIDER;
    assert_eq!(
        process_close_proposal_instruction(&ID, &wrong_receiver, &all_derived(), T),
        Err(MultisigError::AddressMismatch)
    );
    let mut wrong_proposer = good.clone();
    wrong_proposer[6].key = OUTSIDER;
    assert_eq!(
        process_close_proposal_instruction(&ID, &wrong_proposer, &all_derived(), T),
        Err(MultisigError::AddressMismatch)
    );
    assert!(process_close_proposal_instruction(&ID, &good, &all_derived(), T).is_ok());
}
