use multisig::seeds::{
    multisig_config_seeds, multisig_seeds, transaction_seeds, treasury_seeds,
};
use multisig::state::{Multisig, MultisigConfig, Transaction};
use multisig::{
    derivation_plan, process_instruction, route_instruction, Account, Address, DerivedAddresses,
    MultisigError, MultisigInstructions, Outcome, SeedPlan, Settlement,
};

const ID: Address = [200u8; 32];
const SYSTEM: Address = [0u8; 32];
const CREATOR: Address = [11u8; 32];
const GROUP: Address = [12u8; 32];
const CONFIG: Address = [13u8; 32];
const TREASURY: Address = [14u8; 32];
const TRANSFER: Address = [15u8; 32];
const RECEIVER: Address = [16u8; 32];
const PROPOSER: Address = [18u8; 32];

fn account(key: Address, owner: Address, is_signer: bool, data: Vec<u8>) -> Account {
    Account { key, owner, is_signer, data }
}

fn derived() -> DerivedAddresses {
    DerivedAddresses {
        multisig: Some(GROUP),
        multisig_config: Some(CONFIG),
        treasury: Some(TREASURY),
        transaction: Some(TRANSFER),
    }
}

fn group() -> Multisig {
    Multisig::new(CREATOR, &[[1u8; 32], [2u8; 32], [3u8; 32]], 254).unwrap()
}

fn transfer() -> Transaction {
    Transaction::new(7, PROPOSER, 500, RECEIVER, 1000, 253)
}

fn init_accounts() -> Vec<Account> {
    vec![
        account(CREATOR, SYSTEM, true, vec![]),
        account(GROUP, SYSTEM, false, vec![]),
        account(CONFIG, SYSTEM, false, vec![]),
        account(TREASURY, SYSTEM, false, vec![]),
    ]
}

fn init_data() -> Vec<u8> {
    let mut data = vec![0u8, 254, 3];
    data.extend_from_slice(&[1u8; 32]);
    data.extend_from_slice(&[2u8; 32]);
    data.extend_from_slice(&[3u8; 32]);
    data
}

fn propose_accounts() -> Vec<Account> {
    vec![
        account(PROPOSER, SYSTEM, true, vec![]),
        account(GROUP, ID, false, group().to_bytes()),
        account(TRANSFER, SYSTEM, false, vec![]),
    ]
}

fn propose_data() -> Vec<u8> {
    let mut data = vec![2u8, 253];
    data.extend_from_slice(&7u64.to_le_bytes());
    data.extend_from_slice(&1000u64.to_le_bytes());
    data.extend_from_slice(&500u64.to_le_bytes());
    data.extend_from_slice(&RECEIVER);
    data
}

fn vote_accounts(record: &Transaction) -> Vec<Account> {
    vec![
        account([2u8; 32], SYSTEM, true, vec![]),
        account(GROUP, ID, false, group().to_bytes()),
        account(TRANSFER, ID, false, record.to_bytes()),
    ]
}

fn close_accounts(record: &Transaction) -> Vec<Account> {
    let config = MultisigConfig { min_threshold: 1, max_expiry: 0, proposal_count: 0, bump: 254 };
    vec![
        account([99u8; 32], SYSTEM, true, vec![]),
        account(GROUP, ID, false, group().to_bytes()),
        account(CONFIG, ID, false, config.to_bytes()),
        account(TRANSFER, ID, false, record.to_bytes()),
        account(TREASURY, SYSTEM, false, vec![]),
        account(RECEIVER, SYSTEM, false, vec![]),
        account(PROPOSER, SYSTEM, false, vec![]),
    ]
}

#[test]
fn opcodes_select_the_operations() {
    assert_eq!(MultisigInstructions::try_from(&0), Ok(MultisigInstructions::InitMultisig));
    assert_eq!(MultisigInstructions::try_from(&1), Ok(MultisigInstructions::UpdateMultisig));
    assert_eq!(MultisigInstructions::try_from(&2), Ok(MultisigInstructions::CreateProposal));
    assert_eq!(MultisigInstructions::try_from(&3), Ok(MultisigInstructions::Vote));
    assert_eq!(MultisigInstructions::try_from(&4), Ok(MultisigInstructions::CloseProposal));
    assert_eq!(MultisigInstructions::try_from(&5), Err(MultisigError::InvalidInstructionData));
    assert_eq!(MultisigInstructions::try_from(&255), Err(MultisigError::InvalidInstructionData));
    for opcode in 0u8..5 {
        assert_eq!(MultisigInstructions::try_from(&opcode).unwrap().opcode(), opcode);
    }
}

#[test]
fn routing_splits_opcode_and_payload() {
    let data = [3u8, 9, 8, 7];
    assert_eq!(route_instruction(&ID, &ID, &data), Ok((MultisigInstructions::Vote, &data[1..])));
    let only = [4u8];
    let (instruction, payload) = route_instruction(&ID, &ID, &only).unwrap();
    assert_eq!(instruction, MultisigInstructions::CloseProposal);
    assert!(payload.is_empty());
}

#[test]
fn routing_refuses_what_it_cannot_route() {
    assert_eq!(route_instruction(&SYSTEM, &ID, &[0, 1]), Err(MultisigError::IncorrectProgramId));
    assert_eq!(route_instruction(&SYSTEM, &ID, &[]), Err(MultisigError::IncorrectProgramId));
    assert_eq!(route_instruction(&ID, &ID, &[]), Err(MultisigError::InvalidAccountData));
    assert_eq!(route_instruction(&ID, &ID, &[5]), Err(MultisigError::InvalidInstructionData));
    assert_eq!(route_instruction(&ID, &ID, &[200, 0]), Err(MultisigError::InvalidInstructionData));
}

#[test]
fn opcode_zero_founds_a_group() {
    let outcome = process_instruction(&ID, &ID, &init_accounts(), &init_data(), &derived(), 0).unwrap();
    match outcome {
        Outcome::MultisigCreated(created) => {
            assert_eq!(created.address, GROUP);
            assert_eq!(created.payer, CREATOR);
            assert_eq!(created.record, group());
        }
        _ => panic!("opcode 0 founds a group"),
    }
}

#[test]
fn opcode_one_is_not_an_operation() {
    assert_eq!(
        process_instruction(&ID, &ID, &init_accounts(), &[1, 0, 0], &derived(), 0),
        Err(MultisigError::InvalidInstructionData)
    );
    assert_eq!(
        derivation_plan(&ID, &ID, &init_accounts(), &[1, 0, 0]),
        Err(MultisigError::InvalidInstructionData)
    );
}

#[test]
fn opcode_two_proposes_a_transfer() {
    let outcome =
        process_instruction(&ID, &ID, &propose_accounts(), &propose_data(), &derived(), 0).unwrap();
    match outcome {
        Outcome::TransactionCreated(created) => {
            assert_eq!(created.address, TRANSFER);
            assert_eq!(created.payer, PROPOSER);
            assert_eq!(created.record, transfer());
        }
        _ => panic!("opcode 2 proposes a transfer"),
    }
}

#[test]
fn opcode_three_approves() {
    let outcome =
        process_instruction(&ID, &ID, &vote_accounts(&transfer()), &[3, 1], &derived(), 500).unwrap();
    let mut expected = transfer();
    expected.approve(1).unwrap();
    assert_eq!(outcome, Outcome::Approved { account: TRANSFER, record: expected });
    assert_eq!(
        process_instruction(&ID, &ID, &vote_accounts(&transfer()), &[3, 1], &derived(), 501),
        Err(MultisigError::Expired)
    );
    assert_eq!(
        process_instruction(&ID, &ID, &vote_accounts(&transfer()), &[3], &derived(), 500),
        Err(MultisigError::InvalidInstructionData)
    );
}

#[test]
fn opcode_four_settles() {
    let mut approved = transfer();
    approved.approve(0).unwrap();
    let outcome =
        process_instruction(&ID, &ID, &close_accounts(&approved), &[4], &derived(), 10).unwrap();
    let mut executed = approved;
    executed.execute(1, 10).unwrap();
    assert_eq!(
        outcome,
        Outcome::Settled(Settlement::Executed {
            record: executed,
            account: TRANSFER,
            from: TREASURY,
            to: RECEIVER,
            lamports: 1000,
        })
    );
    assert_eq!(
        process_instruction(&ID, &ID, &close_accounts(&transfer()), &[4], &derived(), 501),
        Ok(Outcome::Settled(Settlement::Closed { account: TRANSFER, refund_to: PROPOSER }))
    );
}

#[test]
fn a_call_for_another_program_is_refused() {
    assert_eq!(
        process_instruction(&SYSTEM, &ID, &init_accounts(), &init_data(), &derived(), 0),
        Err(MultisigError::IncorrectProgramId)
    );
    assert_eq!(
        derivation_plan(&SYSTEM, &ID, &init_accounts(), &init_data()),
        Err(MultisigError::IncorrectProgramId)
    );
}

#[test]
fn a_call_without_an_opcode_is_refused() {
    assert_eq!(
        process_instruction(&ID, &ID, &init_accounts(), &[], &derived(), 0),
        Err(MultisigError::InvalidAccountData)
    );
    assert_eq!(
        process_instruction(&ID, &ID, &init_accounts(), &[9], &derived(), 0),
        Err(MultisigError::InvalidInstructionData)
    );
}

#[test]
fn the_plan_names_the_seeds_of_each_operation() {
    assert_eq!(
        derivation_plan(&ID, &ID, &init_accounts(), &init_data()),
        Ok(SeedPlan {
            multisig: Some(multisig_seeds(&CREATOR, 254)),
            multisig_config: Some(multisig_config_seeds(&GROUP, 254)),
            treasury: Some(treasury_seeds(&GROUP, 254)),
            transaction: None,
        })
    );
    assert_eq!(
        derivation_plan(&ID, &ID, &propose_accounts(), &propose_data()),
        Ok(SeedPlan {
            multisig: None,
            multisig_config: None,
            treasury: None,
            transaction: Some(transaction_seeds(&GROUP, 7, 253)),
        })
    );
    assert_eq!(
        derivation_plan(&ID, &ID, &vote_accounts(&transfer()), &[3, 0]),
        Ok(SeedPlan {
            multisig: Some(multisig_seeds(&CREATOR, 254)),
            multisig_config: None,
            treasury: None,
            transaction: Some(transaction_seeds(&GROUP, 7, 253)),
        })
    );
    assert_eq!(
        derivation_plan(&ID, &ID, &close_accounts(&transfer()), &[4]),
        Ok(SeedPlan {
            multisig: Some(multisig_seeds(&CREATOR, 254)),
            multisig_config: Some(multisig_config_seeds(&GROUP, 254)),
            treasury: Some(treasury_seeds(&GROUP, 254)),
            transaction: Some(transaction_seeds(&GROUP, 7, 253)),
        })
    );
}

#[test]
fn a_call_refused_by_the_plan_is_refused_alike_when_processed() {
    let mut owned = init_accounts();
    owned[1].owner = ID;
    let mut foreign = vote_accounts(&transfer());
    foreign[2].owner = SYSTEM;
    let mut corrupt = close_accounts(&transfer());
    corrupt[3].data[51] = 7;
    let cases: Vec<(Vec<Account>, Vec<u8>)> = vec![
        (init_accounts()[..3].to_vec(), init_data()),
        (owned, init_data()),
        (init_accounts(), vec![0, 254, 11]),
        (init_accounts(), vec![0, 254, 3, 1]),
        (init_accounts(), {
            let mut data = vec![0u8, 254, 1];
            data.extend_from_slice(&[0u8; 32]);
            data
        }),
        (propose_accounts(), propose_data()[..57].to_vec()),
        (vote_accounts(&transfer()), vec![3]),
        (foreign, vec![3, 0]),
        (corrupt, vec![4]),
        (close_accounts(&transfer())[..6].to_vec(), vec![4]),
    ];
    for (accounts, data) in cases.iter() {
        let planned = derivation_plan(&ID, &ID, accounts, data);
        assert!(planned.is_err());
        let processed = process_instruction(&ID, &ID, accounts, data, &derived(), 0);
        assert_eq!(processed.err(), planned.err());
    }
}
