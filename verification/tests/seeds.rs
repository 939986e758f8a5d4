use multisig::seeds::{
    multisig_config_seeds, multisig_seeds, transaction_seeds, treasury_seeds, verify_address,
};
use multisig::MultisigError;

#[test]
fn group_seeds_are_tag_creator_bump() {
    let seeds = multisig_seeds(&[4u8; 32], 253);
    assert_eq!(seeds, vec![b"multisig".to_vec(), vec![4u8; 32], vec![253]]);
}

#[test]
fn configuration_seeds_are_tag_group_bump() {
    let seeds = multisig_config_seeds(&[5u8; 32], 1);
    assert_eq!(seeds, vec![b"multisig_config".to_vec(), vec![5u8; 32], vec![1]]);
}

#[test]
fn treasury_seeds_are_tag_group_bump() {
    let seeds = treasury_seeds(&[6u8; 32], 0);
    assert_eq!(seeds, vec![b"treasury".to_vec(), vec![6u8; 32], vec![0]]);
}

#[test]
fn transfer_seeds_are_tag_group_index_bump() {
    let seeds = transaction_seeds(&[7u8; 32], 0x0102, 255);
    assert_eq!(
        seeds,
        vec![
            b"transaction".to_vec(),
            vec![7u8; 32],
            vec![2, 1, 0, 0, 0, 0, 0, 0],
            vec![255],
        ]
    );
}

#[test]
fn seeds_stay_within_the_limits_of_a_derivation() {
    let all = [
        multisig_seeds(&[1u8; 32], 9),
        multisig_config_seeds(&[1u8; 32], 9),
        treasury_seeds(&[1u8; 32], 9),
        transaction_seeds(&[1u8; 32], u64::MAX, 9),
    ];
    for seeds in all.iter() {
        assert!(seeds.len() <= 16);
        for seed in seeds.iter() {
            assert!(seed.len() <= 32);
        }
    }
}

#[test]
fn a_supplied_address_must_be_the_derived_one() {
    assert_eq!(verify_address(&[1u8; 32], &Some([1u8; 32])), Ok(()));
    assert_eq!(verify_address(&[1u8; 32], &Some([2u8; 32])), Err(MultisigError::AddressMismatch));
    assert_eq!(verify_address(&[1u8; 32], &None), Err(MultisigError::AddressMismatch));
    let mut close = [1u8; 32];
    close[31] = 0;
    assert_eq!(verify_address(&[1u8; 32], &Some(close)), Err(MultisigError::AddressMismatch));
}
