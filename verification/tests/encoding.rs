use spl_governance::identity::Identity;
use spl_governance::instruction::GovernanceInstruction;
use spl_governance::instruction::SplGovernance;
use spl_governance::instruction::PROGRAM_ID;

#[test]
fn deposit_wire_bytes_are_exact() {
    let bytes = GovernanceInstruction::DepositGoverningTokens { amount: 258 }.serialize();
    assert_eq!(bytes, vec![0u8, 2, 1, 0, 0, 0, 0, 0, 0]);
}

#[test]
fn withdraw_wire_bytes_are_exact() {
    let bytes = GovernanceInstruction::WithdrawGoverningTokens {}.serialize();
    assert_eq!(bytes, vec![1u8]);
}

#[test]
fn set_delegate_wire_bytes_are_exact() {
    let cleared = GovernanceInstruction::SetGovernanceDelegate { new_governance_delegate: None }
        .serialize();
    assert_eq!(cleared, vec![2u8, 0]);
    let assigned = GovernanceInstruction::SetGovernanceDelegate {
        new_governance_delegate: Some(Identity::new(0x0102030405060708)),
    }
    .serialize();
    assert_eq!(assigned, vec![2u8, 1, 8, 7, 6, 5, 4, 3, 2, 1]);
}

#[test]
fn deposit_encoding_matches_borsh() {
    let ours = GovernanceInstruction::DepositGoverningTokens { amount: 123456789 }.serialize();
    let reference = borsh::to_vec(&(0u8, 123456789u64)).unwrap();
    assert_eq!(ours, reference);
}

#[test]
fn withdraw_encoding_matches_borsh() {
    let ours = GovernanceInstruction::WithdrawGoverningTokens {}.serialize();
    let reference = borsh::to_vec(&0u8).unwrap();
    assert_eq!(ours, vec![1u8]);
    // the tag byte itself is a plain borsh u8
    assert_eq!(vec![0u8], reference);
}

#[test]
fn set_delegate_encoding_matches_borsh() {
    let ours = GovernanceInstruction::SetGovernanceDelegate {
        new_governance_delegate: Some(Identity::new(42)),
    }
    .serialize();
    let reference = borsh::to_vec(&(2u8, Some(42u64))).unwrap();
    assert_eq!(ours, reference);
    let ours_none = GovernanceInstruction::SetGovernanceDelegate { new_governance_delegate: None }
        .serialize();
    let reference_none = borsh::to_vec(&(2u8, None::<u64>)).unwrap();
    assert_eq!(ours_none, reference_none);
}

#[test]
fn program_id_is_fixed() {
    assert_eq!(SplGovernance::id(), Identity::new(PROGRAM_ID));
    assert_eq!(SplGovernance::id(), SplGovernance::id());
}
