use vstd::bytes::spec_u64_to_le_bytes;
use vstd::bytes::u64_to_le_bytes;
use vstd::bytes::lemma_auto_spec_u64_to_from_le_bytes;
use vstd::bytes::spec_u64_from_le_bytes;
use vstd::prelude::*;

use crate::identity::Identity;

verus! {

/// The governance program's own address: process-wide configuration used
/// for addressing and signing, never consulted by the accounting rules.
pub const PROGRAM_ID: u64 = 0x476f7665526e31;

/// Marker for the governance program, carrying its configured address.
#[derive(Clone, Copy, PartialEq, Eq, Structural, Debug)]
pub struct SplGovernance;

impl SplGovernance {
    /// The program's address.
    pub fn id() -> (r: Identity)
        ensures
            r.key == PROGRAM_ID,
    {
        Identity { key: PROGRAM_ID }
    }
}

/// The operations the governance core understands, as they travel over the
/// program boundary. The wire form is the tagged little-endian layout
/// `encoded_instruction` gives, one byte of variant tag followed by the
/// variant's fields.
#[derive(Clone, Copy, PartialEq, Eq, Structural, Debug)]
pub enum GovernanceInstruction {
    /// Deposit governing tokens into the realm and raise the depositor's
    /// voting weight. A top-up never reweights votes already cast: the voter
    /// must relinquish and recast to use the new weight.
    DepositGoverningTokens {
        /// The amount to deposit into the realm.
        amount: u64,
    },
    /// Withdraw the owner's full deposited balance and drop the voting
    /// weight to zero. Possible only while no vote hold is outstanding.
    WithdrawGoverningTokens {},
    /// Set, reassign or clear the governance delegate for the owner's
    /// record. The owner keeps voting rights either way.
    SetGovernanceDelegate {
        /// The new delegate, or `None` to clear delegation.
        new_governance_delegate: Option<Identity>,
    },
}

/// Wire tag of the deposit instruction.
pub const TAG_DEPOSIT: u8 = 0;

/// Wire tag of the withdrawal instruction.
pub const TAG_WITHDRAW: u8 = 1;

/// Wire tag of the delegate-change instruction.
pub const TAG_SET_DELEGATE: u8 = 2;

/// The wire form of an instruction: one tag byte, then the fields in order,
/// integers little-endian and an optional value prefixed by a presence byte.
pub open spec fn encoded_instruction(instruction: GovernanceInstruction) -> Seq<u8> {
    match instruction {
        GovernanceInstruction::DepositGoverningTokens { amount } => seq![TAG_DEPOSIT]
            + spec_u64_to_le_bytes(amount),
        GovernanceInstruction::WithdrawGoverningTokens {  } => seq![TAG_WITHDRAW],
        GovernanceInstruction::SetGovernanceDelegate { new_governance_delegate } => match new_governance_delegate {
            None => seq![TAG_SET_DELEGATE, 0u8],
            Some(delegate) => seq![TAG_SET_DELEGATE, 1u8] + spec_u64_to_le_bytes(delegate.key),
        },
    }
}

impl GovernanceInstruction {
    /// Frames the instruction into its wire bytes.
    pub fn serialize(&self) -> (r: Vec<u8>)
        ensures
            r@ == encoded_instruction(*self),
    {
        match self {
            GovernanceInstruction::DepositGoverningTokens { amount } => {
                let mut out: Vec<u8> = Vec::new();
                out.push(TAG_DEPOSIT);
                let mut body = u64_to_le_bytes(*amount);
                out.append(&mut body);
                proof {
                    assert(out@ =~= encoded_instruction(*self));
                }
                out
            },
            GovernanceInstruction::WithdrawGoverningTokens {  } => {
                let mut out: Vec<u8> = Vec::new();
                out.push(TAG_WITHDRAW);
                proof {
                    assert(out@ =~= encoded_instruction(*self));
                }
                out
            },
            GovernanceInstruction::SetGovernanceDelegate { new_governance_delegate } => {
                let mut out: Vec<u8> = Vec::new();
                out.push(TAG_SET_DELEGATE);
                match new_governance_delegate {
                    None => {
                        out.push(0u8);
                    },
                    Some(delegate) => {
                        out.push(1u8);
                        let mut body = u64_to_le_bytes(delegate.key);
                        out.append(&mut body);
                    },
                }
                proof {
                    assert(out@ =~= encoded_instruction(*self));
                }
                out
            },
        }
    }
}

/// The wire form is unambiguous: two instructions with the same bytes are
/// the same instruction, so any two readers of the boundary agree.
pub proof fn lemma_encoding_injective(a: GovernanceInstruction, b: GovernanceInstruction)
    requires
        encoded_instruction(a) == encoded_instruction(b),
    ensures
        a == b,
{
    lemma_auto_spec_u64_to_from_le_bytes();
    let ea = encoded_instruction(a);
    let eb = encoded_instruction(b);
    assert(ea[0] == eb[0]);
    match (a, b) {
        (
            GovernanceInstruction::DepositGoverningTokens { amount: x },
            GovernanceInstruction::DepositGoverningTokens { amount: y },
        ) => {
            assert(spec_u64_to_le_bytes(x) =~= ea.subrange(1, 9));
            assert(spec_u64_to_le_bytes(y) =~= eb.subrange(1, 9));
            assert(x == spec_u64_from_le_bytes(spec_u64_to_le_bytes(x)));
            assert(y == spec_u64_from_le_bytes(spec_u64_to_le_bytes(y)));
        },
        (
            GovernanceInstruction::SetGovernanceDelegate { new_governance_delegate: x },
            GovernanceInstruction::SetGovernanceDelegate { new_governance_delegate: y },
        ) => {
            assert(ea[1] == eb[1]);
            match (x, y) {
                (Some(dx), Some(dy)) => {
                    assert(spec_u64_to_le_bytes(dx.key) =~= ea.subrange(2, 10));
                    assert(spec_u64_to_le_bytes(dy.key) =~= eb.subrange(2, 10));
                    assert(dx.key == spec_u64_from_le_bytes(spec_u64_to_le_bytes(dx.key)));
                    assert(dy.key == spec_u64_from_le_bytes(spec_u64_to_le_bytes(dy.key)));
                },
                (None, None) => {},
                (Some(_), None) => {
                    assert(ea[1] == 1u8 && eb[1] == 0u8);
                },
                (None, Some(_)) => {
                    assert(ea[1] == 0u8 && eb[1] == 1u8);
                },
            }
        },
        _ => {},
    }
}

} // verus!
