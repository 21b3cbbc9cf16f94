//! Accounting core of a token-based governance protocol.
//!
//! The library tracks, per (realm, governing token mint, token owner) triple,
//! how many governing tokens the owner has deposited into the realm's custody
//! and which delegate, if any, may vote on the owner's behalf. The three
//! public operations — deposit, withdrawal and delegate assignment — enforce
//! the authorization and vote-hold rules that keep voting weight consistent
//! with custody balances. Fund movement itself, realm policy lookup and the
//! vote-hold oracle are external collaborators: their answers enter the
//! library as plain values, and every rule applied to those answers is
//! verified.

pub mod conservation;
pub mod error;
pub mod identity;
pub mod instruction;
pub mod operations;
pub mod record;
pub mod registry;

pub use error::GovernanceError;
pub use identity::Identity;
pub use instruction::GovernanceInstruction;
pub use instruction::SplGovernance;
pub use operations::deposit_governing_tokens;
pub use operations::set_governance_delegate;
pub use operations::withdraw_governing_tokens;
pub use record::TokenOwnerRecord;
pub use record::TokenOwnerRecordStore;
