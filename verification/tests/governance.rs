use spl_governance::error::GovernanceError;
use spl_governance::identity::Identity;
use spl_governance::operations::deposit_governing_tokens;
use spl_governance::operations::plan_withdraw;
use spl_governance::operations::set_governance_delegate;
use spl_governance::operations::withdraw_governing_tokens;
use spl_governance::operations::TokenSource;
use spl_governance::operations::TransferOutcome;
use spl_governance::operations::VoteHoldStatus;
use spl_governance::record::TokenOwnerRecordStore;
use spl_governance::registry::RealmMintConfig;
use spl_governance::registry::RealmRegistry;

struct World {
    store: TokenOwnerRecordStore,
    registry: RealmRegistry,
    realm: Identity,
    mint: Identity,
    owner: Identity,
    holding: Identity,
    source: TokenSource,
    payer: Identity,
    destination: Identity,
}

fn world() -> World {
    let realm = Identity::new(1);
    let mint = Identity::new(2);
    let owner = Identity::new(3);
    let holding = Identity::new(4);
    let source_address = Identity::new(5);
    let payer = Identity::new(6);
    let destination = Identity::new(7);
    let mut registry = RealmRegistry::new();
    registry
        .register(RealmMintConfig { realm, mint, holding })
        .expect("fresh registry accepts the pair");
    World {
        store: TokenOwnerRecordStore::new(),
        registry,
        realm,
        mint,
        owner,
        holding,
        source: TokenSource { address: source_address, authority: owner },
        payer,
        destination,
    }
}

fn deposit(w: &mut World, amount: u64, transfer: TransferOutcome) -> Result<(), GovernanceError> {
    let signers = vec![w.owner];
    deposit_governing_tokens(
        &mut w.store,
        &w.registry,
        w.realm,
        w.mint,
        w.owner,
        &w.source,
        w.owner,
        w.payer,
        &signers,
        amount,
        transfer,
    )
}

fn withdraw_as(
    w: &mut World,
    signer: Identity,
    hold: VoteHoldStatus,
    transfer: TransferOutcome,
) -> Result<(), GovernanceError> {
    let signers = vec![signer];
    withdraw_governing_tokens(
        &mut w.store,
        &w.registry,
        w.realm,
        w.mint,
        w.owner,
        w.destination,
        &signers,
        hold,
        transfer,
    )
}

fn withdraw_owner(
    w: &mut World,
    hold: VoteHoldStatus,
    transfer: TransferOutcome,
) -> Result<(), GovernanceError> {
    let owner = w.owner;
    withdraw_as(w, owner, hold, transfer)
}

fn balance(w: &World) -> u64 {
    match w.store.lookup(w.realm, w.mint, w.owner) {
        Some(h) => w.store.record(h).governing_token_deposit_amount,
        None => 0,
    }
}

#[test]
fn first_deposit_creates_record() {
    let mut w = world();
    assert!(w.store.lookup(w.realm, w.mint, w.owner).is_none());
    assert_eq!(deposit(&mut w, 100, TransferOutcome::Completed), Ok(()));
    let h = w.store.lookup(w.realm, w.mint, w.owner).expect("record created");
    let r = w.store.record(h);
    assert_eq!(r.governing_token_deposit_amount, 100);
    assert_eq!(r.governance_delegate, None);
    assert_eq!(r.realm, w.realm);
    assert_eq!(r.governing_token_mint, w.mint);
    assert_eq!(r.governing_token_owner, w.owner);
    assert_eq!(w.store.len(), 1);
}

#[test]
fn withdrawal_blocked_while_votes_outstanding() {
    let mut w = world();
    assert_eq!(deposit(&mut w, 100, TransferOutcome::Completed), Ok(()));
    let r = withdraw_owner(&mut w, VoteHoldStatus::OutstandingVotes, TransferOutcome::Completed);
    assert_eq!(r, Err(GovernanceError::VotesOutstanding));
    assert_eq!(balance(&w), 100);
}

#[test]
fn withdrawal_after_votes_resolved_drains_balance() {
    let mut w = world();
    assert_eq!(deposit(&mut w, 100, TransferOutcome::Completed), Ok(()));
    let signers = vec![w.owner];
    let mv = plan_withdraw(
        &w.registry,
        &w.store,
        w.realm,
        w.mint,
        w.owner,
        w.destination,
        &signers,
        VoteHoldStatus::NoOutstandingVotes,
    )
    .expect("withdrawal may proceed");
    assert_eq!(mv.source, w.holding);
    assert_eq!(mv.destination, w.destination);
    assert_eq!(mv.amount, 100);
    let r = withdraw_owner(&mut w, VoteHoldStatus::NoOutstandingVotes, TransferOutcome::Completed);
    assert_eq!(r, Ok(()));
    assert_eq!(balance(&w), 0);
    // the record survives with its (empty) delegation intact
    assert_eq!(w.store.len(), 1);
}

#[test]
fn delegate_reassignment_propagates_but_never_authorizes_withdrawal() {
    let mut w = world();
    assert_eq!(deposit(&mut w, 100, TransferOutcome::Completed), Ok(()));
    let d1 = Identity::new(21);
    let d2 = Identity::new(22);
    let by_owner = vec![w.owner];
    assert_eq!(
        set_governance_delegate(&mut w.store, w.realm, w.mint, w.owner, Some(d1), &by_owner),
        Ok(())
    );
    // the current delegate may reassign delegation
    let by_d1 = vec![d1];
    assert_eq!(
        set_governance_delegate(&mut w.store, w.realm, w.mint, w.owner, Some(d2), &by_d1),
        Ok(())
    );
    let h = w.store.lookup(w.realm, w.mint, w.owner).unwrap();
    assert_eq!(w.store.record(h).governance_delegate, Some(d2));
    // a former delegate has lost its authority
    assert_eq!(
        set_governance_delegate(&mut w.store, w.realm, w.mint, w.owner, Some(d1), &by_d1),
        Err(GovernanceError::Unauthorized)
    );
    // the delegate never holds withdrawal rights
    let r = withdraw_as(&mut w, d2, VoteHoldStatus::NoOutstandingVotes, TransferOutcome::Completed);
    assert_eq!(r, Err(GovernanceError::Unauthorized));
    assert_eq!(balance(&w), 100);
}

#[test]
fn delegate_signature_never_withdraws() {
    let mut w = world();
    assert_eq!(deposit(&mut w, 50, TransferOutcome::Completed), Ok(()));
    let delegate = Identity::new(30);
    let by_owner = vec![w.owner];
    assert_eq!(
        set_governance_delegate(&mut w.store, w.realm, w.mint, w.owner, Some(delegate), &by_owner),
        Ok(())
    );
    let r = withdraw_as(&mut w, delegate, VoteHoldStatus::NoOutstandingVotes, TransferOutcome::Completed);
    assert_eq!(r, Err(GovernanceError::Unauthorized));
    assert_eq!(balance(&w), 50);
}

#[test]
fn set_delegate_requires_owner_or_current_delegate() {
    let mut w = world();
    assert_eq!(deposit(&mut w, 10, TransferOutcome::Completed), Ok(()));
    let stranger = vec![Identity::new(40)];
    assert_eq!(
        set_governance_delegate(&mut w.store, w.realm, w.mint, w.owner, Some(Identity::new(41)), &stranger),
        Err(GovernanceError::Unauthorized)
    );
    let h = w.store.lookup(w.realm, w.mint, w.owner).unwrap();
    assert_eq!(w.store.record(h).governance_delegate, None);
}

#[test]
fn get_or_create_is_idempotent() {
    let mut store = TokenOwnerRecordStore::new();
    let realm = Identity::new(1);
    let mint = Identity::new(2);
    let owner = Identity::new(3);
    let h1 = store.get_or_create(realm, mint, owner);
    let h2 = store.get_or_create(realm, mint, owner);
    assert_eq!(h1, h2);
    assert_eq!(store.len(), 1);
    // a different triple gets its own record
    let h3 = store.get_or_create(realm, mint, Identity::new(4));
    assert_ne!(h1, h3);
    assert_eq!(store.len(), 2);
}

#[test]
fn failed_transfer_leaves_no_partial_credit() {
    let mut w = world();
    let r = deposit(&mut w, 100, TransferOutcome::Failed);
    assert_eq!(r, Err(GovernanceError::TransferFailed));
    assert!(w.store.lookup(w.realm, w.mint, w.owner).is_none());
    assert_eq!(w.store.len(), 0);
    // the same holds when the record already exists
    assert_eq!(deposit(&mut w, 60, TransferOutcome::Completed), Ok(()));
    assert_eq!(deposit(&mut w, 40, TransferOutcome::Failed), Err(GovernanceError::TransferFailed));
    assert_eq!(balance(&w), 60);
}

#[test]
fn failed_transfer_leaves_withdrawal_unapplied() {
    let mut w = world();
    assert_eq!(deposit(&mut w, 100, TransferOutcome::Completed), Ok(()));
    let r = withdraw_owner(&mut w, VoteHoldStatus::NoOutstandingVotes, TransferOutcome::Failed);
    assert_eq!(r, Err(GovernanceError::TransferFailed));
    assert_eq!(balance(&w), 100);
}

#[test]
fn conservation_over_a_sequence() {
    let mut w = world();
    assert_eq!(deposit(&mut w, 5, TransferOutcome::Completed), Ok(()));
    assert_eq!(deposit(&mut w, 7, TransferOutcome::Completed), Ok(()));
    assert_eq!(balance(&w), 12);
    let r = withdraw_owner(&mut w, VoteHoldStatus::NoOutstandingVotes, TransferOutcome::Completed);
    assert_eq!(r, Ok(()));
    assert_eq!(balance(&w), 0);
    assert_eq!(deposit(&mut w, 3, TransferOutcome::Completed), Ok(()));
    assert_eq!(balance(&w), 3);
}

#[test]
fn records_are_isolated_from_one_another() {
    let mut w = world();
    let other_owner = Identity::new(90);
    assert_eq!(deposit(&mut w, 100, TransferOutcome::Completed), Ok(()));
    let signers = vec![other_owner];
    let other_source = TokenSource { address: Identity::new(91), authority: other_owner };
    let r = deposit_governing_tokens(
        &mut w.store,
        &w.registry,
        w.realm,
        w.mint,
        other_owner,
        &other_source,
        other_owner,
        w.payer,
        &signers,
        30,
        TransferOutcome::Completed,
    );
    assert_eq!(r, Ok(()));
    assert_eq!(balance(&w), 100);
    // draining the first owner's record leaves the second untouched
    assert_eq!(
        withdraw_owner(&mut w, VoteHoldStatus::NoOutstandingVotes, TransferOutcome::Completed),
        Ok(())
    );
    assert_eq!(balance(&w), 0);
    let h = w.store.lookup(w.realm, w.mint, other_owner).unwrap();
    assert_eq!(w.store.record(h).governing_token_deposit_amount, 30);
}

#[test]
fn zero_amount_deposit_is_rejected() {
    let mut w = world();
    assert_eq!(deposit(&mut w, 0, TransferOutcome::Completed), Err(GovernanceError::InvalidAmount));
    assert_eq!(w.store.len(), 0);
}

#[test]
fn deposit_overflow_is_rejected() {
    let mut w = world();
    assert_eq!(deposit(&mut w, u64::MAX, TransferOutcome::Completed), Ok(()));
    assert_eq!(deposit(&mut w, 1, TransferOutcome::Completed), Err(GovernanceError::Overflow));
    assert_eq!(balance(&w), u64::MAX);
}

#[test]
fn overdraw_is_rejected() {
    let mut store = TokenOwnerRecordStore::new();
    let h = store.get_or_create(Identity::new(1), Identity::new(2), Identity::new(3));
    assert_eq!(store.apply_deposit(h, 10), Ok(()));
    assert_eq!(store.apply_withdrawal(h, 11), Err(GovernanceError::InsufficientBalance));
    assert_eq!(store.record(h).governing_token_deposit_amount, 10);
    assert_eq!(store.apply_withdrawal(h, 10), Ok(()));
    assert_eq!(store.record(h).governing_token_deposit_amount, 0);
}

#[test]
fn unknown_mint_is_rejected() {
    let mut w = world();
    let other_mint = Identity::new(99);
    let signers = vec![w.owner];
    let r = deposit_governing_tokens(
        &mut w.store,
        &w.registry,
        w.realm,
        other_mint,
        w.owner,
        &w.source,
        w.owner,
        w.payer,
        &signers,
        100,
        TransferOutcome::Completed,
    );
    assert_eq!(r, Err(GovernanceError::InvalidRealmConfig));
    assert_eq!(w.store.len(), 0);
}

#[test]
fn duplicate_registry_entry_is_rejected() {
    let mut w = world();
    let r = w.registry.register(RealmMintConfig {
        realm: w.realm,
        mint: w.mint,
        holding: Identity::new(50),
    });
    assert_eq!(r, Err(GovernanceError::InvalidRealmConfig));
}

#[test]
fn wrong_source_authority_is_rejected() {
    let mut w = world();
    let imposter = Identity::new(60);
    let signers = vec![imposter];
    let r = deposit_governing_tokens(
        &mut w.store,
        &w.registry,
        w.realm,
        w.mint,
        w.owner,
        &w.source,
        imposter,
        w.payer,
        &signers,
        100,
        TransferOutcome::Completed,
    );
    assert_eq!(r, Err(GovernanceError::Unauthorized));
    assert_eq!(w.store.len(), 0);
}

#[test]
fn unsigned_source_authority_is_rejected() {
    let mut w = world();
    // the right authority is named but has not signed
    let signers = vec![Identity::new(61)];
    let r = deposit_governing_tokens(
        &mut w.store,
        &w.registry,
        w.realm,
        w.mint,
        w.owner,
        &w.source,
        w.owner,
        w.payer,
        &signers,
        100,
        TransferOutcome::Completed,
    );
    assert_eq!(r, Err(GovernanceError::Unauthorized));
}

#[test]
fn withdrawal_without_record_is_rejected() {
    let mut w = world();
    let r = withdraw_owner(&mut w, VoteHoldStatus::NoOutstandingVotes, TransferOutcome::Completed);
    assert_eq!(r, Err(GovernanceError::RecordNotFound));
}

#[test]
fn withdrawal_of_empty_record_is_rejected() {
    let mut w = world();
    assert_eq!(deposit(&mut w, 5, TransferOutcome::Completed), Ok(()));
    assert_eq!(
        withdraw_owner(&mut w, VoteHoldStatus::NoOutstandingVotes, TransferOutcome::Completed),
        Ok(())
    );
    // drained to zero: a second withdrawal finds no stake
    let r = withdraw_owner(&mut w, VoteHoldStatus::NoOutstandingVotes, TransferOutcome::Completed);
    assert_eq!(r, Err(GovernanceError::RecordNotFound));
}

#[test]
fn delegation_without_record_is_rejected() {
    let mut w = world();
    let by_owner = vec![w.owner];
    let r = set_governance_delegate(
        &mut w.store,
        w.realm,
        w.mint,
        w.owner,
        Some(Identity::new(70)),
        &by_owner,
    );
    assert_eq!(r, Err(GovernanceError::RecordNotFound));
}

#[test]
fn unreachable_oracle_blocks_withdrawal() {
    let mut w = world();
    assert_eq!(deposit(&mut w, 100, TransferOutcome::Completed), Ok(()));
    let r = withdraw_owner(&mut w, VoteHoldStatus::Unavailable, TransferOutcome::Completed);
    assert_eq!(r, Err(GovernanceError::OracleUnavailable));
    assert_eq!(balance(&w), 100);
}

#[test]
fn delegate_survives_full_withdrawal() {
    let mut w = world();
    assert_eq!(deposit(&mut w, 100, TransferOutcome::Completed), Ok(()));
    let delegate = Identity::new(80);
    let by_owner = vec![w.owner];
    assert_eq!(
        set_governance_delegate(&mut w.store, w.realm, w.mint, w.owner, Some(delegate), &by_owner),
        Ok(())
    );
    assert_eq!(
        withdraw_owner(&mut w, VoteHoldStatus::NoOutstandingVotes, TransferOutcome::Completed),
        Ok(())
    );
    let h = w.store.lookup(w.realm, w.mint, w.owner).unwrap();
    assert_eq!(w.store.record(h).governance_delegate, Some(delegate));
    // clearing delegation also works
    assert_eq!(
        set_governance_delegate(&mut w.store, w.realm, w.mint, w.owner, None, &by_owner),
        Ok(())
    );
    let h = w.store.lookup(w.realm, w.mint, w.owner).unwrap();
    assert_eq!(w.store.record(h).governance_delegate, None);
}
