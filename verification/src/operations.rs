use vstd::prelude::*;

use crate::error::GovernanceError;
use crate::identity::Identity;
use crate::record::balance_of;
use crate::record::fresh_record;
use crate::record::has_record;
use crate::record::lemma_record_unique;
use crate::record::record_index;
use crate::record::record_matches;
use crate::record::store_wf;
use crate::record::with_amount;
use crate::record::with_delegate;
use crate::record::TokenOwnerRecord;
use crate::record::TokenOwnerRecordStore;
use crate::registry::holding_of;
use crate::registry::recognizes;
use crate::registry::RealmMintConfig;
use crate::registry::RealmRegistry;

verus! {

/// The endpoint a deposit draws from: either a token account, whose owner
/// must authorize the draw, or a mint used to mint on deposit, whose mint
/// authority must. `authority` is that signing authority, as the custody
/// layer knows it.
#[derive(Clone, Copy, PartialEq, Eq, Structural, Debug)]
pub struct TokenSource {
    /// Address of the source endpoint.
    pub address: Identity,
    /// The signing authority over the endpoint.
    pub authority: Identity,
}

/// One instruction to the Custody Transfer Primitive: move `amount`
/// governing tokens from `source` to `destination`. The primitive is atomic;
/// it either fully succeeds or fully fails.
#[derive(Clone, Copy, PartialEq, Eq, Structural, Debug)]
pub struct CustodyMove {
    /// Endpoint the tokens leave.
    pub source: Identity,
    /// Endpoint the tokens arrive at.
    pub destination: Identity,
    /// How many tokens move.
    pub amount: u64,
}

/// The Vote-Hold Oracle's answer for a (realm, mint, owner) triple: whether
/// any unresolved vote currently depends on that owner's weight, or that the
/// check could not be completed.
#[derive(Clone, Copy, PartialEq, Eq, Structural, Debug)]
pub enum VoteHoldStatus {
    /// No unresolved vote depends on this owner's weight.
    NoOutstandingVotes,
    /// At least one unresolved vote depends on this owner's weight.
    OutstandingVotes,
    /// The oracle could not be reached; withdrawal must not proceed.
    Unavailable,
}

/// What the Custody Transfer Primitive reported for one requested move.
#[derive(Clone, Copy, PartialEq, Eq, Structural, Debug)]
pub enum TransferOutcome {
    /// The movement fully completed.
    Completed,
    /// The movement did not complete; no funds moved.
    Failed,
}

/// Whether the signers authorize a deposit from `source`: the named
/// authority must be the endpoint's signing authority and must have signed.
pub open spec fn deposit_authorized(
    source: TokenSource,
    source_authority: Identity,
    signers: Seq<Identity>,
) -> bool {
    source_authority == source.authority && signers.contains(source_authority)
}

/// Whether the signers authorize changing the delegate of record `r`: the
/// owner always may; the current delegate may reassign or revoke, but a
/// former or absent delegate may not.
pub open spec fn delegate_change_authorized(
    r: TokenOwnerRecord,
    owner: Identity,
    signers: Seq<Identity>,
) -> bool {
    signers.contains(owner) || match r.governance_delegate {
        Some(d) => signers.contains(d),
        None => false,
    }
}

/// The validation a deposit runs before any funds move, in order: the
/// amount, the realm's policy, the source authority, and the balance's
/// numeric range. `None` means the deposit may proceed to the custody
/// transfer.
pub open spec fn spec_deposit_check(
    registry: Seq<RealmMintConfig>,
    records: Seq<TokenOwnerRecord>,
    realm: Identity,
    mint: Identity,
    owner: Identity,
    source: TokenSource,
    source_authority: Identity,
    signers: Seq<Identity>,
    amount: u64,
) -> Option<GovernanceError> {
    if amount == 0 {
        Some(GovernanceError::InvalidAmount)
    } else if !recognizes(registry, realm, mint) {
        Some(GovernanceError::InvalidRealmConfig)
    } else if !deposit_authorized(source, source_authority, signers) {
        Some(GovernanceError::Unauthorized)
    } else if balance_of(records, realm, mint, owner) + amount > u64::MAX {
        Some(GovernanceError::Overflow)
    } else {
        None
    }
}

/// The store after a successful deposit: the triple's record, created on
/// first use, carries `amount` more tokens; every other record is untouched.
pub open spec fn deposited_records(
    records: Seq<TokenOwnerRecord>,
    realm: Identity,
    mint: Identity,
    owner: Identity,
    amount: u64,
) -> Seq<TokenOwnerRecord> {
    if has_record(records, realm, mint, owner) {
        let i = record_index(records, realm, mint, owner);
        records.update(
            i,
            with_amount(records[i], (records[i].governing_token_deposit_amount + amount) as u64),
        )
    } else {
        records.push(with_amount(fresh_record(realm, mint, owner), amount))
    }
}

/// The validation a withdrawal runs before any funds move, in order: the
/// realm's policy (which names the holding account funds would leave), the
/// record and its stake, the owner's signature, and the vote-hold rule.
/// `None` means the withdrawal may proceed to the custody transfer.
pub open spec fn spec_withdraw_check(
    registry: Seq<RealmMintConfig>,
    records: Seq<TokenOwnerRecord>,
    realm: Identity,
    mint: Identity,
    owner: Identity,
    signers: Seq<Identity>,
    hold: VoteHoldStatus,
) -> Option<GovernanceError> {
    if !recognizes(registry, realm, mint) {
        Some(GovernanceError::InvalidRealmConfig)
    } else if !has_record(records, realm, mint, owner) || balance_of(records, realm, mint, owner)
        == 0 {
        Some(GovernanceError::RecordNotFound)
    } else if !signers.contains(owner) {
        Some(GovernanceError::Unauthorized)
    } else if hold is Unavailable {
        Some(GovernanceError::OracleUnavailable)
    } else if hold is OutstandingVotes {
        Some(GovernanceError::VotesOutstanding)
    } else {
        None
    }
}

/// The store after a successful withdrawal: the triple's record is drained
/// to zero — withdrawal is all or nothing — with its delegate intact; every
/// other record is untouched.
pub open spec fn withdrawn_records(
    records: Seq<TokenOwnerRecord>,
    realm: Identity,
    mint: Identity,
    owner: Identity,
) -> Seq<TokenOwnerRecord> {
    let i = record_index(records, realm, mint, owner);
    records.update(i, with_amount(records[i], 0))
}

/// The validation a delegate change runs, in order: the record must exist
/// (delegation without any stake is meaningless) and the signers must hold
/// owner or current-delegate authority. `None` means the change proceeds; no
/// balance or vote-hold rule applies.
pub open spec fn spec_set_delegate_check(
    records: Seq<TokenOwnerRecord>,
    realm: Identity,
    mint: Identity,
    owner: Identity,
    signers: Seq<Identity>,
) -> Option<GovernanceError> {
    if !has_record(records, realm, mint, owner) {
        Some(GovernanceError::RecordNotFound)
    } else if !delegate_change_authorized(
        records[record_index(records, realm, mint, owner)],
        owner,
        signers,
    ) {
        Some(GovernanceError::Unauthorized)
    } else {
        None
    }
}

/// The store after a successful delegate change: the triple's record carries
/// the new delegate, its balance untouched; every other record is untouched.
pub open spec fn redelegated_records(
    records: Seq<TokenOwnerRecord>,
    realm: Identity,
    mint: Identity,
    owner: Identity,
    new_delegate: Option<Identity>,
) -> Seq<TokenOwnerRecord> {
    let i = record_index(records, realm, mint, owner);
    records.update(i, with_delegate(records[i], new_delegate))
}

/// A successful deposit raises the triple's voting weight by exactly the
/// deposited amount, effective immediately for future votes.
pub proof fn lemma_deposit_balance(
    records: Seq<TokenOwnerRecord>,
    realm: Identity,
    mint: Identity,
    owner: Identity,
    amount: u64,
)
    requires
        store_wf(records),
        balance_of(records, realm, mint, owner) + amount <= u64::MAX,
    ensures
        balance_of(deposited_records(records, realm, mint, owner, amount), realm, mint, owner)
            == balance_of(records, realm, mint, owner) + amount,
{
    let post = deposited_records(records, realm, mint, owner, amount);
    if has_record(records, realm, mint, owner) {
        let i = record_index(records, realm, mint, owner);
        assert(record_matches(records[i], realm, mint, owner));
        assert(record_matches(post[i], realm, mint, owner));
        assert(has_record(post, realm, mint, owner));
        let wp = record_index(post, realm, mint, owner);
        assert(record_matches(post[wp], realm, mint, owner));
        if wp != i {
            assert(record_matches(records[wp], realm, mint, owner));
            lemma_record_unique(records, realm, mint, owner, wp, i);
        }
    } else {
        let n = records.len() as int;
        assert(record_matches(post[n], realm, mint, owner));
        assert(has_record(post, realm, mint, owner));
        let wp = record_index(post, realm, mint, owner);
        assert(record_matches(post[wp], realm, mint, owner));
        if wp != n {
            assert(record_matches(records[wp], realm, mint, owner));
            assert(false);
        }
    }
}

/// A successful withdrawal drops the triple's voting weight to zero.
pub proof fn lemma_withdraw_balance(
    records: Seq<TokenOwnerRecord>,
    realm: Identity,
    mint: Identity,
    owner: Identity,
)
    requires
        store_wf(records),
        has_record(records, realm, mint, owner),
    ensures
        balance_of(withdrawn_records(records, realm, mint, owner), realm, mint, owner) == 0,
{
    let post = withdrawn_records(records, realm, mint, owner);
    let i = record_index(records, realm, mint, owner);
    assert(record_matches(records[i], realm, mint, owner));
    assert(record_matches(post[i], realm, mint, owner));
    assert(has_record(post, realm, mint, owner));
    let wp = record_index(post, realm, mint, owner);
    assert(record_matches(post[wp], realm, mint, owner));
    if wp != i {
        assert(record_matches(records[wp], realm, mint, owner));
        lemma_record_unique(records, realm, mint, owner, wp, i);
    }
}

/// Per-record isolation: a deposit for one triple leaves every other
/// triple's balance exactly where it was.
pub proof fn lemma_deposit_isolated(
    records: Seq<TokenOwnerRecord>,
    realm: Identity,
    mint: Identity,
    owner: Identity,
    amount: u64,
    other_realm: Identity,
    other_mint: Identity,
    other_owner: Identity,
)
    requires
        store_wf(records),
        !(realm == other_realm && mint == other_mint && owner == other_owner),
    ensures
        balance_of(
            deposited_records(records, realm, mint, owner, amount),
            other_realm,
            other_mint,
            other_owner,
        ) == balance_of(records, other_realm, other_mint, other_owner),
{
    if has_record(records, realm, mint, owner) {
        let i = record_index(records, realm, mint, owner);
        assert(record_matches(records[i], realm, mint, owner));
        crate::record::lemma_balance_unmoved_by_update(
            records,
            i,
            with_amount(records[i], (records[i].governing_token_deposit_amount + amount) as u64),
            other_realm,
            other_mint,
            other_owner,
        );
    } else {
        crate::record::lemma_balance_unmoved_by_push(
            records,
            with_amount(fresh_record(realm, mint, owner), amount),
            other_realm,
            other_mint,
            other_owner,
        );
    }
}

/// Per-record isolation: a withdrawal for one triple leaves every other
/// triple's balance exactly where it was.
pub proof fn lemma_withdraw_isolated(
    records: Seq<TokenOwnerRecord>,
    realm: Identity,
    mint: Identity,
    owner: Identity,
    other_realm: Identity,
    other_mint: Identity,
    other_owner: Identity,
)
    requires
        store_wf(records),
        has_record(records, realm, mint, owner),
        !(realm == other_realm && mint == other_mint && owner == other_owner),
    ensures
        balance_of(
            withdrawn_records(records, realm, mint, owner),
            other_realm,
            other_mint,
            other_owner,
        ) == balance_of(records, other_realm, other_mint, other_owner),
{
    let i = record_index(records, realm, mint, owner);
    assert(record_matches(records[i], realm, mint, owner));
    crate::record::lemma_balance_unmoved_by_update(
        records,
        i,
        with_amount(records[i], 0),
        other_realm,
        other_mint,
        other_owner,
    );
}

/// A delegate change never moves any balance, the changed record's included.
pub proof fn lemma_delegation_moves_no_balance(
    records: Seq<TokenOwnerRecord>,
    realm: Identity,
    mint: Identity,
    owner: Identity,
    new_delegate: Option<Identity>,
    other_realm: Identity,
    other_mint: Identity,
    other_owner: Identity,
)
    requires
        store_wf(records),
        has_record(records, realm, mint, owner),
    ensures
        balance_of(
            redelegated_records(records, realm, mint, owner, new_delegate),
            other_realm,
            other_mint,
            other_owner,
        ) == balance_of(records, other_realm, other_mint, other_owner),
{
    let i = record_index(records, realm, mint, owner);
    assert(record_matches(records[i], realm, mint, owner));
    let post = redelegated_records(records, realm, mint, owner, new_delegate);
    if record_matches(records[i], other_realm, other_mint, other_owner) {
        assert(has_record(post, other_realm, other_mint, other_owner));
        let w = record_index(records, other_realm, other_mint, other_owner);
        lemma_record_unique(records, other_realm, other_mint, other_owner, w, i);
        let wp = record_index(post, other_realm, other_mint, other_owner);
        assert(record_matches(post[wp], other_realm, other_mint, other_owner));
        if wp != i {
            assert(record_matches(records[wp], other_realm, other_mint, other_owner));
            lemma_record_unique(records, other_realm, other_mint, other_owner, wp, i);
        }
        assert(post[i].governing_token_deposit_amount
            == records[i].governing_token_deposit_amount);
    } else {
        crate::record::lemma_balance_unmoved_by_update(
            records,
            i,
            with_delegate(records[i], new_delegate),
            other_realm,
            other_mint,
            other_owner,
        );
    }
}

/// Validates a deposit of `amount` governing tokens of `mint` for `owner`
/// under `realm`'s policy and, when every rule passes, names the custody
/// move the caller must hand to the Custody Transfer Primitive: `amount`
/// from the source endpoint to the realm's holding account. No store
/// mutation happens here; after the primitive reports, `complete_deposit`
/// applies the accounting.
pub fn plan_deposit(
    registry: &RealmRegistry,
    store: &TokenOwnerRecordStore,
    realm: Identity,
    mint: Identity,
    owner: Identity,
    source: &TokenSource,
    source_authority: Identity,
    signers: &Vec<Identity>,
    amount: u64,
) -> (r: Result<CustodyMove, GovernanceError>)
    requires
        registry.wf(),
        store.wf(),
    ensures
        match r {
            Ok(mv) => spec_deposit_check(
                registry@,
                store@,
                realm,
                mint,
                owner,
                *source,
                source_authority,
                signers@,
                amount,
            ) is None && mv.source == source.address && mv.destination == holding_of(
                registry@,
                realm,
                mint,
            ) && mv.amount == amount,
            Err(e) => spec_deposit_check(
                registry@,
                store@,
                realm,
                mint,
                owner,
                *source,
                source_authority,
                signers@,
                amount,
            ) == Some(e),
        },
{
    if amount == 0 {
        return Err(GovernanceError::InvalidAmount);
    }
    let config = match registry.resolve(realm, mint) {
        Some(c) => c,
        None => {
            return Err(GovernanceError::InvalidRealmConfig);
        },
    };
    if !(source_authority == source.authority && crate::identity::is_signer(
        signers,
        source_authority,
    )) {
        return Err(GovernanceError::Unauthorized);
    }
    let current = match store.lookup(realm, mint, owner) {
        Some(h) => {
            proof {
                lemma_record_unique(
                    store@,
                    realm,
                    mint,
                    owner,
                    h as int,
                    record_index(store@, realm, mint, owner),
                );
            }
            store.record(h).governing_token_deposit_amount
        },
        None => 0,
    };
    if amount > u64::MAX - current {
        return Err(GovernanceError::Overflow);
    }
    Ok(CustodyMove { source: source.address, destination: config.holding, amount })
}

/// Applies the accounting half of a deposit, once the Custody Transfer
/// Primitive has reported. A failed transfer surfaces as `TransferFailed`
/// and leaves the store untouched — no partial credit ever appears. On a
/// completed transfer the triple's record is created if absent and credited
/// with `amount`.
pub fn complete_deposit(
    store: &mut TokenOwnerRecordStore,
    realm: Identity,
    mint: Identity,
    owner: Identity,
    amount: u64,
    transfer: TransferOutcome,
) -> (r: Result<(), GovernanceError>)
    requires
        old(store).wf(),
    ensures
        final(store).wf(),
        transfer is Failed ==> r == Err::<(), GovernanceError>(GovernanceError::TransferFailed)
            && final(store)@ == old(store)@,
        match r {
            Ok(()) => transfer is Completed && amount > 0 && balance_of(
                old(store)@,
                realm,
                mint,
                owner,
            ) + amount <= u64::MAX && final(store)@ == deposited_records(
                old(store)@,
                realm,
                mint,
                owner,
                amount,
            ),
            Err(e) => final(store)@ == old(store)@ && ((e == GovernanceError::TransferFailed
                && transfer is Failed) || (e == GovernanceError::InvalidAmount
                && transfer is Completed && amount == 0) || (e == GovernanceError::Overflow
                && transfer is Completed && amount > 0 && balance_of(
                old(store)@,
                realm,
                mint,
                owner,
            ) + amount > u64::MAX)),
        },
{
    if matches!(transfer, TransferOutcome::Failed) {
        return Err(GovernanceError::TransferFailed);
    }
    if amount == 0 {
        return Err(GovernanceError::InvalidAmount);
    }
    match store.lookup(realm, mint, owner) {
        Some(h) => {
            proof {
                lemma_record_unique(
                    store@,
                    realm,
                    mint,
                    owner,
                    h as int,
                    record_index(store@, realm, mint, owner),
                );
            }
            let current = store.record(h).governing_token_deposit_amount;
            if amount > u64::MAX - current {
                return Err(GovernanceError::Overflow);
            }
            match store.apply_deposit(h, amount) {
                Ok(()) => Ok(()),
                Err(e) => Err(e),
            }
        },
        None => {
            let ghost pre = store@;
            let h = store.get_or_create(realm, mint, owner);
            proof {
                assert(store@ == pre.push(fresh_record(realm, mint, owner)));
                assert(store@[h as int] == fresh_record(realm, mint, owner));
            }
            let result = store.apply_deposit(h, amount);
            proof {
                assert(result is Ok);
                assert(store@ =~= pre.push(with_amount(fresh_record(realm, mint, owner), amount)));
            }
            match result {
                Ok(()) => Ok(()),
                Err(e) => Err(e),
            }
        },
    }
}

/// Deposits `amount` governing tokens of `mint` for `owner` into `realm`'s
/// custody: the whole operation of planning, fund movement and accounting,
/// with the Custody Transfer Primitive's report passed in as `transfer`.
/// Validation runs before the transfer outcome is ever consulted, and the
/// record is credited only when the transfer completed: a failure anywhere
/// leaves the store exactly as it was. `payer` funds record allocation at
/// the platform layer; the accounting rules never read it.
#[allow(unused_variables)]
pub fn deposit_governing_tokens(
    store: &mut TokenOwnerRecordStore,
    registry: &RealmRegistry,
    realm: Identity,
    mint: Identity,
    owner: Identity,
    source: &TokenSource,
    source_authority: Identity,
    payer: Identity,
    signers: &Vec<Identity>,
    amount: u64,
    transfer: TransferOutcome,
) -> (r: Result<(), GovernanceError>)
    requires
        registry.wf(),
        old(store).wf(),
    ensures
        final(store).wf(),
        transfer is Failed ==> r is Err && final(store)@ == old(store)@,
        match spec_deposit_check(
            registry@,
            old(store)@,
            realm,
            mint,
            owner,
            *source,
            source_authority,
            signers@,
            amount,
        ) {
            Some(e) => r == Err::<(), GovernanceError>(e) && final(store)@ == old(store)@,
            None => if transfer is Completed {
                r is Ok && final(store)@ == deposited_records(
                    old(store)@,
                    realm,
                    mint,
                    owner,
                    amount,
                )
            } else {
                r == Err::<(), GovernanceError>(GovernanceError::TransferFailed) && final(store)@
                    == old(store)@
            },
        },
{
    match plan_deposit(
        registry,
        store,
        realm,
        mint,
        owner,
        source,
        source_authority,
        signers,
        amount,
    ) {
        Ok(_mv) => complete_deposit(store, realm, mint, owner, amount, transfer),
        Err(e) => Err(e),
    }
}

/// Validates a withdrawal of `owner`'s full deposited balance of `mint` from
/// `realm`'s custody and, when every rule passes — the record exists with
/// stake, the owner signed, and the Vote-Hold Oracle reports no unresolved
/// votes — names the custody move the caller must hand to the Custody
/// Transfer Primitive: the full balance from the realm's holding account to
/// `destination`. No store mutation happens here; after the primitive
/// reports, `complete_withdraw` applies the accounting.
pub fn plan_withdraw(
    registry: &RealmRegistry,
    store: &TokenOwnerRecordStore,
    realm: Identity,
    mint: Identity,
    owner: Identity,
    destination: Identity,
    signers: &Vec<Identity>,
    hold: VoteHoldStatus,
) -> (r: Result<CustodyMove, GovernanceError>)
    requires
        registry.wf(),
        store.wf(),
    ensures
        match r {
            Ok(mv) => spec_withdraw_check(
                registry@,
                store@,
                realm,
                mint,
                owner,
                signers@,
                hold,
            ) is None && mv.source == holding_of(registry@, realm, mint) && mv.destination
                == destination && mv.amount == balance_of(store@, realm, mint, owner),
            Err(e) => spec_withdraw_check(
                registry@,
                store@,
                realm,
                mint,
                owner,
                signers@,
                hold,
            ) == Some(e),
        },
{
    let config = match registry.resolve(realm, mint) {
        Some(c) => c,
        None => {
            return Err(GovernanceError::InvalidRealmConfig);
        },
    };
    let handle = match store.lookup(realm, mint, owner) {
        Some(h) => h,
        None => {
            return Err(GovernanceError::RecordNotFound);
        },
    };
    proof {
        lemma_record_unique(
            store@,
            realm,
            mint,
            owner,
            handle as int,
            record_index(store@, realm, mint, owner),
        );
    }
    let balance = store.record(handle).governing_token_deposit_amount;
    if balance == 0 {
        return Err(GovernanceError::RecordNotFound);
    }
    if !crate::identity::is_signer(signers, owner) {
        return Err(GovernanceError::Unauthorized);
    }
    match hold {
        VoteHoldStatus::Unavailable => Err(GovernanceError::OracleUnavailable),
        VoteHoldStatus::OutstandingVotes => Err(GovernanceError::VotesOutstanding),
        VoteHoldStatus::NoOutstandingVotes => Ok(
            CustodyMove { source: config.holding, destination, amount: balance },
        ),
    }
}

/// Applies the accounting half of a withdrawal, once the Custody Transfer
/// Primitive has reported. A failed transfer surfaces as `TransferFailed`
/// and leaves the store untouched. On a completed transfer the triple's
/// record is drained to zero; the record itself stays alive, so a delegate
/// assignment survives a full withdrawal.
pub fn complete_withdraw(
    store: &mut TokenOwnerRecordStore,
    realm: Identity,
    mint: Identity,
    owner: Identity,
    transfer: TransferOutcome,
) -> (r: Result<(), GovernanceError>)
    requires
        old(store).wf(),
    ensures
        final(store).wf(),
        transfer is Failed ==> r == Err::<(), GovernanceError>(GovernanceError::TransferFailed)
            && final(store)@ == old(store)@,
        match r {
            Ok(()) => transfer is Completed && has_record(old(store)@, realm, mint, owner)
                && balance_of(old(store)@, realm, mint, owner) > 0 && final(store)@
                == withdrawn_records(old(store)@, realm, mint, owner),
            Err(e) => final(store)@ == old(store)@ && ((e == GovernanceError::TransferFailed
                && transfer is Failed) || (e == GovernanceError::RecordNotFound
                && transfer is Completed && (!has_record(old(store)@, realm, mint, owner)
                || balance_of(old(store)@, realm, mint, owner) == 0))),
        },
{
    if matches!(transfer, TransferOutcome::Failed) {
        return Err(GovernanceError::TransferFailed);
    }
    let handle = match store.lookup(realm, mint, owner) {
        Some(h) => h,
        None => {
            return Err(GovernanceError::RecordNotFound);
        },
    };
    proof {
        lemma_record_unique(
            store@,
            realm,
            mint,
            owner,
            handle as int,
            record_index(store@, realm, mint, owner),
        );
    }
    let balance = store.record(handle).governing_token_deposit_amount;
    if balance == 0 {
        return Err(GovernanceError::RecordNotFound);
    }
    match store.apply_withdrawal(handle, balance) {
        Ok(()) => Ok(()),
        Err(e) => Err(e),
    }
}

/// Withdraws `owner`'s full deposited balance of `mint` from `realm`'s
/// custody to `destination`: the whole operation of planning, fund movement
/// and accounting, with the Vote-Hold Oracle's answer and the Custody
/// Transfer Primitive's report passed in. Only the owner's own signature
/// authorizes a withdrawal — a delegate's never does — and any outstanding
/// or unverifiable vote hold blocks it with the balance untouched.
pub fn withdraw_governing_tokens(
    store: &mut TokenOwnerRecordStore,
    registry: &RealmRegistry,
    realm: Identity,
    mint: Identity,
    owner: Identity,
    destination: Identity,
    signers: &Vec<Identity>,
    hold: VoteHoldStatus,
    transfer: TransferOutcome,
) -> (r: Result<(), GovernanceError>)
    requires
        registry.wf(),
        old(store).wf(),
    ensures
        final(store).wf(),
        // Withdrawal gating: outstanding votes always leave the store untouched.
        hold is OutstandingVotes ==> r is Err && final(store)@ == old(store)@,
        // Authorization: without the owner's signature nothing is withdrawn.
        !signers@.contains(owner) ==> r is Err && final(store)@ == old(store)@,
        match spec_withdraw_check(registry@, old(store)@, realm, mint, owner, signers@, hold) {
            Some(e) => r == Err::<(), GovernanceError>(e) && final(store)@ == old(store)@,
            None => if transfer is Completed {
                r is Ok && final(store)@ == withdrawn_records(
                    old(store)@,
                    realm,
                    mint,
                    owner,
                )
            } else {
                r == Err::<(), GovernanceError>(GovernanceError::TransferFailed) && final(store)@
                    == old(store)@
            },
        },
{
    match plan_withdraw(registry, store, realm, mint, owner, destination, signers, hold) {
        Ok(_mv) => complete_withdraw(store, realm, mint, owner, transfer),
        Err(e) => Err(e),
    }
}

/// Assigns, reassigns or clears the governance delegate of `owner`'s record
/// for `mint` under `realm`. The owner or the current delegate may change
/// it — delegation confers voting authority, never withdrawal rights — and
/// no balance or vote-hold rule applies. Fails with `RecordNotFound` when no
/// record exists: delegation without any stake is meaningless.
pub fn set_governance_delegate(
    store: &mut TokenOwnerRecordStore,
    realm: Identity,
    mint: Identity,
    owner: Identity,
    new_delegate: Option<Identity>,
    signers: &Vec<Identity>,
) -> (r: Result<(), GovernanceError>)
    requires
        old(store).wf(),
    ensures
        final(store).wf(),
        match spec_set_delegate_check(old(store)@, realm, mint, owner, signers@) {
            Some(e) => r == Err::<(), GovernanceError>(e) && final(store)@ == old(store)@,
            None => r is Ok && final(store)@ == redelegated_records(
                old(store)@,
                realm,
                mint,
                owner,
                new_delegate,
            ),
        },
{
    let handle = match store.lookup(realm, mint, owner) {
        Some(h) => h,
        None => {
            return Err(GovernanceError::RecordNotFound);
        },
    };
    proof {
        lemma_record_unique(
            store@,
            realm,
            mint,
            owner,
            handle as int,
            record_index(store@, realm, mint, owner),
        );
    }
    let record = store.record(handle);
    let authorized = if crate::identity::is_signer(signers, owner) {
        true
    } else {
        match record.governance_delegate {
            Some(d) => crate::identity::is_signer(signers, d),
            None => false,
        }
    };
    if !authorized {
        return Err(GovernanceError::Unauthorized);
    }
    store.set_delegate(handle, new_delegate);
    Ok(())
}

} // verus!
