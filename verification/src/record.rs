use vstd::prelude::*;

use crate::conservation::apply_op;
use crate::conservation::op_applies;
use crate::conservation::BalanceOp;
use crate::error::GovernanceError;
use crate::identity::Identity;

verus! {

/// The accounting record for one (realm, governing token mint, token owner)
/// triple: how many governing tokens the owner has in the realm's custody for
/// that mint, and which delegate, if any, may exercise the resulting voting
/// weight. The deposited amount is the sole source of the owner's voting
/// weight for this mint in this realm.
#[derive(Clone, Copy, PartialEq, Eq, Structural, Debug)]
pub struct TokenOwnerRecord {
    /// Governance realm this record belongs to. Immutable after creation.
    pub realm: Identity,
    /// Which of the realm's governing token kinds this record tracks.
    /// Immutable after creation.
    pub governing_token_mint: Identity,
    /// The depositor who owns the voting power. Immutable after creation.
    pub governing_token_owner: Identity,
    /// Current custody balance attributable to this owner: the net sum of all
    /// deposits minus all withdrawals ever applied to this record.
    pub governing_token_deposit_amount: u64,
    /// Optional identity authorized to vote and create proposals on the
    /// owner's behalf. Never confers withdrawal rights.
    pub governance_delegate: Option<Identity>,
}

/// Whether `r` is the record for the given triple.
pub open spec fn record_matches(
    r: TokenOwnerRecord,
    realm: Identity,
    mint: Identity,
    owner: Identity,
) -> bool {
    r.realm == realm && r.governing_token_mint == mint && r.governing_token_owner == owner
}

/// The record a first deposit creates: zero balance, no delegate.
pub open spec fn fresh_record(realm: Identity, mint: Identity, owner: Identity) -> TokenOwnerRecord {
    TokenOwnerRecord {
        realm,
        governing_token_mint: mint,
        governing_token_owner: owner,
        governing_token_deposit_amount: 0,
        governance_delegate: None,
    }
}

/// `r` with its balance replaced.
pub open spec fn with_amount(r: TokenOwnerRecord, amount: u64) -> TokenOwnerRecord {
    TokenOwnerRecord { governing_token_deposit_amount: amount, ..r }
}

/// `r` with its delegate replaced.
pub open spec fn with_delegate(r: TokenOwnerRecord, delegate: Option<Identity>) -> TokenOwnerRecord {
    TokenOwnerRecord { governance_delegate: delegate, ..r }
}

/// Whether the store already holds a record for the triple.
pub open spec fn has_record(
    records: Seq<TokenOwnerRecord>,
    realm: Identity,
    mint: Identity,
    owner: Identity,
) -> bool {
    exists|i: int| 0 <= i < records.len() && record_matches(records[i], realm, mint, owner)
}

/// The index of the triple's record. Meaningful only when `has_record` holds;
/// under `store_wf` that index is unique.
pub open spec fn record_index(
    records: Seq<TokenOwnerRecord>,
    realm: Identity,
    mint: Identity,
    owner: Identity,
) -> int {
    choose|i: int| 0 <= i < records.len() && record_matches(records[i], realm, mint, owner)
}

/// The triple's custody balance: zero when no record exists.
pub open spec fn balance_of(
    records: Seq<TokenOwnerRecord>,
    realm: Identity,
    mint: Identity,
    owner: Identity,
) -> u64 {
    if has_record(records, realm, mint, owner) {
        records[record_index(records, realm, mint, owner)].governing_token_deposit_amount
    } else {
        0
    }
}

/// Well-formedness of the store: at most one record per triple.
pub open spec fn store_wf(records: Seq<TokenOwnerRecord>) -> bool {
    forall|i: int, j: int|
        0 <= i < records.len() && 0 <= j < records.len() && i != j ==> !(
        #[trigger] records[i].realm == #[trigger] records[j].realm
            && records[i].governing_token_mint == records[j].governing_token_mint
            && records[i].governing_token_owner == records[j].governing_token_owner)
}

/// In a well-formed store, two indices holding the same triple are equal: no
/// triple's record is ever duplicated.
pub proof fn lemma_record_unique(
    records: Seq<TokenOwnerRecord>,
    realm: Identity,
    mint: Identity,
    owner: Identity,
    i: int,
    j: int,
)
    requires
        store_wf(records),
        0 <= i < records.len(),
        0 <= j < records.len(),
        record_matches(records[i], realm, mint, owner),
        record_matches(records[j], realm, mint, owner),
    ensures
        i == j,
{
}

/// The transition a `get_or_create` call makes: when the triple already has a
/// record, the store is unchanged and `h` is its index; otherwise a fresh
/// zero-balance record is appended and `h` points at it.
pub open spec fn get_or_create_post(
    pre: Seq<TokenOwnerRecord>,
    post: Seq<TokenOwnerRecord>,
    realm: Identity,
    mint: Identity,
    owner: Identity,
    h: int,
) -> bool {
    if has_record(pre, realm, mint, owner) {
        post == pre && h == record_index(pre, realm, mint, owner)
    } else {
        post == pre.push(fresh_record(realm, mint, owner)) && h == pre.len()
    }
}

/// Durable keyed storage for `TokenOwnerRecord`: one record per
/// (realm, mint, owner) triple, created lazily on first deposit and updated
/// in place afterwards. A record handle is its index in the store; the triple
/// itself is the deterministic key, so any caller can address a record
/// without a separate directory.
pub struct TokenOwnerRecordStore {
    records: Vec<TokenOwnerRecord>,
}

impl View for TokenOwnerRecordStore {
    type V = Seq<TokenOwnerRecord>;

    closed spec fn view(&self) -> Seq<TokenOwnerRecord> {
        self.records@
    }
}

impl TokenOwnerRecordStore {
    /// Whether the store upholds its invariant: one record per triple.
    pub open spec fn wf(&self) -> bool {
        store_wf(self@)
    }

    /// An empty store.
    pub fn new() -> (r: TokenOwnerRecordStore)
        ensures
            r.wf(),
            r@.len() == 0,
    {
        TokenOwnerRecordStore { records: Vec::new() }
    }

    /// How many records the store holds.
    pub fn len(&self) -> (r: usize)
        ensures
            r == self@.len(),
    {
        self.records.len()
    }

    /// Reads the record behind a handle.
    pub fn record(&self, handle: usize) -> (r: TokenOwnerRecord)
        requires
            handle < self@.len(),
        ensures
            r == self@[handle as int],
    {
        self.records[handle]
    }

    /// Finds the handle of the triple's record, if one exists.
    pub fn lookup(&self, realm: Identity, mint: Identity, owner: Identity) -> (r: Option<usize>)
        ensures
            match r {
                Some(h) => h < self@.len() && record_matches(self@[h as int], realm, mint, owner)
                    && has_record(self@, realm, mint, owner),
                None => !has_record(self@, realm, mint, owner),
            },
    {
        let mut i: usize = 0;
        while i < self.records.len()
            invariant
                0 <= i <= self@.len(),
                forall|j: int| 0 <= j < i ==> !record_matches(self@[j], realm, mint, owner),
            decreases self@.len() - i,
        {
            let r = &self.records[i];
            if r.realm == realm && r.governing_token_mint == mint
                && r.governing_token_owner == owner {
                return Some(i);
            }
            i += 1;
        }
        None
    }

    /// Returns the handle of the triple's record, creating a zero-balance,
    /// undelegated record on first use. Looking the same triple up twice
    /// yields handles to the same underlying record: see
    /// `lemma_get_or_create_idempotent`.
    pub fn get_or_create(&mut self, realm: Identity, mint: Identity, owner: Identity) -> (h: usize)
        requires
            old(self).wf(),
        ensures
            final(self).wf(),
            h < final(self)@.len(),
            record_matches(final(self)@[h as int], realm, mint, owner),
            get_or_create_post(old(self)@, final(self)@, realm, mint, owner, h as int),
    {
        match self.lookup(realm, mint, owner) {
            Some(h) => {
                proof {
                    lemma_record_unique(
                        self@,
                        realm,
                        mint,
                        owner,
                        h as int,
                        record_index(self@, realm, mint, owner),
                    );
                }
                h
            },
            None => {
                let h = self.records.len();
                self.records.push(TokenOwnerRecord {
                    realm,
                    governing_token_mint: mint,
                    governing_token_owner: owner,
                    governing_token_deposit_amount: 0,
                    governance_delegate: None,
                });
                proof {
                    assert forall|i: int, j: int|
                        0 <= i < self@.len() && 0 <= j < self@.len() && i != j implies !(self@[i].realm
                        == self@[j].realm && self@[i].governing_token_mint
                        == self@[j].governing_token_mint && self@[i].governing_token_owner
                        == self@[j].governing_token_owner) by {
                        if i == old(self)@.len() {
                            assert(!record_matches(old(self)@[j], realm, mint, owner));
                        } else if j == old(self)@.len() {
                            assert(!record_matches(old(self)@[i], realm, mint, owner));
                        }
                    }
                }
                h
            },
        }
    }

    /// Credits a deposit to the record behind `handle`. Fails with
    /// `InvalidAmount` on a zero amount and with `Overflow` when the addition
    /// would leave the balance's numeric range; on failure the store is
    /// untouched.
    pub fn apply_deposit(&mut self, handle: usize, amount: u64) -> (r: Result<(), GovernanceError>)
        requires
            old(self).wf(),
            handle < old(self)@.len(),
        ensures
            final(self).wf(),
            match r {
                Ok(()) => op_applies(
                    old(self)@[handle as int].governing_token_deposit_amount,
                    (BalanceOp::Deposit { amount }),
                ) && final(self)@ == old(self)@.update(
                    handle as int,
                    with_amount(
                        old(self)@[handle as int],
                        apply_op(
                            old(self)@[handle as int].governing_token_deposit_amount,
                            (BalanceOp::Deposit { amount }),
                        ),
                    ),
                ),
                Err(e) => final(self)@ == old(self)@ && ((e == GovernanceError::InvalidAmount
                    && amount == 0) || (e == GovernanceError::Overflow && amount > 0 && old(
                    self,
                )@[handle as int].governing_token_deposit_amount + amount > u64::MAX)),
            },
    {
        if amount == 0 {
            return Err(GovernanceError::InvalidAmount);
        }
        let current = self.records[handle].governing_token_deposit_amount;
        if amount > u64::MAX - current {
            return Err(GovernanceError::Overflow);
        }
        let updated = TokenOwnerRecord {
            governing_token_deposit_amount: current + amount,
            ..self.records[handle]
        };
        let slot = &mut self.records[handle];
        *slot = updated;
        Ok(())
    }

    /// Debits a withdrawal from the record behind `handle`. Fails with
    /// `InsufficientBalance` when the requested amount exceeds the current
    /// balance; on failure the store is untouched. The vote-hold rule is not
    /// checked here: it belongs to `withdraw_governing_tokens`, which gates
    /// every balance reduction.
    pub fn apply_withdrawal(&mut self, handle: usize, amount: u64) -> (r: Result<
        (),
        GovernanceError,
    >)
        requires
            old(self).wf(),
            handle < old(self)@.len(),
        ensures
            final(self).wf(),
            match r {
                Ok(()) => op_applies(
                    old(self)@[handle as int].governing_token_deposit_amount,
                    (BalanceOp::Withdrawal { amount }),
                ) && final(self)@ == old(self)@.update(
                    handle as int,
                    with_amount(
                        old(self)@[handle as int],
                        apply_op(
                            old(self)@[handle as int].governing_token_deposit_amount,
                            (BalanceOp::Withdrawal { amount }),
                        ),
                    ),
                ),
                Err(e) => final(self)@ == old(self)@ && e == GovernanceError::InsufficientBalance
                    && amount > old(self)@[handle as int].governing_token_deposit_amount,
            },
    {
        let current = self.records[handle].governing_token_deposit_amount;
        if amount > current {
            return Err(GovernanceError::InsufficientBalance);
        }
        let updated = TokenOwnerRecord {
            governing_token_deposit_amount: current - amount,
            ..self.records[handle]
        };
        let slot = &mut self.records[handle];
        *slot = updated;
        Ok(())
    }

    /// Replaces the delegate of the record behind `handle`, unconditionally;
    /// `None` clears the delegation. No balance or vote-hold check applies.
    pub fn set_delegate(&mut self, handle: usize, new_delegate: Option<Identity>)
        requires
            old(self).wf(),
            handle < old(self)@.len(),
        ensures
            final(self).wf(),
            final(self)@ == old(self)@.update(
                handle as int,
                with_delegate(old(self)@[handle as int], new_delegate),
            ),
    {
        let updated = TokenOwnerRecord {
            governance_delegate: new_delegate,
            ..self.records[handle]
        };
        let slot = &mut self.records[handle];
        *slot = updated;
    }
}

/// Replacing one record with another of the same triple leaves every other
/// triple's balance untouched.
pub proof fn lemma_balance_unmoved_by_update(
    records: Seq<TokenOwnerRecord>,
    i: int,
    updated: TokenOwnerRecord,
    realm: Identity,
    mint: Identity,
    owner: Identity,
)
    requires
        store_wf(records),
        0 <= i < records.len(),
        !record_matches(records[i], realm, mint, owner),
        updated.realm == records[i].realm,
        updated.governing_token_mint == records[i].governing_token_mint,
        updated.governing_token_owner == records[i].governing_token_owner,
    ensures
        balance_of(records.update(i, updated), realm, mint, owner) == balance_of(
            records,
            realm,
            mint,
            owner,
        ),
{
    let post = records.update(i, updated);
    if has_record(records, realm, mint, owner) {
        let w = record_index(records, realm, mint, owner);
        assert(record_matches(records[w], realm, mint, owner));
        assert(w != i);
        assert(record_matches(post[w], realm, mint, owner));
        assert(has_record(post, realm, mint, owner));
        let wp = record_index(post, realm, mint, owner);
        assert(record_matches(post[wp], realm, mint, owner));
        assert(wp != i);
        assert(record_matches(records[wp], realm, mint, owner));
        lemma_record_unique(records, realm, mint, owner, w, wp);
    } else {
        assert forall|j: int| 0 <= j < post.len() implies !record_matches(
            post[j],
            realm,
            mint,
            owner,
        ) by {
            if j != i {
                assert(!record_matches(records[j], realm, mint, owner));
            }
        }
    }
}

/// Appending a record for one triple leaves every other triple's balance
/// untouched.
pub proof fn lemma_balance_unmoved_by_push(
    records: Seq<TokenOwnerRecord>,
    appended: TokenOwnerRecord,
    realm: Identity,
    mint: Identity,
    owner: Identity,
)
    requires
        store_wf(records),
        !record_matches(appended, realm, mint, owner),
    ensures
        balance_of(records.push(appended), realm, mint, owner) == balance_of(
            records,
            realm,
            mint,
            owner,
        ),
{
    let post = records.push(appended);
    if has_record(records, realm, mint, owner) {
        let w = record_index(records, realm, mint, owner);
        assert(record_matches(post[w], realm, mint, owner));
        assert(has_record(post, realm, mint, owner));
        let wp = record_index(post, realm, mint, owner);
        assert(record_matches(post[wp], realm, mint, owner));
        assert(wp != records.len());
        assert(record_matches(records[wp], realm, mint, owner));
        lemma_record_unique(records, realm, mint, owner, w, wp);
    } else {
        assert forall|j: int| 0 <= j < post.len() implies !record_matches(
            post[j],
            realm,
            mint,
            owner,
        ) by {
            if j != records.len() {
                assert(!record_matches(records[j], realm, mint, owner));
            }
        }
    }
}

/// Idempotent lookup: starting from any well-formed store, running
/// `get_or_create` twice for the same triple hands back the same handle, and
/// the second run leaves the store exactly as the first left it — a record is
/// created at most once and never duplicated.
pub proof fn lemma_get_or_create_idempotent(
    s0: Seq<TokenOwnerRecord>,
    s1: Seq<TokenOwnerRecord>,
    s2: Seq<TokenOwnerRecord>,
    realm: Identity,
    mint: Identity,
    owner: Identity,
    h1: int,
    h2: int,
)
    requires
        store_wf(s0),
        get_or_create_post(s0, s1, realm, mint, owner, h1),
        get_or_create_post(s1, s2, realm, mint, owner, h2),
    ensures
        s2 == s1,
        h2 == h1,
{
    if has_record(s0, realm, mint, owner) {
        assert(record_matches(s1[h1], realm, mint, owner));
    } else {
        assert(s1[h1] == fresh_record(realm, mint, owner));
        assert(record_matches(s1[h1], realm, mint, owner));
    }
    assert(has_record(s1, realm, mint, owner));
    let w = record_index(s1, realm, mint, owner);
    assert(record_matches(s1[w], realm, mint, owner));
    if has_record(s0, realm, mint, owner) {
        lemma_record_unique(s1, realm, mint, owner, w, h1);
    } else {
        if w != h1 {
            assert(0 <= w < s0.len());
            assert(record_matches(s0[w], realm, mint, owner));
            assert(false);
        }
    }
}

} // verus!
