use vstd::prelude::*;

verus! {

/// One balance change on a single record, as the store applies it: the
/// successful outcomes of `apply_deposit` and `apply_withdrawal`.
#[derive(Clone, Copy, PartialEq, Eq, Structural, Debug)]
pub enum BalanceOp {
    /// `amount` tokens were credited by a deposit.
    Deposit { amount: u64 },
    /// `amount` tokens were debited by a withdrawal.
    Withdrawal { amount: u64 },
}

/// Whether the store accepts `op` at balance `b`: a deposit must be positive
/// and keep the balance in its numeric range, a withdrawal must not exceed
/// the balance. These are exactly the success conditions in the contracts of
/// `apply_deposit` and `apply_withdrawal`.
pub open spec fn op_applies(b: u64, op: BalanceOp) -> bool {
    match op {
        BalanceOp::Deposit { amount } => amount > 0 && b + amount <= u64::MAX,
        BalanceOp::Withdrawal { amount } => amount <= b,
    }
}

/// The balance after `op` is applied at balance `b`. Meaningful only when
/// `op_applies(b, op)` holds.
pub open spec fn apply_op(b: u64, op: BalanceOp) -> u64 {
    match op {
        BalanceOp::Deposit { amount } => (b + amount) as u64,
        BalanceOp::Withdrawal { amount } => (b - amount) as u64,
    }
}

/// The sum of every amount `ops` deposits.
pub open spec fn deposit_total(ops: Seq<BalanceOp>) -> int
    decreases ops.len(),
{
    if ops.len() == 0 {
        0
    } else {
        deposit_total(ops.drop_last()) + match ops.last() {
            BalanceOp::Deposit { amount } => amount as int,
            BalanceOp::Withdrawal { .. } => 0,
        }
    }
}

/// The sum of every amount `ops` withdraws.
pub open spec fn withdrawal_total(ops: Seq<BalanceOp>) -> int
    decreases ops.len(),
{
    if ops.len() == 0 {
        0
    } else {
        withdrawal_total(ops.drop_last()) + match ops.last() {
            BalanceOp::Deposit { .. } => 0,
            BalanceOp::Withdrawal { amount } => amount as int,
        }
    }
}

/// The balance a fresh record reaches after the whole sequence `ops` of
/// balance changes, or `None` when some step could not have been accepted.
pub open spec fn replay(ops: Seq<BalanceOp>) -> Option<u64>
    decreases ops.len(),
{
    if ops.len() == 0 {
        Some(0u64)
    } else {
        match replay(ops.drop_last()) {
            Some(b) => if op_applies(b, ops.last()) {
                Some(apply_op(b, ops.last()))
            } else {
                None
            },
            None => None,
        }
    }
}

/// One step of `replay`: extending a history by one op applies that op to
/// the balance the history reached, exactly as `apply_deposit` and
/// `apply_withdrawal` promise of the store.
pub proof fn lemma_replay_step(ops: Seq<BalanceOp>, op: BalanceOp)
    ensures
        replay(ops.push(op)) == (match replay(ops) {
            Some(b) => if op_applies(b, op) {
                Some(apply_op(b, op))
            } else {
                None
            },
            None => None,
        }),
{
    assert(ops.push(op).drop_last() =~= ops);
    assert(ops.push(op).last() == op);
}

/// Conservation of funds: after any sequence of accepted deposits and
/// withdrawals on a single record, the balance equals the sum of the
/// deposits minus the sum of the withdrawals; that net sum never goes
/// negative and never leaves the balance's numeric range.
pub proof fn lemma_conservation(ops: Seq<BalanceOp>)
    requires
        replay(ops) is Some,
    ensures
        0 <= deposit_total(ops) - withdrawal_total(ops) <= u64::MAX,
        replay(ops) == Some((deposit_total(ops) - withdrawal_total(ops)) as u64),
    decreases ops.len(),
{
    if ops.len() > 0 {
        lemma_conservation(ops.drop_last());
    }
}

} // verus!
