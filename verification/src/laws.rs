//! Laws of the account state machine, proved once and for all over the
//! transition functions that the operations' contracts are pinned to.

use vstd::prelude::*;
use crate::account::{
    AccountModel, chargeback_step, dispute_step, process_step, resolve_step,
};
use crate::errors::TransactionErrorKind;
use crate::transaction::{AmountTransaction, TransactionId};

verus! {

/// The state reached by offering a sequence of funds-moving transactions
/// in order; a rejected transaction leaves the state as it was.
pub open spec fn run_process(pre: AccountModel, txs: Seq<AmountTransaction>) -> AccountModel
    decreases txs.len(),
{
    if txs.len() == 0 {
        pre
    } else {
        let mid = run_process(pre, txs.drop_last());
        match process_step(mid, txs.last()) {
            Ok(m) => m,
            Err(_) => mid,
        }
    }
}

/// The signed sum of the amounts of exactly the accepted transactions
/// of such a run.
pub open spec fn accepted_delta_sum(pre: AccountModel, txs: Seq<AmountTransaction>) -> int
    decreases txs.len(),
{
    if txs.len() == 0 {
        0
    } else {
        let mid = run_process(pre, txs.drop_last());
        accepted_delta_sum(pre, txs.drop_last()) + (match process_step(mid, txs.last()) {
            Ok(_) => txs.last().amount_delta(),
            Err(_) => 0,
        })
    }
}

/// After any sequence of deposits and withdrawals, the available balance
/// is the starting balance plus the signed sum of the accepted amounts,
/// and it is never negative. The claim holds of every sequence, so in
/// particular of every prefix of a run.
pub proof fn lemma_available_is_accepted_sum(pre: AccountModel, txs: Seq<AmountTransaction>)
    requires
        pre.available >= 0,
    ensures
        run_process(pre, txs).available == pre.available + accepted_delta_sum(pre, txs),
        run_process(pre, txs).available >= 0,
    decreases txs.len(),
{
    if txs.len() > 0 {
        lemma_available_is_accepted_sum(pre, txs.drop_last());
    }
}

/// Reusing a transaction id is rejected: once a transaction has been
/// accepted, offering any transaction with the same id again fails with
/// `DuplicateTransaction` (and so, by the operation's contract, changes
/// nothing).
pub proof fn lemma_duplicate_rejected(pre: AccountModel, t: AmountTransaction, t2: AmountTransaction)
    requires
        process_step(pre, t) is Ok,
        t2.tid_spec() == t.tid_spec(),
    ensures
        process_step(process_step(pre, t)->Ok_0, t2) == Err::<
            AccountModel,
            TransactionErrorKind,
        >(TransactionErrorKind::DuplicateTransaction),
{
}

/// A withdrawal that exceeds the available balance fails with
/// `InsufficientFunds` (and so changes nothing).
pub proof fn lemma_withdrawal_insufficient(pre: AccountModel, t: AmountTransaction)
    requires
        !pre.locked,
        !pre.log.contains_key(t.tid_spec()),
        t matches AmountTransaction::Withdraw(_),
        t.amount_spec() > pre.available,
    ensures
        process_step(pre, t) == Err::<
            AccountModel,
            TransactionErrorKind,
        >(TransactionErrorKind::InsufficientFunds),
{
}

/// A dispute on an id that was never logged fails with
/// `UnknownTransaction`.
pub proof fn lemma_dispute_unknown(pre: AccountModel, tid: TransactionId)
    requires
        !pre.locked,
        !pre.log.contains_key(tid),
    ensures
        dispute_step(pre, tid) == Err::<
            AccountModel,
            TransactionErrorKind,
        >(TransactionErrorKind::UnknownTransaction),
{
}

/// A dispute on an id logged as a withdrawal fails with
/// `NotDisputable`.
pub proof fn lemma_dispute_withdrawal(pre: AccountModel, tid: TransactionId)
    requires
        !pre.locked,
        pre.log.contains_key(tid),
        !pre.disputes.contains_key(tid),
        pre.log[tid] matches AmountTransaction::Withdraw(_),
    ensures
        dispute_step(pre, tid) == Err::<
            AccountModel,
            TransactionErrorKind,
        >(TransactionErrorKind::NotDisputable),
{
}

/// Opening a dispute and resolving it restores the account exactly:
/// balances, log, disputes and lock state all return to their
/// pre-dispute values.
pub proof fn lemma_dispute_resolve_round_trip(pre: AccountModel, tid: TransactionId)
    requires
        dispute_step(pre, tid) is Ok,
    ensures
        resolve_step(dispute_step(pre, tid)->Ok_0, tid) is Ok,
        resolve_step(dispute_step(pre, tid)->Ok_0, tid)->Ok_0 =~= pre,
{
}

/// Opening a dispute and charging it back leaves the available balance
/// at its post-dispute value, takes the disputed amount out of held for
/// good (so held returns to its pre-dispute value), and locks the
/// account.
pub proof fn lemma_dispute_chargeback(pre: AccountModel, tid: TransactionId)
    requires
        dispute_step(pre, tid) is Ok,
    ensures
        chargeback_step(dispute_step(pre, tid)->Ok_0, tid) is Ok,
        ({
            let m1 = dispute_step(pre, tid)->Ok_0;
            let m2 = chargeback_step(m1, tid)->Ok_0;
            &&& m2.available == m1.available
            &&& m2.held == m1.held - pre.log[tid].amount_spec()
            &&& m2.held == pre.held
            &&& m2.locked
            &&& m2.log == pre.log
            &&& m2.disputes =~= pre.disputes
        }),
{
}

/// The lock is monotonic: no successful transition clears it (only a
/// chargeback sets it), and a locked account admits no successful
/// transition at all, so once true it stays true forever.
pub proof fn lemma_lock_monotonic(pre: AccountModel, t: AmountTransaction, tid: TransactionId)
    ensures
        pre.locked ==> process_step(pre, t) is Err && dispute_step(pre, tid) is Err
            && resolve_step(pre, tid) is Err && chargeback_step(pre, tid) is Err,
        process_step(pre, t) is Ok ==> process_step(pre, t)->Ok_0.locked == pre.locked,
        dispute_step(pre, tid) is Ok ==> dispute_step(pre, tid)->Ok_0.locked == pre.locked,
        resolve_step(pre, tid) is Ok ==> resolve_step(pre, tid)->Ok_0.locked == pre.locked,
        chargeback_step(pre, tid) is Ok ==> chargeback_step(pre, tid)->Ok_0.locked,
{
}

/// A locked account rejects every operation with `AccountLocked` (and
/// so, by the operations' contracts, never changes again).
pub proof fn lemma_locked_rejects_all(pre: AccountModel, t: AmountTransaction, tid: TransactionId)
    requires
        pre.locked,
    ensures
        process_step(pre, t) == Err::<
            AccountModel,
            TransactionErrorKind,
        >(TransactionErrorKind::AccountLocked),
        dispute_step(pre, tid) == Err::<
            AccountModel,
            TransactionErrorKind,
        >(TransactionErrorKind::AccountLocked),
        resolve_step(pre, tid) == Err::<
            AccountModel,
            TransactionErrorKind,
        >(TransactionErrorKind::AccountLocked),
        chargeback_step(pre, tid) == Err::<
            AccountModel,
            TransactionErrorKind,
        >(TransactionErrorKind::AccountLocked),
{
}

} // verus!
