//! One client's ledger: the account state machine.
//!
//! An account owns an available and a held balance, a log of every
//! funds-moving transaction it has applied, and its currently open
//! disputes. The four operations (`process_transaction`, `open_dispute`,
//! `resolve`, `chargeback`) are each pinned to a total transition
//! function over [`AccountModel`]; a failed operation leaves the account
//! exactly as it was.

use vstd::prelude::*;
use crate::assoc;
use crate::errors::{Operation, TransactionError, TransactionErrorKind};
use crate::render;
use crate::transaction::{
    Amount, AmountTransaction, DisputableTransaction, Transaction, TransactionId,
};

verus! {

/// Identifier of a client, the key of its account.
pub type ClientId = u16;

/// The mathematical state of an account.
#[verifier::ext_equal]
pub struct AccountModel {
    pub client: ClientId,
    pub available: int,
    pub held: int,
    pub locked: bool,
    pub log: Map<TransactionId, AmountTransaction>,
    pub disputes: Map<TransactionId, DisputableTransaction>,
}

/// The state of a freshly created account: zero balances, unlocked,
/// nothing logged, nothing disputed.
pub open spec fn fresh_account(client: ClientId) -> AccountModel {
    AccountModel {
        client,
        available: 0,
        held: 0,
        locked: false,
        log: Map::empty(),
        disputes: Map::empty(),
    }
}

/// How `process_transaction` moves the state: reject when locked, when
/// the id was already applied, or when the available balance would go
/// negative; otherwise apply the signed amount and log the transaction.
pub open spec fn process_step(pre: AccountModel, t: AmountTransaction) -> Result<
    AccountModel,
    TransactionErrorKind,
> {
    if pre.locked {
        Err(TransactionErrorKind::AccountLocked)
    } else if pre.log.contains_key(t.tid_spec()) {
        Err(TransactionErrorKind::DuplicateTransaction)
    } else if pre.available + t.amount_delta() < 0 {
        Err(TransactionErrorKind::InsufficientFunds)
    } else {
        Ok(
            AccountModel {
                client: pre.client,
                available: pre.available + t.amount_delta(),
                held: pre.held + t.hold_delta(),
                locked: pre.locked,
                log: pre.log.insert(t.tid_spec(), t),
                disputes: pre.disputes,
            },
        )
    }
}

/// How `open_dispute` moves the state: the id must be logged as a
/// deposit with no dispute already open, and the available balance must
/// cover the hold; then the amount moves from available to held.
pub open spec fn dispute_step(pre: AccountModel, tid: TransactionId) -> Result<
    AccountModel,
    TransactionErrorKind,
> {
    if pre.locked {
        Err(TransactionErrorKind::AccountLocked)
    } else if !pre.log.contains_key(tid) {
        Err(TransactionErrorKind::UnknownTransaction)
    } else if pre.disputes.contains_key(tid) {
        Err(TransactionErrorKind::DisputeAlreadyOpen)
    } else if !pre.log[tid].is_deposit() {
        Err(TransactionErrorKind::NotDisputable)
    } else if pre.available < pre.log[tid].amount_spec() {
        Err(TransactionErrorKind::InsufficientFunds)
    } else {
        let a = pre.log[tid].amount_spec();
        Ok(
            AccountModel {
                client: pre.client,
                available: pre.available - a,
                held: pre.held + a,
                locked: pre.locked,
                log: pre.log,
                disputes: pre.disputes.insert(
                    tid,
                    DisputableTransaction::Initiated(Transaction { amount: a }),
                ),
            },
        )
    }
}

/// How `resolve` moves the state: the dispute must be open and still
/// `Initiated`; its amount moves back from held to available.
pub open spec fn resolve_step(pre: AccountModel, tid: TransactionId) -> Result<
    AccountModel,
    TransactionErrorKind,
> {
    if pre.locked {
        Err(TransactionErrorKind::AccountLocked)
    } else if !pre.disputes.contains_key(tid) {
        Err(TransactionErrorKind::NoOpenDispute)
    } else if !pre.disputes[tid].is_initiated() {
        Err(TransactionErrorKind::InvalidDisputeState)
    } else {
        let a = pre.disputes[tid].amount_spec();
        Ok(
            AccountModel {
                client: pre.client,
                available: pre.available + a,
                held: pre.held - a,
                locked: pre.locked,
                log: pre.log,
                disputes: pre.disputes.remove(tid),
            },
        )
    }
}

/// How `chargeback` moves the state: the dispute must be open and still
/// `Initiated`; its amount leaves the held balance for good and the
/// account locks.
pub open spec fn chargeback_step(pre: AccountModel, tid: TransactionId) -> Result<
    AccountModel,
    TransactionErrorKind,
> {
    if pre.locked {
        Err(TransactionErrorKind::AccountLocked)
    } else if !pre.disputes.contains_key(tid) {
        Err(TransactionErrorKind::NoOpenDispute)
    } else if !pre.disputes[tid].is_initiated() {
        Err(TransactionErrorKind::InvalidDisputeState)
    } else {
        let a = pre.disputes[tid].amount_spec();
        Ok(
            AccountModel {
                client: pre.client,
                available: pre.available,
                held: pre.held - a,
                locked: true,
                log: pre.log,
                disputes: pre.disputes.remove(tid),
            },
        )
    }
}

/// What one output row says of an account: client id, available, held
/// and total balances as decimals, and the lock flag, in that order.
pub open spec fn is_row_for(row: Seq<String>, m: AccountModel) -> bool {
    &&& row.len() == 5
    &&& row[0]@ == render::dec_seq(m.client as nat)
    &&& row[1]@ == render::amount_seq(m.available as nat)
    &&& row[2]@ == render::amount_seq(m.held as nat)
    &&& row[3]@ == render::amount_seq((m.available + m.held) as nat)
    &&& row[4]@ == render::bool_seq(m.locked)
}

/// The sum of the amounts of the open disputes.
pub open spec fn dsum(s: Seq<(TransactionId, DisputableTransaction)>) -> int
    decreases s.len(),
{
    if s.len() == 0 {
        0
    } else {
        dsum(s.drop_last()) + s.last().1.amount_spec()
    }
}

/// Appending a dispute adds its amount to the sum.
pub proof fn lemma_dsum_push(s: Seq<(TransactionId, DisputableTransaction)>, p: (
    TransactionId,
    DisputableTransaction,
))
    ensures
        dsum(s.push(p)) == dsum(s) + p.1.amount_spec(),
{
    assert(s.push(p).drop_last() =~= s);
    assert(s.push(p).last() == p);
}

/// Removing a dispute subtracts its amount from the sum.
pub proof fn lemma_dsum_remove(s: Seq<(TransactionId, DisputableTransaction)>, i: int)
    requires
        0 <= i < s.len(),
    ensures
        dsum(s.remove(i)) == dsum(s) - s[i].1.amount_spec(),
    decreases s.len(),
{
    if i == s.len() - 1 {
        assert(s.remove(i) =~= s.drop_last());
    } else {
        lemma_dsum_remove(s.drop_last(), i);
        assert(s.remove(i).drop_last() =~= s.drop_last().remove(i));
        assert(s.remove(i).last() == s.last());
    }
}

/// The sum of dispute amounts is never negative.
pub proof fn lemma_dsum_nonneg(s: Seq<(TransactionId, DisputableTransaction)>)
    ensures
        dsum(s) >= 0,
    decreases s.len(),
{
    if s.len() > 0 {
        lemma_dsum_nonneg(s.drop_last());
    }
}

/// One client's balances, transaction log and open disputes.
pub struct Account {
    client: ClientId,
    available: Amount,
    held: Amount,
    locked: bool,
    transaction_log: Vec<(TransactionId, AmountTransaction)>,
    open_disputes: Vec<(TransactionId, DisputableTransaction)>,
}

impl View for Account {
    type V = AccountModel;

    closed spec fn view(&self) -> AccountModel {
        AccountModel {
            client: self.client,
            available: self.available as int,
            held: self.held as int,
            locked: self.locked,
            log: assoc::map_of(self.transaction_log@),
            disputes: assoc::map_of(self.open_disputes@),
        }
    }
}

impl Account {
    /// The account's internal invariant: keys are unique, each log entry
    /// is keyed by its transaction's own id, the total balance fits the
    /// machine word, the held balance is exactly the sum of the open
    /// disputes, and every open dispute is an `Initiated` claim against
    /// a logged deposit of the same amount.
    pub closed spec fn wf(&self) -> bool {
        &&& assoc::keys_unique(self.transaction_log@)
        &&& assoc::keys_unique(self.open_disputes@)
        &&& forall|i: int|
            0 <= i < self.transaction_log@.len() ==> (#[trigger] self.transaction_log@[i]).0
                == self.transaction_log@[i].1.tid_spec()
        &&& self.available + self.held <= u64::MAX
        &&& self.held as int == dsum(self.open_disputes@)
        &&& forall|tid: TransactionId|
            #[trigger] self@.disputes.contains_key(tid) ==> {
                &&& self@.disputes[tid].is_initiated()
                &&& self@.log.contains_key(tid)
                &&& self@.log[tid].is_deposit()
                &&& self@.log[tid].amount_spec() == self@.disputes[tid].amount_spec()
            }
    }

    /// Creates the account a client starts with: zero balances, unlocked,
    /// empty log, no disputes.
    pub fn new(client: ClientId) -> (r: Account)
        ensures
            r.wf(),
            r@ == fresh_account(client),
    {
        let r = Account {
            client,
            available: 0,
            held: 0,
            locked: false,
            transaction_log: Vec::new(),
            open_disputes: Vec::new(),
        };
        proof {
            assert(r@ =~= fresh_account(client));
        }
        r
    }

    /// Applies a funds-moving transaction: checks the lock, rejects a
    /// reused id, rejects a withdrawal the available balance cannot
    /// cover, and otherwise commits the amount and logs the transaction.
    pub fn process_transaction(&mut self, transaction: &AmountTransaction) -> (r: Result<
        (),
        TransactionError,
    >)
        requires
            old(self).wf(),
            transaction.is_deposit() ==> old(self)@.available + old(self)@.held
                + transaction.amount_spec() <= u64::MAX,
        ensures
            final(self).wf(),
            match r {
                Ok(()) => process_step(old(self)@, *transaction) == Ok::<
                    AccountModel,
                    TransactionErrorKind,
                >(final(self)@),
                Err(e) => {
                    &&& final(self)@ == old(self)@
                    &&& process_step(old(self)@, *transaction) == Err::<
                        AccountModel,
                        TransactionErrorKind,
                    >(e.kind)
                    &&& e == (TransactionError {
                        tid: transaction.tid_spec(),
                        operation: Operation::Process,
                        kind: e.kind,
                    })
                },
            },
    {
        let tid = transaction.tid();
        if self.locked {
            return Err(
                TransactionError::new(tid, Operation::Process, TransactionErrorKind::AccountLocked),
            );
        }
        match assoc::get(&self.transaction_log, tid) {
            Some(_) => {
                return Err(
                    TransactionError::new(
                        tid,
                        Operation::Process,
                        TransactionErrorKind::DuplicateTransaction,
                    ),
                );
            },
            None => {},
        }
        proof {
            assoc::lemma_map_of_contains(self.transaction_log@, tid);
            assoc::lemma_map_of_push(self.transaction_log@, tid, *transaction);
        }
        match transaction {
            AmountTransaction::Deposit(d) => {
                self.available = self.available + d.amount;
                self.transaction_log.push((tid, *transaction));
            },
            AmountTransaction::Withdraw(w) => {
                if w.amount > self.available {
                    return Err(
                        TransactionError::new(
                            tid,
                            Operation::Process,
                            TransactionErrorKind::InsufficientFunds,
                        ),
                    );
                }
                self.available = self.available - w.amount;
                self.transaction_log.push((tid, *transaction));
            },
        }
        proof {
            assert(self@ =~= process_step(old(self)@, *transaction)->Ok_0);
            assert forall|i: int, j: int| 0 <= i < j < self.transaction_log@.len() implies (
            #[trigger] self.transaction_log@[i]).0 != (#[trigger] self.transaction_log@[j]).0 by {
                if j < self.transaction_log@.len() - 1 {
                    assert(old(self).transaction_log@[i].0 != old(self).transaction_log@[j].0);
                }
            }
        }
        Ok(())
    }

    /// Opens a dispute against a logged deposit: the claimed amount
    /// moves from the available to the held balance, atomically or not
    /// at all.
    pub fn open_dispute(&mut self, tid: TransactionId) -> (r: Result<(), TransactionError>)
        requires
            old(self).wf(),
        ensures
            final(self).wf(),
            match r {
                Ok(()) => dispute_step(old(self)@, tid) == Ok::<
                    AccountModel,
                    TransactionErrorKind,
                >(final(self)@),
                Err(e) => {
                    &&& final(self)@ == old(self)@
                    &&& dispute_step(old(self)@, tid) == Err::<
                        AccountModel,
                        TransactionErrorKind,
                    >(e.kind)
                    &&& e == (TransactionError {
                        tid,
                        operation: Operation::OpenDispute,
                        kind: e.kind,
                    })
                },
            },
    {
        if self.locked {
            return Err(
                TransactionError::new(
                    tid,
                    Operation::OpenDispute,
                    TransactionErrorKind::AccountLocked,
                ),
            );
        }
        let logged = assoc::get(&self.transaction_log, tid);
        match logged {
            None => Err(
                TransactionError::new(
                    tid,
                    Operation::OpenDispute,
                    TransactionErrorKind::UnknownTransaction,
                ),
            ),
            Some(t) => {
                match assoc::get(&self.open_disputes, tid) {
                    Some(_) => {
                        return Err(
                            TransactionError::new(
                                tid,
                                Operation::OpenDispute,
                                TransactionErrorKind::DisputeAlreadyOpen,
                            ),
                        );
                    },
                    None => {},
                }
                match t {
                    AmountTransaction::Withdraw(_) => Err(
                        TransactionError::new(
                            tid,
                            Operation::OpenDispute,
                            TransactionErrorKind::NotDisputable,
                        ),
                    ),
                    AmountTransaction::Deposit(d) => {
                        if self.available < d.amount {
                            return Err(
                                TransactionError::new(
                                    tid,
                                    Operation::OpenDispute,
                                    TransactionErrorKind::InsufficientFunds,
                                ),
                            );
                        }
                        let disputable = d.to_disputable();
                        proof {
                            assoc::lemma_map_of_contains(self.open_disputes@, tid);
                            assoc::lemma_map_of_push(self.open_disputes@, tid, disputable);
                            lemma_dsum_push(self.open_disputes@, (tid, disputable));
                        }
                        self.available = self.available - d.amount;
                        self.held = self.held + d.amount;
                        self.open_disputes.push((tid, disputable));
                        proof {
                            assert(self@ =~= dispute_step(old(self)@, tid)->Ok_0);
                            assert forall|i: int, j: int|
                                0 <= i < j < self.open_disputes@.len() implies (
                            #[trigger] self.open_disputes@[i]).0 != (
                            #[trigger] self.open_disputes@[j]).0 by {
                                if j < self.open_disputes@.len() - 1 {
                                    assert(old(self).open_disputes@[i].0 != old(
                                        self,
                                    ).open_disputes@[j].0);
                                }
                            }
                        }
                        Ok(())
                    },
                }
            },
        }
    }

    /// Resolves an open dispute in the client's favor: the held amount
    /// returns to the available balance and the dispute closes.
    pub fn resolve(&mut self, tid: TransactionId) -> (r: Result<(), TransactionError>)
        requires
            old(self).wf(),
        ensures
            final(self).wf(),
            match r {
                Ok(()) => resolve_step(old(self)@, tid) == Ok::<
                    AccountModel,
                    TransactionErrorKind,
                >(final(self)@),
                Err(e) => {
                    &&& final(self)@ == old(self)@
                    &&& resolve_step(old(self)@, tid) == Err::<
                        AccountModel,
                        TransactionErrorKind,
                    >(e.kind)
                    &&& e == (TransactionError {
                        tid,
                        operation: Operation::Resolve,
                        kind: e.kind,
                    })
                },
            },
    {
        if self.locked {
            return Err(
                TransactionError::new(tid, Operation::Resolve, TransactionErrorKind::AccountLocked),
            );
        }
        match assoc::get(&self.open_disputes, tid) {
            None => Err(
                TransactionError::new(tid, Operation::Resolve, TransactionErrorKind::NoOpenDispute),
            ),
            Some(d) => {
                match d.to_resolved() {
                    None => Err(
                        TransactionError::new(
                            tid,
                            Operation::Resolve,
                            TransactionErrorKind::InvalidDisputeState,
                        ),
                    ),
                    Some(_) => {
                        let a = d.amount();
                        proof {
                            self.lemma_open_dispute_bounds(tid, d);
                        }
                        self.available = self.available + a;
                        self.held = self.held - a;
                        let _ = assoc::remove_key(&mut self.open_disputes, tid);
                        proof {
                            let i = choose|i: int|
                                0 <= i < old(self).open_disputes@.len() && old(
                                    self,
                                ).open_disputes@[i] == (tid, d) && self.open_disputes@ =~= old(
                                    self,
                                ).open_disputes@.remove(i);
                            lemma_dsum_remove(old(self).open_disputes@, i);
                            assert(self@ =~= resolve_step(old(self)@, tid)->Ok_0);
                        }
                        Ok(())
                    },
                }
            },
        }
    }

    /// Resolves an open dispute against the client: the held amount is
    /// removed for good, the dispute closes, and the account locks.
    pub fn chargeback(&mut self, tid: TransactionId) -> (r: Result<(), TransactionError>)
        requires
            old(self).wf(),
        ensures
            final(self).wf(),
            match r {
                Ok(()) => chargeback_step(old(self)@, tid) == Ok::<
                    AccountModel,
                    TransactionErrorKind,
                >(final(self)@),
                Err(e) => {
                    &&& final(self)@ == old(self)@
                    &&& chargeback_step(old(self)@, tid) == Err::<
                        AccountModel,
                        TransactionErrorKind,
                    >(e.kind)
                    &&& e == (TransactionError {
                        tid,
                        operation: Operation::Chargeback,
                        kind: e.kind,
                    })
                },
            },
    {
        if self.locked {
            return Err(
                TransactionError::new(
                    tid,
                    Operation::Chargeback,
                    TransactionErrorKind::AccountLocked,
                ),
            );
        }
        match assoc::get(&self.open_disputes, tid) {
            None => Err(
                TransactionError::new(
                    tid,
                    Operation::Chargeback,
                    TransactionErrorKind::NoOpenDispute,
                ),
            ),
            Some(d) => {
                match d.to_chargebacked() {
                    None => Err(
                        TransactionError::new(
                            tid,
                            Operation::Chargeback,
                            TransactionErrorKind::InvalidDisputeState,
                        ),
                    ),
                    Some(_) => {
                        let a = d.amount();
                        proof {
                            self.lemma_open_dispute_bounds(tid, d);
                        }
                        self.held = self.held - a;
                        self.locked = true;
                        let _ = assoc::remove_key(&mut self.open_disputes, tid);
                        proof {
                            let i = choose|i: int|
                                0 <= i < old(self).open_disputes@.len() && old(
                                    self,
                                ).open_disputes@[i] == (tid, d) && self.open_disputes@ =~= old(
                                    self,
                                ).open_disputes@.remove(i);
                            lemma_dsum_remove(old(self).open_disputes@, i);
                            assert(self@ =~= chargeback_step(old(self)@, tid)->Ok_0);
                        }
                        Ok(())
                    },
                }
            },
        }
    }

    /// A well-formed account's balances are non-negative and their sum
    /// fits the machine word.
    pub proof fn lemma_wf_bounds(&self)
        requires
            self.wf(),
        ensures
            0 <= self@.available,
            0 <= self@.held,
            self@.available + self@.held <= u64::MAX,
    {
    }

    /// An open dispute's amount is covered by the held balance, which
    /// the total-balance bound then keeps within the machine word.
    proof fn lemma_open_dispute_bounds(&self, tid: TransactionId, d: DisputableTransaction)
        requires
            self.wf(),
            self@.disputes.contains_key(tid),
            self@.disputes[tid] == d,
        ensures
            d.amount_spec() <= self@.held,
            self@.available + d.amount_spec() <= u64::MAX,
    {
        assoc::lemma_map_of_contains(self.open_disputes@, tid);
        let i = choose|i: int|
            0 <= i < self.open_disputes@.len() && (#[trigger] self.open_disputes@[i]).0 == tid;
        assoc::lemma_map_of_index(self.open_disputes@, i);
        lemma_dsum_remove(self.open_disputes@, i);
        lemma_dsum_nonneg(self.open_disputes@.remove(i));
    }

    /// Renders the account as its output row: client id, available,
    /// held, total and lock state.
    pub fn serialize(&self) -> (r: Vec<String>)
        requires
            self.wf(),
        ensures
            is_row_for(r@, self@),
    {
        let mut r: Vec<String> = Vec::new();
        r.push(render::u64_string(self.client as u64));
        r.push(render::amount_string(self.available));
        r.push(render::amount_string(self.held));
        r.push(render::amount_string(self.available + self.held));
        r.push(render::bool_string(self.locked));
        r
    }

    /// The client id this account belongs to.
    pub fn client(&self) -> (r: ClientId)
        ensures
            r == self@.client,
    {
        self.client
    }

    /// The funds the client may freely withdraw or have disputed.
    pub fn available(&self) -> (r: Amount)
        ensures
            r as int == self@.available,
    {
        self.available
    }

    /// The funds frozen pending dispute resolution.
    pub fn held(&self) -> (r: Amount)
        ensures
            r as int == self@.held,
    {
        self.held
    }

    /// Whether a chargeback has locked the account for good.
    pub fn is_locked(&self) -> (r: bool)
        ensures
            r == self@.locked,
    {
        self.locked
    }
}

} // verus!
