//! The driving side of a run: a client-id-keyed collection of accounts,
//! the per-record dispatch, and the final snapshot.
//!
//! Accounts are kept sorted by ascending client id, so the snapshot
//! comes out in output order. A record names an operation by its type
//! string; the account for its client is created on first reference,
//! even when the operation itself then fails.

use vstd::prelude::*;
use vstd::string::StringExecFns;
use crate::account::{
    Account, AccountModel, ClientId, chargeback_step, dispute_step, fresh_account, is_row_for,
    process_step, resolve_step,
};
use crate::errors::{Operation, TransactionError, TransactionErrorKind};
use crate::transaction::{
    Amount, AmountTransaction, DepositTransaction, TransactionId, WithdrawTransaction,
};

verus! {

/// One decoded input row: the operation's type string, the client, the
/// transaction id it names, and the amount where the type carries one.
pub struct InputRecord {
    pub ttype: String,
    pub client: ClientId,
    pub tx: TransactionId,
    pub amount: Option<Amount>,
}

/// Whether a type string names a funds-moving operation, which is the
/// case exactly when the record must carry an amount.
pub open spec fn is_funds_moving(ttype: Seq<char>) -> bool {
    ttype == "deposit"@ || ttype == "withdraw"@
}

/// The amount a record carries, zero when absent.
pub open spec fn amount_or_zero(amount: Option<Amount>) -> Amount {
    match amount {
        Some(a) => a,
        None => 0,
    }
}

/// Wraps an account transition's outcome as the dispatch reports it:
/// the new state on success, the old state and a tagged error on
/// failure.
pub open spec fn step_outcome(
    pre: AccountModel,
    op: Operation,
    tid: TransactionId,
    step: Result<AccountModel, TransactionErrorKind>,
) -> (AccountModel, Result<(), TransactionError>) {
    match step {
        Ok(m) => (m, Ok(())),
        Err(kind) => (pre, Err(TransactionError { tid, operation: op, kind })),
    }
}

/// How one input record moves one account: the five recognized type
/// strings select the matching operation; any other type changes
/// nothing and reports `UnknownTransactionType`.
pub open spec fn record_step(
    pre: AccountModel,
    ttype: Seq<char>,
    tx: TransactionId,
    amount: Option<Amount>,
) -> (AccountModel, Result<(), TransactionError>) {
    if ttype == "deposit"@ {
        step_outcome(
            pre,
            Operation::Process,
            tx,
            process_step(
                pre,
                AmountTransaction::Deposit(
                    DepositTransaction { tid: tx, amount: amount_or_zero(amount) },
                ),
            ),
        )
    } else if ttype == "withdraw"@ {
        step_outcome(
            pre,
            Operation::Process,
            tx,
            process_step(
                pre,
                AmountTransaction::Withdraw(
                    WithdrawTransaction { tid: tx, amount: amount_or_zero(amount) },
                ),
            ),
        )
    } else if ttype == "dispute"@ {
        step_outcome(pre, Operation::OpenDispute, tx, dispute_step(pre, tx))
    } else if ttype == "resolve"@ {
        step_outcome(pre, Operation::Resolve, tx, resolve_step(pre, tx))
    } else if ttype == "chargeback"@ {
        step_outcome(pre, Operation::Chargeback, tx, chargeback_step(pre, tx))
    } else {
        (
            pre,
            Err(
                TransactionError {
                    tid: tx,
                    operation: Operation::Ingest,
                    kind: TransactionErrorKind::UnknownTransactionType,
                },
            ),
        )
    }
}

/// The account a client is at in the map: its entry, or a fresh account
/// where it has none yet.
pub open spec fn account_model_for(m: Map<ClientId, AccountModel>, client: ClientId) -> AccountModel {
    if m.contains_key(client) {
        m[client]
    } else {
        fresh_account(client)
    }
}

/// The finite map a sequence of accounts denotes, keyed by client id.
pub open spec fn accounts_map(s: Seq<Account>) -> Map<ClientId, AccountModel>
    decreases s.len(),
{
    if s.len() == 0 {
        Map::empty()
    } else {
        accounts_map(s.drop_last()).insert(s.last()@.client, s.last()@)
    }
}

/// No two accounts share a client id.
pub open spec fn clients_unique(s: Seq<Account>) -> bool {
    forall|i: int, j: int| 0 <= i < j < s.len() ==> (#[trigger] s[i])@.client != (#[trigger] s[j])@.client
}

/// A client is in the map exactly when some account carries it.
pub proof fn lemma_accounts_map_contains(s: Seq<Account>, c: ClientId)
    ensures
        accounts_map(s).contains_key(c) <==> exists|i: int|
            0 <= i < s.len() && (#[trigger] s[i])@.client == c,
    decreases s.len(),
{
    if s.len() > 0 {
        lemma_accounts_map_contains(s.drop_last(), c);
        if s.last()@.client == c {
            assert(s[s.len() - 1]@.client == c);
        } else if accounts_map(s).contains_key(c) {
            let i = choose|i: int|
                0 <= i < s.drop_last().len() && (#[trigger] s.drop_last()[i])@.client == c;
            assert(s[i]@.client == c);
        } else if exists|i: int| 0 <= i < s.len() && (#[trigger] s[i])@.client == c {
            let i = choose|i: int| 0 <= i < s.len() && (#[trigger] s[i])@.client == c;
            assert(s.drop_last()[i]@.client == c);
        }
    }
}

/// Under unique client ids, each account is the map's value at its id.
pub proof fn lemma_accounts_map_index(s: Seq<Account>, i: int)
    requires
        clients_unique(s),
        0 <= i < s.len(),
    ensures
        accounts_map(s).contains_key(s[i]@.client),
        accounts_map(s)[s[i]@.client] == s[i]@,
    decreases s.len(),
{
    if i == s.len() - 1 {
    } else {
        assert(clients_unique(s.drop_last()));
        lemma_accounts_map_index(s.drop_last(), i);
        assert(s.drop_last()[i] == s[i]);
        assert(s[i]@.client != s.last()@.client);
    }
}

/// Inserting an account with a new client id inserts its model.
pub proof fn lemma_accounts_map_insert(s: Seq<Account>, idx: int, a: Account)
    requires
        0 <= idx <= s.len(),
        forall|i: int| 0 <= i < s.len() ==> (#[trigger] s[i])@.client != a@.client,
    ensures
        accounts_map(s.insert(idx, a)) =~= accounts_map(s).insert(a@.client, a@),
    decreases s.len(),
{
    if idx == s.len() {
        assert(s.insert(idx, a) =~= s.push(a));
        assert(s.push(a).drop_last() =~= s);
        assert(s.push(a).last() == a);
    } else {
        assert(s.len() > 0);
        assert(s.insert(idx, a).last() == s.last());
        assert(s.insert(idx, a).drop_last() =~= s.drop_last().insert(idx, a));
        lemma_accounts_map_insert(s.drop_last(), idx, a);
        assert(s[s.len() - 1]@.client != a@.client);
    }
}

/// Replacing an account by one with the same client id updates its
/// entry in place.
pub proof fn lemma_accounts_map_update(s: Seq<Account>, i: int, a: Account)
    requires
        clients_unique(s),
        0 <= i < s.len(),
        s[i]@.client == a@.client,
    ensures
        accounts_map(s.update(i, a)) =~= accounts_map(s).insert(a@.client, a@),
    decreases s.len(),
{
    if i == s.len() - 1 {
        assert(s.update(i, a).drop_last() =~= s.drop_last());
        assert(s.update(i, a).last() == a);
    } else {
        assert(clients_unique(s.drop_last()));
        assert(s.update(i, a).last() == s.last());
        assert(s.update(i, a).drop_last() =~= s.drop_last().update(i, a));
        lemma_accounts_map_update(s.drop_last(), i, a);
        assert(s[i]@.client != s.last()@.client);
    }
}

/// Every account touched during a run, keyed by client id and kept in
/// ascending client order.
pub struct Accounts {
    accounts: Vec<Account>,
}

impl View for Accounts {
    type V = Map<ClientId, AccountModel>;

    closed spec fn view(&self) -> Map<ClientId, AccountModel> {
        accounts_map(self.accounts@)
    }
}

impl Accounts {
    /// The collection's invariant: each account is well-formed and the
    /// client ids ascend strictly.
    pub closed spec fn wf(&self) -> bool {
        &&& forall|i: int| 0 <= i < self.accounts@.len() ==> (#[trigger] self.accounts@[i]).wf()
        &&& forall|i: int, j: int|
            0 <= i < j < self.accounts@.len() ==> (#[trigger] self.accounts@[i])@.client < (
            #[trigger] self.accounts@[j])@.client
    }

    /// An empty collection: no client has been referenced yet.
    pub fn new() -> (r: Accounts)
        ensures
            r.wf(),
            r@ =~= Map::<ClientId, AccountModel>::empty(),
    {
        Accounts { accounts: Vec::new() }
    }

    /// The account of the given client, if the run has touched it.
    pub fn get_account(&self, client: ClientId) -> (r: Option<&Account>)
        requires
            self.wf(),
        ensures
            match r {
                Some(a) => self@.contains_key(client) && a@ == self@[client] && a.wf(),
                None => !self@.contains_key(client),
            },
    {
        let n = self.accounts.len();
        let mut i: usize = 0;
        while i < n
            invariant
                self.wf(),
                n == self.accounts@.len(),
                i <= n,
                forall|j: int| 0 <= j < i ==> (#[trigger] self.accounts@[j])@.client != client,
            decreases n - i,
        {
            if self.accounts[i].client() == client {
                proof {
                    lemma_accounts_map_index(self.accounts@, i as int);
                }
                return Some(&self.accounts[i]);
            }
            i = i + 1;
        }
        proof {
            lemma_accounts_map_contains(self.accounts@, client);
        }
        None
    }

    /// Whether the client's account can take one more deposit of the
    /// given amount without its total balance outgrowing the machine
    /// word.
    pub fn deposit_fits(&self, client: ClientId, amount: Amount) -> (r: bool)
        requires
            self.wf(),
        ensures
            r == (account_model_for(self@, client).available + account_model_for(self@, client).held
                + amount <= u64::MAX),
    {
        match self.get_account(client) {
            Some(a) => {
                proof {
                    a.lemma_wf_bounds();
                }
                let total = a.available() + a.held();
                amount <= u64::MAX - total
            },
            None => true,
        }
    }

    /// Inserts a fresh account at the given position, which must be the
    /// client's place in the ascending order.
    fn insert_fresh(&mut self, idx: usize, client: ClientId)
        requires
            old(self).wf(),
            idx <= old(self).accounts@.len(),
            forall|j: int| 0 <= j < idx ==> (#[trigger] old(self).accounts@[j])@.client < client,
            forall|j: int|
                idx <= j < old(self).accounts@.len() ==> (#[trigger] old(self).accounts@[j])@.client
                    > client,
        ensures
            final(self).wf(),
            final(self).accounts@.len() == old(self).accounts@.len() + 1,
            final(self).accounts@[idx as int]@ == fresh_account(client),
            final(self).accounts@ == old(self).accounts@.insert(
                idx as int,
                final(self).accounts@[idx as int],
            ),
            final(self)@ =~= old(self)@.insert(client, fresh_account(client)),
    {
        let a = Account::new(client);
        proof {
            lemma_accounts_map_insert(old(self).accounts@, idx as int, a);
            old(self).accounts@.insert_ensures(idx as int, a);
        }
        self.accounts.insert(idx, a);
    }

    /// Finds the client's account, creating it at its sorted position on
    /// first reference; returns its index.
    fn find_or_insert(&mut self, client: ClientId) -> (idx: usize)
        requires
            old(self).wf(),
        ensures
            final(self).wf(),
            idx < final(self).accounts@.len(),
            final(self).accounts@[idx as int].wf(),
            final(self).accounts@[idx as int]@ == account_model_for(old(self)@, client),
            final(self).accounts@[idx as int]@.client == client,
            clients_unique(final(self).accounts@),
            old(self)@.contains_key(client) ==> final(self).accounts@ == old(self).accounts@,
            !old(self)@.contains_key(client) ==> final(self).accounts@ == old(
                self,
            ).accounts@.insert(idx as int, final(self).accounts@[idx as int]),
            final(self)@ =~= old(self)@.insert(client, account_model_for(old(self)@, client)),
    {
        let n = self.accounts.len();
        let mut i: usize = 0;
        while i < n
            invariant
                self == old(self),
                self.wf(),
                n == self.accounts@.len(),
                i <= n,
                forall|j: int| 0 <= j < i ==> (#[trigger] self.accounts@[j])@.client < client,
            decreases n - i,
        {
            let c = self.accounts[i].client();
            if c == client {
                proof {
                    lemma_accounts_map_index(self.accounts@, i as int);
                    assert(old(self)@.insert(client, account_model_for(old(self)@, client))
                        =~= old(self)@);
                }
                return i;
            }
            if c > client {
                proof {
                    assert(forall|j: int|
                        i <= j < n ==> (#[trigger] self.accounts@[j])@.client >= c);
                    lemma_accounts_map_contains(self.accounts@, client);
                }
                self.insert_fresh(i, client);
                return i;
            }
            i = i + 1;
        }
        proof {
            lemma_accounts_map_contains(self.accounts@, client);
        }
        self.insert_fresh(n, client);
        n
    }

    /// Applies one input record: the client's account is looked up or
    /// created, and the operation the type string names runs against it.
    /// The error of a failed operation is handed back; the account map
    /// keeps the account either way.
    pub fn apply_record(&mut self, record: &InputRecord) -> (r: Result<(), TransactionError>)
        requires
            old(self).wf(),
            is_funds_moving(record.ttype@) ==> record.amount is Some,
            record.ttype@ == "deposit"@ ==> account_model_for(old(self)@, record.client).available
                + account_model_for(old(self)@, record.client).held + amount_or_zero(record.amount)
                <= u64::MAX,
        ensures
            final(self).wf(),
            ({
                let pre = account_model_for(old(self)@, record.client);
                let (post, verdict) = record_step(pre, record.ttype@, record.tx, record.amount);
                &&& (match r {
                    Ok(_) => verdict is Ok,
                    Err(e) => verdict == Err::<(), TransactionError>(e),
                })
                &&& final(self)@ =~= old(self)@.insert(record.client, post)
            }),
    {
        let idx = self.find_or_insert(record.client);
        let ghost mid = self.accounts@;
        let mut acct = self.accounts.remove(idx);
        let result: Result<(), TransactionError> = if record.ttype == String::from_str("deposit") {
            let a = match record.amount {
                Some(a) => a,
                None => 0,
            };
            acct.process_transaction(&AmountTransaction::deposit(record.tx, a))
        } else if record.ttype == String::from_str("withdraw") {
            let a = match record.amount {
                Some(a) => a,
                None => 0,
            };
            acct.process_transaction(&AmountTransaction::withdraw(record.tx, a))
        } else if record.ttype == String::from_str("dispute") {
            acct.open_dispute(record.tx)
        } else if record.ttype == String::from_str("resolve") {
            acct.resolve(record.tx)
        } else if record.ttype == String::from_str("chargeback") {
            acct.chargeback(record.tx)
        } else {
            Err(
                TransactionError::new(
                    record.tx,
                    Operation::Ingest,
                    TransactionErrorKind::UnknownTransactionType,
                ),
            )
        };
        proof {
            vstd::seq_lib::lemma_update_is_remove_insert(mid, idx as int, acct);
            lemma_accounts_map_update(mid, idx as int, acct);
        }
        self.accounts.insert(idx, acct);
        proof {
            assert(self.accounts@ =~= mid.update(idx as int, acct));
            assert(self@ =~= accounts_map(mid).insert(record.client, acct@));
            let pre = account_model_for(old(self)@, record.client);
            let sv = record_step(pre, record.ttype@, record.tx, record.amount);
            assert(acct@ == sv.0);
            match result {
                Ok(_) => assert(sv.1 is Ok),
                Err(e) => assert(sv.1 == Err::<(), TransactionError>(e)),
            }
            assert(self@ =~= old(self)@.insert(record.client, sv.0));
        }
        result
    }

    /// Renders every touched account as its output row, in ascending
    /// client-id order.
    pub fn snapshot(&self) -> (r: Vec<Vec<String>>)
        requires
            self.wf(),
        ensures
            exists|cs: Seq<ClientId>| snapshot_rows(cs, self@, r@),
    {
        let n = self.accounts.len();
        let mut rows: Vec<Vec<String>> = Vec::new();
        let mut i: usize = 0;
        while i < n
            invariant
                self.wf(),
                n == self.accounts@.len(),
                i <= n,
                rows@.len() == i,
                forall|j: int|
                    0 <= j < i ==> is_row_for((#[trigger] rows@[j])@, self.accounts@[j]@),
            decreases n - i,
        {
            let row = self.accounts[i].serialize();
            rows.push(row);
            i = i + 1;
        }
        proof {
            let cs = Seq::new(self.accounts@.len(), |i: int| self.accounts@[i]@.client);
            assert forall|c: ClientId| self@.contains_key(c) implies cs.contains(c) by {
                lemma_accounts_map_contains(self.accounts@, c);
                let i = choose|i: int|
                    0 <= i < self.accounts@.len() && (#[trigger] self.accounts@[i])@.client == c;
                assert(cs[i] == c);
            }
            assert forall|c: ClientId| cs.contains(c) implies self@.contains_key(c) by {
                let i = choose|i: int| 0 <= i < cs.len() && cs[i] == c;
                lemma_accounts_map_contains(self.accounts@, c);
            }
            assert forall|i: int| 0 <= i < cs.len() implies self@.contains_key(#[trigger] cs[i])
                && is_row_for(rows@[i]@, self@[cs[i]]) by {
                lemma_accounts_map_index(self.accounts@, i);
            }
            assert(snapshot_rows(cs, self@, rows@));
        }
        rows
    }
}

/// What the snapshot promises: one row per touched account, rows keyed
/// by a strictly ascending list of exactly the touched client ids, each
/// row rendering its client's account.
pub open spec fn snapshot_rows(
    cs: Seq<ClientId>,
    m: Map<ClientId, AccountModel>,
    rows: Seq<Vec<String>>,
) -> bool {
    &&& cs.len() == rows.len()
    &&& forall|i: int, j: int| 0 <= i < j < cs.len() ==> cs[i] < cs[j]
    &&& forall|c: ClientId| m.contains_key(c) <==> cs.contains(c)
    &&& forall|i: int|
        0 <= i < cs.len() ==> m.contains_key(#[trigger] cs[i]) && is_row_for(rows[i]@, m[cs[i]])
}

} // verus!
