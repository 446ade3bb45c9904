//! The transaction model: funds-moving events and the dispute lifecycle.
//!
//! Monetary amounts are fixed-point: an [`Amount`] counts ten-thousandths
//! of the currency unit, so `15000` stands for `1.5`.

use vstd::prelude::*;

verus! {

/// Identifier of a funds-moving transaction, unique within a run.
pub type TransactionId = u32;

/// A monetary amount in units of one ten-thousandth of the currency.
pub type Amount = u64;

/// A deposit: adds its amount to the available balance.
#[derive(Copy, Clone, Debug)]
pub struct DepositTransaction {
    pub tid: TransactionId,
    pub amount: Amount,
}

/// A withdrawal: removes its amount from the available balance.
#[derive(Copy, Clone, Debug)]
pub struct WithdrawTransaction {
    pub tid: TransactionId,
    pub amount: Amount,
}

/// A funds-moving transaction: either a deposit or a withdrawal.
#[derive(Copy, Clone, Debug)]
pub enum AmountTransaction {
    Deposit(DepositTransaction),
    Withdraw(WithdrawTransaction),
}

impl AmountTransaction {
    /// The transaction's identifier.
    pub open spec fn tid_spec(&self) -> TransactionId {
        match self {
            AmountTransaction::Deposit(t) => t.tid,
            AmountTransaction::Withdraw(t) => t.tid,
        }
    }

    /// The transaction's (unsigned) amount.
    pub open spec fn amount_spec(&self) -> Amount {
        match self {
            AmountTransaction::Deposit(t) => t.amount,
            AmountTransaction::Withdraw(t) => t.amount,
        }
    }

    /// Signed effect on the available balance: positive for a deposit,
    /// negative for a withdrawal.
    pub open spec fn amount_delta(&self) -> int {
        match self {
            AmountTransaction::Deposit(t) => t.amount as int,
            AmountTransaction::Withdraw(t) => -(t.amount as int),
        }
    }

    /// Effect on the held balance: a funds-moving transaction never
    /// touches held funds.
    pub open spec fn hold_delta(&self) -> int {
        0
    }

    /// Whether this transaction is a deposit (and hence disputable).
    pub open spec fn is_deposit(&self) -> bool {
        self matches AmountTransaction::Deposit(_)
    }

    /// Builds a deposit.
    pub fn deposit(tid: TransactionId, amount: Amount) -> (r: AmountTransaction)
        ensures
            r == AmountTransaction::Deposit(DepositTransaction { tid, amount }),
    {
        AmountTransaction::Deposit(DepositTransaction { tid, amount })
    }

    /// Builds a withdrawal.
    pub fn withdraw(tid: TransactionId, amount: Amount) -> (r: AmountTransaction)
        ensures
            r == AmountTransaction::Withdraw(WithdrawTransaction { tid, amount }),
    {
        AmountTransaction::Withdraw(WithdrawTransaction { tid, amount })
    }

    /// The transaction's identifier.
    pub fn tid(&self) -> (r: TransactionId)
        ensures
            r == self.tid_spec(),
    {
        match self {
            AmountTransaction::Deposit(t) => t.tid,
            AmountTransaction::Withdraw(t) => t.tid,
        }
    }
}

/// The amount carried by a dispute-lifecycle value.
#[derive(Copy, Clone, Debug)]
pub struct Transaction {
    pub amount: Amount,
}

/// A dispute over a previously applied deposit, in one of its three
/// lifecycle states. `Resolved` and `ChargedBacked` are terminal.
#[derive(Copy, Clone, Debug)]
pub enum DisputableTransaction {
    Initiated(Transaction),
    Resolved(Transaction),
    ChargedBacked(Transaction),
}

impl DisputableTransaction {
    /// The disputed deposit's amount.
    pub open spec fn amount_spec(&self) -> Amount {
        match self {
            DisputableTransaction::Initiated(t) => t.amount,
            DisputableTransaction::Resolved(t) => t.amount,
            DisputableTransaction::ChargedBacked(t) => t.amount,
        }
    }

    /// Signed effect on the available balance: opening a dispute removes
    /// the amount, resolving returns it, a chargeback leaves it alone.
    pub open spec fn amount_delta(&self) -> int {
        match self {
            DisputableTransaction::Initiated(t) => -(t.amount as int),
            DisputableTransaction::Resolved(t) => t.amount as int,
            DisputableTransaction::ChargedBacked(_) => 0,
        }
    }

    /// Signed effect on the held balance: opening a dispute adds the
    /// amount, resolving or charging back removes it.
    pub open spec fn hold_delta(&self) -> int {
        match self {
            DisputableTransaction::Initiated(t) => t.amount as int,
            DisputableTransaction::Resolved(t) => -(t.amount as int),
            DisputableTransaction::ChargedBacked(t) => -(t.amount as int),
        }
    }

    /// Whether the dispute is still open.
    pub open spec fn is_initiated(&self) -> bool {
        self matches DisputableTransaction::Initiated(_)
    }

    /// The disputed deposit's amount.
    pub fn amount(&self) -> (r: Amount)
        ensures
            r == self.amount_spec(),
    {
        match self {
            DisputableTransaction::Initiated(t) => t.amount,
            DisputableTransaction::Resolved(t) => t.amount,
            DisputableTransaction::ChargedBacked(t) => t.amount,
        }
    }

    /// Moves an open dispute to `Resolved`; `None` for the two terminal
    /// states, which admit no further conversion.
    pub fn to_resolved(&self) -> (r: Option<DisputableTransaction>)
        ensures
            r == (if self.is_initiated() {
                Some(DisputableTransaction::Resolved(Transaction { amount: self.amount_spec() }))
            } else {
                None::<DisputableTransaction>
            }),
    {
        match self {
            DisputableTransaction::Initiated(t) => Some(DisputableTransaction::Resolved(*t)),
            _ => None,
        }
    }

    /// Moves an open dispute to `ChargedBacked`; `None` for the two
    /// terminal states.
    pub fn to_chargebacked(&self) -> (r: Option<DisputableTransaction>)
        ensures
            r == (if self.is_initiated() {
                Some(DisputableTransaction::ChargedBacked(Transaction { amount: self.amount_spec() }))
            } else {
                None::<DisputableTransaction>
            }),
    {
        match self {
            DisputableTransaction::Initiated(t) => Some(DisputableTransaction::ChargedBacked(*t)),
            _ => None,
        }
    }
}

impl DepositTransaction {
    /// A deposit is the only disputable transaction: converting it opens
    /// the dispute lifecycle with the deposit's amount. Withdrawals have
    /// no such conversion.
    pub fn to_disputable(&self) -> (r: DisputableTransaction)
        ensures
            r == DisputableTransaction::Initiated(Transaction { amount: self.amount }),
    {
        DisputableTransaction::Initiated(Transaction { amount: self.amount })
    }
}

} // verus!
