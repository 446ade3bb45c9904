//! The closed error taxonomy for failed operations.
//!
//! Every business-rule failure is scoped to a single transaction id and
//! the operation that rejected it; callers branch on the kind.

use vstd::prelude::*;
use vstd::string::StringExecFns;
use crate::render;
use crate::transaction::TransactionId;

verus! {

/// The operation an error came from.
#[derive(Copy, Clone, Debug, PartialEq, Eq, Structural)]
pub enum Operation {
    /// `Account::process_transaction`.
    Process,
    /// `Account::open_dispute`.
    OpenDispute,
    /// `Account::resolve`.
    Resolve,
    /// `Account::chargeback`.
    Chargeback,
    /// The driving loop's per-record dispatch.
    Ingest,
}

/// Why an operation rejected a transaction.
#[derive(Copy, Clone, Debug, PartialEq, Eq, Structural)]
pub enum TransactionErrorKind {
    /// No operation is permitted once an account is locked.
    AccountLocked,
    /// A funds-moving transaction id was reused.
    DuplicateTransaction,
    /// Applying the transaction would make the available balance negative.
    InsufficientFunds,
    /// A dispute referenced a transaction id not in the log.
    UnknownTransaction,
    /// A dispute was opened twice on the same id.
    DisputeAlreadyOpen,
    /// A dispute was requested on a non-deposit transaction.
    NotDisputable,
    /// Resolve or chargeback referenced an id with no open dispute.
    NoOpenDispute,
    /// Resolve or chargeback on a dispute not in the `Initiated` state.
    InvalidDisputeState,
    /// An input record's type string matched none of the recognized kinds.
    UnknownTransactionType,
}

/// The operation's name as a report prints it.
pub open spec fn operation_seq(op: Operation) -> Seq<char> {
    match op {
        Operation::Process => "process_transaction"@,
        Operation::OpenDispute => "open_dispute"@,
        Operation::Resolve => "resolve"@,
        Operation::Chargeback => "chargeback"@,
        Operation::Ingest => "ingest"@,
    }
}

/// The reason an error kind stands for, as a report prints it.
pub open spec fn kind_seq(kind: TransactionErrorKind) -> Seq<char> {
    match kind {
        TransactionErrorKind::AccountLocked => "Account is locked"@,
        TransactionErrorKind::DuplicateTransaction => "Transaction is already processed"@,
        TransactionErrorKind::InsufficientFunds => "Not enough money to apply transaction"@,
        TransactionErrorKind::UnknownTransaction => "Missing transaction for the client"@,
        TransactionErrorKind::DisputeAlreadyOpen => "Dispute is already open"@,
        TransactionErrorKind::NotDisputable => "Incorrect type of transaction for dispute"@,
        TransactionErrorKind::NoOpenDispute => "Missing dispute for transaction"@,
        TransactionErrorKind::InvalidDisputeState => "Dispute is not open for resolution"@,
        TransactionErrorKind::UnknownTransactionType => "Unknown transaction type"@,
    }
}

impl Operation {
    /// The operation's name.
    fn name(&self) -> (r: &'static str)
        ensures
            r@ == operation_seq(*self),
    {
        match self {
            Operation::Process => "process_transaction",
            Operation::OpenDispute => "open_dispute",
            Operation::Resolve => "resolve",
            Operation::Chargeback => "chargeback",
            Operation::Ingest => "ingest",
        }
    }
}

impl TransactionErrorKind {
    /// The failure's reason in words.
    fn reason(&self) -> (r: &'static str)
        ensures
            r@ == kind_seq(*self),
    {
        match self {
            TransactionErrorKind::AccountLocked => "Account is locked",
            TransactionErrorKind::DuplicateTransaction => "Transaction is already processed",
            TransactionErrorKind::InsufficientFunds => "Not enough money to apply transaction",
            TransactionErrorKind::UnknownTransaction => "Missing transaction for the client",
            TransactionErrorKind::DisputeAlreadyOpen => "Dispute is already open",
            TransactionErrorKind::NotDisputable => "Incorrect type of transaction for dispute",
            TransactionErrorKind::NoOpenDispute => "Missing dispute for transaction",
            TransactionErrorKind::InvalidDisputeState => "Dispute is not open for resolution",
            TransactionErrorKind::UnknownTransactionType => "Unknown transaction type",
        }
    }
}

/// The one-line report of an error: the transaction, the operation that
/// failed, and the reason.
pub open spec fn message_seq(e: TransactionError) -> Seq<char> {
    "Error processing transaction tid="@ + render::dec_seq(e.tid as nat) + ". "@ + operation_seq(
        e.operation,
    ) + " operation failed. "@ + kind_seq(e.kind)
}

/// A business-rule failure: one transaction, one operation, one reason.
#[derive(Copy, Clone, Debug, PartialEq, Eq, Structural)]
pub struct TransactionError {
    pub tid: TransactionId,
    pub operation: Operation,
    pub kind: TransactionErrorKind,
}

impl TransactionError {
    /// Builds an error for the given transaction, operation and reason.
    pub fn new(tid: TransactionId, operation: Operation, kind: TransactionErrorKind) -> (r:
        TransactionError)
        ensures
            r == (TransactionError { tid, operation, kind }),
    {
        TransactionError { tid, operation, kind }
    }

    /// Renders the error as the one-line report the run prints for a
    /// failed record.
    pub fn message(&self) -> (r: String)
        ensures
            r@ == message_seq(*self),
    {
        let mut s = "Error processing transaction tid=".to_owned();
        s.append(render::u64_string(self.tid as u64).as_str());
        s.append(". ");
        s.append(self.operation.name());
        s.append(" operation failed. ");
        s.append(self.kind.reason());
        s
    }
}

} // verus!
