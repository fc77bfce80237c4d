//! The record format of the input and the lines of the report.

pub mod reader;
pub mod text;
pub mod theorems;
pub mod writer;

use crate::transaction::{
    Amount, ClientId, DisputeStatus, DisputedTransaction, DisputedTransactionKind, Transaction,
    TransactionType, TransferTransaction, TransferTransactionKind, TxId,
};
use vstd::prelude::*;
use vstd::std_specs::convert::{FromSpecImpl, TryFromSpecImpl};

verus! {

/// One record of the input: the four columns as they stand, before the rule on
/// which types carry an amount has been applied.
#[derive(Clone, Copy, Debug, PartialEq, Eq, Structural)]
pub struct CsvTransaction {
    pub tx_type: TransactionType,
    pub client: ClientId,
    pub tx: TxId,
    pub amount: Option<Amount>,
}

/// The record that stands for a transaction.
pub open spec fn record_of(tx: Transaction) -> CsvTransaction {
    match tx {
        Transaction::Transfer(t) => CsvTransaction {
            tx_type: TransactionType::of_transfer(t.kind),
            client: t.client,
            tx: t.tx,
            amount: Some(t.amount),
        },
        Transaction::Disputed(d) => CsvTransaction {
            tx_type: TransactionType::of_disputed(d.kind),
            client: d.client,
            tx: d.tx,
            amount: None,
        },
    }
}

impl From<Transaction> for CsvTransaction {
    fn from(tx: Transaction) -> (r: Self) {
        match tx {
            Transaction::Transfer(tx) => {
                let TransferTransaction { kind, client, tx, amount, .. } = tx;
                CsvTransaction { tx_type: TransactionType::from(kind), client, tx, amount: Some(amount) }
            },
            Transaction::Disputed(tx) => {
                let DisputedTransaction { kind, client, tx } = tx;
                CsvTransaction { tx_type: TransactionType::from(kind), client, tx, amount: None }
            },
        }
    }
}

impl FromSpecImpl<Transaction> for CsvTransaction {
    open spec fn obeys_from_spec() -> bool {
        true
    }

    open spec fn from_spec(tx: Transaction) -> Self {
        record_of(tx)
    }
}

/// Reported where a dispute event comes with an amount.
pub const EXPECTED_NO_AMOUNT: &'static str = "Expected no amount to be provided";

/// Reported where a transfer comes without an amount.
pub const EXPECTED_AN_AMOUNT: &'static str = "Expected an amount to be provided";

/// Why a record is no transaction.
#[derive(Clone, Copy, Debug, PartialEq, Eq, Structural)]
pub enum CsvParseError {
    /// A dispute, a resolve or a chargeback came with an amount.
    ExpectedNoAmount,
    /// A deposit or a withdrawal came without an amount.
    ExpectedAnAmount,
}

impl CsvParseError {
    /// The text that reports this error.
    pub open spec fn spec_message(self) -> Seq<char> {
        match self {
            CsvParseError::ExpectedNoAmount => EXPECTED_NO_AMOUNT@,
            CsvParseError::ExpectedAnAmount => EXPECTED_AN_AMOUNT@,
        }
    }

    /// The text that reports this error.
    pub fn message(&self) -> (r: &'static str)
        ensures
            r@ == self.spec_message(),
    {
        match self {
            CsvParseError::ExpectedNoAmount => EXPECTED_NO_AMOUNT,
            CsvParseError::ExpectedAnAmount => EXPECTED_AN_AMOUNT,
        }
    }
}

/// The transfer that a record with an amount stands for.
pub open spec fn transfer_of(
    kind: TransferTransactionKind,
    record: CsvTransaction,
) -> Result<Transaction, CsvParseError> {
    match record.amount {
        Some(amount) => Ok(
            Transaction::Transfer(
                TransferTransaction {
                    kind,
                    client: record.client,
                    tx: record.tx,
                    amount,
                    disputed: DisputeStatus::NotDisputed,
                },
            ),
        ),
        None => Err(CsvParseError::ExpectedAnAmount),
    }
}

/// The dispute event that a record without an amount stands for.
pub open spec fn disputed_of(
    kind: DisputedTransactionKind,
    record: CsvTransaction,
) -> Result<Transaction, CsvParseError> {
    match record.amount {
        Some(_) => Err(CsvParseError::ExpectedNoAmount),
        None => Ok(
            Transaction::Disputed(DisputedTransaction { kind, client: record.client, tx: record.tx }),
        ),
    }
}

/// The transaction that a record stands for: a deposit or a withdrawal needs an
/// amount, and a dispute, a resolve or a chargeback must not have one.
pub open spec fn transaction_of(record: CsvTransaction) -> Result<Transaction, CsvParseError> {
    match record.tx_type {
        TransactionType::Deposit => transfer_of(TransferTransactionKind::Deposit, record),
        TransactionType::Withdrawal => transfer_of(TransferTransactionKind::Withdrawal, record),
        TransactionType::Dispute => disputed_of(DisputedTransactionKind::Dispute, record),
        TransactionType::Resolve => disputed_of(DisputedTransactionKind::Resolve, record),
        TransactionType::Chargeback => disputed_of(DisputedTransactionKind::Chargeback, record),
    }
}

impl TryFrom<CsvTransaction> for Transaction {
    type Error = CsvParseError;

    fn try_from(record: CsvTransaction) -> (r: Result<Self, Self::Error>) {
        let CsvTransaction { tx_type, client, tx, amount } = record;
        let tx = match tx_type {
            TransactionType::Deposit => match amount {
                Some(amount) => Transaction::Transfer(
                    TransferTransaction {
                        kind: TransferTransactionKind::Deposit,
                        client,
                        tx,
                        amount,
                        disputed: DisputeStatus::NotDisputed,
                    },
                ),
                None => {
                    return Err(CsvParseError::ExpectedAnAmount);
                },
            },
            TransactionType::Withdrawal => match amount {
                Some(amount) => Transaction::Transfer(
                    TransferTransaction {
                        kind: TransferTransactionKind::Withdrawal,
                        client,
                        tx,
                        amount,
                        disputed: DisputeStatus::NotDisputed,
                    },
                ),
                None => {
                    return Err(CsvParseError::ExpectedAnAmount);
                },
            },
            TransactionType::Dispute => match amount {
                Some(_) => {
                    return Err(CsvParseError::ExpectedNoAmount);
                },
                None => Transaction::Disputed(
                    DisputedTransaction { kind: DisputedTransactionKind::Dispute, client, tx },
                ),
            },
            TransactionType::Resolve => match amount {
                Some(_) => {
                    return Err(CsvParseError::ExpectedNoAmount);
                },
                None => Transaction::Disputed(
                    DisputedTransaction { kind: DisputedTransactionKind::Resolve, client, tx },
                ),
            },
            TransactionType::Chargeback => match amount {
                Some(_) => {
                    return Err(CsvParseError::ExpectedNoAmount);
                },
                None => Transaction::Disputed(
                    DisputedTransaction { kind: DisputedTransactionKind::Chargeback, client, tx },
                ),
            },
        };
        Ok(tx)
    }
}

impl TryFromSpecImpl<CsvTransaction> for Transaction {
    open spec fn obeys_try_from_spec() -> bool {
        true
    }

    open spec fn try_from_spec(record: CsvTransaction) -> Result<Self, Self::Error> {
        transaction_of(record)
    }
}

/// A transaction that came from the input is the one that its record stands
/// for: writing a transaction out as a record and reading the record back gives
/// the transaction, with its dispute status cleared.
pub proof fn record_round_trip(tx: Transaction)
    ensures
        transaction_of(record_of(tx)) == Ok::<Transaction, CsvParseError>(
            match tx {
                Transaction::Transfer(t) => Transaction::Transfer(
                    t.with_status(DisputeStatus::NotDisputed),
                ),
                Transaction::Disputed(d) => tx,
            },
        ),
{
}

} // verus!
