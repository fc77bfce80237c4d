//! The transactions that the machine accepts.

use vstd::prelude::*;
use vstd::std_specs::convert::FromSpecImpl;

verus! {

/// A client identifier.
pub type ClientId = u16;

/// A transaction identifier.
pub type TxId = u32;

/// A signed amount of money, counted in units of one hundred-millionth.
pub type Amount = i64;

/// How many units of [`Amount`] make one whole.
pub const AMOUNT_SCALE: i64 = 100_000_000;

/// A flag associated with a transfer's dispute status.
#[derive(Clone, Copy, Debug, PartialEq, Eq, Structural)]
pub enum DisputeStatus {
    /// The transfer is not under dispute.
    NotDisputed,
    /// The transfer is currently under dispute.
    Disputed,
    /// The transfer was disputed and the dispute ended in a chargeback.
    Resolved,
}

impl Default for DisputeStatus {
    fn default() -> (r: Self)
        ensures
            r == DisputeStatus::NotDisputed,
    {
        DisputeStatus::NotDisputed
    }
}

/// The two kinds of transfer.
#[derive(Clone, Copy, Debug, PartialEq, Eq, Structural)]
pub enum TransferTransactionKind {
    Deposit,
    Withdrawal,
}

/// The three kinds of dispute event.
#[derive(Clone, Copy, Debug, PartialEq, Eq, Structural)]
pub enum DisputedTransactionKind {
    Dispute,
    Resolve,
    Chargeback,
}

/// A transfer of funds into or out of a client's account.
#[derive(Clone, Copy, Debug, PartialEq, Eq, Structural)]
pub struct TransferTransaction {
    /// The type of transfer.
    pub kind: TransferTransactionKind,
    /// The associated client.
    pub client: ClientId,
    /// A unique transaction number.
    pub tx: TxId,
    /// The value of the transfer.
    pub amount: Amount,
    /// Where this transfer stands in the dispute lifecycle.
    pub disputed: DisputeStatus,
}

impl TransferTransaction {
    /// Whether this transfer is currently under dispute.
    pub fn is_disputed(&self) -> (r: bool)
        ensures
            r == (self.disputed == DisputeStatus::Disputed),
    {
        matches!(self.disputed, DisputeStatus::Disputed)
    }

    /// Whether a dispute of this transfer ended in a chargeback.
    pub fn is_resolved(&self) -> (r: bool)
        ensures
            r == (self.disputed == DisputeStatus::Resolved),
    {
        matches!(self.disputed, DisputeStatus::Resolved)
    }

    /// This transfer with its dispute status replaced.
    pub open spec fn with_status(self, status: DisputeStatus) -> TransferTransaction {
        TransferTransaction { disputed: status, ..self }
    }
}

/// An event in the dispute lifecycle of an earlier transfer.
#[derive(Clone, Copy, Debug, PartialEq, Eq, Structural)]
pub struct DisputedTransaction {
    /// The type of event.
    pub kind: DisputedTransactionKind,
    /// The associated client.
    pub client: ClientId,
    /// The number of the transfer that the event refers to.
    pub tx: TxId,
}

/// An abstraction over transfers and dispute events.
#[derive(Clone, Copy, Debug, PartialEq, Eq, Structural)]
pub enum Transaction {
    /// The transaction is either a deposit or a withdrawal.
    Transfer(TransferTransaction),
    /// The transaction is either a dispute, a resolve or a chargeback.
    Disputed(DisputedTransaction),
}

impl From<TransferTransaction> for Transaction {
    fn from(tx: TransferTransaction) -> (r: Self) {
        Transaction::Transfer(tx)
    }
}

impl FromSpecImpl<TransferTransaction> for Transaction {
    open spec fn obeys_from_spec() -> bool {
        true
    }

    open spec fn from_spec(tx: TransferTransaction) -> Self {
        Transaction::Transfer(tx)
    }
}

impl From<DisputedTransaction> for Transaction {
    fn from(tx: DisputedTransaction) -> (r: Self) {
        Transaction::Disputed(tx)
    }
}

impl FromSpecImpl<DisputedTransaction> for Transaction {
    open spec fn obeys_from_spec() -> bool {
        true
    }

    open spec fn from_spec(tx: DisputedTransaction) -> Self {
        Transaction::Disputed(tx)
    }
}

impl Transaction {
    /// The client that this transaction is addressed to.
    pub open spec fn spec_client_id(self) -> ClientId {
        match self {
            Transaction::Transfer(tx) => tx.client,
            Transaction::Disputed(tx) => tx.client,
        }
    }

    /// The transaction number: a transfer's own, or the one a dispute event refers to.
    pub open spec fn spec_id(self) -> TxId {
        match self {
            Transaction::Transfer(tx) => tx.tx,
            Transaction::Disputed(tx) => tx.tx,
        }
    }

    /// Returns the client ID associated with this transaction.
    pub fn client_id(&self) -> (r: ClientId)
        ensures
            r == self.spec_client_id(),
    {
        match self {
            Transaction::Transfer(tx) => tx.client,
            Transaction::Disputed(tx) => tx.client,
        }
    }

    /// Returns the ID associated with this transaction.
    pub fn id(&self) -> (r: TxId)
        ensures
            r == self.spec_id(),
    {
        match self {
            Transaction::Transfer(tx) => tx.tx,
            Transaction::Disputed(tx) => tx.tx,
        }
    }

    /// Creates a new deposit transaction.
    pub fn deposit(client: ClientId, tx: TxId, amount: Amount) -> (r: Transaction)
        ensures
            r == Transaction::Transfer(
                (TransferTransaction {
                    kind: TransferTransactionKind::Deposit,
                    client,
                    tx,
                    amount,
                    disputed: DisputeStatus::NotDisputed,
                }),
            ),
    {
        Transaction::Transfer(
            TransferTransaction {
                kind: TransferTransactionKind::Deposit,
                client,
                tx,
                amount,
                disputed: DisputeStatus::NotDisputed,
            },
        )
    }

    /// Creates a new withdrawal transaction.
    pub fn withdrawal(client: ClientId, tx: TxId, amount: Amount) -> (r: Transaction)
        ensures
            r == Transaction::Transfer(
                (TransferTransaction {
                    kind: TransferTransactionKind::Withdrawal,
                    client,
                    tx,
                    amount,
                    disputed: DisputeStatus::NotDisputed,
                }),
            ),
    {
        Transaction::Transfer(
            TransferTransaction {
                kind: TransferTransactionKind::Withdrawal,
                client,
                tx,
                amount,
                disputed: DisputeStatus::NotDisputed,
            },
        )
    }

    /// Creates a new dispute transaction.
    pub fn dispute(client: ClientId, tx: TxId) -> (r: Transaction)
        ensures
            r == Transaction::Disputed(
                (DisputedTransaction { kind: DisputedTransactionKind::Dispute, client, tx }),
            ),
    {
        Transaction::Disputed(
            DisputedTransaction { kind: DisputedTransactionKind::Dispute, client, tx },
        )
    }

    /// Creates a new resolve transaction.
    pub fn resolve(client: ClientId, tx: TxId) -> (r: Transaction)
        ensures
            r == Transaction::Disputed(
                (DisputedTransaction { kind: DisputedTransactionKind::Resolve, client, tx }),
            ),
    {
        Transaction::Disputed(
            DisputedTransaction { kind: DisputedTransactionKind::Resolve, client, tx },
        )
    }

    /// Creates a new chargeback transaction.
    pub fn chargeback(client: ClientId, tx: TxId) -> (r: Transaction)
        ensures
            r == Transaction::Disputed(
                (DisputedTransaction { kind: DisputedTransactionKind::Chargeback, client, tx }),
            ),
    {
        Transaction::Disputed(
            DisputedTransaction { kind: DisputedTransactionKind::Chargeback, client, tx },
        )
    }
}

/// The five record types of the input format.
#[derive(Clone, Copy, Debug, PartialEq, Eq, Structural)]
pub enum TransactionType {
    Deposit,
    Withdrawal,
    Dispute,
    Resolve,
    Chargeback,
}

impl TransactionType {
    /// The record type of a kind of transfer.
    pub open spec fn of_transfer(kind: TransferTransactionKind) -> TransactionType {
        match kind {
            TransferTransactionKind::Deposit => TransactionType::Deposit,
            TransferTransactionKind::Withdrawal => TransactionType::Withdrawal,
        }
    }

    /// The record type of a kind of dispute event.
    pub open spec fn of_disputed(kind: DisputedTransactionKind) -> TransactionType {
        match kind {
            DisputedTransactionKind::Resolve => TransactionType::Resolve,
            DisputedTransactionKind::Dispute => TransactionType::Dispute,
            DisputedTransactionKind::Chargeback => TransactionType::Chargeback,
        }
    }
}

impl From<TransferTransactionKind> for TransactionType {
    fn from(kind: TransferTransactionKind) -> (r: Self) {
        match kind {
            TransferTransactionKind::Deposit => TransactionType::Deposit,
            TransferTransactionKind::Withdrawal => TransactionType::Withdrawal,
        }
    }
}

impl FromSpecImpl<TransferTransactionKind> for TransactionType {
    open spec fn obeys_from_spec() -> bool {
        true
    }

    open spec fn from_spec(kind: TransferTransactionKind) -> Self {
        TransactionType::of_transfer(kind)
    }
}

impl From<DisputedTransactionKind> for TransactionType {
    fn from(kind: DisputedTransactionKind) -> (r: Self) {
        match kind {
            DisputedTransactionKind::Resolve => TransactionType::Resolve,
            DisputedTransactionKind::Dispute => TransactionType::Dispute,
            DisputedTransactionKind::Chargeback => TransactionType::Chargeback,
        }
    }
}

impl FromSpecImpl<DisputedTransactionKind> for TransactionType {
    open spec fn obeys_from_spec() -> bool {
        true
    }

    open spec fn from_spec(kind: DisputedTransactionKind) -> Self {
        TransactionType::of_disputed(kind)
    }
}

} // verus!
