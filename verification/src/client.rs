//! The per-client state machine: one client's balance and lock flag, and the
//! rules by which a transaction changes them and the stored transfers.

pub mod balance;
pub mod books;
pub mod store;
pub mod theorems;

use crate::client::balance::{Account, Lanes, UpdateError};
use crate::client::store::{ClientStore, Lookup, Tables};
use crate::codec::{
    bool_byte, get_i64, get_u16, i64_le, le_i64, le_u16, lemma_i64_round_trip, lemma_read_part,
    lemma_u16_round_trip, put_bool, put_i64, put_u16, u16_le, Record,
};
use crate::db::{StoreEngine, StoreError};
use crate::transaction::{
    ClientId, DisputeStatus, DisputedTransaction, DisputedTransactionKind, Transaction,
    TransferTransaction, TransferTransactionKind, };
use vstd::prelude::*;
use vstd::std_specs::convert::FromSpecImpl;

verus! {

/// Reported where a dispute event refers to a row that is no transfer.
pub const DISPUTE_MISMATCH: &'static str = "Only a transfer can be disputed";

/// Reported where a dispute refers to a withdrawal.
pub const DISPUTE_WITHDRAWAL: &'static str = "Cannot dispute a withdrawal";

/// Reported where a resolve or a chargeback refers to a transfer that is not
/// disputed.
pub const NOT_DISPUTED: &'static str = "Transaction is not disputed";

/// Reported where a dispute refers to a transfer that has been disputed before,
/// whether the dispute is open or has ended in a chargeback.
pub const ALREADY_DISPUTED: &'static str = "Transaction is already disputed";

/// Reported where a chargeback refers to a transfer that has been charged back.
pub const DISPUTE_RESOLVED: &'static str = "Dispute already resolved";

/// Reported where a resolve or a chargeback refers to a transfer whose amount
/// the client does not hold.
pub const DISPUTE_NOT_HELD: &'static str = "Held funds do not cover the transaction";

/// Reported where a dispute event refers to a transfer of another client.
pub const DISPUTE_FOREIGN: &'static str = "Transaction belongs to another client";

/// Why a dispute, a resolve or a chargeback was refused.
#[derive(Clone, Copy, Debug, PartialEq, Eq, Structural)]
pub enum DisputeFault {
    /// The stored row is a dispute event, not a transfer.
    NotATransfer,
    /// The stored transfer is a withdrawal.
    Withdrawal,
    /// The stored transfer is not under dispute.
    NotDisputed,
    /// The stored transfer has been disputed before.
    AlreadyDisputed,
    /// The dispute of the stored transfer has ended in a chargeback.
    AlreadyResolved,
    /// The client holds less than the stored transfer's amount.
    NotHeld,
    /// The stored transfer belongs to another client.
    NotOwn,
}

impl DisputeFault {
    /// The text that reports this fault.
    pub open spec fn spec_message(self) -> Seq<char> {
        match self {
            DisputeFault::NotATransfer => DISPUTE_MISMATCH@,
            DisputeFault::Withdrawal => DISPUTE_WITHDRAWAL@,
            DisputeFault::NotDisputed => NOT_DISPUTED@,
            DisputeFault::AlreadyDisputed => ALREADY_DISPUTED@,
            DisputeFault::AlreadyResolved => DISPUTE_RESOLVED@,
            DisputeFault::NotHeld => DISPUTE_NOT_HELD@,
            DisputeFault::NotOwn => DISPUTE_FOREIGN@,
        }
    }

    /// The text that reports this fault.
    pub fn message(&self) -> (r: &'static str)
        ensures
            r@ == self.spec_message(),
    {
        match self {
            DisputeFault::NotATransfer => DISPUTE_MISMATCH,
            DisputeFault::Withdrawal => DISPUTE_WITHDRAWAL,
            DisputeFault::NotDisputed => NOT_DISPUTED,
            DisputeFault::AlreadyDisputed => ALREADY_DISPUTED,
            DisputeFault::AlreadyResolved => DISPUTE_RESOLVED,
            DisputeFault::NotHeld => DISPUTE_NOT_HELD,
            DisputeFault::NotOwn => DISPUTE_FOREIGN,
        }
    }
}

/// Why a transaction was not applied.
#[derive(Debug, PartialEq)]
pub enum ClientError {
    /// Attempted to execute a transaction that contained a negative amount.
    NegativeValue,
    /// The client has insufficient funds.
    InsufficientFunds,
    /// The transaction would take the client's balance out of range.
    Overflow,
    /// Attempted to execute a transaction that was not for this client.
    MismatchedClientId,
    /// Cannot execute a transaction against this client as its account is frozen.
    AccountFrozen,
    /// A reference to a transaction was provided that does not exist.
    TransactionNotFound,
    /// A rule of the dispute lifecycle was broken; the text says which.
    DisputeError(String),
    /// The store failed.
    StoreError(StoreError),
}

impl ClientError {
    /// Whether the machine must stop on this error. Store errors are fatal,
    /// and nothing else is.
    pub fn is_fatal(&self) -> (r: bool)
        ensures
            r == (*self is StoreError),
    {
        matches!(self, ClientError::StoreError(_))
    }

    /// The error that reports the dispute fault `fault`.
    pub fn dispute(fault: DisputeFault) -> (r: ClientError)
        ensures
            r matches ClientError::DisputeError(text) && text@ == fault.spec_message(),
    {
        ClientError::DisputeError(fault.message().to_owned())
    }
}

impl From<UpdateError> for ClientError {
    fn from(e: UpdateError) -> (r: Self) {
        match e {
            UpdateError::NegativeValue => ClientError::NegativeValue,
            UpdateError::InsufficientFunds => ClientError::InsufficientFunds,
            UpdateError::Overflow => ClientError::Overflow,
        }
    }
}

impl FromSpecImpl<UpdateError> for ClientError {
    open spec fn obeys_from_spec() -> bool {
        true
    }

    open spec fn from_spec(e: UpdateError) -> Self {
        match e {
            UpdateError::NegativeValue => ClientError::NegativeValue,
            UpdateError::InsufficientFunds => ClientError::InsufficientFunds,
            UpdateError::Overflow => ClientError::Overflow,
        }
    }
}

impl From<StoreError> for ClientError {
    fn from(e: StoreError) -> (r: Self) {
        ClientError::StoreError(e)
    }
}

impl FromSpecImpl<StoreError> for ClientError {
    open spec fn obeys_from_spec() -> bool {
        true
    }

    open spec fn from_spec(e: StoreError) -> Self {
        ClientError::StoreError(e)
    }
}

/// What a client is, to the rules: its number, its lanes and its lock flag.
pub struct ClientView {
    pub id: ClientId,
    pub balance: Lanes,
    pub frozen: bool,
}

/// The length of a client row.
pub const CLIENT_ROW_LEN: usize = 19;

/// The bytes of a client: number, available funds, held funds, lock flag.
pub open spec fn client_bytes(c: ClientView) -> Seq<u8> {
    u16_le(c.id) + i64_le(c.balance.available as i64) + i64_le(c.balance.held as i64) + bool_byte(
        c.frozen,
    )
}

/// The client that `s` starts with: its bytes must be there, the lock flag must
/// be 0 or 1, and the lanes must be valid.
pub open spec fn client_from(s: Seq<u8>) -> Option<ClientView> {
    if s.len() < CLIENT_ROW_LEN || s[18] > 1 {
        None
    } else {
        let balance = Lanes { available: le_i64(s, 2) as int, held: le_i64(s, 10) as int };
        if balance.valid() {
            Some(ClientView { id: le_u16(s, 0), balance, frozen: s[18] == 1 })
        } else {
            None
        }
    }
}

/// The internal state of a client.
#[derive(Debug, PartialEq)]
pub struct ClientState {
    /// A unique identifier that has been assigned to this client.
    id: ClientId,
    /// This client's balance.
    balance: Account,
    /// Whether the client's account has been frozen and it should stop executing
    /// transactions.
    frozen: bool,
}

impl View for ClientState {
    type V = ClientView;

    closed spec fn view(&self) -> ClientView {
        ClientView { id: self.id, balance: self.balance@, frozen: self.frozen }
    }
}

impl ClientState {
    /// The client's lanes are valid. This holds of every client, as it holds of
    /// every account.
    pub open spec fn wf(&self) -> bool {
        self@.balance.valid()
    }

    /// The state of a client that no transaction has touched.
    pub open spec fn fresh(id: ClientId) -> ClientView {
        ClientView { id, balance: Lanes { available: 0, held: 0 }, frozen: false }
    }

    /// Initialise a new `ClientState` with default values and `id`.
    pub fn new(id: ClientId) -> (r: ClientState)
        ensures
            r@ == Self::fresh(id),
            r.wf(),
    {
        ClientState { id, balance: Account::default(), frozen: false }
    }

    /// A client made of the given parts.
    pub fn from_parts(id: ClientId, balance: Account, frozen: bool) -> (r: ClientState)
        ensures
            r@ == (ClientView { id, balance: balance@, frozen }),
            r.wf(),
    {
        proof {
            use_type_invariant(&balance);
        }
        ClientState { id, balance, frozen }
    }

    /// Split this client in to its internal parts.
    pub fn split(self) -> (r: (ClientId, Account, bool))
        ensures
            r.0 == self@.id,
            r.1@ == self@.balance,
            r.2 == self@.frozen,
    {
        let ClientState { id, balance, frozen } = self;
        (id, balance, frozen)
    }

    /// Returns the unique identifier assigned to this client.
    pub fn id(&self) -> (r: ClientId)
        ensures
            r == self@.id,
    {
        self.id
    }

    /// Returns this client's balance.
    pub fn balance(&self) -> (r: &Account)
        ensures
            r@ == self@.balance,
    {
        &self.balance
    }

    /// Returns whether this client's account is frozen.
    pub fn is_frozen(&self) -> (r: bool)
        ensures
            r == self@.frozen,
    {
        self.frozen
    }
}

impl Record for ClientState {
    open spec fn valid(&self) -> bool {
        self.wf()
    }

    open spec fn encoding(&self) -> Seq<u8> {
        client_bytes(self@)
    }

    closed spec fn decoding(bytes: Seq<u8>) -> Option<Self> {
        match client_from(bytes) {
            Some(c) => Some(
                ClientState {
                    id: c.id,
                    balance: Account::of_lanes(c.balance),
                    frozen: c.frozen,
                },
            ),
            None => None,
        }
    }

    fn encode(&self) -> (bytes: Vec<u8>) {
        let mut buf: Vec<u8> = Vec::new();
        put_u16(&mut buf, self.id);
        put_i64(&mut buf, self.balance.get_available());
        put_i64(&mut buf, self.balance.get_frozen());
        put_bool(&mut buf, self.frozen);
        assert(buf@ =~= client_bytes(self@));
        buf
    }

    fn decode(bytes: &[u8]) -> (r: Option<Self>) {
        if bytes.len() < CLIENT_ROW_LEN || bytes[18] > 1 {
            return None;
        }
        match Account::from_lanes(get_i64(bytes, 2), get_i64(bytes, 10)) {
            Some(balance) => {
                proof {
                    Account::of_lanes_is_whole(balance);
                }
                Some(ClientState { id: get_u16(bytes, 0), balance, frozen: bytes[18] == 1 })
            },
            None => None,
        }
    }

    proof fn round_trip(&self, rest: Seq<u8>) {
        client_row_round_trip(self@, rest);
        Account::of_lanes_is_whole(self.balance);
    }
}

/// Reading the bytes of a client with valid lanes, with anything after them,
/// gives the client back.
pub proof fn client_row_round_trip(c: ClientView, rest: Seq<u8>)
    requires
        c.balance.valid(),
    ensures
        client_from(client_bytes(c) + rest) == Some(c),
{
    let s = client_bytes(c) + rest;
    lemma_u16_round_trip(c.id);
    lemma_i64_round_trip(c.balance.available as i64);
    lemma_i64_round_trip(c.balance.held as i64);
    assert(s.subrange(0, 2) =~= u16_le(c.id));
    assert(s.subrange(2, 10) =~= i64_le(c.balance.available as i64));
    assert(s.subrange(10, 18) =~= i64_le(c.balance.held as i64));
    lemma_read_part(s, 0, u16_le(c.id));
    lemma_read_part(s, 2, i64_le(c.balance.available as i64));
    lemma_read_part(s, 10, i64_le(c.balance.held as i64));
    assert(s[18] == bool_byte(c.frozen)[0]);
}

/// What decoding a client row gives, by what the client looks like.
pub proof fn client_decoding_is(bytes: Seq<u8>)
    ensures
        match ClientState::decoding(bytes) {
            Some(state) => client_from(bytes) == Some(state@) && state.wf(),
            None => client_from(bytes) is None,
        },
{
    match client_from(bytes) {
        Some(c) => {
            Account::of_lanes_view(c.balance);
        },
        None => {},
    }
}

/// The client that an actor starts from when it finds the tables `t`: the one
/// stored under `id`, a fresh one where none is stored, and none where the row
/// does not decode.
pub open spec fn restored(t: Tables, id: ClientId) -> Option<ClientView> {
    match t.client(id) {
        Lookup::Found(state) => Some(state@),
        Lookup::Missing => Some(ClientState::fresh(id)),
        Lookup::Unreadable => None,
    }
}

/// How the rules answer a transaction, where the store engine does not fail.
pub enum Verdict {
    /// The transaction was applied.
    Applied,
    /// The amount is negative.
    NegativeValue,
    /// The available funds do not cover the withdrawal.
    InsufficientFunds,
    /// The balance would leave its range.
    Overflow,
    /// The transaction is addressed to another client.
    MismatchedClientId,
    /// The client is frozen.
    AccountFrozen,
    /// No row is stored under the transaction number.
    TransactionNotFound,
    /// A rule of the dispute lifecycle was broken.
    Dispute(DisputeFault),
    /// The row under the transaction number does not decode.
    Unreadable,
}

impl Verdict {
    /// The verdict for a refused balance operation.
    pub open spec fn of_update(e: UpdateError) -> Verdict {
        match e {
            UpdateError::NegativeValue => Verdict::NegativeValue,
            UpdateError::InsufficientFunds => Verdict::InsufficientFunds,
            UpdateError::Overflow => Verdict::Overflow,
        }
    }
}

/// Whether the result `r` says what `verdict` says.
pub open spec fn agrees(r: Result<(), ClientError>, verdict: Verdict) -> bool {
    match verdict {
        Verdict::Applied => r is Ok,
        Verdict::NegativeValue => r == Err::<(), ClientError>(ClientError::NegativeValue),
        Verdict::InsufficientFunds => r == Err::<(), ClientError>(ClientError::InsufficientFunds),
        Verdict::Overflow => r == Err::<(), ClientError>(ClientError::Overflow),
        Verdict::MismatchedClientId => r == Err::<(), ClientError>(ClientError::MismatchedClientId),
        Verdict::AccountFrozen => r == Err::<(), ClientError>(ClientError::AccountFrozen),
        Verdict::TransactionNotFound => r == Err::<(), ClientError>(
            ClientError::TransactionNotFound,
        ),
        Verdict::Dispute(fault) => r matches Err(ClientError::DisputeError(text)) && text@
            == fault.spec_message(),
        Verdict::Unreadable => r matches Err(ClientError::StoreError(StoreError::Deserialize(_))),
    }
}

/// Whether the result `r` reports a failure of the store engine.
pub open spec fn engine_failed(r: Result<(), ClientError>) -> bool {
    r matches Err(ClientError::StoreError(e)) && e.from_engine()
}

/// A verdict, and the client and the tables that it leaves.
pub struct Step {
    pub verdict: Verdict,
    pub client: ClientView,
    pub tables: Tables,
}

impl ClientView {
    /// This client with other lanes.
    pub open spec fn with_balance(self, balance: Lanes) -> ClientView {
        ClientView { balance, ..self }
    }

    /// This client with other lanes, frozen.
    pub open spec fn frozen_with(self, balance: Lanes) -> ClientView {
        ClientView { balance, frozen: true, ..self }
    }
}

/// The tables after the row of `client` has been written.
pub open spec fn persisted(tables: Tables, client: ClientView) -> Tables {
    tables.with_client_row(client.id, client_bytes(client))
}

/// What a transfer does to a client and the tables, before the client's own row
/// is written: a deposit or a withdrawal that the balance accepts is stored as a
/// transfer that is not disputed; one that it refuses changes nothing.
pub open spec fn transfer_effect(c: ClientView, t: Tables, x: TransferTransaction) -> Step {
    let moved = match x.kind {
        TransferTransactionKind::Deposit => c.balance.deposit(x.amount as int),
        TransferTransactionKind::Withdrawal => c.balance.withdraw(x.amount as int),
    };
    match moved {
        Ok(balance) => Step {
            verdict: Verdict::Applied,
            client: c.with_balance(balance),
            tables: t.with_transaction(
                Transaction::Transfer(x.with_status(DisputeStatus::NotDisputed)),
            ),
        },
        Err(e) => Step { verdict: Verdict::of_update(e), client: c, tables: t },
    }
}

/// What a dispute of the stored transfer `row` does, before the client's own
/// row is written. Only a deposit that is not disputed can be disputed, and its
/// amount must be one that can be held: not negative, and not one that takes a
/// lane out of range. Then the row is marked as disputed and the amount is held.
/// A dispute that is refused changes nothing.
pub open spec fn dispute_effect(c: ClientView, t: Tables, row: TransferTransaction) -> Step {
    if row.kind == TransferTransactionKind::Withdrawal {
        Step { verdict: Verdict::Dispute(DisputeFault::Withdrawal), client: c, tables: t }
    } else if row.disputed != DisputeStatus::NotDisputed {
        Step { verdict: Verdict::Dispute(DisputeFault::AlreadyDisputed), client: c, tables: t }
    } else {
        match c.balance.hold(row.amount as int) {
            Ok(balance) => Step {
                verdict: Verdict::Applied,
                client: c.with_balance(balance),
                tables: t.with_transaction(
                    Transaction::Transfer(row.with_status(DisputeStatus::Disputed)),
                ),
            },
            Err(e) => Step { verdict: Verdict::of_update(e), client: c, tables: t },
        }
    }
}

/// What a resolve of the stored transfer `row` does, before the client's own row
/// is written. The transfer must have been disputed, and the client must hold
/// its amount; then the row is marked as not disputed and the amount released.
pub open spec fn resolve_effect(c: ClientView, t: Tables, row: TransferTransaction) -> Step {
    if row.disputed == DisputeStatus::NotDisputed {
        Step { verdict: Verdict::Dispute(DisputeFault::NotDisputed), client: c, tables: t }
    } else if !(0 <= row.amount <= c.balance.held) {
        Step { verdict: Verdict::Dispute(DisputeFault::NotHeld), client: c, tables: t }
    } else {
        Step {
            verdict: Verdict::Applied,
            client: c.with_balance(c.balance.release(row.amount as int)),
            tables: t.with_transaction(
                Transaction::Transfer(row.with_status(DisputeStatus::NotDisputed)),
            ),
        }
    }
}

/// What a chargeback of the stored transfer `row` does, before the client's own
/// row is written. The transfer must be under dispute, and the client must hold
/// its amount; then the row is marked as resolved, the amount is taken out of
/// the held funds, and the client is frozen.
pub open spec fn chargeback_effect(c: ClientView, t: Tables, row: TransferTransaction) -> Step {
    if row.disputed == DisputeStatus::NotDisputed {
        Step { verdict: Verdict::Dispute(DisputeFault::NotDisputed), client: c, tables: t }
    } else if row.disputed == DisputeStatus::Resolved {
        Step { verdict: Verdict::Dispute(DisputeFault::AlreadyResolved), client: c, tables: t }
    } else if !(0 <= row.amount <= c.balance.held) {
        Step { verdict: Verdict::Dispute(DisputeFault::NotHeld), client: c, tables: t }
    } else {
        Step {
            verdict: Verdict::Applied,
            client: c.frozen_with(c.balance.charge(row.amount as int)),
            tables: t.with_transaction(
                Transaction::Transfer(row.with_status(DisputeStatus::Resolved)),
            ),
        }
    }
}

/// What a dispute event does, before the client's own row is written: the row
/// under the event's transaction number must be there, must decode, and must be
/// a transfer of the client's own; the event's kind decides the rest.
pub open spec fn disputed_effect(c: ClientView, t: Tables, d: DisputedTransaction) -> Step {
    match t.transaction(d.tx) {
        Lookup::Missing => Step { verdict: Verdict::TransactionNotFound, client: c, tables: t },
        Lookup::Unreadable => Step { verdict: Verdict::Unreadable, client: c, tables: t },
        Lookup::Found(Transaction::Disputed(_)) => Step {
            verdict: Verdict::Dispute(DisputeFault::NotATransfer),
            client: c,
            tables: t,
        },
        Lookup::Found(Transaction::Transfer(row)) => found_effect(c, t, d.kind, row),
    }
}

/// What a dispute event of the given kind does where it has found the transfer
/// `row`, before the client's own row is written: a transfer of another client
/// is refused, and the event's kind decides the rest.
pub open spec fn found_effect(
    c: ClientView,
    t: Tables,
    kind: DisputedTransactionKind,
    row: TransferTransaction,
) -> Step {
    if row.client != c.id {
        Step { verdict: Verdict::Dispute(DisputeFault::NotOwn), client: c, tables: t }
    } else {
        match kind {
            DisputedTransactionKind::Dispute => dispute_effect(c, t, row),
            DisputedTransactionKind::Resolve => resolve_effect(c, t, row),
            DisputedTransactionKind::Chargeback => chargeback_effect(c, t, row),
        }
    }
}

/// What a transaction does to a client and the tables, before the client's own
/// row is written.
pub open spec fn effect(c: ClientView, t: Tables, transaction: Transaction) -> Step {
    match transaction {
        Transaction::Transfer(x) => transfer_effect(c, t, x),
        Transaction::Disputed(d) => disputed_effect(c, t, d),
    }
}

/// What a transaction does to a client and the tables. One addressed to another
/// client, or to a frozen client, is refused and changes nothing. One that is
/// applied has the client's row written after its effect.
pub open spec fn step(c: ClientView, t: Tables, transaction: Transaction) -> Step {
    if c.id != transaction.spec_client_id() {
        Step { verdict: Verdict::MismatchedClientId, client: c, tables: t }
    } else if c.frozen {
        Step { verdict: Verdict::AccountFrozen, client: c, tables: t }
    } else {
        let e = effect(c, t, transaction);
        if e.verdict is Applied {
            Step { tables: persisted(e.tables, e.client), ..e }
        } else {
            e
        }
    }
}

/// Whether a transaction makes a client turn to the store: it is addressed to
/// the client, the client is not frozen, and it is a dispute event, or a
/// transfer that the balance accepts.
pub open spec fn reaches_store(c: ClientView, transaction: Transaction) -> bool {
    &&& c.id == transaction.spec_client_id()
    &&& !c.frozen
    &&& match transaction {
        Transaction::Transfer(x) => match x.kind {
            TransferTransactionKind::Deposit => c.balance.deposit(x.amount as int) is Ok,
            TransferTransactionKind::Withdrawal => c.balance.withdraw(x.amount as int) is Ok,
        },
        Transaction::Disputed(_) => true,
    }
}

/// How far a step may have got when the engine failed: the client rows are as
/// before; the transfers are as before or as the step leaves them; the client in
/// memory is as before or as the step leaves it.
pub open spec fn interrupted(c0: ClientView, t0: Tables, s: Step, c1: ClientView, t1: Tables) -> bool {
    &&& t1.clients == t0.clients
    &&& t1.transactions == t0.transactions || t1.transactions == s.tables.transactions
    &&& c1 == c0 || c1 == s.client
}

/// Whether a result, a client and the tables are what the step `s` from `c0`
/// and `t0` calls for. A dependable engine never fails. Where the engine failed,
/// the step was interrupted; where it did not, the result agrees with the step's
/// verdict, and the client and the tables are those that the step leaves.
pub open spec fn follows(
    c0: ClientView,
    t0: Tables,
    s: Step,
    dependable: bool,
    r: Result<(), ClientError>,
    c1: ClientView,
    t1: Tables,
) -> bool {
    if engine_failed(r) {
        !dependable && interrupted(c0, t0, s, c1, t1)
    } else {
        agrees(r, s.verdict) && c1 == s.client && t1 == s.tables
    }
}

/// Whether a result and a client are what the step `s` from `c0` calls for,
/// whatever the engine is. Where the engine failed, the step was one that is
/// applied, and the client is as before or as the step leaves it; where it did
/// not, the result agrees with the step's verdict, and the client is the one
/// that the step leaves.
pub open spec fn answers(c0: ClientView, s: Step, r: Result<(), ClientError>, c1: ClientView) -> bool {
    if engine_failed(r) {
        s.verdict is Applied && (c1 == c0 || c1 == s.client)
    } else {
        agrees(r, s.verdict) && c1 == s.client
    }
}

impl ClientState {
    /// Execute a transfer against this client. If the balance accepts it, the
    /// transfer is stored as not disputed.
    fn execute_transfer<D: StoreEngine>(
        &mut self,
        transaction: TransferTransaction,
        store: &mut ClientStore<D>,
    ) -> (r: Result<(), ClientError>)
        ensures
            final(self).wf(),
            final(self)@.id == old(self)@.id,
            final(self)@.frozen == old(self)@.frozen,
            final(store).is_map() == old(store).is_map(),
            final(store).dependable() == old(store).dependable(),
            old(store).dependable() ==> !engine_failed(r),
            r matches Err(ClientError::StoreError(e)) ==> e.from_engine() || e is Deserialize,
            old(store).is_map() ==> follows(
                old(self)@,
                old(store)@,
                transfer_effect(old(self)@, old(store)@, transaction),
                old(store).dependable(),
                r,
                final(self)@,
                final(store)@,
            ),
            answers(
                old(self)@,
                transfer_effect(old(self)@, old(store)@, transaction),
                r,
                final(self)@,
            ),
            !(transfer_effect(old(self)@, old(store)@, transaction).verdict is Applied) ==> *final(store)
                == *old(store),
    {
        proof {
            use_type_invariant(&self.balance);
        }
        let moved = match transaction.kind {
            TransferTransactionKind::Deposit => self.balance.deposit(transaction.amount),
            TransferTransactionKind::Withdrawal => self.balance.withdraw(transaction.amount),
        };
        match moved {
            Ok(()) => {
                let accepted = TransferTransaction {
                    disputed: DisputeStatus::NotDisputed,
                    ..transaction
                };
                match store.put_transaction(Transaction::Transfer(accepted)) {
                    Ok(()) => Ok(()),
                    Err(e) => Err(ClientError::StoreError(e)),
                }
            },
            Err(e) => Err(ClientError::from(e)),
        }
    }

    /// Attempts to dispute a transfer that has been stored before. Whether the
    /// amount can be held is tested first, so that a dispute that is refused
    /// writes nothing; then the row is written, and the funds move to being held.
    fn execute_dispute<D: StoreEngine>(
        &mut self,
        row: TransferTransaction,
        store: &mut ClientStore<D>,
    ) -> (r: Result<(), ClientError>)
        ensures
            final(self).wf(),
            final(self)@.id == old(self)@.id,
            final(self)@.frozen == old(self)@.frozen,
            final(store).is_map() == old(store).is_map(),
            final(store).dependable() == old(store).dependable(),
            old(store).dependable() ==> !engine_failed(r),
            r matches Err(ClientError::StoreError(e)) ==> e.from_engine() || e is Deserialize,
            old(store).is_map() ==> follows(
                old(self)@,
                old(store)@,
                dispute_effect(old(self)@, old(store)@, row),
                old(store).dependable(),
                r,
                final(self)@,
                final(store)@,
            ),
            answers(old(self)@, dispute_effect(old(self)@, old(store)@, row), r, final(self)@),
            engine_failed(r) ==> final(self)@ == old(self)@,
            !(dispute_effect(old(self)@, old(store)@, row).verdict is Applied) ==> *final(store)
                == *old(store),
    {
        proof {
            use_type_invariant(&self.balance);
        }
        match row.kind {
            TransferTransactionKind::Deposit => {
                if !matches!(row.disputed, DisputeStatus::NotDisputed) {
                    return Err(ClientError::dispute(DisputeFault::AlreadyDisputed));
                }
                match self.balance.can_hold(row.amount) {
                    Ok(()) => {},
                    Err(e) => {
                        return Err(ClientError::from(e));
                    },
                }
                let processed = TransferTransaction { disputed: DisputeStatus::Disputed, ..row };
                match store.put_transaction(Transaction::Transfer(processed)) {
                    Ok(()) => {},
                    Err(e) => {
                        return Err(ClientError::StoreError(e));
                    },
                }
                match self.balance.hold(row.amount) {
                    Ok(()) => Ok(()),
                    Err(e) => Err(ClientError::from(e)),
                }
            },
            TransferTransactionKind::Withdrawal => Err(
                ClientError::dispute(DisputeFault::Withdrawal),
            ),
        }
    }

    /// Attempts to resolve a transfer that has been disputed. The held funds are
    /// released.
    fn execute_resolve<D: StoreEngine>(
        &mut self,
        row: TransferTransaction,
        store: &mut ClientStore<D>,
    ) -> (r: Result<(), ClientError>)
        ensures
            final(self).wf(),
            final(self)@.id == old(self)@.id,
            final(self)@.frozen == old(self)@.frozen,
            final(store).is_map() == old(store).is_map(),
            final(store).dependable() == old(store).dependable(),
            old(store).dependable() ==> !engine_failed(r),
            r matches Err(ClientError::StoreError(e)) ==> e.from_engine() || e is Deserialize,
            old(store).is_map() ==> follows(
                old(self)@,
                old(store)@,
                resolve_effect(old(self)@, old(store)@, row),
                old(store).dependable(),
                r,
                final(self)@,
                final(store)@,
            ),
            answers(old(self)@, resolve_effect(old(self)@, old(store)@, row), r, final(self)@),
            engine_failed(r) ==> final(self)@ == old(self)@,
            !(resolve_effect(old(self)@, old(store)@, row).verdict is Applied) ==> *final(store)
                == *old(store),
    {
        proof {
            use_type_invariant(&self.balance);
        }
        if matches!(row.disputed, DisputeStatus::NotDisputed) {
            return Err(ClientError::dispute(DisputeFault::NotDisputed));
        }
        if row.amount < 0 || row.amount > self.balance.get_frozen() {
            return Err(ClientError::dispute(DisputeFault::NotHeld));
        }
        let processed = TransferTransaction { disputed: DisputeStatus::NotDisputed, ..row };
        match store.put_transaction(Transaction::Transfer(processed)) {
            Ok(()) => {},
            Err(e) => {
                return Err(ClientError::StoreError(e));
            },
        }
        self.balance.release(row.amount);
        Ok(())
    }

    /// Executes a chargeback of a transfer that is under dispute. The held funds
    /// are removed from this client, and the client is frozen.
    fn execute_chargeback<D: StoreEngine>(
        &mut self,
        row: TransferTransaction,
        store: &mut ClientStore<D>,
    ) -> (r: Result<(), ClientError>)
        ensures
            final(self).wf(),
            final(self)@.id == old(self)@.id,
            final(store).is_map() == old(store).is_map(),
            final(store).dependable() == old(store).dependable(),
            old(store).dependable() ==> !engine_failed(r),
            r matches Err(ClientError::StoreError(e)) ==> e.from_engine() || e is Deserialize,
            old(store).is_map() ==> follows(
                old(self)@,
                old(store)@,
                chargeback_effect(old(self)@, old(store)@, row),
                old(store).dependable(),
                r,
                final(self)@,
                final(store)@,
            ),
            answers(old(self)@, chargeback_effect(old(self)@, old(store)@, row), r, final(self)@),
            engine_failed(r) ==> final(self)@ == old(self)@,
            !(chargeback_effect(old(self)@, old(store)@, row).verdict is Applied) ==> *final(store)
                == *old(store),
    {
        proof {
            use_type_invariant(&self.balance);
        }
        if matches!(row.disputed, DisputeStatus::NotDisputed) {
            return Err(ClientError::dispute(DisputeFault::NotDisputed));
        } else if matches!(row.disputed, DisputeStatus::Resolved) {
            return Err(ClientError::dispute(DisputeFault::AlreadyResolved));
        }
        if row.amount < 0 || row.amount > self.balance.get_frozen() {
            return Err(ClientError::dispute(DisputeFault::NotHeld));
        }
        let processed = TransferTransaction { disputed: DisputeStatus::Resolved, ..row };
        match store.put_transaction(Transaction::Transfer(processed)) {
            Ok(()) => {},
            Err(e) => {
                return Err(ClientError::StoreError(e));
            },
        }
        self.balance.charge(row.amount);
        self.frozen = true;
        Ok(())
    }

    /// Execute a dispute event against this client: looks up the transfer that
    /// the event refers to, and lets the event's kind decide.
    fn execute_disputed_transaction<D: StoreEngine>(
        &mut self,
        transaction: DisputedTransaction,
        store: &mut ClientStore<D>,
    ) -> (r: Result<(), ClientError>)
        ensures
            final(self).wf(),
            final(self)@.id == old(self)@.id,
            final(store).is_map() == old(store).is_map(),
            final(store).dependable() == old(store).dependable(),
            old(store).dependable() ==> !engine_failed(r),
            r matches Err(ClientError::StoreError(e)) ==> e.from_engine() || e is Deserialize,
            old(store).is_map() ==> follows(
                old(self)@,
                old(store)@,
                disputed_effect(old(self)@, old(store)@, transaction),
                old(store).dependable(),
                r,
                final(self)@,
                final(store)@,
            ),
            engine_failed(r) ==> final(self)@ == old(self)@,
            r is Err ==> final(self)@ == old(self)@,
    {
        proof {
            use_type_invariant(&self.balance);
        }
        let row = match store.get_transaction(transaction.tx) {
            Ok(Some(Transaction::Transfer(row))) => row,
            Ok(Some(Transaction::Disputed(_))) => {
                return Err(ClientError::dispute(DisputeFault::NotATransfer));
            },
            Ok(None) => {
                return Err(ClientError::TransactionNotFound);
            },
            Err(e) => {
                return Err(ClientError::StoreError(e));
            },
        };
        self.execute_found(transaction.kind, row, store)
    }

    /// Execute a dispute event of the given kind against this client, where the
    /// event has found the transfer `row`: a transfer of another client is
    /// refused, and the event's kind decides the rest.
    fn execute_found<D: StoreEngine>(
        &mut self,
        kind: DisputedTransactionKind,
        row: TransferTransaction,
        store: &mut ClientStore<D>,
    ) -> (r: Result<(), ClientError>)
        ensures
            final(self).wf(),
            final(self)@.id == old(self)@.id,
            final(store).is_map() == old(store).is_map(),
            final(store).dependable() == old(store).dependable(),
            old(store).dependable() ==> !engine_failed(r),
            r matches Err(ClientError::StoreError(e)) ==> e.from_engine() || e is Deserialize,
            old(store).is_map() ==> follows(
                old(self)@,
                old(store)@,
                found_effect(old(self)@, old(store)@, kind, row),
                old(store).dependable(),
                r,
                final(self)@,
                final(store)@,
            ),
            answers(old(self)@, found_effect(old(self)@, old(store)@, kind, row), r, final(self)@),
            engine_failed(r) ==> final(self)@ == old(self)@,
            !(found_effect(old(self)@, old(store)@, kind, row).verdict is Applied) ==> *final(store)
                == *old(store),
    {
        proof {
            use_type_invariant(&self.balance);
        }
        if row.client != self.id {
            return Err(ClientError::dispute(DisputeFault::NotOwn));
        }
        match kind {
            DisputedTransactionKind::Dispute => self.execute_dispute(row, store),
            DisputedTransactionKind::Resolve => self.execute_resolve(row, store),
            DisputedTransactionKind::Chargeback => self.execute_chargeback(row, store),
        }
    }

    /// Executes `transaction` against this client. If the operation is
    /// successful, then this client's updated state is persisted.
    pub fn execute_transaction<D: StoreEngine>(
        &mut self,
        transaction: Transaction,
        store: &mut ClientStore<D>,
    ) -> (r: Result<(), ClientError>)
        ensures
            final(self).wf(),
            final(self)@.id == old(self)@.id,
            final(store).is_map() == old(store).is_map(),
            final(store).dependable() == old(store).dependable(),
            old(store).dependable() ==> !engine_failed(r),
            r matches Err(ClientError::StoreError(e)) ==> e.from_engine() || e is Deserialize,
            old(store).is_map() ==> follows(
                old(self)@,
                old(store)@,
                step(old(self)@, old(store)@, transaction),
                old(store).dependable(),
                r,
                final(self)@,
                final(store)@,
            ),
            engine_failed(r) ==> reaches_store(old(self)@, transaction),
            !reaches_store(old(self)@, transaction) ==> *final(store) == *old(store),
            transaction is Transfer || !reaches_store(old(self)@, transaction) ==> answers(
                old(self)@,
                step(old(self)@, old(store)@, transaction),
                r,
                final(self)@,
            ),
            transaction is Disputed && r is Err && !engine_failed(r) ==> final(self)@ == old(
                self,
            )@,
    {
        proof {
            use_type_invariant(&self.balance);
        }
        if self.id != transaction.client_id() {
            Err(ClientError::MismatchedClientId)
        } else if self.frozen {
            Err(ClientError::AccountFrozen)
        } else {
            let result = match transaction {
                Transaction::Transfer(tx) => self.execute_transfer(tx, store),
                Transaction::Disputed(tx) => self.execute_disputed_transaction(tx, store),
            };
            match result {
                Ok(()) => match store.put_client_state(self) {
                    Ok(()) => Ok(()),
                    Err(e) => Err(ClientError::StoreError(e)),
                },
                Err(error) => Err(error),
            }
        }
    }
}

} // verus!
