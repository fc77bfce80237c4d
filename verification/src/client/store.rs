//! The typed facade over a store engine: transfers by transaction number and
//! client states by client number.

use crate::client::ClientState;
use crate::codec::{u16_le, u32_le, Record};
use crate::db::{StoreEngine, StoreError};
use crate::keyspace::Keyspace;
use crate::transaction::{ClientId, Transaction, TxId};
use vstd::prelude::*;

verus! {

/// `bincode::ErrorKind`, the failure of a `bincode` call, as a value that is
/// only passed on.
#[verifier::external_type_specification]
#[verifier::external_body]
pub struct ExBincodeErrorKind(bincode::ErrorKind);

/// `bincode::serialize` on a 16-bit number: with its fixed-width little-endian
/// integers and no size limit, writing into a vector cannot fail, and gives the
/// number's two bytes.
#[verifier::external_body]
fn bincode_u16(v: u16) -> (r: Result<Vec<u8>, Box<bincode::ErrorKind>>)
    ensures
        r is Ok,
        r matches Ok(bytes) ==> bytes@ == u16_le(v),
{
    bincode::serialize(&v)
}

/// `bincode::serialize` on a 32-bit number: with its fixed-width little-endian
/// integers and no size limit, writing into a vector cannot fail, and gives the
/// number's four bytes.
#[verifier::external_body]
fn bincode_u32(v: u32) -> (r: Result<Vec<u8>, Box<bincode::ErrorKind>>)
    ensures
        r is Ok,
        r matches Ok(bytes) ==> bytes@ == u32_le(v),
{
    bincode::serialize(&v)
}

/// The text with which a `bincode::ErrorKind` displays itself.
#[verifier::external_body]
fn bincode_error_text(e: &bincode::ErrorKind) -> (r: String) {
    e.to_string()
}

/// The text of the failure that an undecodable row gives.
pub const MALFORMED_ROW: &'static str = "the row does not decode";

/// The text of the failure that a transaction under another number than its
/// own gives.
pub const MISFILED_ROW: &'static str = "the row is stored under another number than its own";

/// The key under which a client's state is stored.
pub open spec fn client_key(id: ClientId) -> Seq<u8> {
    u16_le(id)
}

/// The key under which a transfer is stored.
pub open spec fn transaction_key(id: TxId) -> Seq<u8> {
    u32_le(id)
}

/// What a typed lookup finds under a key.
pub enum Lookup<T> {
    /// No row is stored under the key.
    Missing,
    /// The row under the key does not decode.
    Unreadable,
    /// The row under the key decodes to this value.
    Found(T),
}

/// What `rows` hold under `key`, read as a `T`.
pub open spec fn lookup<T: Record>(rows: Map<Seq<u8>, Seq<u8>>, key: Seq<u8>) -> Lookup<T> {
    if !rows.contains_key(key) {
        Lookup::Missing
    } else {
        match T::decoding(rows[key]) {
            Some(value) => Lookup::Found(value),
            None => Lookup::Unreadable,
        }
    }
}

/// The contents of a store: the rows of its two keyspaces.
pub struct Tables {
    pub clients: Map<Seq<u8>, Seq<u8>>,
    pub transactions: Map<Seq<u8>, Seq<u8>>,
}

impl Tables {
    /// What is stored for the transaction number `id`. A transaction is stored
    /// under its own number: a row that decodes to one with another number is
    /// as unreadable as one that does not decode.
    pub open spec fn transaction(self, id: TxId) -> Lookup<Transaction> {
        match lookup::<Transaction>(self.transactions, transaction_key(id)) {
            Lookup::Found(transaction) => if transaction.spec_id() == id {
                Lookup::Found(transaction)
            } else {
                Lookup::Unreadable
            },
            other => other,
        }
    }

    /// What is stored for the client `id`.
    pub open spec fn client(self, id: ClientId) -> Lookup<ClientState> {
        lookup::<ClientState>(self.clients, client_key(id))
    }

    /// These tables after `transaction` has been stored under its number.
    pub open spec fn with_transaction(self, transaction: Transaction) -> Tables {
        Tables {
            transactions: self.transactions.insert(
                transaction_key(transaction.spec_id()),
                transaction.encoding(),
            ),
            ..self
        }
    }

    /// These tables after `row` has been stored for the client `id`.
    pub open spec fn with_client_row(self, id: ClientId, row: Seq<u8>) -> Tables {
        Tables { clients: self.clients.insert(client_key(id), row), ..self }
    }
}

/// A store for a client to look up transactions, store transactions and persist
/// its state.
#[derive(Debug, Clone)]
pub struct ClientStore<D: StoreEngine> {
    /// The store to delegate operations to.
    delegate: D,
}

impl<D: StoreEngine> View for ClientStore<D> {
    type V = Tables;

    open spec fn view(&self) -> Tables {
        Tables {
            clients: self.engine().rows(Keyspace::Clients),
            transactions: self.engine().rows(Keyspace::Transactions),
        }
    }
}

/// The key of a transfer, as `bincode` writes its number.
fn transaction_key_bytes(id: TxId) -> (r: Result<Vec<u8>, StoreError>)
    ensures
        r matches Ok(key) && key@ == transaction_key(id),
{
    match bincode_u32(id) {
        Ok(key) => Ok(key),
        Err(e) => Err(StoreError::Serialize(bincode_error_text(&*e))),
    }
}

/// The key of a client, as `bincode` writes its number.
fn client_key_bytes(id: ClientId) -> (r: Result<Vec<u8>, StoreError>)
    ensures
        r matches Ok(key) && key@ == client_key(id),
{
    match bincode_u16(id) {
        Ok(key) => Ok(key),
        Err(e) => Err(StoreError::Serialize(bincode_error_text(&*e))),
    }
}

/// Reads a row as a value of `S`, with a deserialize failure where it does not
/// stand for one.
pub fn deserialize<S: Record>(obj: &[u8]) -> (r: Result<S, StoreError>)
    ensures
        match r {
            Ok(value) => S::decoding(obj@) == Some(value) && value.valid(),
            Err(e) => S::decoding(obj@) is None && e is Deserialize,
        },
{
    match S::decode(obj) {
        Some(value) => Ok(value),
        None => Err(StoreError::Deserialize(MALFORMED_ROW.to_owned())),
    }
}

impl<D: StoreEngine> ClientStore<D> {
    /// The engine that this store delegates to.
    pub closed spec fn engine(&self) -> D {
        self.delegate
    }

    /// Whether the engine underneath behaves as the map that its rows describe.
    pub open spec fn is_map(&self) -> bool {
        self.engine().is_map()
    }

    /// Whether the engine underneath is one whose operations never fail.
    pub open spec fn dependable(&self) -> bool {
        self.engine().dependable()
    }

    /// Construct a new `ClientStore` that will delegate operations to `delegate`.
    pub fn new(delegate: D) -> (r: Self)
        ensures
            r.engine() == delegate,
    {
        ClientStore { delegate }
    }

    /// Returns a reference to this store's delegate engine.
    pub fn inner(&self) -> (r: &D)
        ensures
            *r == self.engine(),
    {
        &self.delegate
    }

    /// Looks `key` up in `keyspace` and reads the row as a value of `S`.
    fn get_row<S: Record>(&self, keyspace: Keyspace, key: &[u8]) -> (r: Result<Option<S>, StoreError>)
        ensures
            self.dependable() ==> !(r matches Err(e) && e.from_engine()),
            r matches Ok(Some(value)) ==> value.valid(),
            r matches Err(e) ==> e.from_engine() || e is Deserialize,
            self.is_map() ==> match r {
                Ok(Some(value)) => lookup::<S>(self.engine().rows(keyspace), key@) == Lookup::Found(
                    value,
                ),
                Ok(None) => lookup::<S>(self.engine().rows(keyspace), key@) is Missing,
                Err(e) => e.from_engine() || lookup::<S>(self.engine().rows(keyspace), key@)
                    is Unreadable,
            },
    {
        match self.delegate.get(keyspace, key) {
            Ok(Some(value)) => {
                let decoded = deserialize::<S>(value.as_slice())?;
                Ok(Some(decoded))
            },
            Ok(None) => Ok(None),
            Err(e) => Err(e),
        }
    }

    /// Look up a transaction in the store by `transaction_id`. A row that does
    /// not decode, or that decodes to a transaction with another number, is a
    /// deserialize failure.
    pub fn get_transaction(&self, transaction_id: TxId) -> (r: Result<
        Option<Transaction>,
        StoreError,
    >)
        ensures
            self.dependable() ==> !(r matches Err(e) && e.from_engine()),
            r matches Err(e) ==> e.from_engine() || e is Deserialize,
            self.is_map() ==> match r {
                Ok(Some(transaction)) => self@.transaction(transaction_id) == Lookup::Found(
                    transaction,
                ),
                Ok(None) => self@.transaction(transaction_id) is Missing,
                Err(e) => e.from_engine() || self@.transaction(transaction_id) is Unreadable,
            },
    {
        let key = transaction_key_bytes(transaction_id)?;
        match self.get_row::<Transaction>(Keyspace::Transactions, key.as_slice())? {
            Some(transaction) => if transaction.id() == transaction_id {
                Ok(Some(transaction))
            } else {
                Err(StoreError::Deserialize(MISFILED_ROW.to_owned()))
            },
            None => Ok(None),
        }
    }

    /// Insert or update `transaction` under its number.
    pub fn put_transaction(&mut self, transaction: Transaction) -> (r: Result<(), StoreError>)
        ensures
            final(self).is_map() == old(self).is_map(),
            final(self).dependable() == old(self).dependable(),
            old(self).dependable() ==> r is Ok,
            r matches Err(e) ==> e.from_engine(),
            old(self).is_map() ==> final(self)@ == if r is Ok {
                old(self)@.with_transaction(transaction)
            } else {
                old(self)@
            },
    {
        let key = transaction_key_bytes(transaction.id())?;
        let row = transaction.encode();
        let ghost before = self.delegate;
        let r = self.delegate.put(Keyspace::Transactions, key.as_slice(), row.as_slice());
        proof {
            assert(before.is_map() && r is Ok ==> self.delegate.rows(Keyspace::Clients) == crate::db::rows_after_put(
                before.rows(Keyspace::Clients),
                Keyspace::Clients,
                Keyspace::Transactions,
                key@,
                row@,
)) ;
            assert(before.is_map() && r is Ok ==> self.delegate.rows(Keyspace::Transactions) == crate::db::rows_after_put(
                before.rows(Keyspace::Transactions),
                Keyspace::Transactions,
                Keyspace::Transactions,
                key@,
                row@,
)) ;
            assert(before.is_map() && r is Err ==> self.delegate.rows(Keyspace::Clients)
                == before.rows(Keyspace::Clients));
            assert(before.is_map() && r is Err ==> self.delegate.rows(Keyspace::Transactions)
                == before.rows(Keyspace::Transactions));
        }
        r
    }

    /// Look up a client's state in the store by `client_id`.
    pub fn get_client_state(&self, client_id: ClientId) -> (r: Result<
        Option<ClientState>,
        StoreError,
    >)
        ensures
            self.dependable() ==> !(r matches Err(e) && e.from_engine()),
            r matches Ok(Some(state)) ==> state.wf(),
            r matches Err(e) ==> e.from_engine() || e is Deserialize,
            self.is_map() ==> match r {
                Ok(Some(state)) => self@.client(client_id) == Lookup::Found(state),
                Ok(None) => self@.client(client_id) is Missing,
                Err(e) => e.from_engine() || self@.client(client_id) is Unreadable,
            },
    {
        let key = client_key_bytes(client_id)?;
        self.get_row::<ClientState>(Keyspace::Clients, key.as_slice())
    }

    /// Insert or update `state` under its client's number.
    pub fn put_client_state(&mut self, state: &ClientState) -> (r: Result<(), StoreError>)
        ensures
            final(self).is_map() == old(self).is_map(),
            final(self).dependable() == old(self).dependable(),
            old(self).dependable() ==> r is Ok,
            r matches Err(e) ==> e.from_engine(),
            old(self).is_map() ==> final(self)@ == if r is Ok {
                old(self)@.with_client_row(state@.id, state.encoding())
            } else {
                old(self)@
            },
    {
        let key = client_key_bytes(state.id())?;
        let balance = state.balance();
        proof {
            use_type_invariant(balance);
        }
        let row = state.encode();
        let ghost before = self.delegate;
        let r = self.delegate.put(Keyspace::Clients, key.as_slice(), row.as_slice());
        proof {
            assert(before.is_map() && r is Ok ==> self.delegate.rows(Keyspace::Clients) == crate::db::rows_after_put(
                before.rows(Keyspace::Clients),
                Keyspace::Clients,
                Keyspace::Clients,
                key@,
                row@,
)) ;
            assert(before.is_map() && r is Ok ==> self.delegate.rows(Keyspace::Transactions) == crate::db::rows_after_put(
                before.rows(Keyspace::Transactions),
                Keyspace::Transactions,
                Keyspace::Clients,
                key@,
                row@,
)) ;
            assert(before.is_map() && r is Err ==> self.delegate.rows(Keyspace::Clients)
                == before.rows(Keyspace::Clients));
            assert(before.is_map() && r is Err ==> self.delegate.rows(Keyspace::Transactions)
                == before.rows(Keyspace::Transactions));
        }
        r
    }
}

} // verus!
