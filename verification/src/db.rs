//! The store engine: a byte store of two keyspaces, and its failures.

pub mod mem;

use crate::keyspace::Keyspace;
use vstd::prelude::*;
use vstd::std_specs::cmp::PartialEqSpecImpl;

verus! {

/// Why a store operation failed. Each variant but the last carries the text of
/// the failure underneath.
#[derive(Debug)]
pub enum StoreError {
    /// An error was produced when reading from the store.
    Read(String),
    /// An error was produced when writing to the store.
    Write(String),
    /// An error was produced when serializing a value.
    Serialize(String),
    /// An error was produced when deserializing a value.
    Deserialize(String),
    /// The requested keyspace was not found.
    KeyspaceNotFound,
}

impl PartialEq for StoreError {
    /// Two read failures, or two write failures, are equal when their texts are;
    /// a missing keyspace equals a missing keyspace; nothing else is equal.
    fn eq(&self, other: &Self) -> (r: bool) {
        match (self, other) {
            (StoreError::Read(left), StoreError::Read(right)) => *left == *right,
            (StoreError::Write(left), StoreError::Write(right)) => *left == *right,
            (StoreError::KeyspaceNotFound, StoreError::KeyspaceNotFound) => true,
            _ => false,
        }
    }
}

impl PartialEqSpecImpl for StoreError {
    open spec fn obeys_eq_spec() -> bool {
        true
    }

    open spec fn eq_spec(&self, other: &Self) -> bool {
        match (*self, *other) {
            (StoreError::Read(left), StoreError::Read(right)) => left@ == right@,
            (StoreError::Write(left), StoreError::Write(right)) => left@ == right@,
            (StoreError::KeyspaceNotFound, StoreError::KeyspaceNotFound) => true,
            _ => false,
        }
    }
}

impl StoreError {
    /// Whether the failure is one that an engine reports on a lookup.
    pub open spec fn from_get(self) -> bool {
        self is Read || self is KeyspaceNotFound
    }

    /// Whether the failure is one that an engine reports on an upsert.
    pub open spec fn from_put(self) -> bool {
        self is Write || self is KeyspaceNotFound
    }

    /// Whether the failure comes from an engine, as opposed to the codec.
    pub open spec fn from_engine(self) -> bool {
        self.from_get() || self.from_put()
    }
}

/// The rows of `keyspace` after `key` has been set to `value` in `target`.
pub open spec fn rows_after_put(
    rows: Map<Seq<u8>, Seq<u8>>,
    keyspace: Keyspace,
    target: Keyspace,
    key: Seq<u8>,
    value: Seq<u8>,
) -> Map<Seq<u8>, Seq<u8>> {
    if keyspace == target {
        rows.insert(key, value)
    } else {
        rows
    }
}

/// An abstraction over a database store.
///
/// A backend holds, for each keyspace, a finite map from byte keys to byte
/// values. The library reasons about a backend through the three specification
/// functions below. A backend that says of itself that it `is_map` promises that
/// a lookup reports what `rows` holds, that an upsert which succeeds sets one
/// key in one keyspace, and that one which fails changes nothing. Of a backend
/// that does not say so, as one written outside this library cannot, nothing is
/// known but which errors it reports.
pub trait StoreEngine {
    /// The rows that the engine holds in `keyspace`.
    open spec fn rows(&self, keyspace: Keyspace) -> Map<Seq<u8>, Seq<u8>> {
        Map::empty()
    }

    /// Whether the engine behaves as the map that `rows` describes.
    open spec fn is_map(&self) -> bool {
        false
    }

    /// Whether the engine is one whose operations never fail.
    open spec fn dependable(&self) -> bool {
        false
    }

    /// Attempt to put the key-value pair in to `keyspace`.
    fn put(&mut self, keyspace: Keyspace, key: &[u8], value: &[u8]) -> (r: Result<(), StoreError>)
        ensures
            final(self).is_map() == old(self).is_map(),
            final(self).dependable() == old(self).dependable(),
            old(self).dependable() ==> r is Ok,
            r matches Err(e) ==> e.from_put(),
            old(self).is_map() && r is Ok ==> forall|ks: Keyspace| #[trigger]
                final(self).rows(ks) == rows_after_put(old(self).rows(ks), ks, keyspace, key@, value@),
            old(self).is_map() && r is Err ==> forall|ks: Keyspace| #[trigger]
                final(self).rows(ks) == old(self).rows(ks),
    ;

    /// Attempt to get `key` from the keyspace `keyspace`.
    fn get(&self, keyspace: Keyspace, key: &[u8]) -> (r: Result<Option<Vec<u8>>, StoreError>)
        ensures
            self.dependable() ==> r is Ok,
            r matches Err(e) ==> e.from_get(),
            self.is_map() ==> match r {
                Ok(Some(value)) => self.rows(keyspace).contains_key(key@) && value@ == self.rows(
                    keyspace,
                )[key@],
                Ok(None) => !self.rows(keyspace).contains_key(key@),
                Err(_) => true,
            },
    ;
}

} // verus!
