//! An in-memory store engine.

use crate::db::{StoreEngine, StoreError};
use crate::keyspace::Keyspace;
use fnv::FnvHashMap;
use vstd::prelude::*;

verus! {

/// `fnv::FnvHasher`, the hasher of an `FnvHashMap`.
#[verifier::external_type_specification]
#[verifier::external_body]
pub struct ExFnvHasher(fnv::FnvHasher);

/// `std::hash::BuildHasherDefault`, which makes the hashers of an `FnvHashMap`.
#[verifier::external_type_specification]
#[verifier::external_body]
#[verifier::reject_recursive_types(H)]
pub struct ExBuildHasherDefault<H>(std::hash::BuildHasherDefault<H>);

/// The rows that a keyspace map holds.
pub uninterp spec fn keyspace_rows(m: FnvHashMap<Vec<u8>, Vec<u8>>) -> Map<Seq<u8>, Seq<u8>>;

/// The keyspaces that a store map holds, each by its name and with its rows.
pub uninterp spec fn store_keyspaces(
    m: FnvHashMap<String, FnvHashMap<Vec<u8>, Vec<u8>>>,
) -> Map<Seq<char>, Map<Seq<u8>, Seq<u8>>>;

/// The rows of an empty keyspace.
pub open spec fn no_rows() -> Map<Seq<u8>, Seq<u8>> {
    Map::empty()
}

/// The keyspaces of a store in which none has been created.
pub open spec fn no_keyspaces() -> Map<Seq<char>, Map<Seq<u8>, Seq<u8>>> {
    Map::empty()
}

/// `FnvHashMap::default`: a keyspace map that holds no row.
#[verifier::external_body]
pub(crate) fn rows_empty() -> (r: FnvHashMap<Vec<u8>, Vec<u8>>)
    ensures
        keyspace_rows(r) == no_rows(),
{
    FnvHashMap::default()
}

/// `HashMap::insert` on a keyspace map: `key` is set to `value`, and every
/// other row stays.
#[verifier::external_body]
fn rows_insert(m: &mut FnvHashMap<Vec<u8>, Vec<u8>>, key: &[u8], value: &[u8])
    ensures
        keyspace_rows(*final(m)) == keyspace_rows(*old(m)).insert(key@, value@),
{
    m.insert(key.to_vec(), value.to_vec());
}

/// `HashMap::get` on a keyspace map: a copy of the value under `key`, if there
/// is one.
#[verifier::external_body]
fn rows_get(m: &FnvHashMap<Vec<u8>, Vec<u8>>, key: &[u8]) -> (r: Option<Vec<u8>>)
    ensures
        match r {
            Some(value) => keyspace_rows(*m).contains_key(key@) && value@ == keyspace_rows(*m)[key@],
            None => !keyspace_rows(*m).contains_key(key@),
        },
{
    m.get(key).cloned()
}

/// Whether `list` holds every row of `rows` once: each of its pairs is a row,
/// no two of its pairs have the same key, and no row is missing.
pub open spec fn lists_rows(list: Seq<(Seq<u8>, Seq<u8>)>, rows: Map<Seq<u8>, Seq<u8>>) -> bool {
    &&& forall|i: int|
        0 <= i < list.len() ==> rows.contains_key((#[trigger] list[i]).0) && rows[list[i].0]
            == list[i].1
    &&& forall|i: int, j: int|
        0 <= i < j < list.len() ==> (#[trigger] list[i]).0 != (#[trigger] list[j]).0
    &&& forall|key: Seq<u8>| #[trigger]
        rows.contains_key(key) ==> exists|i: int| 0 <= i < list.len() && (#[trigger] list[i]).0 == key
}

/// `HashMap::iter` on a keyspace map: copies of all rows, each once, in the
/// order in which the map is walked, which is not fixed.
#[verifier::external_body]
fn rows_list(m: &FnvHashMap<Vec<u8>, Vec<u8>>) -> (r: Vec<(Vec<u8>, Vec<u8>)>)
    ensures
        lists_rows(r.deep_view(), keyspace_rows(*m)),
{
    m.iter().map(|(key, value)| (key.clone(), value.clone())).collect()
}

/// `FnvHashMap::default`: a store map that holds no keyspace.
#[verifier::external_body]
fn keyspaces_empty() -> (r: FnvHashMap<String, FnvHashMap<Vec<u8>, Vec<u8>>>)
    ensures
        store_keyspaces(r) == no_keyspaces(),
{
    FnvHashMap::default()
}

/// `HashMap::get` on a store map: the keyspace map filed under `name`, if there
/// is one.
#[verifier::external_body]
fn keyspaces_get<'a>(
    m: &'a FnvHashMap<String, FnvHashMap<Vec<u8>, Vec<u8>>>,
    name: &str,
) -> (r: Option<&'a FnvHashMap<Vec<u8>, Vec<u8>>>)
    ensures
        match r {
            Some(rows) => store_keyspaces(*m).contains_key(name@) && keyspace_rows(*rows)
                == store_keyspaces(*m)[name@],
            None => !store_keyspaces(*m).contains_key(name@),
        },
{
    m.get(name)
}

/// `HashMap::remove` on a store map: takes out the keyspace map filed under
/// `name`, if there is one, and leaves the others.
#[verifier::external_body]
fn keyspaces_remove(m: &mut FnvHashMap<String, FnvHashMap<Vec<u8>, Vec<u8>>>, name: &str) -> (r:
    Option<FnvHashMap<Vec<u8>, Vec<u8>>>)
    ensures
        store_keyspaces(*final(m)) == store_keyspaces(*old(m)).remove(name@),
        match r {
            Some(rows) => store_keyspaces(*old(m)).contains_key(name@) && keyspace_rows(rows)
                == store_keyspaces(*old(m))[name@],
            None => !store_keyspaces(*old(m)).contains_key(name@),
        },
{
    m.remove(name)
}

/// `HashMap::insert` on a store map: files `rows` under `name`, in place of what
/// was there, and leaves the others.
#[verifier::external_body]
fn keyspaces_insert(
    m: &mut FnvHashMap<String, FnvHashMap<Vec<u8>, Vec<u8>>>,
    name: &str,
    rows: FnvHashMap<Vec<u8>, Vec<u8>>,
)
    ensures
        store_keyspaces(*final(m)) == store_keyspaces(*old(m)).insert(name@, keyspace_rows(rows)),
{
    m.insert(name.to_string(), rows);
}

/// An in-memory database: a map from keyspace name to the rows of that keyspace.
///
/// The store is written through an exclusive reference and read through shared
/// ones, so that a writer never meets a reader. A program that shares one store
/// among tasks puts it behind a lock of its own.
#[derive(Debug, Clone)]
pub struct MemStore {
    keyspaces: FnvHashMap<String, FnvHashMap<Vec<u8>, Vec<u8>>>,
}

impl View for MemStore {
    type V = Map<Seq<char>, Map<Seq<u8>, Seq<u8>>>;

    closed spec fn view(&self) -> Self::V {
        store_keyspaces(self.keyspaces)
    }
}

impl Default for MemStore {
    /// A store without any keyspace.
    fn default() -> (r: Self)
        ensures
            r@ == no_keyspaces(),
    {
        MemStore { keyspaces: keyspaces_empty() }
    }
}

impl MemStore {
    /// Constructs a new memory store with the initial values of `keyspaces`.
    pub fn new(keyspaces: FnvHashMap<String, FnvHashMap<Vec<u8>, Vec<u8>>>) -> (r: MemStore)
        ensures
            r@ == store_keyspaces(keyspaces),
    {
        MemStore { keyspaces }
    }

    /// A store with the rows `rows` in `keyspace`, in place of the rows that it
    /// had there.
    pub fn with_keyspace(self, keyspace: Keyspace, rows: FnvHashMap<Vec<u8>, Vec<u8>>) -> (r:
        MemStore)
        ensures
            r@ == self@.insert(keyspace.spec_name(), keyspace_rows(rows)),
    {
        let mut keyspaces = self.keyspaces;
        keyspaces_insert(&mut keyspaces, keyspace.name(), rows);
        MemStore { keyspaces }
    }

    /// All rows of a keyspace, in no particular order, or nothing where the
    /// keyspace has not been created.
    pub fn scan(&self, keyspace: Keyspace) -> (r: Option<Vec<(Vec<u8>, Vec<u8>)>>)
        ensures
            match r {
                Some(list) => self@.contains_key(keyspace.spec_name()) && lists_rows(
                    list.deep_view(),
                    self@[keyspace.spec_name()],
                ),
                None => !self@.contains_key(keyspace.spec_name()),
            },
    {
        match keyspaces_get(&self.keyspaces, keyspace.name()) {
            Some(rows) => Some(rows_list(rows)),
            None => None,
        }
    }

    /// Whether a keyspace of the given name has been created.
    pub fn has_keyspace(&self, keyspace: Keyspace) -> (r: bool)
        ensures
            r == self@.contains_key(keyspace.spec_name()),
    {
        keyspaces_get(&self.keyspaces, keyspace.name()).is_some()
    }
}

/// The rows that a map of keyspaces holds under `name`: none where the keyspace
/// has not been created.
pub open spec fn rows_of(
    keyspaces: Map<Seq<char>, Map<Seq<u8>, Seq<u8>>>,
    name: Seq<char>,
) -> Map<Seq<u8>, Seq<u8>> {
    if keyspaces.contains_key(name) {
        keyspaces[name]
    } else {
        no_rows()
    }
}

impl StoreEngine for MemStore {
    open spec fn rows(&self, keyspace: Keyspace) -> Map<Seq<u8>, Seq<u8>> {
        rows_of(self@, keyspace.spec_name())
    }

    open spec fn is_map(&self) -> bool {
        true
    }

    open spec fn dependable(&self) -> bool {
        true
    }

    /// Sets `key` to `value` in `keyspace`, creating the keyspace if it is missing.
    fn put(&mut self, keyspace: Keyspace, key: &[u8], value: &[u8]) -> (r: Result<(), StoreError>)
        ensures
            r is Ok,
            final(self)@ == old(self)@.insert(
                keyspace.spec_name(),
                rows_of(old(self)@, keyspace.spec_name()).insert(key@, value@),
            ),
    {
        let name = keyspace.name();
        let mut rows = match keyspaces_remove(&mut self.keyspaces, name) {
            Some(rows) => rows,
            None => rows_empty(),
        };
        rows_insert(&mut rows, key, value);
        keyspaces_insert(&mut self.keyspaces, name, rows);
        proof {
            crate::keyspace::keyspace_names_differ();
            assert(final(self)@ =~= old(self)@.insert(
                keyspace.spec_name(),
                rows_of(old(self)@, keyspace.spec_name()).insert(key@, value@),
            ));
        }
        Ok(())
    }

    /// Looks `key` up in `keyspace`; a keyspace that is missing holds no key.
    fn get(&self, keyspace: Keyspace, key: &[u8]) -> (r: Result<Option<Vec<u8>>, StoreError>)
        ensures
            r is Ok,
    {
        match keyspaces_get(&self.keyspaces, keyspace.name()) {
            Some(rows) => Ok(rows_get(rows, key)),
            None => Ok(None),
        }
    }
}

} // verus!
