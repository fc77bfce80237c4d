//! The two keyspaces of the store and their names.

use vstd::prelude::*;

verus! {

/// Name of the keyspace that holds one row per client.
pub const CLIENTS_KS: &'static str = "clients";

/// Name of the keyspace that holds one row per accepted transfer.
pub const TRANSACTIONS_KS: &'static str = "transactions";

/// A namespace within the store.
#[derive(Clone, Copy, Debug, PartialEq, Eq, Structural)]
pub enum Keyspace {
    Clients,
    Transactions,
}

impl Keyspace {
    /// The name of this keyspace as a sequence of characters.
    pub open spec fn spec_name(self) -> Seq<char> {
        match self {
            Keyspace::Clients => CLIENTS_KS@,
            Keyspace::Transactions => TRANSACTIONS_KS@,
        }
    }

    /// The name under which a backend files the rows of this keyspace.
    pub fn name(&self) -> (r: &'static str)
        ensures
            r@ == self.spec_name(),
    {
        match self {
            Keyspace::Clients => CLIENTS_KS,
            Keyspace::Transactions => TRANSACTIONS_KS,
        }
    }
}

/// The two keyspaces have different names.
pub proof fn keyspace_names_differ()
    ensures
        Keyspace::Clients.spec_name() != Keyspace::Transactions.spec_name(),
{
    reveal_strlit("clients");
    reveal_strlit("transactions");
    assert(CLIENTS_KS@.len() == 7);
    assert(TRANSACTIONS_KS@.len() == 12);
}

} // verus!
