//! The dispatcher's decisions: which clients are live, whom a transaction goes
//! to, who makes room for a newcomer, and when the machine must stop.

pub mod replay;

use crate::client::store::{ClientStore, Tables};
use crate::client::{restored, step, ClientError, ClientState};
use crate::db::{StoreEngine, StoreError};
use crate::transaction::{ClientId, Transaction};
use lru::LruCache;
use vstd::prelude::*;

verus! {

/// How many clients are kept live at most.
pub const MAX_CLIENTS: usize = 2048;

/// The largest capacity that a dispatcher can be made with.
pub const CAPACITY_LIMIT: usize = 65536;

/// `lru::DefaultHasher`, which makes the hashers of an `LruCache`.
#[verifier::external_type_specification]
#[verifier::external_body]
pub struct ExLruHasher(lru::DefaultHasher);

/// `lru::LruCache`, a cache that keeps its most recently used entries.
#[verifier::external_type_specification]
#[verifier::external_body]
#[verifier::reject_recursive_types(K)]
#[verifier::reject_recursive_types(V)]
#[verifier::reject_recursive_types(S)]
pub struct ExLruCache<K, V, S>(LruCache<K, V, S>);

/// The keys that a cache holds, the most recently used first.
pub uninterp spec fn lru_keys(c: LruCache<ClientId, ()>) -> Seq<ClientId>;

/// The number of keys that a cache was made to hold.
pub uninterp spec fn lru_cap(c: LruCache<ClientId, ()>) -> nat;

/// The keys `keys` without `key`.
pub open spec fn without(keys: Seq<ClientId>, key: ClientId) -> Seq<ClientId> {
    keys.filter(|k: ClientId| k != key)
}

/// `LruCache::new`: an empty cache that holds at most `cap` keys.
#[verifier::external_body]
fn lru_new(cap: usize) -> (r: LruCache<ClientId, ()>)
    requires
        cap <= CAPACITY_LIMIT,
    ensures
        lru_keys(r) == Seq::<ClientId>::empty(),
        lru_cap(r) == cap,
{
    LruCache::new(cap)
}

/// `LruCache::get`: says whether `key` is in the cache, and if it is, makes it
/// the most recently used. It does not panic.
#[verifier::external_body]
fn lru_get(c: &mut LruCache<ClientId, ()>, key: ClientId) -> (r: bool)
    ensures
        r == lru_keys(*old(c)).contains(key),
        lru_cap(*final(c)) == lru_cap(*old(c)),
        lru_keys(*final(c)) == if r {
            seq![key] + without(lru_keys(*old(c)), key)
        } else {
            lru_keys(*old(c))
        },
    no_unwind
{
    c.get(&key).is_some()
}

/// What `LruCache::push` gives back: the key itself where the cache held it,
/// the least recently used key where the cache was full, and nothing otherwise.
pub open spec fn pushed_out(keys: Seq<ClientId>, cap: nat, key: ClientId) -> Option<ClientId> {
    if keys.contains(key) {
        Some(key)
    } else if cap > 0 && keys.len() == cap {
        Some(keys.last())
    } else {
        None
    }
}

/// The keys of a cache after `LruCache::push`: `key` becomes the most recently
/// used; where the cache was full without it, the least recently used key
/// leaves; a cache made to hold nothing stays empty.
pub open spec fn pushed_in(keys: Seq<ClientId>, cap: nat, key: ClientId) -> Seq<ClientId> {
    if keys.contains(key) {
        seq![key] + without(keys, key)
    } else if cap == 0 {
        keys
    } else if keys.len() == cap {
        seq![key] + keys.drop_last()
    } else {
        seq![key] + keys
    }
}

/// `LruCache::push`: puts `key` in the cache as the most recently used, and
/// hands back the key of the entry that it replaced, if it replaced one. It does
/// not panic.
#[verifier::external_body]
fn lru_push(c: &mut LruCache<ClientId, ()>, key: ClientId) -> (r: Option<ClientId>)
    ensures
        r == pushed_out(lru_keys(*old(c)), lru_cap(*old(c)), key),
        lru_cap(*final(c)) == lru_cap(*old(c)),
        lru_keys(*final(c)) == pushed_in(lru_keys(*old(c)), lru_cap(*old(c)), key),
    no_unwind
{
    c.push(key, ()).map(|(k, _)| k)
}

/// What a dispatcher knows: the live clients, the most recently served first,
/// and how many it keeps at most.
pub struct Live {
    pub clients: Seq<ClientId>,
    pub capacity: nat,
}

impl Live {
    /// No client is live twice, and no more are live than the capacity allows.
    pub open spec fn valid(self) -> bool {
        self.clients.no_duplicates() && self.clients.len() <= self.capacity
    }

    /// The live clients after `client` has been served.
    pub open spec fn touched(self, client: ClientId) -> Live {
        if self.clients.contains(client) {
            Live { clients: seq![client] + without(self.clients, client), ..self }
        } else {
            self
        }
    }

    /// The client that leaves when `client` is let in: the least recently served
    /// one, where `client` is not live and the dispatcher is full.
    pub open spec fn evicted(self, client: ClientId) -> Option<ClientId> {
        if !self.clients.contains(client) && self.capacity > 0 && self.clients.len()
            == self.capacity {
            Some(self.clients.last())
        } else {
            None
        }
    }

    /// The live clients after `client` has been let in.
    pub open spec fn admitted(self, client: ClientId) -> Live {
        Live { clients: pushed_in(self.clients, self.capacity, client), ..self }
    }
}

/// Where a transaction goes.
#[derive(Clone, Copy, Debug, PartialEq, Eq, Structural)]
pub enum Route {
    /// To the live actor of its client.
    Live,
    /// To a new actor, which starts from what the store holds for the client.
    Spawn,
}

/// The dispatcher's record of which clients are live.
pub struct Dispatcher {
    live: LruCache<ClientId, ()>,
}

impl View for Dispatcher {
    type V = Live;

    closed spec fn view(&self) -> Live {
        Live { clients: lru_keys(self.live), capacity: lru_cap(self.live) }
    }
}

/// Taking a key out of keys without duplicates leaves keys without duplicates,
/// none of which is the key, and one fewer where the key was there.
pub proof fn lemma_without(keys: Seq<ClientId>, key: ClientId)
    requires
        keys.no_duplicates(),
    ensures
        without(keys, key).no_duplicates(),
        !without(keys, key).contains(key),
        forall|k: ClientId| k != key ==> (without(keys, key).contains(k) <==> keys.contains(k)),
        without(keys, key).len() == if keys.contains(key) {
            keys.len() - 1
        } else {
            keys.len() as int
        },
    decreases keys.len(),
{
    reveal(Seq::filter);
    if keys.len() > 0 {
        let head = keys.drop_last();
        lemma_without(head, key);
        assert(keys =~= head.push(keys.last()));
        assert forall|k: ClientId| k != key implies (without(keys, key).contains(k)
            <==> keys.contains(k)) by {
            if keys.contains(k) {
                let i = choose|i: int| 0 <= i < keys.len() && keys[i] == k;
                if i < head.len() {
                    assert(head[i] == k);
                    assert(head.contains(k));
                    let j = choose|j: int| 0 <= j < without(head, key).len() && without(head, key)[j]
                        == k;
                    assert(without(keys, key)[j] == k);
                } else {
                    assert(without(keys, key).last() == k);
                }
            }
            if without(keys, key).contains(k) {
                let j = choose|j: int| 0 <= j < without(keys, key).len() && without(keys, key)[j]
                    == k;
                if j < without(head, key).len() {
                    assert(without(head, key)[j] == k);
                    assert(without(head, key).contains(k));
                    assert(head.contains(k));
                    let i = choose|i: int| 0 <= i < head.len() && head[i] == k;
                    assert(keys[i] == k);
                } else {
                    assert(keys.last() == k);
                }
            }
        }
        if keys.last() != key {
            assert(!head.contains(keys.last())) by {
                if head.contains(keys.last()) {
                    let i = choose|i: int| 0 <= i < head.len() && head[i] == keys.last();
                    assert(keys[i] == keys[keys.len() - 1]);
                }
            }
            assert(!without(head, key).contains(keys.last()));
        }
        if keys.contains(key) && keys.last() != key {
            let i = choose|i: int| 0 <= i < keys.len() && keys[i] == key;
            assert(head[i] == key);
        }
        if keys.last() == key {
            assert(!head.contains(key)) by {
                if head.contains(key) {
                    let i = choose|i: int| 0 <= i < head.len() && head[i] == key;
                    assert(keys[i] == keys[keys.len() - 1]);
                }
            }
        }
    }
}

/// Letting a client in keeps the record valid; where there is room for anyone,
/// the client is then the most recently served; the client that leaves, if one
/// does, was the least recently served and is live no more; and every other
/// client that was live stays live.
pub proof fn let_in_makes_live(before: Live, client: ClientId)
    requires
        before.valid(),
    ensures
        before.admitted(client).valid(),
        before.capacity > 0 ==> before.admitted(client).clients.len() > 0 && before.admitted(
            client,
        ).clients[0] == client,
        before.evicted(client) matches Some(out) ==> out == before.clients.last() && out != client
            && !before.admitted(client).clients.contains(out),
        forall|other: ClientId|
            before.clients.contains(other) && before.evicted(client) != Some(other)
                ==> before.admitted(client).clients.contains(other),
{
    let keys = before.clients;
    let after = before.admitted(client).clients;
    lemma_without(keys, client);
    if keys.contains(client) {
        assert forall|other: ClientId| keys.contains(other) implies after.contains(other) by {
            if other == client {
                assert(after[0] == client);
            } else {
                let i = choose|i: int| 0 <= i < without(keys, client).len() && without(keys, client)[i]
                    == other;
                assert(after[i + 1] == other);
            }
        }
        assert forall|i: int, j: int| 0 <= i < after.len() && 0 <= j < after.len() && i != j implies after[i]
            != after[j] by {
            if i > 0 {
                assert(without(keys, client)[i - 1] == after[i]);
                assert(without(keys, client).contains(after[i]));
            }
            if j > 0 {
                assert(without(keys, client)[j - 1] == after[j]);
                assert(without(keys, client).contains(after[j]));
            }
        }
    } else if before.capacity > 0 {
        let rest = if keys.len() == before.capacity {
            keys.drop_last()
        } else {
            keys
        };
        assert(after == seq![client] + rest);
        assert forall|i: int, j: int| 0 <= i < after.len() && 0 <= j < after.len() && i != j implies after[i]
            != after[j] by {
            if i > 0 {
                assert(after[i] == keys[i - 1]);
            }
            if j > 0 {
                assert(after[j] == keys[j - 1]);
            }
        }
        assert forall|other: ClientId|
            keys.contains(other) && before.evicted(client) != Some(other) implies after.contains(
            other,
        ) by {
            let i = choose|i: int| 0 <= i < keys.len() && keys[i] == other;
            assert(i < rest.len());
            assert(after[i + 1] == other);
        }
        if before.evicted(client) is Some {
            let out = keys.last();
            if after.contains(out) {
                let i = choose|i: int| 0 <= i < after.len() && after[i] == out;
                assert(i > 0);
                assert(keys[i - 1] == keys[keys.len() - 1]);
            }
            assert(keys.contains(out));
        }
    }
}

impl Dispatcher {
    /// The dispatcher's record is valid. This holds of every dispatcher.
    #[verifier::type_invariant]
    pub open spec fn wf(&self) -> bool {
        self@.valid()
    }

    /// A dispatcher that keeps the default number of clients live.
    pub fn new() -> (r: Dispatcher)
        ensures
            r.wf(),
            r@ == (Live { clients: Seq::empty(), capacity: MAX_CLIENTS as nat }),
    {
        Dispatcher { live: lru_new(MAX_CLIENTS) }
    }

    /// A dispatcher that keeps at most `capacity` clients live.
    pub fn with_capacity(capacity: usize) -> (r: Dispatcher)
        requires
            capacity <= CAPACITY_LIMIT,
        ensures
            r.wf(),
            r@ == (Live { clients: Seq::empty(), capacity: capacity as nat }),
    {
        Dispatcher { live: lru_new(capacity) }
    }

    /// Decides where a transaction for `client` goes, and notes that the client
    /// has been served.
    pub fn route(&mut self, client: ClientId) -> (r: Route)
        ensures
            final(self).wf(),
            r == if old(self)@.clients.contains(client) {
                Route::Live
            } else {
                Route::Spawn
            },
            final(self)@ == old(self)@.touched(client),
    {
        proof {
            use_type_invariant(&*self);
            lemma_without(self@.clients, client);
        }
        if lru_get(&mut self.live, client) {
            Route::Live
        } else {
            Route::Spawn
        }
    }

    /// Lets `client` in as the most recently served, and says who has to leave.
    pub fn let_in(&mut self, client: ClientId) -> (evicted: Option<ClientId>)
        ensures
            final(self).wf(),
            evicted == old(self)@.evicted(client),
            final(self)@ == old(self)@.admitted(client),
    {
        proof {
            use_type_invariant(&*self);
            let_in_makes_live(self@, client);
        }
        match lru_push(&mut self.live, client) {
            Some(out) => if out == client {
                None
            } else {
                Some(out)
            },
            None => None,
        }
    }
}

/// Loads the state from which a new actor for `id` starts: what the store holds
/// for the client, or a fresh state where it holds nothing.
pub fn rehydrate<D: StoreEngine>(id: ClientId, store: &ClientStore<D>) -> (r: Result<
    ClientState,
    StoreError,
>)
    ensures
        store.dependable() ==> !(r matches Err(e) && e.from_engine()),
        r matches Ok(state) ==> state.wf(),
        r matches Err(e) ==> e.from_engine() || e is Deserialize,
        store.is_map() ==> match r {
            Ok(state) => restored(store@, id) == Some(state@),
            Err(e) => e.from_engine() || restored(store@, id) is None,
        },
{
    match store.get_client_state(id)? {
        Some(previous) => Ok(previous),
        None => Ok(ClientState::new(id)),
    }
}

/// Decides whether the machine goes on after a transaction: a store error stops
/// it, and is handed back; anything else lets it go on.
pub fn on_result(result: Result<(), ClientError>) -> (r: Result<(), StoreError>)
    ensures
        match result {
            Err(ClientError::StoreError(e)) => r == Err::<(), StoreError>(e),
            _ => r is Ok,
        },
{
    match result {
        Err(ClientError::StoreError(e)) => Err(e),
        _ => Ok(()),
    }
}

/// The tables after one transaction has been served: its client starts from
/// what the tables hold for it, and takes one step. Nothing where the machine
/// must stop, because the client's row or the transaction's row does not decode.
pub open spec fn served(t: Tables, transaction: Transaction) -> Option<Tables> {
    match restored(t, transaction.spec_client_id()) {
        Some(c) => if step(c, t, transaction).verdict is Unreadable {
            None
        } else {
            Some(step(c, t, transaction).tables)
        },
        None => None,
    }
}

/// The tables after the transactions of `stream` have been served one after the
/// other, in the order in which they stand. Nothing where the machine must stop.
pub open spec fn run(t: Tables, stream: Seq<Transaction>) -> Option<Tables>
    decreases stream.len(),
{
    if stream.len() == 0 {
        Some(t)
    } else {
        match served(t, stream[0]) {
            Some(next) => run(next, stream.drop_first()),
            None => None,
        }
    }
}

/// How the tables may be where the engine failed while `transaction` was
/// served from the tables `t`: the client rows are as before, and the transfers
/// are as before or as the client's step leaves them.
pub open spec fn cut_short(t: Tables, transaction: Transaction, left: Tables) -> bool {
    &&& left.clients == t.clients
    &&& left.transactions == t.transactions || (restored(t, transaction.spec_client_id()) matches Some(
        c,
    ) && left.transactions == step(c, t, transaction).tables.transactions)
}

/// Serves one transaction without an actor of its own: the client starts from
/// what the store holds for it, the transaction is executed, and a store error
/// is handed back. Where the engine fails, the transaction is cut short.
pub fn serve<D: StoreEngine>(transaction: Transaction, store: &mut ClientStore<D>) -> (r: Result<
    (),
    StoreError,
>)
    ensures
        final(store).is_map() == old(store).is_map(),
        final(store).dependable() == old(store).dependable(),
        old(store).dependable() ==> !(r matches Err(e) && e.from_engine()),
        r matches Err(e) ==> e.from_engine() || e is Deserialize,
        old(store).is_map() ==> match r {
            Ok(()) => served(old(store)@, transaction) == Some(final(store)@),
            Err(e) => if e.from_engine() {
                cut_short(old(store)@, transaction, final(store)@)
            } else {
                served(old(store)@, transaction) is None && final(store)@ == old(store)@
            },
        },
{
    let mut state = rehydrate(transaction.client_id(), store)?;
    let result = state.execute_transaction(transaction, store);
    on_result(result)
}

/// Whether a run over `stream` from `t` stops at the transaction at `at`: the
/// transactions before it are served and leave the tables `stopped`, and it is
/// one at which the machine must stop.
pub open spec fn stops_at(t: Tables, stream: Seq<Transaction>, at: int, stopped: Tables) -> bool {
    &&& 0 <= at < stream.len()
    &&& run(t, stream.take(at)) == Some(stopped)
    &&& served(stopped, stream[at]) is None
}

/// Whether a run over `stream` from `t` breaks at the transaction at `at`: the
/// transactions before it are served, and it is cut short, which leaves the
/// tables `left`.
pub open spec fn breaks_at(t: Tables, stream: Seq<Transaction>, at: int, left: Tables) -> bool {
    &&& 0 <= at < stream.len()
    &&& run(t, stream.take(at)) matches Some(before) && cut_short(before, stream[at], left)
}

/// Runs the machine over a stream on one thread: every transaction is served in
/// the order of its arrival, and the first store error stops the run. Where the
/// run stops at a row that does not decode, the store is as the transactions
/// before left it; where it breaks because the engine fails, the transaction at
/// which it breaks is cut short. A run from a store in which every row can be
/// read, an empty one for one, on an engine that does not fail, comes to its
/// end.
pub fn process<D: StoreEngine>(stream: &Vec<Transaction>, store: &mut ClientStore<D>) -> (r: Result<
    (),
    StoreError,
>)
    ensures
        final(store).is_map() == old(store).is_map(),
        final(store).dependable() == old(store).dependable(),
        old(store).dependable() ==> !(r matches Err(e) && e.from_engine()),
        r matches Err(e) ==> e.from_engine() || e is Deserialize,
        old(store).is_map() ==> match r {
            Ok(()) => run(old(store)@, stream@) == Some(final(store)@),
            Err(e) => if e.from_engine() {
                exists|at: int| breaks_at(old(store)@, stream@, at, final(store)@)
            } else {
                exists|at: int| stops_at(old(store)@, stream@, at, final(store)@)
            },
        },
        old(store).is_map() && old(store).dependable() && crate::io::replay::readable(
            old(store)@,
        ) ==> r is Ok,
{
    let mut i: usize = 0;
    proof {
        assert(stream@.take(0) =~= Seq::<Transaction>::empty());
    }
    while i < stream.len()
        invariant
            i <= stream.len(),
            store.is_map() == old(store).is_map(),
            store.dependable() == old(store).dependable(),
            old(store).is_map() ==> run(old(store)@, stream@.take(i as int)) == Some(store@),
        decreases stream.len() - i,
    {
        let ghost before = store@;
        proof {
            let next = seq![stream@[i as int]];
            assert(stream@.take(i as int) + next =~= stream@.take(i + 1));
            crate::io::replay::run_is_in_order(old(store)@, stream@.take(i as int), next);
            assert(next.drop_first() =~= Seq::<Transaction>::empty());
            assert(run(before, next) == match served(before, stream@[i as int]) {
                Some(after) => run(after, next.drop_first()),
                None => None,
            });
        }
        match serve(stream[i], store) {
            Ok(()) => {},
            Err(e) => {
                proof {
                    if old(store).is_map() {
                        if e.from_engine() {
                            assert(breaks_at(old(store)@, stream@, i as int, store@));
                        } else {
                            assert(stops_at(old(store)@, stream@, i as int, store@));
                            if crate::io::replay::readable(old(store)@) {
                                crate::io::replay::run_comes_to_an_end(
                                    old(store)@,
                                    stream@.take(i as int),
                                );
                                crate::io::replay::served_stays_readable(
                                    store@,
                                    stream@[i as int],
                                );
                            }
                        }
                    }
                }
                return Err(e);
            },
        }
        i = i + 1;
    }
    proof {
        assert(stream@.take(stream@.len() as int) =~= stream@);
    }
    Ok(())
}

} // verus!
