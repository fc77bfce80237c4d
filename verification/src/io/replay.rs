//! Replaying a stream: what two runs of the machine have in common.

use crate::client::store::{Lookup, Tables};
use crate::client::theorems::{
    lemma_step_rows, lemma_write_one, step_keeps_client_valid, step_keeps_other_clients,
    stored_client_is_restored,
};
use crate::client::{client_decoding_is, effect, restored, step, ClientView};
use crate::db::mem::no_rows;
use crate::io::{run, served, stops_at};
use crate::transaction::{ClientId, DisputeStatus, Transaction, TxId};
use vstd::prelude::*;

verus! {

/// Transactions are served in the order of their arrival: running a stream is
/// running its first part, and then running the rest from where that ended.
pub proof fn run_is_in_order(t: Tables, first: Seq<Transaction>, rest: Seq<Transaction>)
    ensures
        run(t, first + rest) == match run(t, first) {
            Some(between) => run(between, rest),
            None => None,
        },
    decreases first.len(),
{
    if first.len() == 0 {
        assert(first + rest =~= rest);
    } else {
        assert((first + rest)[0] == first[0]);
        assert((first + rest).drop_first() =~= first.drop_first() + rest);
        match served(t, first[0]) {
            Some(next) => {
                run_is_in_order(next, first.drop_first(), rest);
            },
            None => {},
        }
    }
}

/// A run that stops at a transaction has no end: the transactions after the one
/// at which it stops are not served.
pub proof fn stopped_run_has_no_end(
    t: Tables,
    stream: Seq<Transaction>,
    at: int,
    stopped: Tables,
)
    requires
        stops_at(t, stream, at, stopped),
    ensures
        run(t, stream) is None,
{
    let rest = stream.skip(at);
    assert(stream.take(at) + rest =~= stream);
    run_is_in_order(t, stream.take(at), rest);
    assert(rest[0] == stream[at]);
}

/// Whether a step from `t1` and a step from `t2` find the same for
/// `transaction`: a transfer looks nothing up, and a dispute event looks up the
/// row under its transaction number.
pub open spec fn finds_same(t1: Tables, t2: Tables, transaction: Transaction) -> bool {
    transaction is Transfer || t1.transaction(transaction.spec_id()) == t2.transaction(
        transaction.spec_id(),
    )
}

/// A step reads one row of the store at most. Two steps of the same client from
/// stores in which the transaction finds the same have the same verdict and
/// leave the same client; they write the same client row, if any; and under
/// every transaction number under which the stores held the same before, they
/// hold the same after.
pub proof fn step_reads_one_row(c: ClientView, t1: Tables, t2: Tables, transaction: Transaction)
    requires
        finds_same(t1, t2, transaction),
    ensures
        step(c, t1, transaction).verdict == step(c, t2, transaction).verdict,
        step(c, t1, transaction).client == step(c, t2, transaction).client,
        t1.clients == t2.clients ==> step(c, t1, transaction).tables.clients == step(
            c,
            t2,
            transaction,
        ).tables.clients,
        forall|id: TxId|
            t1.transaction(id) == t2.transaction(id) ==> #[trigger] step(
                c,
                t1,
                transaction,
            ).tables.transaction(id) == step(c, t2, transaction).tables.transaction(id),
{
    let s1 = step(c, t1, transaction);
    let s2 = step(c, t2, transaction);
    let e1 = effect(c, t1, transaction);
    let e2 = effect(c, t2, transaction);
    assert forall|id: TxId| t1.transaction(id) == t2.transaction(id) implies #[trigger] s1.tables.transaction(
        id,
    ) == s2.tables.transaction(id) by {
        if c.id == transaction.spec_client_id() && !c.frozen {
            assert(s1.tables.transactions == e1.tables.transactions);
            assert(s2.tables.transactions == e2.tables.transactions);
            assert(s1.tables.transaction(id) == e1.tables.transaction(id));
            assert(s2.tables.transaction(id) == e2.tables.transaction(id));
            match transaction {
                Transaction::Transfer(x) => {
                    lemma_write_one(t1, x.with_status(DisputeStatus::NotDisputed), id);
                    lemma_write_one(t2, x.with_status(DisputeStatus::NotDisputed), id);
                },
                Transaction::Disputed(d) => {
                    match t1.transaction(d.tx) {
                        Lookup::Found(Transaction::Transfer(row)) => {
                            lemma_write_one(t1, row.with_status(DisputeStatus::Disputed), id);
                            lemma_write_one(t1, row.with_status(DisputeStatus::NotDisputed), id);
                            lemma_write_one(t1, row.with_status(DisputeStatus::Resolved), id);
                            lemma_write_one(t2, row.with_status(DisputeStatus::Disputed), id);
                            lemma_write_one(t2, row.with_status(DisputeStatus::NotDisputed), id);
                            lemma_write_one(t2, row.with_status(DisputeStatus::Resolved), id);
                        },
                        _ => {},
                    }
                },
            }
        }
    }
}

/// A transfer that is applied makes two stores hold the same under its number.
pub proof fn applied_transfer_aligns(c: ClientView, t1: Tables, t2: Tables, transaction: Transaction)
    requires
        transaction is Transfer,
        step(c, t1, transaction).verdict is Applied,
    ensures
        step(c, t1, transaction).tables.transaction(transaction.spec_id()) == step(
            c,
            t2,
            transaction,
        ).tables.transaction(transaction.spec_id()),
{
    let x = transaction->Transfer_0;
    let s1 = step(c, t1, transaction);
    let s2 = step(c, t2, transaction);
    let e1 = effect(c, t1, transaction);
    let e2 = effect(c, t2, transaction);
    assert(s1.tables.transactions == e1.tables.transactions);
    assert(s2.tables.transactions == e2.tables.transactions);
    assert(s1.tables.transaction(x.tx) == e1.tables.transaction(x.tx));
    assert(s2.tables.transaction(x.tx) == e2.tables.transaction(x.tx));
    lemma_write_one(t1, x.with_status(DisputeStatus::NotDisputed), x.tx);
    lemma_write_one(t2, x.with_status(DisputeStatus::NotDisputed), x.tx);
}

/// Whether two runs over `stream`, one from `t1` and one from `t2`, find the
/// same at every transaction: each dispute event refers to a number under which
/// the two stores hold the same when the event arrives.
pub open spec fn alike(t1: Tables, t2: Tables, stream: Seq<Transaction>) -> bool
    decreases stream.len(),
{
    if stream.len() == 0 {
        true
    } else {
        finds_same(t1, t2, stream[0]) && match (served(t1, stream[0]), served(t2, stream[0])) {
            (Some(next1), Some(next2)) => alike(next1, next2, stream.drop_first()),
            _ => true,
        }
    }
}

/// Two runs over a stream that start with the same client rows and find the
/// same at every transaction stop together or end with the same client rows.
pub proof fn replay_leaves_same_clients(t1: Tables, t2: Tables, stream: Seq<Transaction>)
    requires
        t1.clients == t2.clients,
        alike(t1, t2, stream),
    ensures
        match (run(t1, stream), run(t2, stream)) {
            (Some(end1), Some(end2)) => end1.clients == end2.clients,
            (None, None) => true,
            _ => false,
        },
    decreases stream.len(),
{
    if stream.len() > 0 {
        let transaction = stream[0];
        assert(restored(t1, transaction.spec_client_id()) == restored(
            t2,
            transaction.spec_client_id(),
        ));
        match restored(t1, transaction.spec_client_id()) {
            Some(c) => {
                step_reads_one_row(c, t1, t2, transaction);
                match (served(t1, transaction), served(t2, transaction)) {
                    (Some(next1), Some(next2)) => {
                        replay_leaves_same_clients(next1, next2, stream.drop_first());
                    },
                    _ => {},
                }
            },
            None => {},
        }
    }
}

/// The tables of a store that holds no client and, under its number, every
/// transfer of `stream` as it arrives: not disputed, a later one in place of an
/// earlier one with the same number.
pub open spec fn populated(stream: Seq<Transaction>) -> Tables
    decreases stream.len(),
{
    if stream.len() == 0 {
        Tables { clients: no_rows(), transactions: no_rows() }
    } else {
        let before = populated(stream.drop_last());
        match stream.last() {
            Transaction::Transfer(x) => before.with_transaction(
                Transaction::Transfer(x.with_status(DisputeStatus::NotDisputed)),
            ),
            Transaction::Disputed(_) => before,
        }
    }
}

/// A store that a stream has populated holds no client.
pub proof fn populated_holds_no_client(stream: Seq<Transaction>)
    ensures
        populated(stream).clients == no_rows(),
    decreases stream.len(),
{
    if stream.len() > 0 {
        populated_holds_no_client(stream.drop_last());
    }
}

/// Replaying a stream against an empty store ends with the same client rows as
/// replaying it against a store that the stream has populated, where every
/// dispute event of the stream refers to a number under which the two stores
/// hold the same when the event arrives.
pub proof fn replay_on_populated_store(stream: Seq<Transaction>)
    requires
        alike(populated(Seq::empty()), populated(stream), stream),
    ensures
        match (run(populated(Seq::empty()), stream), run(populated(stream), stream)) {
            (Some(end1), Some(end2)) => end1.clients == end2.clients,
            (None, None) => true,
            _ => false,
        },
{
    populated_holds_no_client(stream);
    replay_leaves_same_clients(populated(Seq::empty()), populated(stream), stream);
}

/// A stream of transfers finds the same in any two stores.
pub proof fn transfers_are_alike(t1: Tables, t2: Tables, stream: Seq<Transaction>)
    requires
        forall|i: int| 0 <= i < stream.len() ==> (#[trigger] stream[i]) is Transfer,
    ensures
        alike(t1, t2, stream),
    decreases stream.len(),
{
    if stream.len() > 0 {
        match (served(t1, stream[0]), served(t2, stream[0])) {
            (Some(next1), Some(next2)) => {
                assert forall|i: int| 0 <= i < stream.drop_first().len() implies (
                #[trigger] stream.drop_first()[i]) is Transfer by {
                    assert(stream.drop_first()[i] == stream[i + 1]);
                }
                transfers_are_alike(next1, next2, stream.drop_first());
            },
            _ => {},
        }
    }
}

/// Replaying a stream of transfers against an empty store ends with the same
/// client rows as replaying it against a store that the stream has populated.
pub proof fn replay_of_transfers_on_populated_store(stream: Seq<Transaction>)
    requires
        forall|i: int| 0 <= i < stream.len() ==> (#[trigger] stream[i]) is Transfer,
    ensures
        match (run(populated(Seq::empty()), stream), run(populated(stream), stream)) {
            (Some(end1), Some(end2)) => end1.clients == end2.clients,
            (None, None) => true,
            _ => false,
        },
{
    transfers_are_alike(populated(Seq::empty()), populated(stream), stream);
    replay_on_populated_store(stream);
}

/// Whether every row that the machine may look up can be read: no transaction
/// number and no client number leads to a row that does not decode.
pub open spec fn readable(t: Tables) -> bool {
    &&& forall|id: TxId| !((#[trigger] t.transaction(id)) is Unreadable)
    &&& forall|id: ClientId| !((#[trigger] t.client(id)) is Unreadable)
}

/// The client that an actor starts from has valid lanes.
pub proof fn restored_client_is_valid(t: Tables, id: ClientId)
    ensures
        restored(t, id) matches Some(c) ==> c.balance.valid(),
{
    match t.client(id) {
        Lookup::Found(state) => {
            client_decoding_is(t.clients[crate::client::store::client_key(id)]);
        },
        _ => {},
    }
}

/// Serving a transaction from tables that can be read does not stop the
/// machine, and leaves tables that can be read.
pub proof fn served_stays_readable(t: Tables, transaction: Transaction)
    requires
        readable(t),
    ensures
        served(t, transaction) matches Some(next) && readable(next),
{
    let id = transaction.spec_client_id();
    assert(!(t.client(id) is Unreadable));
    let c = restored(t, id)->0;
    restored_client_is_valid(t, id);
    let s = step(c, t, transaction);
    let e = effect(c, t, transaction);
    assert(!(t.transaction(transaction.spec_id()) is Unreadable));
    assert forall|k: TxId| !((#[trigger] s.tables.transaction(k)) is Unreadable) by {
        lemma_step_rows(c, t, transaction, k);
        assert(!(t.transaction(k) is Unreadable));
    }
    assert forall|k: ClientId| !((#[trigger] s.tables.client(k)) is Unreadable) by {
        assert(!(t.client(k) is Unreadable));
        if k == c.id {
            if s.verdict is Applied {
                step_keeps_client_valid(c, t, transaction);
                stored_client_is_restored(e.tables, e.client);
            }
        } else {
            step_keeps_other_clients(c, t, transaction, k);
        }
    }
}

/// A run from tables that can be read never stops, and ends with tables that
/// can be read. Tables without rows are such tables, so that two runs over one
/// stream from empty stores, whose engines do not fail, both come to an end,
/// and to the same one.
pub proof fn run_comes_to_an_end(t: Tables, stream: Seq<Transaction>)
    requires
        readable(t),
    ensures
        run(t, stream) matches Some(end) && readable(end),
        readable(populated(Seq::empty())),
    decreases stream.len(),
{
    if stream.len() > 0 {
        served_stays_readable(t, stream[0]);
        run_comes_to_an_end(served(t, stream[0])->0, stream.drop_first());
    }
}

/// Serving a transaction touches the row of no client but the one that the
/// transaction is addressed to.
pub proof fn served_keeps_other_clients(t: Tables, transaction: Transaction, other: ClientId)
    requires
        other != transaction.spec_client_id(),
    ensures
        served(t, transaction) matches Some(next) ==> next.client(other) == t.client(other),
{
    match restored(t, transaction.spec_client_id()) {
        Some(c) => {
            if c.id == transaction.spec_client_id() {
                step_keeps_other_clients(c, t, transaction, other);
            }
        },
        None => {},
    }
}

} // verus!
