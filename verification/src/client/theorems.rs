//! What holds of every step of the state machine.

use crate::client::balance::{Lanes, UpdateError};
use crate::client::store::{client_key, transaction_key, Lookup, Tables};
use crate::client::{
    client_bytes, client_decoding_is, client_row_round_trip, effect, persisted, reaches_store,
    restored, step, ClientView, DisputeFault, Step, Verdict,
};
use crate::codec::{lemma_u16_round_trip, lemma_u32_round_trip, Record};
use crate::transaction::{
    ClientId, DisputeStatus, DisputedTransaction, DisputedTransactionKind, Transaction,
    TransferTransaction, TransferTransactionKind, TxId,
};
use vstd::prelude::*;

verus! {

/// Different transaction numbers have different keys.
pub proof fn transaction_keys_differ(a: TxId, b: TxId)
    requires
        a != b,
    ensures
        transaction_key(a) != transaction_key(b),
{
    lemma_u32_round_trip(a);
    lemma_u32_round_trip(b);
}

/// Different client numbers have different keys.
pub proof fn client_keys_differ(a: ClientId, b: ClientId)
    requires
        a != b,
    ensures
        client_key(a) != client_key(b),
{
    lemma_u16_round_trip(a);
    lemma_u16_round_trip(b);
}

/// A transaction that has been stored is found under its number.
pub proof fn stored_transaction_is_found(t: Tables, transaction: Transaction)
    ensures
        t.with_transaction(transaction).transaction(transaction.spec_id()) == Lookup::Found(
            transaction,
        ),
        forall|id: TxId|
            id != transaction.spec_id() ==> #[trigger] t.with_transaction(transaction).transaction(id)
                == t.transaction(id),
        t.with_transaction(transaction).clients == t.clients,
{
    transaction.round_trip(Seq::empty());
    assert(transaction.encoding() + Seq::<u8>::empty() =~= transaction.encoding());
    assert forall|id: TxId| id != transaction.spec_id() implies #[trigger] t.with_transaction(
        transaction,
    ).transaction(id) == t.transaction(id) by {
        transaction_keys_differ(id, transaction.spec_id());
    }
}

/// A client that has been stored is the one that an actor starts from.
pub proof fn stored_client_is_restored(t: Tables, c: ClientView)
    requires
        c.balance.valid(),
    ensures
        restored(persisted(t, c), c.id) == Some(c),
        persisted(t, c).transactions == t.transactions,
{
    client_row_round_trip(c, Seq::empty());
    assert(client_bytes(c) + Seq::<u8>::empty() =~= client_bytes(c));
    client_decoding_is(client_bytes(c));
}

/// A step leaves the client its number and valid lanes: held funds are never
/// negative, and the total is the sum of the available and the held funds.
pub proof fn step_keeps_client_valid(c: ClientView, t: Tables, transaction: Transaction)
    requires
        c.balance.valid(),
    ensures
        step(c, t, transaction).client.id == c.id,
        step(c, t, transaction).client.balance.valid(),
        step(c, t, transaction).client.balance.held >= 0,
        step(c, t, transaction).client.balance.total() == step(
            c,
            t,
            transaction,
        ).client.balance.available + step(c, t, transaction).client.balance.held,
{
}

/// A frozen client is final: no transaction is applied to it, none changes it,
/// none changes the store, and none makes it turn to the store.
pub proof fn frozen_client_is_final(c: ClientView, t: Tables, transaction: Transaction)
    requires
        c.frozen,
    ensures
        !(step(c, t, transaction).verdict is Applied),
        step(c, t, transaction).client == c,
        step(c, t, transaction).tables == t,
        !reaches_store(c, transaction),
{
}

/// Only a chargeback freezes a client, and a step that is not applied leaves the
/// client as it was.
pub proof fn only_chargeback_freezes(c: ClientView, t: Tables, transaction: Transaction)
    ensures
        !(step(c, t, transaction).verdict is Applied) ==> step(c, t, transaction).client == c,
        step(c, t, transaction).client.frozen && !c.frozen ==> (transaction matches Transaction::Disputed(
            d,
        ) && d.kind == DisputedTransactionKind::Chargeback && step(c, t, transaction).verdict
            is Applied),
{
}

/// Whatever is found under a transaction number bears that number.
pub proof fn found_bears_its_number(t: Tables, id: TxId)
    ensures
        t.transaction(id) matches Lookup::Found(transaction) ==> transaction.spec_id() == id,
{
}

/// The dispute status that an applied dispute event leaves on its transfer.
pub open spec fn status_after(kind: DisputedTransactionKind) -> DisputeStatus {
    match kind {
        DisputedTransactionKind::Dispute => DisputeStatus::Disputed,
        DisputedTransactionKind::Resolve => DisputeStatus::NotDisputed,
        DisputedTransactionKind::Chargeback => DisputeStatus::Resolved,
    }
}

/// What storing a transfer leaves under a transaction number: the transfer
/// where the number is its own, and what was there otherwise.
pub proof fn lemma_write_one(t: Tables, row: TransferTransaction, id: TxId)
    ensures
        t.with_transaction(Transaction::Transfer(row)).transaction(id) == if id == row.tx {
            Lookup::Found(Transaction::Transfer(row))
        } else {
            t.transaction(id)
        },
{
    stored_transaction_is_found(t, Transaction::Transfer(row));
}

/// The transfer that a step writes to the store: the transfer itself, not
/// disputed, where a transfer is applied; the transfer that a dispute event
/// refers to, with its new status, where the event is applied; and none where
/// the step is not applied.
pub open spec fn written(c: ClientView, t: Tables, transaction: Transaction) -> Option<
    TransferTransaction,
> {
    if !(step(c, t, transaction).verdict is Applied) {
        None
    } else {
        match transaction {
            Transaction::Transfer(x) => Some(x.with_status(DisputeStatus::NotDisputed)),
            Transaction::Disputed(d) => match t.transaction(d.tx) {
                Lookup::Found(Transaction::Transfer(row)) => Some(
                    row.with_status(status_after(d.kind)),
                ),
                _ => None,
            },
        }
    }
}

/// What a step leaves under a transaction number: the transfer that it writes,
/// under that transfer's number, and what was there under every other.
pub proof fn lemma_step_rows(c: ClientView, t: Tables, transaction: Transaction, id: TxId)
    ensures
        step(c, t, transaction).tables.transaction(id) == match written(c, t, transaction) {
            Some(row) => if id == row.tx {
                Lookup::Found(Transaction::Transfer(row))
            } else {
                t.transaction(id)
            },
            None => t.transaction(id),
        },
{
    let s = step(c, t, transaction);
    let e = effect(c, t, transaction);
    if c.id == transaction.spec_client_id() && !c.frozen {
        assert(s.tables.transactions == e.tables.transactions);
        assert(s.tables.transaction(id) == e.tables.transaction(id));
        match written(c, t, transaction) {
            Some(row) => {
                lemma_write_one(t, row, id);
            },
            None => {},
        }
    }
}

/// A step that is not applied changes nothing: the client and the tables are
/// as they were.
pub proof fn refused_step_changes_nothing(c: ClientView, t: Tables, transaction: Transaction)
    requires
        !(step(c, t, transaction).verdict is Applied),
    ensures
        step(c, t, transaction).client == c,
        step(c, t, transaction).tables == t,
{
}

/// A dispute event is applied to a transfer of the client's own only: one that
/// refers to the transfer of another client is refused, and changes nothing.
pub proof fn foreign_transfer_is_refused(
    c: ClientView,
    t: Tables,
    d: DisputedTransaction,
    row: TransferTransaction,
)
    requires
        meets(c, t, d, row),
        row.client != c.id,
    ensures
        step(c, t, Transaction::Disputed(d)) == (Step {
            verdict: Verdict::Dispute(DisputeFault::NotOwn),
            client: c,
            tables: t,
        }),
{
}

/// A dispute event that is applied refers to a transfer of the client's own,
/// stored under the event's number.
pub proof fn applied_event_is_own(c: ClientView, t: Tables, d: DisputedTransaction)
    requires
        step(c, t, Transaction::Disputed(d)).verdict is Applied,
    ensures
        t.transaction(d.tx) matches Lookup::Found(Transaction::Transfer(row)) && row.client == c.id
            && row.tx == d.tx,
{
}

/// A dispute event never changes what a stored transfer is worth: under every
/// transaction number, a transfer that was stored before the event is stored
/// after it, with the same kind, client, number and amount. Its dispute status
/// changes only where the event is applied and the number is the event's; no
/// row is taken away, and none is added.
pub proof fn dispute_events_keep_amounts(
    c: ClientView,
    t: Tables,
    transaction: Transaction,
    id: TxId,
)
    requires
        transaction is Disputed,
    ensures
        match t.transaction(id) {
            Lookup::Found(Transaction::Transfer(before)) => {
                &&& step(c, t, transaction).tables.transaction(id) matches Lookup::Found(
                    Transaction::Transfer(after),
                )
                &&& after.kind == before.kind
                &&& after.client == before.client
                &&& after.tx == before.tx
                &&& after.amount == before.amount
                &&& after.disputed != before.disputed ==> step(c, t, transaction).verdict is Applied
                    && id == transaction.spec_id()
            },
            other => step(c, t, transaction).tables.transaction(id) == other,
        },
{
    lemma_step_rows(c, t, transaction, id);
}

/// After a dispute event has been applied, the transfer that it refers to is
/// stored with the dispute status that the event calls for.
pub proof fn applied_event_sets_status(c: ClientView, t: Tables, transaction: Transaction)
    requires
        transaction is Disputed,
        step(c, t, transaction).verdict is Applied,
    ensures
        step(c, t, transaction).tables.transaction(transaction.spec_id()) matches Lookup::Found(
            Transaction::Transfer(after),
        ) && after.disputed == status_after(transaction->Disputed_0.kind),
{
    lemma_step_rows(c, t, transaction, transaction.spec_id());
}

/// After a transfer has been applied, it is stored under its number, not
/// disputed, and the transfers under other numbers are as before.
pub proof fn applied_transfer_is_stored(c: ClientView, t: Tables, x: TransferTransaction)
    requires
        step(c, t, Transaction::Transfer(x)).verdict is Applied,
    ensures
        step(c, t, Transaction::Transfer(x)).tables.transaction(x.tx) == Lookup::Found(
            Transaction::Transfer(x.with_status(DisputeStatus::NotDisputed)),
        ),
        forall|id: TxId|
            id != x.tx ==> #[trigger] step(c, t, Transaction::Transfer(x)).tables.transaction(id)
                == t.transaction(id),
{
    let s = step(c, t, Transaction::Transfer(x));
    assert forall|id: TxId| #[trigger] s.tables.transaction(id) == if id == x.tx {
        Lookup::Found(Transaction::Transfer(x.with_status(DisputeStatus::NotDisputed)))
    } else {
        t.transaction(id)
    } by {
        lemma_step_rows(c, t, Transaction::Transfer(x), id);
    }
}

/// Eviction is invisible: where the store holds what an actor has in memory, a
/// step that the engine does not interrupt leaves the store holding what the
/// actor then has in memory, so that a new actor for the client resumes from
/// exactly there.
pub proof fn step_keeps_store_current(c: ClientView, t: Tables, transaction: Transaction)
    requires
        c.balance.valid(),
        restored(t, c.id) == Some(c),
    ensures
        restored(step(c, t, transaction).tables, c.id) == Some(step(c, t, transaction).client),
{
    let s = step(c, t, transaction);
    let e = effect(c, t, transaction);
    if c.id == transaction.spec_client_id() && !c.frozen {
        assert(e.tables.clients == t.clients);
        if e.verdict is Applied {
            stored_client_is_restored(e.tables, e.client);
        } else {
            assert(e.client == c);
        }
    }
}

/// A step touches no other client's row.
pub proof fn step_keeps_other_clients(
    c: ClientView,
    t: Tables,
    transaction: Transaction,
    other: ClientId,
)
    requires
        other != c.id,
    ensures
        step(c, t, transaction).tables.client(other) == t.client(other),
{
    client_keys_differ(other, c.id);
}

/// A deposit of nothing is accepted: it leaves the lanes as they are, and it is
/// stored like any other deposit.
pub proof fn deposit_of_nothing_is_accepted(c: ClientView, t: Tables, tx: TxId)
    requires
        c.balance.valid(),
        !c.frozen,
    ensures
        ({
            let deposit = TransferTransaction {
                kind: TransferTransactionKind::Deposit,
                client: c.id,
                tx,
                amount: 0,
                disputed: DisputeStatus::NotDisputed,
            };
            let s = step(c, t, Transaction::Transfer(deposit));
            &&& s.verdict is Applied
            &&& s.client == c
            &&& s.tables.transaction(tx) == Lookup::Found(Transaction::Transfer(deposit))
            &&& restored(s.tables, c.id) == Some(c)
        }),
{
    let deposit = TransferTransaction {
        kind: TransferTransactionKind::Deposit,
        client: c.id,
        tx,
        amount: 0,
        disputed: DisputeStatus::NotDisputed,
    };
    assert(c.balance.deposit(0) == Ok::<Lanes, UpdateError>(c.balance));
    assert(deposit.with_status(DisputeStatus::NotDisputed) == deposit);
    applied_transfer_is_stored(c, t, deposit);
    stored_client_is_restored(t.with_transaction(Transaction::Transfer(deposit)), c);
}

/// A withdrawal of all that is available succeeds and leaves nothing available.
pub proof fn withdrawal_of_all_leaves_nothing(lanes: Lanes)
    requires
        lanes.available >= 0,
    ensures
        lanes.withdraw(lanes.available) == Ok::<Lanes, UpdateError>(
            (Lanes { available: 0, held: lanes.held }),
        ),
{
}

/// A resolve undoes a dispute: holding an amount and releasing it again leaves
/// the lanes as they were.
pub proof fn release_undoes_hold(lanes: Lanes, amount: int)
    requires
        lanes.valid(),
        lanes.hold(amount) is Ok,
    ensures
        0 <= amount <= lanes.hold(amount)->Ok_0.held,
        lanes.hold(amount)->Ok_0.release(amount) == lanes,
        lanes.hold(amount)->Ok_0.total() == lanes.total(),
{
}

/// A chargeback takes a disputed amount away for good: holding an amount and
/// charging it leaves the total lower by the amount, and the held funds as they
/// were.
pub proof fn charge_takes_what_was_held(lanes: Lanes, amount: int)
    requires
        lanes.hold(amount) is Ok,
    ensures
        lanes.hold(amount)->Ok_0.charge(amount).held == lanes.held,
        lanes.hold(amount)->Ok_0.charge(amount).total() == lanes.total() - amount,
{
}

/// What a dispute event does where the client is the one addressed, is not
/// frozen, and the event's number leads to a stored transfer.
pub open spec fn meets(c: ClientView, t: Tables, d: DisputedTransaction, row: TransferTransaction) -> bool {
    &&& c.id == d.client
    &&& !c.frozen
    &&& t.transaction(d.tx) == Lookup::Found(Transaction::Transfer(row))
}

/// A dispute of a deposit that is under dispute is refused as already disputed,
/// and changes nothing.
pub proof fn second_dispute_is_refused(
    c: ClientView,
    t: Tables,
    d: DisputedTransaction,
    row: TransferTransaction,
)
    requires
        meets(c, t, d, row),
        row.client == c.id,
        d.kind == DisputedTransactionKind::Dispute,
        row.kind == TransferTransactionKind::Deposit,
        row.disputed == DisputeStatus::Disputed,
    ensures
        step(c, t, Transaction::Disputed(d)) == (Step {
            verdict: Verdict::Dispute(DisputeFault::AlreadyDisputed),
            client: c,
            tables: t,
        }),
{
}

/// A resolve of a deposit that is not disputed is refused as not disputed, and
/// changes nothing.
pub proof fn resolve_without_dispute_is_refused(
    c: ClientView,
    t: Tables,
    d: DisputedTransaction,
    row: TransferTransaction,
)
    requires
        meets(c, t, d, row),
        row.client == c.id,
        d.kind == DisputedTransactionKind::Resolve,
        row.disputed == DisputeStatus::NotDisputed,
    ensures
        step(c, t, Transaction::Disputed(d)) == (Step {
            verdict: Verdict::Dispute(DisputeFault::NotDisputed),
            client: c,
            tables: t,
        }),
{
}

/// A chargeback of a deposit that has been charged back is refused as already
/// resolved, and changes nothing.
pub proof fn chargeback_after_chargeback_is_refused(
    c: ClientView,
    t: Tables,
    d: DisputedTransaction,
    row: TransferTransaction,
)
    requires
        meets(c, t, d, row),
        row.client == c.id,
        d.kind == DisputedTransactionKind::Chargeback,
        row.disputed == DisputeStatus::Resolved,
    ensures
        step(c, t, Transaction::Disputed(d)) == (Step {
            verdict: Verdict::Dispute(DisputeFault::AlreadyResolved),
            client: c,
            tables: t,
        }),
{
}

} // verus!
