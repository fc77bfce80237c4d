//! Stores to start from, and streams to load them with.

use crate::client::store::ClientStore;
use crate::db::mem::{no_keyspaces, no_rows, rows_empty, MemStore};
use crate::keyspace::Keyspace;
use crate::transaction::{
    Amount, ClientId, DisputeStatus, DisputedTransactionKind, Transaction, TransferTransaction,
    TransferTransactionKind, TxId,
};
use rand::rngs::ThreadRng;
use rand::Rng;
use vstd::prelude::*;

verus! {

/// Produces an empty memory store initialised with the default keyspaces.
pub fn mem_store() -> (r: ClientStore<MemStore>)
    ensures
        r.engine()@ == no_keyspaces().insert(Keyspace::Transactions.spec_name(), no_rows()).insert(
            Keyspace::Clients.spec_name(),
            no_rows(),
        ),
        r@.clients == no_rows(),
        r@.transactions == no_rows(),
{
    let store = MemStore::default().with_keyspace(Keyspace::Transactions, rows_empty()).with_keyspace(
        Keyspace::Clients,
        rows_empty(),
    );
    proof {
        crate::keyspace::keyspace_names_differ();
    }
    ClientStore::new(store)
}

/// `rand::rngs::ThreadRng`, a generator of random numbers.
#[verifier::external_type_specification]
#[verifier::external_body]
pub struct ExThreadRng(ThreadRng);

/// `rand::thread_rng`: the generator of random numbers of this thread.
#[verifier::external_body]
fn thread_rng() -> ThreadRng {
    rand::thread_rng()
}

/// `Rng::gen_ratio`: a flag that is set with a chance of `numerator` in
/// `denominator`.
#[verifier::external_body]
fn draw_ratio(rng: &mut ThreadRng, numerator: u32, denominator: u32) -> bool
    requires
        0 < denominator,
        numerator <= denominator,
{
    rng.gen_ratio(numerator, denominator)
}

/// `Rng::gen_range`: a number from 0 up to, and not including, `limit`.
#[verifier::external_body]
fn draw_below(rng: &mut ThreadRng, limit: u64) -> (r: u64)
    requires
        0 < limit,
    ensures
        r < limit,
{
    rng.gen_range(0..limit)
}

/// The amounts of generated transfers stay below this.
pub const GENERATED_AMOUNT_LIMIT: u64 = 100_000_000_000;

/// Whether `event` refers to `target`: it names the target's client and number.
pub open spec fn refers_to(event: Transaction, target: Transaction) -> bool {
    event is Disputed && event.spec_client_id() == target.spec_client_id() && event.spec_id()
        == target.spec_id()
}

/// Whether `event` refers to one of the first `upto` transactions of `stream`.
pub open spec fn refers_back(event: Transaction, stream: Seq<Transaction>, upto: int) -> bool {
    exists|j: int| 0 <= j < upto && refers_to(event, #[trigger] stream[j])
}

/// How many clients the transfers of `stream` have made. Clients are numbered
/// from zero in the order in which they come up: a transfer for the client with
/// the next number makes that client, and any other makes none.
pub open spec fn clients_made(stream: Seq<Transaction>) -> int
    decreases stream.len(),
{
    if stream.len() == 0 {
        0
    } else {
        let before = clients_made(stream.drop_last());
        match stream.last() {
            Transaction::Transfer(x) => if x.client == before {
                before + 1
            } else {
                before
            },
            Transaction::Disputed(_) => before,
        }
    }
}

/// Whether `stream` is one that the generator makes: every transfer has its
/// place in the stream as its number, a client that a transfer before it has
/// made or the next new one, so that no client number is left out, and an amount
/// from zero up to the limit; every dispute event refers to a transaction before
/// it.
pub open spec fn generated(stream: Seq<Transaction>) -> bool {
    forall|i: int|
        0 <= i < stream.len() ==> match #[trigger] stream[i] {
            Transaction::Transfer(x) => x.tx == i && x.client <= clients_made(stream.take(i)) && 0
                <= x.amount < GENERATED_AMOUNT_LIMIT,
            Transaction::Disputed(_) => refers_back(stream[i], stream, i),
        }
}

/// Whether `transaction` is a transfer for the client with the number `client`.
pub open spec fn is_transfer_for(transaction: Transaction, client: int) -> bool {
    transaction matches Transaction::Transfer(x) && x.client == client
}

/// A generated stream without its last transaction is a generated stream.
proof fn lemma_generated_head(stream: Seq<Transaction>)
    requires
        generated(stream),
        stream.len() > 0,
    ensures
        generated(stream.drop_last()),
        stream.take(stream.len() - 1) == stream.drop_last(),
{
    let head = stream.drop_last();
    assert forall|i: int| 0 <= i < head.len() implies match #[trigger] head[i] {
        Transaction::Transfer(x) => x.tx == i && x.client <= clients_made(head.take(i)) && 0
            <= x.amount < GENERATED_AMOUNT_LIMIT,
        Transaction::Disputed(_) => refers_back(head[i], head, i),
    } by {
        assert(head[i] == stream[i]);
        assert(head.take(i) =~= stream.take(i));
        if stream[i] is Disputed {
            lemma_refers_on(stream[i], stream, i, head, i);
        }
    }
    assert(stream.take(stream.len() - 1) =~= head);
}

/// The clients made are at most as many as the transactions, and no transfer
/// has a client number beyond those made.
pub proof fn clients_are_made_in_turn(stream: Seq<Transaction>)
    requires
        generated(stream),
    ensures
        0 <= clients_made(stream) <= stream.len(),
        forall|i: int|
            0 <= i < stream.len() ==> forall|client: int|
                is_transfer_for(#[trigger] stream[i], client) ==> client < clients_made(stream),
    decreases stream.len(),
{
    if stream.len() > 0 {
        let head = stream.drop_last();
        lemma_generated_head(stream);
        clients_are_made_in_turn(head);
        let last = stream.len() - 1;
        assert(stream[last] == stream.last());
        assert(clients_made(head) <= clients_made(stream));
        assert forall|i: int| 0 <= i < stream.len() implies forall|client: int|
            is_transfer_for(#[trigger] stream[i], client) ==> client < clients_made(stream) by {
            if i < last {
                assert(stream[i] == head[i]);
            }
        }
    }
}

/// No client number is left out: every client number below the number of
/// clients made has a transfer.
pub proof fn no_client_is_left_out(stream: Seq<Transaction>, client: int)
    requires
        generated(stream),
        0 <= client < clients_made(stream),
    ensures
        exists|i: int| 0 <= i < stream.len() && is_transfer_for(#[trigger] stream[i], client),
    decreases stream.len(),
{
    if stream.len() > 0 {
        let head = stream.drop_last();
        let last = stream.len() - 1;
        assert(stream[last] == stream.last());
        if client < clients_made(head) {
            lemma_generated_head(stream);
            no_client_is_left_out(head, client);
            let i = choose|i: int| 0 <= i < head.len() && is_transfer_for(#[trigger] head[i], client);
            assert(stream[i] == head[i]);
        } else {
            assert(is_transfer_for(stream[last], client));
        }
    }
}

/// An event that refers to one of the first transactions of a stream refers to
/// one of the first transactions of any stream that starts with the same ones.
proof fn lemma_refers_on(
    event: Transaction,
    stream: Seq<Transaction>,
    upto: int,
    longer: Seq<Transaction>,
    more: int,
)
    requires
        refers_back(event, stream, upto),
        upto <= more,
        upto <= stream.len(),
        upto <= longer.len(),
        forall|j: int| 0 <= j < upto ==> stream[j] == longer[j],
    ensures
        refers_back(event, longer, more),
{
    let j = choose|j: int| 0 <= j < upto && refers_to(event, #[trigger] stream[j]);
    assert(refers_to(event, longer[j]));
}

/// The kind of dispute event for a draw from 0 to 9: six in ten are disputes,
/// three in ten are resolves, and one in ten is a chargeback. There is nothing
/// to resolve or charge back while no dispute is open.
pub open spec fn event_kind_for(draw: u64, open_disputes: bool) -> DisputedTransactionKind {
    if !open_disputes || draw <= 5 {
        DisputedTransactionKind::Dispute
    } else if draw <= 8 {
        DisputedTransactionKind::Resolve
    } else {
        DisputedTransactionKind::Chargeback
    }
}

/// Chooses the kind of the next dispute event.
pub fn event_kind(draw: u64, open_disputes: bool) -> (r: DisputedTransactionKind)
    ensures
        r == event_kind_for(draw, open_disputes),
{
    if !open_disputes || draw <= 5 {
        DisputedTransactionKind::Dispute
    } else if draw <= 8 {
        DisputedTransactionKind::Resolve
    } else {
        DisputedTransactionKind::Chargeback
    }
}

/// The dispute event of the given kind that refers to `target`.
pub fn event_for(kind: DisputedTransactionKind, target: &Transaction) -> (r: Transaction)
    ensures
        refers_to(r, *target),
        r matches Transaction::Disputed(d) && d.kind == kind,
{
    match kind {
        DisputedTransactionKind::Dispute => Transaction::dispute(target.client_id(), target.id()),
        DisputedTransactionKind::Resolve => Transaction::resolve(target.client_id(), target.id()),
        DisputedTransactionKind::Chargeback => Transaction::chargeback(
            target.client_id(),
            target.id(),
        ),
    }
}

/// Whether every event of `events` refers to a transaction of `stream`.
pub open spec fn all_refer(events: Seq<Transaction>, stream: Seq<Transaction>) -> bool {
    forall|k: int|
        0 <= k < events.len() ==> refers_back(#[trigger] events[k], stream, stream.len() as int)
}

/// Draws the next dispute event: a dispute of any transaction so far, or a
/// resolve or a chargeback of an open dispute, which is then closed.
fn next_event(rng: &mut ThreadRng, transactions: &Vec<Transaction>, disputed: &mut Vec<Transaction>) -> (r:
    Transaction)
    requires
        0 < transactions.len(),
        all_refer(old(disputed)@, transactions@),
    ensures
        all_refer(final(disputed)@, transactions@),
        r is Disputed,
        refers_back(r, transactions@, transactions.len() as int),
{
    let ghost open_before = disputed@;
    let draw: u64 = if disputed.len() == 0 {
        0
    } else {
        draw_below(rng, 10)
    };
    let kind = event_kind(draw, disputed.len() > 0);
    match kind {
        DisputedTransactionKind::Dispute => {
            let at = draw_below(rng, transactions.len() as u64) as usize;
            let event = event_for(kind, &transactions[at]);
            disputed.push(event);
            proof {
                assert(refers_to(event, transactions@[at as int]));
                assert forall|k: int| 0 <= k < disputed.len() implies refers_back(
                    #[trigger] disputed@[k],
                    transactions@,
                    transactions.len() as int,
                ) by {
                    if k < open_before.len() {
                        assert(disputed@[k] == open_before[k]);
                    }
                }
            }
            event
        },
        _ => {
            let at = draw_below(rng, disputed.len() as u64) as usize;
            let event = event_for(kind, &disputed[at]);
            proof {
                assert(refers_back(open_before[at as int], transactions@, transactions.len() as int));
                let j = choose|j: int|
                    0 <= j < transactions.len() && refers_to(
                        open_before[at as int],
                        #[trigger] transactions@[j],
                    );
                assert(refers_to(event, transactions@[j]));
            }
            disputed.remove(at);
            proof {
                assert forall|k: int| 0 <= k < disputed.len() implies refers_back(
                    #[trigger] disputed@[k],
                    transactions@,
                    transactions.len() as int,
                ) by {
                    if k < at {
                        assert(disputed@[k] == open_before[k]);
                    } else {
                        assert(disputed@[k] == open_before[k + 1]);
                    }
                }
            }
            event
        },
    }
}

/// The client of the next transfer, where `clients` have been made so far: the
/// next new one where one is asked for, or none has been made yet, and a number
/// is left for it; and the one that `pick` chooses among those made otherwise.
pub open spec fn client_for(clients: u16, make_new: bool, pick: u64) -> ClientId {
    if clients < u16::MAX && (make_new || clients == 0) {
        clients
    } else {
        pick as u16
    }
}

/// Chooses the client of the next transfer.
pub fn choose_client(clients: u16, make_new: bool, pick: u64) -> (r: ClientId)
    requires
        clients > 0 ==> pick < clients,
    ensures
        r == client_for(clients, make_new, pick),
        r <= clients,
        r == clients ==> clients < u16::MAX,
{
    if clients < u16::MAX && (make_new || clients == 0) {
        clients
    } else {
        pick as u16
    }
}

/// The transfer with the given number, client and amount: a withdrawal where
/// `withdrawal` is set, and a deposit where it is not.
pub fn transfer_for(client: ClientId, tx: TxId, withdrawal: bool, amount: Amount) -> (r: Transaction)
    ensures
        r == if withdrawal {
            Transaction::Transfer(
                (TransferTransaction {
                    kind: TransferTransactionKind::Withdrawal,
                    client,
                    tx,
                    amount,
                    disputed: DisputeStatus::NotDisputed,
                }),
            )
        } else {
            Transaction::Transfer(
                (TransferTransaction {
                    kind: TransferTransactionKind::Deposit,
                    client,
                    tx,
                    amount,
                    disputed: DisputeStatus::NotDisputed,
                }),
            )
        },
{
    if withdrawal {
        Transaction::withdrawal(client, tx, amount)
    } else {
        Transaction::deposit(client, tx, amount)
    }
}

/// Draws the next transfer: a deposit or a withdrawal, half each, with the
/// number `tx`, for a new client three times in ten.
fn next_transfer(rng: &mut ThreadRng, clients: &mut u16, tx: TxId) -> (r: Transaction)
    ensures
        r matches Transaction::Transfer(x) && x.tx == tx && x.client <= *old(clients) && 0
            <= x.amount < GENERATED_AMOUNT_LIMIT && *final(clients) == if x.client == *old(clients) {
            *old(clients) + 1
        } else {
            *old(clients) as int
        },
{
    let make_new = draw_ratio(rng, 3, 10);
    let pick: u64 = if *clients > 0 {
        draw_below(rng, *clients as u64)
    } else {
        0
    };
    let client = choose_client(*clients, make_new, pick);
    if client == *clients {
        *clients = *clients + 1;
    }
    let withdrawal = draw_ratio(rng, 1, 2);
    let amount = draw_below(rng, GENERATED_AMOUNT_LIMIT) as Amount;
    transfer_for(client, tx, withdrawal, amount)
}

/// Runs the generator `count` times: one transaction in ten, after the first,
/// is a dispute event for a transaction before it; the others are deposits and
/// withdrawals, half each, for a new client three times in ten.
pub fn generate(count: u32) -> (stream: Vec<Transaction>)
    ensures
        stream.len() == count,
        generated(stream@),
{
    let mut rng = thread_rng();
    let mut clients: u16 = 0;
    let mut transactions: Vec<Transaction> = Vec::new();
    let mut disputed: Vec<Transaction> = Vec::new();
    let mut i: u32 = 0;
    while i < count
        invariant
            i <= count,
            transactions.len() == i,
            clients == clients_made(transactions@),
            generated(transactions@),
            all_refer(disputed@, transactions@),
        decreases count - i,
    {
        let ghost before = transactions@;
        let dispute = draw_ratio(&mut rng, 1, 10);
        let next = if dispute && transactions.len() > 0 {
            next_event(&mut rng, &transactions, &mut disputed)
        } else {
            next_transfer(&mut rng, &mut clients, i)
        };
        transactions.push(next);
        proof {
            assert(transactions@.drop_last() =~= before);
            assert forall|k: int| 0 <= k < transactions.len() implies match #[trigger] transactions@[k] {
                Transaction::Transfer(x) => x.tx == k && x.client <= clients_made(
                    transactions@.take(k),
                ) && 0 <= x.amount < GENERATED_AMOUNT_LIMIT,
                Transaction::Disputed(_) => refers_back(transactions@[k], transactions@, k),
            } by {
                if k < i {
                    assert(transactions@[k] == before[k]);
                    assert(transactions@.take(k) =~= before.take(k));
                    if before[k] is Disputed {
                        lemma_refers_on(before[k], before, k, transactions@, k);
                    }
                } else {
                    assert(transactions@.take(k) =~= before);
                    if next is Disputed {
                        lemma_refers_on(next, before, i as int, transactions@, i as int);
                    }
                }
            }
            assert forall|k: int| 0 <= k < disputed.len() implies refers_back(
                #[trigger] disputed@[k],
                transactions@,
                transactions.len() as int,
            ) by {
                lemma_refers_on(disputed@[k], before, i as int, transactions@, i + 1);
            }
        }
        i = i + 1;
    }
    transactions
}

} // verus!
