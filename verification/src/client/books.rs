//! The books of a client: what it holds is what its disputed transfers are worth.

use crate::client::store::{Lookup, Tables};
use crate::client::theorems::{lemma_step_rows, written};
use crate::client::{step, ClientView, DisputeFault, Verdict};
use crate::transaction::{ClientId, DisputeStatus, Transaction, TransferTransaction, TxId};
use vstd::prelude::*;

verus! {

/// What a client holds for the transfer stored under `id`: the transfer's
/// amount where it is the client's and under dispute, and nothing otherwise.
pub open spec fn held_for(t: Tables, client: ClientId, id: TxId) -> int {
    match t.transaction(id) {
        Lookup::Found(Transaction::Transfer(row)) => if row.client == client && row.disputed
            == DisputeStatus::Disputed {
            row.amount as int
        } else {
            0
        },
        _ => 0,
    }
}

/// What a client holds for the transfers stored under the numbers `ids`.
pub open spec fn held_sum(t: Tables, client: ClientId, ids: Seq<TxId>) -> int
    decreases ids.len(),
{
    if ids.len() == 0 {
        0
    } else {
        held_sum(t, client, ids.drop_last()) + held_for(t, client, ids.last())
    }
}

/// Whether what is found under a number, if it is a transfer of the client `c`,
/// is such as the machine stores it: its amount is not negative, and it has not
/// been charged back unless the client is frozen.
pub open spec fn row_sound(c: ClientView, found: Lookup<Transaction>) -> bool {
    found matches Lookup::Found(Transaction::Transfer(row)) ==> (row.client == c.id ==> row.amount
        >= 0 && (row.disputed == DisputeStatus::Resolved ==> c.frozen))
}

/// Whether the stored transfers of a client are such as the machine stores them.
pub open spec fn own_rows_sound(c: ClientView, t: Tables) -> bool {
    forall|id: TxId| row_sound(c, #[trigger] t.transaction(id))
}

/// Whether the books of a client balance: its lanes are valid, the client's
/// stored transfers are sound, and what it holds is what its transfers under
/// dispute are worth, all of which have their numbers among `ids`.
pub open spec fn books_balance(c: ClientView, t: Tables, ids: Seq<TxId>) -> bool {
    &&& c.balance.valid()
    &&& own_rows_sound(c, t)
    &&& ids.no_duplicates()
    &&& forall|id: TxId| #[trigger] held_for(t, c.id, id) != 0 ==> ids.contains(id)
    &&& c.balance.held == held_sum(t, c.id, ids)
}

/// Whether a transaction keeps to the rule that transaction numbers are
/// unique: a transfer has a number under which nothing is stored yet.
pub open spec fn number_is_new(t: Tables, transaction: Transaction) -> bool {
    transaction matches Transaction::Transfer(x) ==> t.transaction(x.tx) is Missing
}

/// A fresh client and a store without transfers have balanced books.
pub proof fn fresh_books_balance(c: ClientView, t: Tables)
    requires
        c.balance.valid(),
        c.balance.held == 0,
        t.transactions == Map::<Seq<u8>, Seq<u8>>::empty(),
    ensures
        books_balance(c, t, Seq::empty()),
{
}

/// The sum over numbers under which two tables hold the same for a client is
/// the same.
proof fn lemma_sum_same(t1: Tables, t2: Tables, client: ClientId, ids: Seq<TxId>)
    requires
        forall|i: int| 0 <= i < ids.len() ==> held_for(t1, client, #[trigger] ids[i]) == held_for(
            t2,
            client,
            ids[i],
        ),
    ensures
        held_sum(t1, client, ids) == held_sum(t2, client, ids),
    decreases ids.len(),
{
    if ids.len() > 0 {
        assert forall|i: int| 0 <= i < ids.drop_last().len() implies held_for(
            t1,
            client,
            #[trigger] ids.drop_last()[i],
        ) == held_for(t2, client, ids.drop_last()[i]) by {
            assert(ids.drop_last()[i] == ids[i]);
        }
        lemma_sum_same(t1, t2, client, ids.drop_last());
        assert(ids.last() == ids[ids.len() - 1]);
    }
}

/// Where two tables hold the same for a client under all numbers but `at`, the
/// sums differ by what they hold under `at`.
proof fn lemma_sum_change(t1: Tables, t2: Tables, client: ClientId, ids: Seq<TxId>, at: TxId)
    requires
        ids.no_duplicates(),
        ids.contains(at),
        forall|i: int|
            0 <= i < ids.len() && ids[i] != at ==> held_for(t1, client, #[trigger] ids[i])
                == held_for(t2, client, ids[i]),
    ensures
        held_sum(t2, client, ids) == held_sum(t1, client, ids) + held_for(t2, client, at)
            - held_for(t1, client, at),
    decreases ids.len(),
{
    let rest = ids.drop_last();
    assert forall|i: int| 0 <= i < rest.len() implies rest[i] == ids[i] by {}
    assert(ids.last() == ids[ids.len() - 1]);
    if ids.last() == at {
        assert forall|i: int| 0 <= i < rest.len() implies held_for(t1, client, #[trigger] rest[i])
            == held_for(t2, client, rest[i]) by {
            assert(rest[i] == ids[i]);
            assert(ids[i] != ids[ids.len() - 1]);
        }
        lemma_sum_same(t1, t2, client, rest);
    } else {
        let k = choose|k: int| 0 <= k < ids.len() && ids[k] == at;
        assert(rest[k] == at);
        assert(rest.contains(at));
        assert forall|i: int, j: int| 0 <= i < rest.len() && 0 <= j < rest.len() && i != j implies rest[i]
            != rest[j] by {
            assert(rest[i] == ids[i] && rest[j] == ids[j]);
        }
        assert forall|i: int| 0 <= i < rest.len() && rest[i] != at implies held_for(
            t1,
            client,
            #[trigger] rest[i],
        ) == held_for(t2, client, rest[i]) by {
            assert(rest[i] == ids[i]);
        }
        lemma_sum_change(t1, t2, client, rest, at);
    }
}

/// Where nothing held is negative, what is held under one of the numbers is at
/// most the sum.
proof fn lemma_term_within_sum(t: Tables, client: ClientId, ids: Seq<TxId>, at: TxId)
    requires
        ids.contains(at),
        forall|id: TxId| #[trigger] held_for(t, client, id) >= 0,
    ensures
        held_for(t, client, at) <= held_sum(t, client, ids),
        0 <= held_sum(t, client, ids),
    decreases ids.len(),
{
    lemma_sum_not_negative(t, client, ids.drop_last());
    if ids.last() != at {
        let k = choose|k: int| 0 <= k < ids.len() && ids[k] == at;
        assert(ids.drop_last()[k] == at);
        lemma_term_within_sum(t, client, ids.drop_last(), at);
    }
    assert(held_for(t, client, ids.last()) >= 0);
}

/// Where nothing held is negative, the sum is not negative.
proof fn lemma_sum_not_negative(t: Tables, client: ClientId, ids: Seq<TxId>)
    requires
        forall|id: TxId| #[trigger] held_for(t, client, id) >= 0,
    ensures
        0 <= held_sum(t, client, ids),
    decreases ids.len(),
{
    if ids.len() > 0 {
        lemma_sum_not_negative(t, client, ids.drop_last());
        assert(held_for(t, client, ids.last()) >= 0);
    }
}

/// The numbers among which the transfers under dispute are found after a step:
/// those from before, and the number of the transfer that the step puts under
/// dispute.
pub open spec fn numbers_after(ids: Seq<TxId>, written: Option<TransferTransaction>) -> Seq<TxId> {
    match written {
        Some(row) => if row.disputed == DisputeStatus::Disputed && !ids.contains(row.tx) {
            ids.push(row.tx)
        } else {
            ids
        },
        None => ids,
    }
}

/// A step of a client whose books balance, for a transaction with a number of
/// its own, is never refused for want of held funds, and never finds a negative
/// amount to hold; and it leaves the books balanced.
pub proof fn step_keeps_books(c: ClientView, t: Tables, ids: Seq<TxId>, transaction: Transaction)
    requires
        books_balance(c, t, ids),
        number_is_new(t, transaction),
    ensures
        step(c, t, transaction).verdict != Verdict::Dispute(DisputeFault::NotHeld),
        transaction is Disputed ==> !(step(c, t, transaction).verdict is NegativeValue),
        books_balance(
            step(c, t, transaction).client,
            step(c, t, transaction).tables,
            numbers_after(ids, written(c, t, transaction)),
        ),
{
    let s = step(c, t, transaction);
    let after = numbers_after(ids, written(c, t, transaction));
    assert forall|id: TxId| #[trigger] held_for(t, c.id, id) >= 0 by {
        assert(row_sound(c, t.transaction(id)));
    }
    if c.id == transaction.spec_client_id() && !c.frozen {
        match transaction {
            Transaction::Disputed(d) => {
                match t.transaction(d.tx) {
                    Lookup::Found(Transaction::Transfer(row)) => {
                        assert(row.tx == d.tx);
                        assert(row_sound(c, t.transaction(d.tx)));
                        if row.client == c.id && row.disputed == DisputeStatus::Disputed {
                            assert(held_for(t, c.id, d.tx) == row.amount);
                            if row.amount > 0 {
                                assert(ids.contains(d.tx));
                                lemma_term_within_sum(t, c.id, ids, d.tx);
                            }
                            assert(row.amount <= c.balance.held);
                        }
                    },
                    _ => {},
                }
            },
            _ => {},
        }
    }
    match written(c, t, transaction) {
        None => {
            assert(s.client == c && s.tables == t);
        },
        Some(row) => {
            assert(row.client == c.id);
            let old_worth = held_for(t, c.id, row.tx);
            let new_worth: int = if row.disputed == DisputeStatus::Disputed {
                row.amount as int
            } else {
                0
            };
            assert forall|id: TxId| #[trigger]
                held_for(s.tables, c.id, id) == if id == row.tx {
                    new_worth
                } else {
                    held_for(t, c.id, id)
                } by {
                lemma_step_rows(c, t, transaction, id);
            }
            assert(s.client.balance.held == c.balance.held + new_worth - old_worth);
            if ids.contains(row.tx) {
                assert forall|i: int| 0 <= i < ids.len() && ids[i] != row.tx implies held_for(
                    t,
                    c.id,
                    #[trigger] ids[i],
                ) == held_for(s.tables, c.id, ids[i]) by {}
                lemma_sum_change(t, s.tables, c.id, ids, row.tx);
            } else {
                assert(old_worth == 0);
                assert forall|i: int| 0 <= i < ids.len() implies held_for(
                    t,
                    c.id,
                    #[trigger] ids[i],
                ) == held_for(s.tables, c.id, ids[i]) by {
                    assert(ids.contains(ids[i]));
                }
                lemma_sum_same(t, s.tables, c.id, ids);
                if row.disputed == DisputeStatus::Disputed {
                    assert(ids.push(row.tx).drop_last() =~= ids);
                    assert forall|i: int, j: int|
                        0 <= i < after.len() && 0 <= j < after.len() && i != j implies after[i]
                        != after[j] by {
                        if i < ids.len() {
                            assert(ids.contains(after[i]));
                        }
                        if j < ids.len() {
                            assert(ids.contains(after[j]));
                        }
                    }
                }
            }
            assert forall|id: TxId| #[trigger]
                held_for(s.tables, s.client.id, id) != 0 implies after.contains(id) by {
                if id == row.tx {
                    if !ids.contains(row.tx) {
                        assert(after[ids.len() as int] == row.tx);
                    }
                } else {
                    assert(held_for(t, c.id, id) != 0);
                }
                if ids.contains(id) && after != ids {
                    let k = choose|k: int| 0 <= k < ids.len() && ids[k] == id;
                    assert(after[k] == id);
                }
            }
            assert(own_rows_sound(s.client, s.tables)) by {
                assert forall|id: TxId| row_sound(s.client, #[trigger] s.tables.transaction(id)) by {
                    lemma_step_rows(c, t, transaction, id);
                    assert(row_sound(c, t.transaction(id)));
                    assert(row_sound(c, t.transaction(transaction.spec_id())));
                }
            }
        },
    }
}

/// A step of another client, for a transaction with a number of its own,
/// leaves the books of a client balanced: it writes no transfer of the client.
pub proof fn step_keeps_books_of_others(
    c: ClientView,
    t: Tables,
    ids: Seq<TxId>,
    other: ClientView,
    transaction: Transaction,
)
    requires
        books_balance(c, t, ids),
        other.id != c.id,
        number_is_new(t, transaction),
    ensures
        books_balance(c, step(other, t, transaction).tables, ids),
{
    let s = step(other, t, transaction);
    assert forall|id: TxId| #[trigger] held_for(s.tables, c.id, id) == held_for(t, c.id, id) by {
        lemma_step_rows(other, t, transaction, id);
    }
    assert forall|id: TxId| row_sound(c, #[trigger] s.tables.transaction(id)) by {
        lemma_step_rows(other, t, transaction, id);
        assert(row_sound(c, t.transaction(id)));
    }
    assert forall|i: int| 0 <= i < ids.len() implies held_for(s.tables, c.id, #[trigger] ids[i])
        == held_for(t, c.id, ids[i]) by {}
    lemma_sum_same(s.tables, t, c.id, ids);
    assert forall|id: TxId| #[trigger] held_for(s.tables, c.id, id) != 0 implies ids.contains(
        id,
    ) by {
        assert(held_for(t, c.id, id) != 0);
    }
}

} // verus!
