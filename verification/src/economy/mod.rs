//! Coin ledger: balance tracking, earn/spend operations and an append-only
//! transaction log.

use vstd::prelude::*;
use crate::ids;
use crate::models::{CoinBalance, Transaction, TransactionKind};

verus! {

/// Sum of the signed amounts of a sequence of transactions.
pub open spec fn sum_amounts(txs: Seq<Transaction>) -> int
    decreases txs.len(),
{
    if txs.len() == 0 {
        0
    } else {
        sum_amounts(txs.drop_last()) + txs.last().amount
    }
}

/// A transaction's signed amount agrees with its kind.
pub open spec fn kind_matches_amount(tx: Transaction) -> bool {
    match tx.kind {
        TransactionKind::Earn(a) => tx.amount == a,
        TransactionKind::Spend(a) => tx.amount == -(a as int),
    }
}

/// The ledger is consistent: every transaction's amount agrees with its
/// kind, every `balance_after` is the running total of the amounts up to
/// and including it and is never negative, and the balance is the total of
/// all amounts.
pub open spec fn ledger_consistent(c: CoinBalance) -> bool {
    let txs = c.transactions@;
    &&& c.balance == sum_amounts(txs)
    &&& forall|i: int|
        0 <= i < txs.len() ==> {
            &&& (#[trigger] txs[i]).balance_after == sum_amounts(txs.take(i + 1))
            &&& txs[i].balance_after >= 0
            &&& kind_matches_amount(txs[i])
        }
}

/// `after` is `before` with one transaction appended, with the given kind,
/// signed amount and note, and the balance moved to that transaction's
/// `balance_after`.
pub open spec fn appended(before: CoinBalance, after: CoinBalance, kind: TransactionKind, amount: int, note: String) -> bool {
    let tx = after.transactions@.last();
    &&& after.transactions@.len() == before.transactions@.len() + 1
    &&& after.transactions@.drop_last() == before.transactions@
    &&& tx.kind == kind
    &&& tx.amount == amount
    &&& tx.balance_after == before.balance + amount
    &&& tx.note == note
    &&& after.balance == before.balance + amount
}

proof fn lemma_append_keeps_ledger(before: CoinBalance, after: CoinBalance, kind: TransactionKind, amount: int, note: String)
    requires
        ledger_consistent(before),
        appended(before, after, kind, amount, note),
        before.balance + amount >= 0,
        kind_matches_amount(after.transactions@.last()),
    ensures
        ledger_consistent(after),
{
    let txs = after.transactions@;
    let n = txs.len() - 1;
    assert(txs.drop_last() == before.transactions@);
    assert forall|i: int| 0 <= i < txs.len() implies {
        &&& (#[trigger] txs[i]).balance_after == sum_amounts(txs.take(i + 1))
        &&& txs[i].balance_after >= 0
        &&& kind_matches_amount(txs[i])
    } by {
        if i < n {
            assert(txs[i] == before.transactions@[i]);
            assert(txs.take(i + 1) == before.transactions@.take(i + 1));
        } else {
            assert(txs.take(i + 1) == txs);
        }
    }
}

/// One posting to the ledger: its kind, signed amount and note.
pub type Posting = (TransactionKind, int, Seq<char>);

/// Sum of the signed amounts of the first `k` postings.
pub open spec fn postings_total(entries: Seq<Posting>, k: int) -> int
    decreases k,
{
    if k <= 0 {
        0
    } else {
        postings_total(entries, k - 1) + entries[k - 1].1
    }
}

/// `after` is `before` with `entries` appended to its log in order, each
/// transaction carrying its posting's kind, amount and note and the
/// running balance, and the balance moved by the postings' total.
pub open spec fn posted(before: CoinBalance, after: CoinBalance, entries: Seq<Posting>) -> bool {
    let n = before.transactions@.len();
    &&& after.transactions@.len() == n + entries.len()
    &&& after.transactions@.take(n as int) == before.transactions@
    &&& forall|i: int|
        n <= i < after.transactions@.len() ==> {
            &&& (#[trigger] after.transactions@[i]).kind == entries[i - n].0
            &&& after.transactions@[i].amount == entries[i - n].1
            &&& after.transactions@[i].note@ == entries[i - n].2
            &&& after.transactions@[i].balance_after == before.balance + postings_total(entries, i - n + 1)
        }
    &&& after.balance == before.balance + postings_total(entries, entries.len() as int)
}

/// Posting nothing leaves a ledger as it is.
pub proof fn lemma_posted_nothing(c: CoinBalance)
    ensures
        posted(c, c, Seq::empty()),
{
    assert(c.transactions@.take(c.transactions@.len() as int) == c.transactions@);
}

/// One more append extends a run of postings.
pub proof fn lemma_posted_then_appended(
    a: CoinBalance,
    b: CoinBalance,
    c: CoinBalance,
    entries: Seq<Posting>,
    kind: TransactionKind,
    amount: int,
    note: String,
)
    requires
        posted(a, b, entries),
        appended(b, c, kind, amount, note),
    ensures
        posted(a, c, entries.push((kind, amount, note@))),
{
    let n = a.transactions@.len();
    let m = b.transactions@.len();
    let e = entries.push((kind, amount, note@));
    assert(postings_total(e, entries.len() as int) == postings_total(entries, entries.len() as int)) by {
        lemma_postings_total_prefix(entries, e, entries.len() as int);
    }
    assert(c.transactions@.take(n as int) == a.transactions@) by {
        assert(c.transactions@.take(n as int) == b.transactions@.take(n as int));
    }
    assert forall|i: int| n <= i < c.transactions@.len() implies {
        &&& (#[trigger] c.transactions@[i]).kind == e[i - n].0
        &&& c.transactions@[i].amount == e[i - n].1
        &&& c.transactions@[i].note@ == e[i - n].2
        &&& c.transactions@[i].balance_after == a.balance + postings_total(e, i - n + 1)
    } by {
        if i < m {
            assert(c.transactions@[i] == b.transactions@[i]) by {
                assert(c.transactions@.drop_last()[i] == c.transactions@[i]);
            }
            lemma_postings_total_prefix(entries, e, i - n + 1);
        }
    }
}

proof fn lemma_postings_total_prefix(entries: Seq<Posting>, longer: Seq<Posting>, k: int)
    requires
        0 <= k <= entries.len(),
        entries.len() <= longer.len(),
        forall|j: int| 0 <= j < entries.len() ==> longer[j] == entries[j],
    ensures
        postings_total(longer, k) == postings_total(entries, k),
    decreases k,
{
    if k > 0 {
        lemma_postings_total_prefix(entries, longer, k - 1);
    }
}

proof fn lemma_postings_total_concat(e1: Seq<Posting>, e2: Seq<Posting>, k: int)
    requires
        0 <= k <= e2.len(),
    ensures
        postings_total(e1 + e2, e1.len() + k) == postings_total(e1, e1.len() as int) + postings_total(e2, k),
    decreases k,
{
    if k > 0 {
        lemma_postings_total_concat(e1, e2, k - 1);
        assert((e1 + e2)[e1.len() + k - 1] == e2[k - 1]);
    } else {
        lemma_postings_total_prefix(e1, e1 + e2, e1.len() as int);
    }
}

/// Two runs of postings, one after the other, are one run.
pub proof fn lemma_posted_concat(a: CoinBalance, b: CoinBalance, c: CoinBalance, e1: Seq<Posting>, e2: Seq<Posting>)
    requires
        posted(a, b, e1),
        posted(b, c, e2),
    ensures
        posted(a, c, e1 + e2),
{
    let n = a.transactions@.len();
    let m = b.transactions@.len();
    let e = e1 + e2;
    assert(c.transactions@.take(n as int) == a.transactions@) by {
        assert(c.transactions@.take(n as int) == c.transactions@.take(m as int).take(n as int));
    }
    lemma_postings_total_concat(e1, e2, e2.len() as int);
    assert forall|i: int| n <= i < c.transactions@.len() implies {
        &&& (#[trigger] c.transactions@[i]).kind == e[i - n].0
        &&& c.transactions@[i].amount == e[i - n].1
        &&& c.transactions@[i].note@ == e[i - n].2
        &&& c.transactions@[i].balance_after == a.balance + postings_total(e, i - n + 1)
    } by {
        if i < m {
            assert(c.transactions@[i] == c.transactions@.take(m as int)[i]);
            assert(b.transactions@[i] == c.transactions@[i]);
            lemma_postings_total_prefix(e1, e, i - n + 1);
        } else {
            lemma_postings_total_concat(e1, e2, i - m + 1);
            assert(e[i - n] == e2[i - m]);
        }
    }
}

/// Add coins to balance and record an immutable transaction.
pub fn earn(coins: &mut CoinBalance, amount: u32, note: String)
    requires
        old(coins).balance + amount <= i64::MAX,
    ensures
        appended(*old(coins), *final(coins), TransactionKind::Earn(amount), amount as int, note),
        ledger_consistent(*old(coins)) ==> ledger_consistent(*final(coins)),
{
    let new_balance = coins.balance + amount as i64;
    coins.transactions.push(Transaction {
        id: ids::new_id(),
        kind: TransactionKind::Earn(amount),
        amount: amount as i64,
        balance_after: new_balance,
        note,
    });
    coins.balance = new_balance;
    proof {
        assert(coins.transactions@.drop_last() =~= old(coins).transactions@);
        if ledger_consistent(*old(coins)) {
            law_consistent_balance_matches_log(*old(coins));
            lemma_append_keeps_ledger(*old(coins), *coins, TransactionKind::Earn(amount), amount as int, note);
        }
    }
}

/// Spend coins (e.g., for a slot spin). Returns true if successful; an
/// overdraw is refused and leaves the balance and log unchanged.
pub fn spend(coins: &mut CoinBalance, amount: u32, note: String) -> (ok: bool)
    ensures
        ok <==> old(coins).balance >= amount,
        ok ==> appended(*old(coins), *final(coins), TransactionKind::Spend(amount), -(amount as int), note),
        !ok ==> *final(coins) == *old(coins),
        ledger_consistent(*old(coins)) ==> ledger_consistent(*final(coins)),
{
    if coins.balance < amount as i64 {
        return false;
    }

    let new_balance = coins.balance - amount as i64;
    coins.transactions.push(Transaction {
        id: ids::new_id(),
        kind: TransactionKind::Spend(amount),
        amount: -(amount as i64),
        balance_after: new_balance,
        note,
    });
    coins.balance = new_balance;
    proof {
        assert(coins.transactions@.drop_last() =~= old(coins).transactions@);
        if ledger_consistent(*old(coins)) {
            lemma_append_keeps_ledger(*old(coins), *coins, TransactionKind::Spend(amount), -(amount as int), note);
        }
    }
    true
}

/// Award coins for a habit tick based on the habit's coin reward setting.
pub fn on_habit_tick(coins: &mut CoinBalance, reward_amount: u32)
    requires
        old(coins).balance + reward_amount <= i64::MAX,
    ensures
        appended(*old(coins), *final(coins), TransactionKind::Earn(reward_amount), reward_amount as int, final(coins).transactions@.last().note),
        final(coins).transactions@.last().note@ == "Habit tick"@,
        ledger_consistent(*old(coins)) ==> ledger_consistent(*final(coins)),
{
    earn(coins, reward_amount, String::from_str("Habit tick"));
}

/// The empty ledger is consistent.
pub proof fn law_empty_ledger_is_consistent(c: CoinBalance)
    requires
        c.balance == 0,
        c.transactions@.len() == 0,
    ensures
        ledger_consistent(c),
{
}

/// The log is append-only: every earn or spend keeps all earlier
/// transactions exactly as they were, and the balance always equals the
/// last transaction's `balance_after`.
pub proof fn law_log_is_append_only(before: CoinBalance, after: CoinBalance, kind: TransactionKind, amount: int, note: String)
    requires
        appended(before, after, kind, amount, note),
    ensures
        forall|i: int| 0 <= i < before.transactions@.len() ==> #[trigger] after.transactions@[i] == before.transactions@[i],
        after.balance == after.transactions@.last().balance_after,
{
    assert forall|i: int| 0 <= i < before.transactions@.len() implies #[trigger] after.transactions@[i] == before.transactions@[i] by {
        assert(after.transactions@.drop_last()[i] == after.transactions@[i]);
    }
}

/// In a consistent ledger the balance is never negative and equals the
/// last transaction's `balance_after` (zero when the log is empty).
pub proof fn law_consistent_balance_matches_log(c: CoinBalance)
    requires
        ledger_consistent(c),
    ensures
        c.balance >= 0,
        c.transactions@.len() > 0 ==> c.balance == c.transactions@.last().balance_after,
{
    let txs = c.transactions@;
    if txs.len() > 0 {
        assert(txs.take(txs.len() as int) == txs);
        assert(txs[txs.len() - 1].balance_after == sum_amounts(txs.take(txs.len() as int)));
    }
}

} // verus!
