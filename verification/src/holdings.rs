//! Where the money of an account is.
//!
//! As long as every dispute, resolve and chargeback is made in the name of
//! the client whose transaction it refers to, each account is *balanced*:
//! its held balance is the sum of its transactions under dispute, and its
//! available balance is below zero by no more than what disputes have taken
//! out of it. So a held balance is never negative, and an available balance
//! is never negative unless a transaction of the client is under dispute or
//! charged back.

use crate::ledger::{Entry, Transaction, TransactionKind};
use crate::model::{lemma_apply_keeps_wf, LedgerView};
use vstd::prelude::*;

verus! {

/// The transactions of `client` that are under dispute, by id.
pub open spec fn disputed(history: Map<u64, Entry>, client: u16) -> Set<u64> {
    Set::new(
        |id: u64|
            history.contains_key(id) && history[id].transaction.client_id == client
                && history[id].status is Disputed,
    )
}

/// The transactions of `client` that a dispute has taken out of the
/// available balance for now or for good: those under dispute or charged
/// back, by id.
pub open spec fn taken(history: Map<u64, Entry>, client: u16) -> Set<u64> {
    Set::new(
        |id: u64|
            history.contains_key(id) && history[id].transaction.client_id == client && (
            history[id].status is Disputed || history[id].status is ChargedBack),
    )
}

/// The sum of the amounts that `history` holds under `ids`.
pub open spec fn sum_of(history: Map<u64, Entry>, ids: Set<u64>) -> int {
    ids.fold(0int, |sum: int, id: u64| sum + history[id].transaction.amount@)
}

impl LedgerView {
    /// The sum of the transactions of `client` that are under dispute.
    pub open spec fn under_dispute(self, client: u16) -> int {
        sum_of(self.transactions, disputed(self.transactions, client))
    }

    /// The sum of the transactions of `client` that are under dispute or
    /// charged back.
    pub open spec fn taken_out(self, client: u16) -> int {
        sum_of(self.transactions, taken(self.transactions, client))
    }

    /// Whether the account of `client` holds what is under dispute for it,
    /// and is overdrawn by no more than what disputes have taken out of it.
    pub open spec fn balanced_for(self, client: u16) -> bool {
        &&& self.client(client).held == self.under_dispute(client)
        &&& self.client(client).available + self.taken_out(client) >= 0
    }

    /// Whether every account is balanced.
    pub open spec fn balanced(self) -> bool {
        forall|client: u16| #[trigger] self.balanced_for(client)
    }

    /// Whether `t`, where it refers to a recorded transaction, is made in
    /// the name of the client of that transaction.
    pub open spec fn is_own(self, t: Transaction) -> bool {
        match t.kind {
            TransactionKind::Deposit | TransactionKind::Withdrawal => true,
            _ => self.transactions.contains_key(t.id) ==> self.transactions[t.id].transaction.client_id
                == t.client_id,
        }
    }

    /// Whether each transaction of `ts`, when its turn comes, is admitted
    /// and made in the name of the right client.
    pub open spec fn takes_all(self, ts: Seq<Transaction>) -> bool
        decreases ts.len(),
    {
        ts.len() > 0 ==> {
            let before = self.apply_all(ts.drop_last());
            &&& self.takes_all(ts.drop_last())
            &&& before.admits(ts.last())
            &&& before.is_own(ts.last())
        }
    }
}

/// The sum over no transactions is zero.
pub proof fn lemma_sum_of_none(history: Map<u64, Entry>)
    ensures
        sum_of(history, Set::empty()) == 0,
{
    let f = |sum: int, id: u64| sum + history[id].transaction.amount@;
    vstd::set::fold::lemma_fold_empty(0int, f);
}

/// One more transaction adds its amount to the sum.
pub proof fn lemma_sum_of_insert(history: Map<u64, Entry>, ids: Set<u64>, id: u64)
    requires
        ids.finite(),
        !ids.contains(id),
    ensures
        sum_of(history, ids.insert(id)) == sum_of(history, ids) + history[id].transaction.amount@,
{
    let f = |sum: int, id: u64| sum + history[id].transaction.amount@;
    vstd::set::fold::lemma_fold_insert(ids, 0int, f, id);
}

/// The sum depends only on the amounts of the transactions it is taken over.
pub proof fn lemma_sum_of_agrees(before: Map<u64, Entry>, after: Map<u64, Entry>, ids: Set<u64>)
    requires
        ids.finite(),
        forall|id: u64|
            ids.contains(id) ==> before[id].transaction.amount == after[id].transaction.amount,
    ensures
        sum_of(before, ids) == sum_of(after, ids),
    decreases ids.len(),
{
    if ids.is_empty() {
        lemma_sum_of_none(before);
        lemma_sum_of_none(after);
    } else {
        let id = ids.choose();
        let rest = ids.remove(id);
        lemma_sum_of_agrees(before, after, rest);
        lemma_sum_of_insert(before, rest, id);
        lemma_sum_of_insert(after, rest, id);
    }
}

/// A sum of amounts that are not negative is not negative.
pub proof fn lemma_sum_of_is_not_negative(history: Map<u64, Entry>, ids: Set<u64>)
    requires
        ids.finite(),
        forall|id: u64| ids.contains(id) ==> history[id].transaction.amount@ >= 0,
    ensures
        sum_of(history, ids) >= 0,
    decreases ids.len(),
{
    if ids.is_empty() {
        lemma_sum_of_none(history);
    } else {
        let id = ids.choose();
        let rest = ids.remove(id);
        lemma_sum_of_is_not_negative(history, rest);
        lemma_sum_of_insert(history, rest, id);
    }
}

/// Before any transaction every account is balanced: nothing is held,
/// nothing is available, and nothing is under dispute.
pub proof fn lemma_empty_is_balanced()
    ensures
        LedgerView::empty().balanced(),
{
    let ledger = LedgerView::empty();
    assert forall|client: u16| #[trigger] ledger.balanced_for(client) by {
        assert(disputed(ledger.transactions, client) =~= Set::empty());
        assert(taken(ledger.transactions, client) =~= Set::empty());
        lemma_sum_of_none(ledger.transactions);
    }
}

/// A transaction changes what is under dispute for a client by what it
/// changes the held balance by.
proof fn lemma_apply_moves_held(ledger: LedgerView, t: Transaction, client: u16)
    requires
        ledger.wf(),
        ledger.is_own(t),
    ensures
        ledger.apply(t).under_dispute(client) - ledger.under_dispute(client) == ledger.apply(
            t,
        ).client(client).held - ledger.client(client).held,
{
    let after = ledger.apply(t);
    let before_ids = disputed(ledger.transactions, client);
    let after_ids = disputed(after.transactions, client);
    vstd::set_lib::lemma_set_subset_finite(ledger.transactions.dom(), before_ids);
    if ledger.outcome(t) is Ok {
        vstd::set_lib::lemma_set_subset_finite(after.transactions.dom(), after_ids);
        match t.kind {
            TransactionKind::Deposit | TransactionKind::Withdrawal => {
                assert(after_ids =~= before_ids);
                lemma_sum_of_agrees(ledger.transactions, after.transactions, before_ids);
            },
            TransactionKind::Dispute => {
                if client == t.client_id {
                    assert(after_ids =~= before_ids.insert(t.id));
                    lemma_sum_of_insert(after.transactions, before_ids, t.id);
                } else {
                    assert(after_ids =~= before_ids);
                }
                lemma_sum_of_agrees(ledger.transactions, after.transactions, before_ids);
            },
            TransactionKind::Resolve | TransactionKind::Chargeback => {
                if client == t.client_id {
                    assert(before_ids =~= after_ids.insert(t.id));
                    lemma_sum_of_insert(ledger.transactions, after_ids, t.id);
                } else {
                    assert(after_ids =~= before_ids);
                }
                lemma_sum_of_agrees(ledger.transactions, after.transactions, after_ids);
            },
        }
    }
}

/// A dispute, resolve or chargeback changes what disputes have taken out of
/// an account by what it takes out of the available balance, and a deposit
/// or withdrawal changes it by nothing.
proof fn lemma_apply_moves_taken(ledger: LedgerView, t: Transaction, client: u16)
    requires
        ledger.wf(),
        ledger.is_own(t),
    ensures
        ledger.taken_out(client) >= 0,
        match t.kind {
            TransactionKind::Deposit | TransactionKind::Withdrawal => ledger.apply(t).taken_out(
                client,
            ) == ledger.taken_out(client),
            _ => ledger.apply(t).taken_out(client) - ledger.taken_out(client) == ledger.client(
                client,
            ).available - ledger.apply(t).client(client).available,
        },
{
    let after = ledger.apply(t);
    let before_ids = taken(ledger.transactions, client);
    let after_ids = taken(after.transactions, client);
    vstd::set_lib::lemma_set_subset_finite(ledger.transactions.dom(), before_ids);
    lemma_sum_of_is_not_negative(ledger.transactions, before_ids);
    if ledger.outcome(t) is Ok {
        vstd::set_lib::lemma_set_subset_finite(after.transactions.dom(), after_ids);
        match t.kind {
            TransactionKind::Deposit | TransactionKind::Withdrawal | TransactionKind::Chargeback => {
                assert(after_ids =~= before_ids);
                lemma_sum_of_agrees(ledger.transactions, after.transactions, before_ids);
            },
            TransactionKind::Dispute => {
                if client == t.client_id {
                    assert(after_ids =~= before_ids.insert(t.id));
                    lemma_sum_of_insert(after.transactions, before_ids, t.id);
                } else {
                    assert(after_ids =~= before_ids);
                }
                lemma_sum_of_agrees(ledger.transactions, after.transactions, before_ids);
            },
            TransactionKind::Resolve => {
                if client == t.client_id {
                    assert(before_ids =~= after_ids.insert(t.id));
                    lemma_sum_of_insert(ledger.transactions, after_ids, t.id);
                } else {
                    assert(after_ids =~= before_ids);
                }
                lemma_sum_of_agrees(ledger.transactions, after.transactions, after_ids);
            },
        }
    }
}

/// A transaction that is made in the name of the right client keeps every
/// account balanced.
pub proof fn lemma_apply_keeps_balance(ledger: LedgerView, t: Transaction)
    requires
        ledger.wf(),
        ledger.balanced(),
        ledger.is_own(t),
    ensures
        ledger.apply(t).balanced(),
{
    let after = ledger.apply(t);
    assert forall|client: u16| #[trigger] after.balanced_for(client) by {
        assert(ledger.balanced_for(client));
        lemma_apply_moves_held(ledger, t, client);
        lemma_apply_moves_taken(ledger, t, client);
    }
}

/// In a balanced ledger no account holds less than nothing, and none is
/// overdrawn unless a transaction of its client is under dispute or charged
/// back.
pub proof fn lemma_balances_are_not_negative(ledger: LedgerView, client: u16)
    requires
        ledger.wf(),
        ledger.balanced(),
    ensures
        ledger.client(client).held >= 0,
        taken(ledger.transactions, client) == Set::<u64>::empty() ==> ledger.client(
            client,
        ).available >= 0,
{
    assert(ledger.balanced_for(client));
    let ids = disputed(ledger.transactions, client);
    vstd::set_lib::lemma_set_subset_finite(ledger.transactions.dom(), ids);
    lemma_sum_of_is_not_negative(ledger.transactions, ids);
    lemma_sum_of_none(ledger.transactions);
}

/// Whatever transactions a ledger takes, it stays well-formed and balanced.
pub proof fn lemma_apply_all_keeps_balance(ledger: LedgerView, ts: Seq<Transaction>)
    requires
        ledger.wf(),
        ledger.balanced(),
        ledger.takes_all(ts),
    ensures
        ledger.apply_all(ts).wf(),
        ledger.apply_all(ts).balanced(),
    decreases ts.len(),
{
    if ts.len() > 0 {
        let before = ledger.apply_all(ts.drop_last());
        lemma_apply_all_keeps_balance(ledger, ts.drop_last());
        lemma_apply_keeps_wf(before, ts.last());
        lemma_apply_keeps_balance(before, ts.last());
    }
}

/// No held balance is ever negative in a ledger that started empty and took
/// every transaction in the name of the right client.
pub proof fn lemma_held_is_never_negative(ts: Seq<Transaction>, client: u16)
    requires
        LedgerView::empty().takes_all(ts),
    ensures
        LedgerView::empty().apply_all(ts).client(client).held >= 0,
{
    lemma_empty_is_balanced();
    lemma_apply_all_keeps_balance(LedgerView::empty(), ts);
    lemma_balances_are_not_negative(LedgerView::empty().apply_all(ts), client);
}

} // verus!
