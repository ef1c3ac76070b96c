//! The account state machine as mathematics.
//!
//! Balances are unbounded integers here, so every transition is total and
//! exact. The executable types in [`crate::ledger`] are held to these
//! functions through their views.

use crate::amount::representable;
use crate::ledger::{Client, DisputeStatus, Entry, Transaction, TransactionError, TransactionKind};
use vstd::prelude::*;

verus! {

/// An account: its balances in ten-thousandths, and whether it is locked.
pub struct ClientView {
    pub id: u16,
    pub available: int,
    pub held: int,
    pub locked: bool,
}

impl ClientView {
    /// The account that a client has before its first transaction.
    pub open spec fn fresh(id: u16) -> ClientView {
        ClientView { id, available: 0, held: 0, locked: false }
    }

    /// What the client owns, available or held.
    pub open spec fn total(self) -> int {
        self.available + self.held
    }

    /// Whether both balances can be held by an amount.
    pub open spec fn fits(self) -> bool {
        representable(self.available) && representable(self.held)
    }

    /// Credits `x` to the available balance.
    pub open spec fn deposit(self, x: int) -> ClientView {
        ClientView { available: self.available + x, ..self }
    }

    /// Debits `x` from the available balance, unless it holds less.
    pub open spec fn withdrawal(self, x: int) -> Result<ClientView, TransactionError> {
        if x > self.available {
            Err(TransactionError::InsufficientFunds)
        } else {
            Ok(ClientView { available: self.available - x, ..self })
        }
    }

    /// Moves `x` from the available balance to the held one.
    pub open spec fn dispute(self, x: int) -> ClientView {
        ClientView { available: self.available - x, held: self.held + x, ..self }
    }

    /// Moves `x` from the held balance back to the available one.
    pub open spec fn resolve(self, x: int) -> ClientView {
        ClientView { available: self.available + x, held: self.held - x, ..self }
    }

    /// Takes `x` out of the held balance and locks the account.
    pub open spec fn chargeback(self, x: int) -> ClientView {
        ClientView { held: self.held - x, locked: true, ..self }
    }
}

/// The accounts by client and the referenceable transactions by id.
pub struct LedgerView {
    pub clients: Map<u16, ClientView>,
    pub transactions: Map<u64, Entry>,
}

/// The accounts of `clients`, each by its view.
pub open spec fn accounts(clients: Map<u16, Client>) -> Map<u16, ClientView> {
    clients.map_values(|client: Client| client@)
}

impl LedgerView {
    /// The ledger before any transaction.
    pub open spec fn empty() -> LedgerView {
        LedgerView { clients: Map::empty(), transactions: Map::empty() }
    }

    /// Every account is stored under its own id, and the history holds
    /// finitely many transactions, each under its own id: deposits and
    /// withdrawals of amounts that are not negative.
    pub open spec fn wf(self) -> bool {
        &&& self.transactions.dom().finite()
        &&& forall|id: u16| #[trigger]
            self.clients.contains_key(id) ==> self.clients[id].id == id && self.clients[id].fits()
        &&& forall|id: u64| #[trigger]
            self.transactions.contains_key(id) ==> {
                let entry = self.transactions[id];
                &&& entry.transaction.id == id
                &&& entry.transaction.amount@ >= 0
                &&& entry.transaction.kind is Deposit || entry.transaction.kind is Withdrawal
            }
    }

    /// The account of client `id`: the stored one, or a fresh one.
    pub open spec fn client(self, id: u16) -> ClientView {
        if self.clients.contains_key(id) {
            self.clients[id]
        } else {
            ClientView::fresh(id)
        }
    }

    /// What a dispute, resolve or chargeback that names transaction `id`
    /// finds: the entry, if `id` is known and its status is `expected`.
    pub open spec fn referenced(self, id: u64, expected: DisputeStatus) -> Result<
        Entry,
        TransactionError,
    > {
        if !self.transactions.contains_key(id) {
            Err(TransactionError::ReferencedTransactionNonexistent)
        } else if self.transactions[id].status != expected {
            Err(TransactionError::InvalidDisputeState)
        } else {
            Ok(self.transactions[id])
        }
    }

    /// The account that `t` leaves behind, or why `t` is rejected.
    ///
    /// A negative amount is rejected first, a locked account next. A deposit
    /// or withdrawal then uses the amount of `t`; a dispute, resolve or
    /// chargeback uses the amount of the transaction it names.
    pub open spec fn outcome(self, t: Transaction) -> Result<ClientView, TransactionError> {
        let client = self.client(t.client_id);
        if t.amount@ < 0 {
            Err(TransactionError::NegativeTransaction)
        } else if client.locked {
            Err(TransactionError::ClientLocked)
        } else {
            match t.kind {
                TransactionKind::Deposit => Ok(client.deposit(t.amount@)),
                TransactionKind::Withdrawal => client.withdrawal(t.amount@),
                TransactionKind::Dispute => match self.referenced(t.id, DisputeStatus::Normal) {
                    Ok(entry) => Ok(client.dispute(entry.transaction.amount@)),
                    Err(e) => Err(e),
                },
                TransactionKind::Resolve => match self.referenced(t.id, DisputeStatus::Disputed) {
                    Ok(entry) => Ok(client.resolve(entry.transaction.amount@)),
                    Err(e) => Err(e),
                },
                TransactionKind::Chargeback => match self.referenced(
                    t.id,
                    DisputeStatus::Disputed,
                ) {
                    Ok(entry) => Ok(client.chargeback(entry.transaction.amount@)),
                    Err(e) => Err(e),
                },
            }
        }
    }

    /// The history after `t` was accepted: a deposit or withdrawal is
    /// recorded unless its id is taken; the others move the status of the
    /// transaction they name.
    pub open spec fn recorded(self, t: Transaction) -> Map<u64, Entry> {
        match t.kind {
            TransactionKind::Deposit | TransactionKind::Withdrawal => {
                if self.transactions.contains_key(t.id) {
                    self.transactions
                } else {
                    self.transactions.insert(
                        t.id,
                        Entry { transaction: t, status: DisputeStatus::Normal },
                    )
                }
            },
            TransactionKind::Dispute => self.transactions.insert(
                t.id,
                Entry { status: DisputeStatus::Disputed, ..self.transactions[t.id] },
            ),
            TransactionKind::Resolve => self.transactions.insert(
                t.id,
                Entry { status: DisputeStatus::Resolved, ..self.transactions[t.id] },
            ),
            TransactionKind::Chargeback => self.transactions.insert(
                t.id,
                Entry { status: DisputeStatus::ChargedBack, ..self.transactions[t.id] },
            ),
        }
    }

    /// The ledger after `t`: unchanged where `t` is rejected.
    pub open spec fn apply(self, t: Transaction) -> LedgerView {
        match self.outcome(t) {
            Ok(client) => LedgerView {
                clients: self.clients.insert(t.client_id, client),
                transactions: self.recorded(t),
            },
            Err(_) => self,
        }
    }

    /// Whether the balances that `t` leaves behind can be held.
    pub open spec fn admits(self, t: Transaction) -> bool {
        match self.outcome(t) {
            Ok(client) => client.fits(),
            Err(_) => true,
        }
    }

    /// The ledger after every transaction of `ts`, in order.
    pub open spec fn apply_all(self, ts: Seq<Transaction>) -> LedgerView
        decreases ts.len(),
    {
        if ts.len() == 0 {
            self
        } else {
            self.apply_all(ts.drop_last()).apply(ts.last())
        }
    }
}

/// Resolving a dispute gives back the account as it was before the dispute.
pub proof fn lemma_resolve_undoes_dispute(client: ClientView, x: int)
    ensures
        client.dispute(x).resolve(x) == client,
{
}

/// A dispute and a resolve move money between the two balances and leave the
/// total as it is; a chargeback takes its amount out of the total, and a
/// deposit adds its amount to it.
pub proof fn lemma_total(client: ClientView, x: int)
    ensures
        client.dispute(x).total() == client.total(),
        client.resolve(x).total() == client.total(),
        client.chargeback(x).total() == client.total() - x,
        client.deposit(x).total() == client.total() + x,
{
}

/// A withdrawal that is accepted takes its amount out of the available
/// balance and out of the total, and one is rejected exactly where it asks
/// for more than is available.
pub proof fn lemma_withdrawal(client: ClientView, x: int)
    ensures
        client.withdrawal(x) == Err::<ClientView, TransactionError>(
            TransactionError::InsufficientFunds,
        ) <==> x > client.available,
        client.withdrawal(x) matches Ok(after) ==> after.available == client.available - x
            && after.total() == client.total() - x && after.held == client.held,
{
}

/// A transaction that is admitted leaves a well-formed ledger well-formed.
pub proof fn lemma_apply_keeps_wf(ledger: LedgerView, t: Transaction)
    requires
        ledger.wf(),
        ledger.admits(t),
    ensures
        ledger.apply(t).wf(),
{
}

/// What was recorded stays recorded: no transaction removes an entry or puts
/// another transaction under its id, and its status only moves forward.
pub proof fn lemma_history_is_kept(ledger: LedgerView, t: Transaction, id: u64)
    requires
        ledger.transactions.contains_key(id),
    ensures
        ledger.apply(t).transactions.contains_key(id),
        ledger.apply(t).transactions[id].transaction == ledger.transactions[id].transaction,
        ledger.transactions[id].status.leads_to(ledger.apply(t).transactions[id].status),
{
}

/// A transaction leaves every account but its own as it was.
pub proof fn lemma_apply_is_local(ledger: LedgerView, t: Transaction, id: u16)
    requires
        id != t.client_id,
    ensures
        ledger.apply(t).client(id) == ledger.client(id),
{
}

/// An accepted chargeback locks the account.
pub proof fn lemma_chargeback_locks(ledger: LedgerView, t: Transaction)
    requires
        t.kind is Chargeback,
        ledger.outcome(t) is Ok,
    ensures
        ledger.apply(t).client(t.client_id).locked,
{
}

/// Every transaction on a locked account is rejected and changes nothing.
/// Unless its amount is negative, it is rejected because of the lock.
pub proof fn lemma_locked_rejects(ledger: LedgerView, t: Transaction)
    requires
        ledger.client(t.client_id).locked,
    ensures
        ledger.outcome(t) is Err,
        ledger.apply(t) == ledger,
        t.amount@ >= 0 ==> ledger.outcome(t) == Err::<ClientView, TransactionError>(
            TransactionError::ClientLocked,
        ),
{
}

/// A locked account stays locked, and as it is, whatever transactions
/// follow.
pub proof fn lemma_locked_for_good(ledger: LedgerView, id: u16, ts: Seq<Transaction>)
    requires
        ledger.client(id).locked,
    ensures
        ledger.apply_all(ts).client(id) == ledger.client(id),
    decreases ts.len(),
{
    if ts.len() > 0 {
        let before = ledger.apply_all(ts.drop_last());
        lemma_locked_for_good(ledger, id, ts.drop_last());
        if ts.last().client_id == id {
            lemma_locked_rejects(before, ts.last());
        } else {
            lemma_apply_is_local(before, ts.last(), id);
        }
    }
}

} // verus!
