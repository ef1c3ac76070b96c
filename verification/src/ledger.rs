//! Accounts, transactions, and the ledger that applies one to the other.

use crate::amount::Amount;
use crate::holdings::{lemma_apply_keeps_balance, lemma_empty_is_balanced};
use crate::model::{accounts, ClientView, LedgerView};
use std::collections::{BTreeMap, HashMap};
use vstd::prelude::*;
use vstd::std_specs::btree::spec_keys_iter;
use vstd::std_specs::cmp::OrdSpec;
use vstd::std_specs::iter::IteratorSpec;
use vstd::string::{is_ascii, StringSliceAdditionalSpecFns};

verus! {

/// What a transaction asks for.
#[derive(Debug, Clone, Copy, PartialEq, Eq, Structural)]
pub enum TransactionKind {
    Deposit,
    Withdrawal,
    Dispute,
    Resolve,
    Chargeback,
}

/// Why a word names no kind of transaction.
#[derive(Debug, Clone, Copy, PartialEq, Eq, Structural)]
pub enum TransactionKindConversionError {
    NonExistentValue,
}

/// Whether `text` is `word`, for a `word` of ASCII characters.
fn is_word(text: &str, word: &str) -> (same: bool)
    requires
        is_ascii(word),
    ensures
        same == (text@ == word@),
{
    broadcast use vstd::string::is_ascii_spec_bytes;

    if !text.is_ascii() {
        return false;
    }
    let left = text.as_bytes();
    let right = word.as_bytes();
    if left.len() != right.len() {
        return false;
    }
    let mut at: usize = 0;
    while at < left.len()
        invariant
            is_ascii(text),
            is_ascii(word),
            left@ == text.spec_bytes(),
            right@ == word.spec_bytes(),
            left.len() == right.len(),
            at <= left.len(),
            forall|i: int| 0 <= i < at ==> text@[i] == word@[i],
        decreases left.len() - at,
    {
        if left[at] != right[at] {
            return false;
        }
        at = at + 1;
    }
    assert(text@ =~= word@);
    true
}

impl TransactionKind {
    /// The kind that `word` names, if it names one. Names are lower case.
    pub open spec fn named(word: Seq<char>) -> Option<TransactionKind> {
        if word == "deposit"@ {
            Some(TransactionKind::Deposit)
        } else if word == "withdrawal"@ {
            Some(TransactionKind::Withdrawal)
        } else if word == "dispute"@ {
            Some(TransactionKind::Dispute)
        } else if word == "resolve"@ {
            Some(TransactionKind::Resolve)
        } else if word == "chargeback"@ {
            Some(TransactionKind::Chargeback)
        } else {
            None
        }
    }

    /// Reads a kind from its name.
    pub fn from_str(s: &str) -> (result: Result<TransactionKind, TransactionKindConversionError>)
        ensures
            match Self::named(s@) {
                Some(kind) => result == Ok::<TransactionKind, TransactionKindConversionError>(
                    kind,
                ),
                None => result == Err::<TransactionKind, TransactionKindConversionError>(
                    TransactionKindConversionError::NonExistentValue,
                ),
            },
    {
        proof {
            reveal_strlit("deposit");
            reveal_strlit("withdrawal");
            reveal_strlit("dispute");
            reveal_strlit("resolve");
            reveal_strlit("chargeback");
        }
        if is_word(s, "deposit") {
            Ok(TransactionKind::Deposit)
        } else if is_word(s, "withdrawal") {
            Ok(TransactionKind::Withdrawal)
        } else if is_word(s, "dispute") {
            Ok(TransactionKind::Dispute)
        } else if is_word(s, "resolve") {
            Ok(TransactionKind::Resolve)
        } else if is_word(s, "chargeback") {
            Ok(TransactionKind::Chargeback)
        } else {
            Err(TransactionKindConversionError::NonExistentValue)
        }
    }
}

impl core::str::FromStr for TransactionKind {
    type Err = TransactionKindConversionError;

    fn from_str(s: &str) -> (result: Result<TransactionKind, TransactionKindConversionError>)
        ensures
            match TransactionKind::named(s@) {
                Some(kind) => result == Ok::<TransactionKind, TransactionKindConversionError>(
                    kind,
                ),
                None => result == Err::<TransactionKind, TransactionKindConversionError>(
                    TransactionKindConversionError::NonExistentValue,
                ),
            },
    {
        TransactionKind::from_str(s)
    }
}

/// One record of the input stream.
#[derive(Debug, Clone, Copy, PartialEq, Eq, Structural)]
pub struct Transaction {
    pub id: u64,
    pub client_id: u16,
    pub kind: TransactionKind,
    pub amount: Amount,
}

impl Transaction {
    /// The transaction `id` of client `client_id`.
    pub fn new(id: u64, client_id: u16, kind: TransactionKind, amount: Amount) -> (transaction:
        Transaction)
        ensures
            transaction == (Transaction { id, client_id, kind, amount }),
    {
        Transaction { id, client_id, kind, amount }
    }
}

/// Why a transaction was not applied.
#[derive(Debug, Clone, Copy, PartialEq, Eq, Structural)]
pub enum TransactionError {
    /// A withdrawal of more than is available.
    InsufficientFunds,
    /// The amount is below zero.
    NegativeTransaction,
    /// The account is locked.
    ClientLocked,
    /// The transaction that is referred to was never recorded.
    ReferencedTransactionNonexistent,
    /// The transaction that is referred to is not in the state that the
    /// request needs.
    InvalidDisputeState,
}

/// Where a recorded transaction stands: `Normal`, then `Disputed`, then
/// `Resolved` or `ChargedBack`.
#[derive(Debug, Clone, Copy, PartialEq, Eq, Structural)]
pub enum DisputeStatus {
    Normal,
    Disputed,
    Resolved,
    ChargedBack,
}

impl DisputeStatus {
    /// Whether a transaction in this state can be found in state `next`
    /// later: it stays, or goes one step on.
    pub open spec fn leads_to(self, next: DisputeStatus) -> bool {
        ||| next == self
        ||| self is Normal && next is Disputed
        ||| self is Disputed && (next is Resolved || next is ChargedBack)
    }
}

/// A deposit or withdrawal that later transactions can refer to.
#[derive(Debug, Clone, Copy, PartialEq, Eq, Structural)]
pub struct Entry {
    pub transaction: Transaction,
    pub status: DisputeStatus,
}

/// The state of one account.
#[derive(Debug, Clone, Copy, PartialEq, Eq, Structural)]
pub struct Client {
    pub id: u16,
    pub available: Amount,
    pub held: Amount,
    pub locked: bool,
}

impl View for Client {
    type V = ClientView;

    open spec fn view(&self) -> ClientView {
        ClientView {
            id: self.id,
            available: self.available@,
            held: self.held@,
            locked: self.locked,
        }
    }
}

impl Default for Client {
    fn default() -> (client: Client)
        ensures
            client@ == ClientView::fresh(0),
    {
        Client { id: 0, available: Amount::zero(), held: Amount::zero(), locked: false }
    }
}

impl Client {
    /// The account of client `id` before its first transaction.
    pub fn new(id: u16) -> (client: Client)
        ensures
            client@ == ClientView::fresh(id),
    {
        Client { id, available: Amount::zero(), held: Amount::zero(), locked: false }
    }

    /// The client that the account belongs to.
    pub fn id(&self) -> (id: u16)
        ensures
            id == self@.id,
    {
        self.id
    }

    /// What the client can withdraw.
    pub fn available(&self) -> (available: Amount)
        ensures
            available@ == self@.available,
    {
        self.available
    }

    /// What is held back because it is under dispute.
    pub fn held(&self) -> (held: Amount)
        ensures
            held@ == self@.held,
    {
        self.held
    }

    /// Whether the account takes no more transactions.
    pub fn locked(&self) -> (locked: bool)
        ensures
            locked == self@.locked,
    {
        self.locked
    }

    /// The sum of both balances.
    pub fn total(&self) -> (total: Amount)
        requires
            crate::amount::representable(self@.total()),
        ensures
            total@ == self@.total(),
    {
        self.available + self.held
    }

    /// Credits `amount`. Never fails.
    pub fn deposit(self, amount: Amount) -> (result: Result<Client, TransactionError>)
        requires
            self@.deposit(amount@).fits(),
        ensures
            result matches Ok(client) && client@ == self@.deposit(amount@),
            result matches Ok(client) && client@.available == self@.available + amount@
                && client@.held == self@.held,
    {
        Ok(Client { available: self.available + amount, ..self })
    }

    /// Debits `amount`, or fails where less than `amount` is available.
    pub fn withdrawal(self, amount: Amount) -> (result: Result<Client, TransactionError>)
        requires
            self@.withdrawal(amount@) matches Ok(client) ==> client.fits(),
        ensures
            match self@.withdrawal(amount@) {
                Ok(after) => result matches Ok(client) && client@ == after,
                Err(e) => result == Err::<Client, TransactionError>(e),
            },
            result == Err::<Client, TransactionError>(TransactionError::InsufficientFunds)
                <==> amount@ > self@.available,
            result matches Ok(client) ==> client@.available == self@.available - amount@
                && client@.total() == self@.total() - amount@,
    {
        if amount > self.available {
            return Err(TransactionError::InsufficientFunds);
        }
        Ok(Client { available: self.available - amount, ..self })
    }

    /// Holds `amount` back from the available balance. Never fails.
    pub fn dispute(self, amount: Amount) -> (result: Result<Client, TransactionError>)
        requires
            self@.dispute(amount@).fits(),
        ensures
            result matches Ok(client) && client@ == self@.dispute(amount@),
    {
        Ok(Client { available: self.available - amount, held: self.held + amount, ..self })
    }

    /// Releases `amount` from the held balance. Never fails.
    pub fn resolve(self, amount: Amount) -> (result: Result<Client, TransactionError>)
        requires
            self@.resolve(amount@).fits(),
        ensures
            result matches Ok(client) && client@ == self@.resolve(amount@),
    {
        Ok(Client { available: self.available + amount, held: self.held - amount, ..self })
    }

    /// Takes `amount` out of the held balance and locks the account. Never
    /// fails.
    pub fn chargeback(self, amount: Amount) -> (result: Result<Client, TransactionError>)
        requires
            self@.chargeback(amount@).fits(),
        ensures
            result matches Ok(client) && client@ == self@.chargeback(amount@),
    {
        Ok(Client { held: self.held - amount, locked: true, ..self })
    }
}

/// The accounts and the history of referenceable transactions.
#[derive(Debug)]
pub struct Ledger {
    clients: BTreeMap<u16, Client>,
    transactions: HashMap<u64, Entry>,
}

impl View for Ledger {
    type V = LedgerView;

    closed spec fn view(&self) -> LedgerView {
        LedgerView { clients: accounts(self.clients@), transactions: self.transactions@ }
    }
}

impl Default for Ledger {
    fn default() -> (ledger: Ledger)
        ensures
            ledger.wf(),
            ledger@ == LedgerView::empty(),
    {
        Ledger::new()
    }
}

impl core::ops::Deref for Ledger {
    type Target = BTreeMap<u16, Client>;

    /// The accounts, for reading. A walk over them goes by ascending client
    /// id.
    fn deref(&self) -> (clients: &BTreeMap<u16, Client>)
        ensures
            accounts(clients@) == self@.clients,
    {
        &self.clients
    }
}

impl Ledger {
    /// Whether the ledger is one that `new` and `mutate` can have made.
    pub open spec fn wf(&self) -> bool {
        self@.wf()
    }

    /// A ledger without accounts or history.
    pub fn new() -> (ledger: Ledger)
        ensures
            ledger.wf(),
            ledger@ == LedgerView::empty(),
            ledger@.balanced(),
    {
        let ledger = Ledger { clients: BTreeMap::new(), transactions: HashMap::new() };
        assert(ledger@.clients =~= Map::<u16, ClientView>::empty());
        proof {
            lemma_empty_is_balanced();
        }
        ledger
    }

    /// The accounts, by ascending client id.
    pub fn clients(&self) -> (list: Vec<Client>)
        requires
            self.wf(),
        ensures
            list.len() == self@.clients.len(),
            forall|i: int, j: int| 0 <= i < j < list.len() ==> list[i].id < list[j].id,
            forall|i: int|
                0 <= i < list.len() ==> self@.clients.contains_key(#[trigger] list[i].id)
                    && self@.clients[list[i].id] == list[i]@,
            forall|id: u16| #[trigger]
                self@.clients.contains_key(id) ==> exists|i: int|
                    0 <= i < list.len() && #[trigger] list[i].id == id,
    {
        broadcast use vstd::std_specs::btree::group_btree_axioms;
        broadcast use vstd::laws_cmp::group_laws_cmp;

        let ghost ids = spec_keys_iter(&self.clients).remaining();
        proof {
            vstd::std_specs::btree::axiom_increasing_seq_meaning(ids);
            assert forall|i: int, j: int| 0 <= i < j < ids.len() implies *ids[i] < *ids[j] by {
                assert(OrdSpec::cmp_spec(&ids[i], &ids[j]) is Less);
            }
            assert forall|i: int| 0 <= i < ids.len() implies self.clients@.contains_key(
                *#[trigger] ids[i],
            ) by {
                assert(ids.unref()[i] == *ids[i]);
            }
        }
        let mut list: Vec<Client> = Vec::new();
        for id in iter: self.clients.keys()
            invariant
                self.wf(),
                iter.seq() == ids,
                list.len() == iter.index(),
                forall|i: int| 0 <= i < ids.len() ==> self.clients@.contains_key(*#[trigger] ids[i]),
                forall|i: int| 0 <= i < list.len() ==> #[trigger] list[i] == self.clients@[*ids[i]],
        {
            let client = self.clients.get(id).unwrap();
            list.push(*client);
        }
        proof {
            assert(self@.clients.dom() =~= self.clients@.dom());
            assert(forall|i: int| 0 <= i < list.len() ==> #[trigger] list[i].id == *ids[i]);
            assert forall|id: u16| #[trigger] self@.clients.contains_key(id) implies exists|i: int|
                0 <= i < list.len() && #[trigger] list[i].id == id by {
                let i = choose|i: int| 0 <= i < ids.len() && ids.unref()[i] == id;
                assert(list[i].id == id);
            }
        }
        list
    }

    /// The account of client `id`: the stored one, or a fresh one.
    fn client(&self, id: u16) -> (client: Client)
        ensures
            client@ == self@.client(id),
    {
        match self.clients.get(&id) {
            Some(client) => *client,
            None => Client::new(id),
        }
    }

    /// The entry that a dispute, resolve or chargeback on transaction `id`
    /// works on: the recorded one, if its status is `expected`.
    fn referenced(&self, id: u64, expected: DisputeStatus) -> (result: Result<
        Entry,
        TransactionError,
    >)
        ensures
            result == self@.referenced(id, expected),
    {
        match self.transactions.get(&id) {
            None => Err(TransactionError::ReferencedTransactionNonexistent),
            Some(entry) => {
                if entry.status == expected {
                    Ok(*entry)
                } else {
                    Err(TransactionError::InvalidDisputeState)
                }
            },
        }
    }

    /// Stores `client` as the account of `transaction` and brings the
    /// history up to date.
    fn commit(&mut self, transaction: Transaction, client: Client)
        requires
            old(self).wf(),
            old(self)@.outcome(transaction) == Ok::<ClientView, TransactionError>(client@),
            client@.fits(),
        ensures
            final(self).wf(),
            final(self)@ == old(self)@.apply(transaction),
    {
        match transaction.kind {
            TransactionKind::Deposit | TransactionKind::Withdrawal => {
                if !self.transactions.contains_key(&transaction.id) {
                    self.transactions.insert(
                        transaction.id,
                        Entry { transaction, status: DisputeStatus::Normal },
                    );
                }
            },
            TransactionKind::Dispute => {
                let entry = *self.transactions.get(&transaction.id).unwrap();
                self.transactions.insert(
                    transaction.id,
                    Entry { status: DisputeStatus::Disputed, ..entry },
                );
            },
            TransactionKind::Resolve => {
                let entry = *self.transactions.get(&transaction.id).unwrap();
                self.transactions.insert(
                    transaction.id,
                    Entry { status: DisputeStatus::Resolved, ..entry },
                );
            },
            TransactionKind::Chargeback => {
                let entry = *self.transactions.get(&transaction.id).unwrap();
                self.transactions.insert(
                    transaction.id,
                    Entry { status: DisputeStatus::ChargedBack, ..entry },
                );
            },
        }
        self.clients.insert(transaction.client_id, client);
        assert(self@.clients =~= old(self)@.clients.insert(transaction.client_id, client@));
    }

    /// Whether `transaction` leaves balances that can be held, as `mutate`
    /// needs it.
    pub fn admits(&self, transaction: &Transaction) -> (admitted: bool)
        ensures
            admitted == self@.admits(*transaction),
    {
        if transaction.amount < Amount::zero() {
            return true;
        }
        let client = self.client(transaction.client_id);
        if client.locked {
            return true;
        }
        let amount = transaction.amount;
        match transaction.kind {
            TransactionKind::Deposit => client.available.checked_add(amount).is_some(),
            TransactionKind::Withdrawal => true,
            TransactionKind::Dispute => match self.referenced(
                transaction.id,
                DisputeStatus::Normal,
            ) {
                Ok(entry) => client.available.checked_sub(entry.transaction.amount).is_some()
                    && client.held.checked_add(entry.transaction.amount).is_some(),
                Err(_) => true,
            },
            TransactionKind::Resolve => match self.referenced(
                transaction.id,
                DisputeStatus::Disputed,
            ) {
                Ok(entry) => client.available.checked_add(entry.transaction.amount).is_some()
                    && client.held.checked_sub(entry.transaction.amount).is_some(),
                Err(_) => true,
            },
            TransactionKind::Chargeback => match self.referenced(
                transaction.id,
                DisputeStatus::Disputed,
            ) {
                Ok(entry) => client.held.checked_sub(entry.transaction.amount).is_some(),
                Err(_) => true,
            },
        }
    }

    /// Applies one transaction.
    ///
    /// On success the account is replaced by the one returned; on failure
    /// nothing changes. A locked account takes no transaction, and an
    /// accepted chargeback locks it. A balanced ledger stays balanced,
    /// unless the transaction refers to a transaction of another client.
    pub fn mutate(&mut self, transaction: Transaction) -> (result: Result<Client, TransactionError>)
        requires
            old(self).wf(),
            old(self)@.admits(transaction),
        ensures
            final(self).wf(),
            final(self)@ == old(self)@.apply(transaction),
            match old(self)@.outcome(transaction) {
                Ok(after) => result matches Ok(client) && client@ == after,
                Err(e) => result == Err::<Client, TransactionError>(e),
            },
            old(self)@.client(transaction.client_id).locked ==> result is Err && final(self)@
                == old(self)@,
            transaction.kind is Chargeback && result is Ok ==> final(self)@.client(
                transaction.client_id,
            ).locked,
            old(self)@.balanced() && old(self)@.is_own(transaction) ==> final(self)@.balanced(),
    {
        proof {
            if self@.balanced() && self@.is_own(transaction) {
                lemma_apply_keeps_balance(self@, transaction);
            }
        }
        if transaction.amount < Amount::zero() {
            return Err(TransactionError::NegativeTransaction);
        }
        let old_client = self.client(transaction.client_id);
        if old_client.locked {
            return Err(TransactionError::ClientLocked);
        }
        let outcome = match transaction.kind {
            TransactionKind::Deposit => old_client.deposit(transaction.amount),
            TransactionKind::Withdrawal => old_client.withdrawal(transaction.amount),
            TransactionKind::Dispute => match self.referenced(
                transaction.id,
                DisputeStatus::Normal,
            ) {
                Ok(entry) => old_client.dispute(entry.transaction.amount),
                Err(e) => Err(e),
            },
            TransactionKind::Resolve => match self.referenced(
                transaction.id,
                DisputeStatus::Disputed,
            ) {
                Ok(entry) => old_client.resolve(entry.transaction.amount),
                Err(e) => Err(e),
            },
            TransactionKind::Chargeback => match self.referenced(
                transaction.id,
                DisputeStatus::Disputed,
            ) {
                Ok(entry) => old_client.chargeback(entry.transaction.amount),
                Err(e) => Err(e),
            },
        };
        match outcome {
            Ok(new_client) => {
                self.commit(transaction, new_client);
                Ok(new_client)
            },
            Err(e) => Err(e),
        }
    }
}

} // verus!
