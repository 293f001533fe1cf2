use crate::account::{Account, AccountError, AccountResult, ClientId, Number};
use std::collections::HashMap;
use vstd::prelude::*;

verus! {

broadcast use vstd::std_specs::hash::group_hash_axioms;

/// Identifies one deposit or withdrawal; disputes, resolves and chargebacks
/// name the transaction they refer to by it.
#[derive(Clone, Copy, Debug, PartialEq, Eq, Structural, Hash, PartialOrd, Ord)]
pub struct TransactionId(pub u32);

#[derive(Clone, Copy, Debug, PartialEq, Eq, Structural)]
pub enum Operation {
    Deposit,
    Withdrawal,
    Dispute,
    Resolve,
    Chargeback,
}

/// Where a recorded deposit or withdrawal stands. A resolved transaction is
/// back in `Undisputed` and may be disputed again; `Chargedback` is final.
#[derive(Clone, Copy, Debug, PartialEq, Eq, Structural)]
pub enum TransactionState {
    Undisputed,
    Disputed,
    Chargedback,
}

/// One input record, and, once recorded by a ledger, the state of its dispute.
#[derive(Clone, Copy, Debug, PartialEq, Eq, Structural)]
pub struct Transaction {
    pub client: ClientId,
    pub amount: Number,
    pub operation: Operation,
    pub state: TransactionState,
}

#[derive(Clone, Copy, Debug, PartialEq, Eq, Structural)]
pub enum TransactionError {
    AccountError(ClientId, AccountError),
    RepeatedTransactionId(TransactionId),
    UnknownTransactionId(TransactionId),
    AlreadyDisputed(TransactionId),
    UndisputedTransaction(TransactionId),
}

pub type TransactionResult = Result<(), TransactionError>;

impl Transaction {
    pub fn new(client: ClientId, amount: Number, operation: Operation) -> (r: Transaction)
        ensures
            r == (Transaction { client, amount, operation, state: TransactionState::Undisputed }),
    {
        Transaction { client, amount, operation, state: TransactionState::Undisputed }
    }

    pub fn state(&self) -> (r: TransactionState)
        ensures
            r == self.state,
    {
        self.state
    }

    /// The same record in another state.
    pub open spec fn in_state(self, state: TransactionState) -> Transaction {
        Transaction { state, ..self }
    }
}

/// Whether `operation` creates a history entry of its own.
pub open spec fn is_movement(operation: Operation) -> bool {
    operation == Operation::Deposit || operation == Operation::Withdrawal
}

/// The state that `operation` moves the recorded transaction `prior`, of id
/// `id`, to, or why it may not. Only a deposit can be disputed: a dispute of
/// a withdrawal, like one of a charged-back deposit, is `AlreadyDisputed`.
pub open spec fn transition_model(prior: Transaction, operation: Operation, id: TransactionId) -> Result<
    TransactionState,
    TransactionError,
> {
    match operation {
        Operation::Deposit | Operation::Withdrawal => Err(
            TransactionError::RepeatedTransactionId(id),
        ),
        Operation::Dispute => if prior.state == TransactionState::Undisputed && prior.operation
            == Operation::Deposit {
            Ok(TransactionState::Disputed)
        } else {
            Err(TransactionError::AlreadyDisputed(id))
        },
        Operation::Resolve => if prior.state == TransactionState::Disputed {
            Ok(TransactionState::Undisputed)
        } else {
            Err(TransactionError::UndisputedTransaction(id))
        },
        Operation::Chargeback => if prior.state == TransactionState::Disputed {
            Ok(TransactionState::Chargedback)
        } else {
            Err(TransactionError::UndisputedTransaction(id))
        },
    }
}

/// What `operation` does to `account` with `amount`.
pub open spec fn account_effect(account: Account, operation: Operation, amount: Number) -> Result<
    Account,
    AccountError,
> {
    match operation {
        Operation::Deposit => account.deposit_model(amount),
        Operation::Withdrawal => account.withdraw_model(amount),
        Operation::Dispute => account.dispute_model(amount),
        Operation::Resolve => account.resolve_model(amount),
        Operation::Chargeback => account.chargeback_model(amount),
    }
}

/// The account that `client` has in `accounts`, an empty one if none yet.
pub open spec fn account_in(accounts: Map<u16, Account>, client: ClientId) -> Account {
    if accounts.contains_key(client.0) {
        accounts[client.0]
    } else {
        Account::empty()
    }
}

/// The accounts, the history and the result after applying record `tx` under
/// id `id`. A record that fails changes nothing.
pub open spec fn apply_model(
    accounts: Map<u16, Account>,
    history: Map<u32, Transaction>,
    id: TransactionId,
    tx: Transaction,
) -> (Map<u16, Account>, Map<u32, Transaction>, TransactionResult) {
    if is_movement(tx.operation) {
        if history.contains_key(id.0) {
            (accounts, history, Err(TransactionError::RepeatedTransactionId(id)))
        } else {
            match account_effect(account_in(accounts, tx.client), tx.operation, tx.amount) {
                Ok(next) => (
                    accounts.insert(tx.client.0, next),
                    history.insert(id.0, tx.in_state(TransactionState::Undisputed)),
                    Ok(()),
                ),
                Err(e) => (accounts, history, Err(TransactionError::AccountError(tx.client, e))),
            }
        }
    } else if !history.contains_key(id.0) {
        (accounts, history, Err(TransactionError::UnknownTransactionId(id)))
    } else {
        let prior = history[id.0];
        match transition_model(prior, tx.operation, id) {
            Err(e) => (accounts, history, Err(e)),
            Ok(state) => match account_effect(
                account_in(accounts, prior.client),
                tx.operation,
                prior.amount,
            ) {
                Ok(next) => (
                    accounts.insert(prior.client.0, next),
                    history.insert(id.0, prior.in_state(state)),
                    Ok(()),
                ),
                Err(e) => (accounts, history, Err(TransactionError::AccountError(prior.client, e))),
            },
        }
    }
}

/// The decision of the transaction state machine for `operation` against the
/// recorded transaction `prior` of id `id`.
pub fn transition(prior: &Transaction, operation: Operation, id: TransactionId) -> (r: Result<
    TransactionState,
    TransactionError,
>)
    ensures
        r == transition_model(*prior, operation, id),
{
    match operation {
        Operation::Deposit | Operation::Withdrawal => Err(
            TransactionError::RepeatedTransactionId(id),
        ),
        Operation::Dispute => {
            if matches!(prior.state, TransactionState::Undisputed) && matches!(
                prior.operation,
                Operation::Deposit
            ) {
                Ok(TransactionState::Disputed)
            } else {
                Err(TransactionError::AlreadyDisputed(id))
            }
        },
        Operation::Resolve => {
            if matches!(prior.state, TransactionState::Disputed) {
                Ok(TransactionState::Undisputed)
            } else {
                Err(TransactionError::UndisputedTransaction(id))
            }
        },
        Operation::Chargeback => {
            if matches!(prior.state, TransactionState::Disputed) {
                Ok(TransactionState::Chargedback)
            } else {
                Err(TransactionError::UndisputedTransaction(id))
            }
        },
    }
}

/// Applies `operation` to `account` with `amount`.
fn perform(account: &mut Account, operation: Operation, amount: Number) -> (r: AccountResult)
    ensures
        crate::account::performs(
            *old(account),
            account_effect(*old(account), operation, amount),
            r,
            *final(account),
        ),
{
    match operation {
        Operation::Deposit => account.deposit(amount),
        Operation::Withdrawal => account.withdraw(amount),
        Operation::Dispute => account.dispute(amount),
        Operation::Resolve => account.resolve(amount),
        Operation::Chargeback => account.chargeback(amount),
    }
}

/// The accounts, the history and the result of each record after applying
/// `records` in order.
pub open spec fn apply_all(
    accounts: Map<u16, Account>,
    history: Map<u32, Transaction>,
    records: Seq<(TransactionId, Transaction)>,
) -> (Map<u16, Account>, Map<u32, Transaction>, Seq<TransactionResult>)
    decreases records.len(),
{
    if records.len() == 0 {
        (accounts, history, Seq::empty())
    } else {
        let (a, h, rs) = apply_all(accounts, history, records.drop_last());
        let (a2, h2, r) = apply_model(a, h, records.last().0, records.last().1);
        (a2, h2, rs.push(r))
    }
}

/// All accounts, keyed by client, and the history of accepted deposits and
/// withdrawals, keyed by transaction id. `clients` lists each client that
/// has an account once, in the order the accounts were created.
pub struct Ledger {
    accounts: HashMap<u16, Account>,
    transactions: HashMap<u32, Transaction>,
    clients: Vec<u16>,
}

impl Ledger {
    /// The accounts, keyed by the client's number.
    pub closed spec fn accounts_view(&self) -> Map<u16, Account> {
        self.accounts@
    }

    /// The recorded deposits and withdrawals, keyed by the transaction's number.
    pub closed spec fn history(&self) -> Map<u32, Transaction> {
        self.transactions@
    }

    /// The list of clients names each account once.
    pub closed spec fn wf(&self) -> bool {
        &&& self.clients@.no_duplicates()
        &&& forall|k: u16|
            #![trigger self.clients@.contains(k)]
            #![trigger self.accounts@.contains_key(k)]
            self.accounts@.contains_key(k) <==> self.clients@.contains(k)
    }

    pub fn new() -> (r: Ledger)
        ensures
            r.wf(),
            r.accounts_view() == Map::<u16, Account>::empty(),
            r.history() == Map::<u32, Transaction>::empty(),
    {
        Ledger { accounts: HashMap::new(), transactions: HashMap::new(), clients: Vec::new() }
    }

    fn store_account(&mut self, client: u16, account: Account)
        requires
            old(self).wf(),
        ensures
            final(self).wf(),
            final(self).accounts_view() == old(self).accounts_view().insert(client, account),
            final(self).history() == old(self).history(),
    {
        let ghost before = self.clients@;
        let fresh = !self.accounts.contains_key(&client);
        if fresh {
            self.clients.push(client);
        }
        self.accounts.insert(client, account);
        if fresh {
            assert(!before.contains(client));
            assert forall|a: int, b: int|
                0 <= a < b < self.clients@.len() implies self.clients@[a] != self.clients@[b] by {
                if b == before.len() {
                    assert(before[a] != client);
                } else {
                    assert(before[a] != before[b]);
                }
            }
            assert forall|k: u16| #[trigger]
                self.accounts@.contains_key(k) <==> self.clients@.contains(k) by {
                if before.contains(k) {
                    let j = choose|j: int| 0 <= j < before.len() && before[j] == k;
                    assert(self.clients@[j] == k);
                }
                if self.clients@.contains(k) && k != client {
                    let j = choose|j: int| 0 <= j < self.clients@.len() && self.clients@[j] == k;
                    assert(before[j] == k);
                }
                assert(self.clients@[before.len() as int] == client);
            }
        }
    }

    /// Every client that has an account, each once, in the order the
    /// accounts were created.
    pub fn clients(&self) -> (r: Vec<ClientId>)
        requires
            self.wf(),
        ensures
            r@.no_duplicates(),
            forall|c: ClientId| r@.contains(c) <==> self.accounts_view().contains_key(c.0),
    {
        let mut r: Vec<ClientId> = Vec::new();
        let mut i: usize = 0;
        while i < self.clients.len()
            invariant
                self.wf(),
                0 <= i <= self.clients@.len(),
                r@.len() == i,
                forall|j: int| 0 <= j < i ==> #[trigger] r@[j] == ClientId(self.clients@[j]),
            decreases self.clients@.len() - i,
        {
            r.push(ClientId(self.clients[i]));
            i += 1;
        }
        assert forall|a: int, b: int| 0 <= a < b < r@.len() implies r@[a] != r@[b] by {
            assert(self.clients@[a] != self.clients@[b]);
        }
        assert forall|c: ClientId| r@.contains(c) <==> self.accounts_view().contains_key(c.0) by {
            if r@.contains(c) {
                let j = choose|j: int| 0 <= j < r@.len() && r@[j] == c;
                assert(self.clients@[j] == c.0);
                assert(self.clients@.contains(c.0));
            }
            if self.accounts_view().contains_key(c.0) {
                assert(self.clients@.contains(c.0));
                let j = choose|j: int| 0 <= j < self.clients@.len() && self.clients@[j] == c.0;
                assert(r@[j] == c);
            }
        }
        r
    }

    fn account_or_empty(&self, client: ClientId) -> (r: Account)
        ensures
            r == account_in(self.accounts_view(), client),
    {
        match self.accounts.get(&client.0) {
            Some(account) => *account,
            None => Account::new(),
        }
    }

    /// The account of `client`, if any record has created it.
    pub fn account(&self, client: ClientId) -> (r: Option<Account>)
        ensures
            r == (if self.accounts_view().contains_key(client.0) {
                Some(self.accounts_view()[client.0])
            } else {
                None
            }),
    {
        match self.accounts.get(&client.0) {
            Some(account) => Some(*account),
            None => None,
        }
    }

    /// The recorded deposit or withdrawal of id `id`, with its current state.
    pub fn transaction(&self, id: TransactionId) -> (r: Option<Transaction>)
        ensures
            r == (if self.history().contains_key(id.0) {
                Some(self.history()[id.0])
            } else {
                None
            }),
    {
        match self.transactions.get(&id.0) {
            Some(t) => Some(*t),
            None => None,
        }
    }

    pub fn num_accounts(&self) -> (r: usize)
        ensures
            r == self.accounts_view().len(),
    {
        self.accounts.len()
    }

    pub fn num_transactions(&self) -> (r: usize)
        ensures
            r == self.history().len(),
    {
        self.transactions.len()
    }

    /// Applies one record: validates it against the history and the state
    /// machine, then changes the account and the history, or nothing at all.
    pub fn apply_transaction(&mut self, id: TransactionId, tx: &Transaction) -> (r:
        TransactionResult)
        requires
            old(self).wf(),
        ensures
            final(self).wf(),
            (final(self).accounts_view(), final(self).history(), r) == apply_model(
                old(self).accounts_view(),
                old(self).history(),
                id,
                *tx,
            ),
    {
        if matches!(tx.operation, Operation::Deposit) || matches!(
            tx.operation,
            Operation::Withdrawal
        ) {
            if self.transactions.contains_key(&id.0) {
                return Err(TransactionError::RepeatedTransactionId(id));
            }
            let mut account = self.account_or_empty(tx.client);
            match perform(&mut account, tx.operation, tx.amount) {
                Ok(()) => {
                    self.store_account(tx.client.0, account);
                    self.transactions.insert(
                        id.0,
                        Transaction {
                            client: tx.client,
                            amount: tx.amount,
                            operation: tx.operation,
                            state: TransactionState::Undisputed,
                        },
                    );
                    Ok(())
                },
                Err(e) => Err(TransactionError::AccountError(tx.client, e)),
            }
        } else {
            let prior = match self.transactions.get(&id.0) {
                Some(t) => *t,
                None => {
                    return Err(TransactionError::UnknownTransactionId(id));
                },
            };
            let state = match transition(&prior, tx.operation, id) {
                Ok(state) => state,
                Err(e) => {
                    return Err(e);
                },
            };
            let mut account = self.account_or_empty(prior.client);
            match perform(&mut account, tx.operation, prior.amount) {
                Ok(()) => {
                    self.store_account(prior.client.0, account);
                    self.transactions.insert(
                        id.0,
                        Transaction {
                            client: prior.client,
                            amount: prior.amount,
                            operation: prior.operation,
                            state,
                        },
                    );
                    Ok(())
                },
                Err(e) => Err(TransactionError::AccountError(prior.client, e)),
            }
        }
    }
}

/// Applies `transactions` to `ledger` in order, and returns the result of
/// each; a record that fails does not stop the ones after it.
pub fn process_transactions(
    ledger: &mut Ledger,
    transactions: &Vec<(TransactionId, Transaction)>,
) -> (r: Vec<TransactionResult>)
    requires
        old(ledger).wf(),
    ensures
        final(ledger).wf(),
        (final(ledger).accounts_view(), final(ledger).history(), r@) == apply_all(
            old(ledger).accounts_view(),
            old(ledger).history(),
            transactions@,
        ),
{
    let ghost accounts0 = ledger.accounts_view();
    let ghost history0 = ledger.history();
    let mut results: Vec<TransactionResult> = Vec::new();
    let mut i: usize = 0;
    while i < transactions.len()
        invariant
            0 <= i <= transactions.len(),
            ledger.wf(),
            (ledger.accounts_view(), ledger.history(), results@) == apply_all(
                accounts0,
                history0,
                transactions@.subrange(0, i as int),
            ),
        decreases transactions.len() - i,
    {
        let r = ledger.apply_transaction(transactions[i].0, &transactions[i].1);
        results.push(r);
        proof {
            assert(transactions@.subrange(0, i + 1).drop_last() =~= transactions@.subrange(
                0,
                i as int,
            ));
        }
        i += 1;
    }
    proof {
        assert(transactions@.subrange(0, i as int) =~= transactions@);
    }
    results
}

} // verus!
