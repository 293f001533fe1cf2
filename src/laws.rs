use crate::account::{representable, Account, Number};
use crate::ledger::{
    account_in, apply_all, apply_model, is_movement, transition_model, Operation, Transaction,
    TransactionError, TransactionId, TransactionResult, TransactionState,
};
use vstd::prelude::*;

verus! {

/// Adds each of `amounts` to `start` in turn; `None` once a sum does not fit.
pub open spec fn add_all(start: Number, amounts: Seq<Number>) -> Option<Number>
    decreases amounts.len(),
{
    if amounts.len() == 0 {
        Some(start)
    } else {
        match add_all(start, amounts.drop_last()) {
            Some(x) => x.spec_checked_add(amounts.last()),
            None => None,
        }
    }
}

/// Subtracts each of `amounts` from `start` in turn; `None` once a
/// difference does not fit.
pub open spec fn sub_all(start: Number, amounts: Seq<Number>) -> Option<Number>
    decreases amounts.len(),
{
    if amounts.len() == 0 {
        Some(start)
    } else {
        match sub_all(start, amounts.drop_last()) {
            Some(x) => x.spec_checked_sub(amounts.last()),
            None => None,
        }
    }
}

/// The exact sum of `amounts`, in ten-thousandths.
pub open spec fn sum_of(amounts: Seq<Number>) -> int
    decreases amounts.len(),
{
    if amounts.len() == 0 {
        0
    } else {
        sum_of(amounts.drop_last()) + amounts.last()@
    }
}

/// `n` amounts of one ten-thousandth each.
pub open spec fn ticks(n: nat) -> Seq<Number> {
    Seq::new(n, |i: int| Number::of(1))
}

proof fn lemma_add_all_exact(start: Number, amounts: Seq<Number>)
    ensures
        add_all(start, amounts) matches Some(x) ==> x@ == start@ + sum_of(amounts),
    decreases amounts.len(),
{
    if amounts.len() > 0 {
        lemma_add_all_exact(start, amounts.drop_last());
    }
}

proof fn lemma_sub_all_exact(start: Number, amounts: Seq<Number>)
    ensures
        sub_all(start, amounts) matches Some(x) ==> x@ == start@ - sum_of(amounts),
    decreases amounts.len(),
{
    if amounts.len() > 0 {
        lemma_sub_all_exact(start, amounts.drop_last());
    }
}

/// Fixed-point sums do not drift: adding any amounts to `start` and then
/// subtracting the same amounts, where every step fits, gives back exactly
/// `start`.
pub proof fn lemma_sum_then_subtract(start: Number, amounts: Seq<Number>)
    requires
        add_all(start, amounts) is Some,
        sub_all(add_all(start, amounts)->Some_0, amounts) is Some,
    ensures
        sub_all(add_all(start, amounts)->Some_0, amounts) == Some(start),
{
    let total = add_all(start, amounts)->Some_0;
    lemma_add_all_exact(start, amounts);
    lemma_sub_all_exact(total, amounts);
}

proof fn lemma_add_ticks(n: nat)
    requires
        n <= i64::MAX,
    ensures
        add_all(Number::of(0), ticks(n)) == Some(Number::of(n as int)),
    decreases n,
{
    if n > 0 {
        assert(ticks(n).drop_last() =~= ticks((n - 1) as nat));
        lemma_add_ticks((n - 1) as nat);
    }
}

proof fn lemma_sub_ticks(start: nat, n: nat)
    requires
        n <= start <= i64::MAX,
    ensures
        sub_all(Number::of(start as int), ticks(n)) == Some(Number::of(start - n)),
    decreases n,
{
    if n > 0 {
        assert(ticks(n).drop_last() =~= ticks((n - 1) as nat));
        lemma_sub_ticks(start, (n - 1) as nat);
    }
}

/// Adding 0.0001 to zero `n` times gives exactly `n` ten-thousandths, and
/// taking 0.0001 away as many times gives exactly zero again.
pub proof fn lemma_ticks_return_to_zero(n: nat)
    requires
        n <= i64::MAX,
    ensures
        add_all(Number::of(0), ticks(n)) == Some(Number::of(n as int)),
        sub_all(Number::of(n as int), ticks(n)) == Some(Number::of(0)),
{
    lemma_add_ticks(n);
    lemma_sub_ticks(n, n);
}

/// Whether every entry of `history` is a deposit or a withdrawal, and every
/// entry that has left `Undisputed` is a deposit. Every history that a ledger
/// builds is so.
pub open spec fn history_valid(history: Map<u32, Transaction>) -> bool {
    forall|k: u32|
        #[trigger] history.contains_key(k) ==> is_movement(history[k].operation) && (
        history[k].state != TransactionState::Undisputed ==> history[k].operation
            == Operation::Deposit)
}

/// Applying any record keeps the history valid.
pub proof fn lemma_apply_keeps_history_valid(
    accounts: Map<u16, Account>,
    history: Map<u32, Transaction>,
    id: TransactionId,
    tx: Transaction,
)
    requires
        history_valid(history),
    ensures
        history_valid(apply_model(accounts, history, id, tx).1),
{
    let h1 = apply_model(accounts, history, id, tx).1;
    assert forall|k: u32| #[trigger] h1.contains_key(k) implies is_movement(h1[k].operation) && (
    h1[k].state != TransactionState::Undisputed ==> h1[k].operation == Operation::Deposit) by {
        if k != id.0 {
            assert(history.contains_key(k));
        }
    }
}

/// A ledger's history stays valid over any run of records, starting from
/// one that is valid (such as the empty history of a new ledger).
pub proof fn lemma_run_keeps_history_valid(
    accounts: Map<u16, Account>,
    history: Map<u32, Transaction>,
    records: Seq<(TransactionId, Transaction)>,
)
    requires
        history_valid(history),
    ensures
        history_valid(apply_all(accounts, history, records).1),
    decreases records.len(),
{
    if records.len() > 0 {
        lemma_run_keeps_history_valid(accounts, history, records.drop_last());
        let (a, h, rs) = apply_all(accounts, history, records.drop_last());
        lemma_apply_keeps_history_valid(a, h, records.last().0, records.last().1);
    }
}

/// Deposits and withdrawals of two different clients, under two different
/// ids, may be applied in either order: the accounts and the history come
/// out the same, and each record gets the same result.
pub proof fn lemma_independent_clients_commute(
    accounts: Map<u16, Account>,
    history: Map<u32, Transaction>,
    id1: TransactionId,
    tx1: Transaction,
    id2: TransactionId,
    tx2: Transaction,
)
    requires
        is_movement(tx1.operation),
        is_movement(tx2.operation),
        tx1.client != tx2.client,
        id1 != id2,
    ensures
        ({
            let (a1, h1, r1) = apply_model(accounts, history, id1, tx1);
            let (a12, h12, r2) = apply_model(a1, h1, id2, tx2);
            let (b2, g2, s2) = apply_model(accounts, history, id2, tx2);
            let (b21, g21, s1) = apply_model(b2, g2, id1, tx1);
            &&& a12 == b21
            &&& h12 == g21
            &&& r1 == s1
            &&& r2 == s2
        }),
{
    let (a1, h1, r1) = apply_model(accounts, history, id1, tx1);
    let (a12, h12, r2) = apply_model(a1, h1, id2, tx2);
    let (b2, g2, s2) = apply_model(accounts, history, id2, tx2);
    let (b21, g21, s1) = apply_model(b2, g2, id1, tx1);
    assert(account_in(a1, tx2.client) == account_in(accounts, tx2.client));
    assert(account_in(b2, tx1.client) == account_in(accounts, tx1.client));
    assert(a12 =~= b21);
    assert(h12 =~= g21);
}

/// A first deposit to a client creates an account whose `available` is the
/// amount, with nothing held and no lock.
pub proof fn lemma_deposit_to_fresh_client(
    accounts: Map<u16, Account>,
    history: Map<u32, Transaction>,
    id: TransactionId,
    tx: Transaction,
)
    requires
        tx.operation == Operation::Deposit,
        !accounts.contains_key(tx.client.0),
        !history.contains_key(id.0),
    ensures
        ({
            let (a, h, r) = apply_model(accounts, history, id, tx);
            &&& r is Ok
            &&& a.contains_key(tx.client.0)
            &&& a[tx.client.0].available@ == tx.amount@
            &&& a[tx.client.0].held@ == 0
            &&& !a[tx.client.0].locked
        }),
{
}

/// Once a deposit or withdrawal has been recorded under `id`, another one
/// under the same id fails with `RepeatedTransactionId` and changes nothing.
pub proof fn lemma_repeated_id(
    accounts: Map<u16, Account>,
    history: Map<u32, Transaction>,
    id: TransactionId,
    first: Transaction,
    second: Transaction,
)
    requires
        is_movement(first.operation),
        is_movement(second.operation),
        apply_model(accounts, history, id, first).2 is Ok,
    ensures
        ({
            let (a1, h1, r1) = apply_model(accounts, history, id, first);
            apply_model(a1, h1, id, second) == (
                a1,
                h1,
                Err::<(), TransactionError>(TransactionError::RepeatedTransactionId(id)),
            )
        }),
{
}

/// A withdrawal of more than is available from an unlocked account fails with
/// `Underflow` and changes nothing.
pub proof fn lemma_overdraft_refused(
    accounts: Map<u16, Account>,
    history: Map<u32, Transaction>,
    id: TransactionId,
    tx: Transaction,
)
    requires
        tx.operation == Operation::Withdrawal,
        !history.contains_key(id.0),
        !account_in(accounts, tx.client).locked,
        account_in(accounts, tx.client).available@ < tx.amount@,
    ensures
        apply_model(accounts, history, id, tx) == (
            accounts,
            history,
            Err::<(), TransactionError>(
                TransactionError::AccountError(
                    tx.client,
                    crate::account::underflow_of(account_in(accounts, tx.client), tx.amount),
                ),
            ),
        ),
{
}

/// Disputing an undisputed deposit moves its amount from `available` to
/// `held` and marks it `Disputed`; disputing it again fails with
/// `AlreadyDisputed` and changes nothing.
pub proof fn lemma_dispute(
    accounts: Map<u16, Account>,
    history: Map<u32, Transaction>,
    id: TransactionId,
    tx: Transaction,
    again: Transaction,
)
    requires
        history.contains_key(id.0),
        history[id.0].operation == Operation::Deposit,
        history[id.0].state == TransactionState::Undisputed,
        tx.operation == Operation::Dispute,
        again.operation == Operation::Dispute,
        representable(
            account_in(accounts, history[id.0].client).available@ - history[id.0].amount@,
        ),
        representable(account_in(accounts, history[id.0].client).held@ + history[id.0].amount@),
    ensures
        ({
            let prior = history[id.0];
            let before = account_in(accounts, prior.client);
            let (a1, h1, r1) = apply_model(accounts, history, id, tx);
            &&& r1 is Ok
            &&& a1[prior.client.0].available@ == before.available@ - prior.amount@
            &&& a1[prior.client.0].held@ == before.held@ + prior.amount@
            &&& a1[prior.client.0].locked == before.locked
            &&& h1[id.0] == prior.in_state(TransactionState::Disputed)
            &&& apply_model(a1, h1, id, again) == (
                a1,
                h1,
                Err::<(), TransactionError>(TransactionError::AlreadyDisputed(id)),
            )
        }),
{
}

/// Resolving a disputed transaction moves its amount from `held` back to
/// `available` and returns it to `Undisputed`, where a new dispute is
/// accepted.
pub proof fn lemma_resolve(
    accounts: Map<u16, Account>,
    history: Map<u32, Transaction>,
    id: TransactionId,
    tx: Transaction,
)
    requires
        history_valid(history),
        history.contains_key(id.0),
        history[id.0].state == TransactionState::Disputed,
        tx.operation == Operation::Resolve,
        representable(
            account_in(accounts, history[id.0].client).available@ + history[id.0].amount@,
        ),
        representable(account_in(accounts, history[id.0].client).held@ - history[id.0].amount@),
    ensures
        ({
            let prior = history[id.0];
            let before = account_in(accounts, prior.client);
            let (a1, h1, r1) = apply_model(accounts, history, id, tx);
            &&& r1 is Ok
            &&& a1[prior.client.0].available@ == before.available@ + prior.amount@
            &&& a1[prior.client.0].held@ == before.held@ - prior.amount@
            &&& a1[prior.client.0].locked == before.locked
            &&& h1[id.0] == prior.in_state(TransactionState::Undisputed)
            &&& transition_model(h1[id.0], Operation::Dispute, id) == Ok::<
                TransactionState,
                TransactionError,
            >(TransactionState::Disputed)
        }),
{
}

/// Charging back a disputed transaction takes its amount out of `held`,
/// locks the account and marks it `Chargedback`; a later resolve or
/// chargeback of it fails with `UndisputedTransaction` and changes nothing.
pub proof fn lemma_chargeback(
    accounts: Map<u16, Account>,
    history: Map<u32, Transaction>,
    id: TransactionId,
    tx: Transaction,
    later: Transaction,
)
    requires
        history.contains_key(id.0),
        history[id.0].state == TransactionState::Disputed,
        tx.operation == Operation::Chargeback,
        later.operation == Operation::Chargeback || later.operation == Operation::Resolve,
        representable(account_in(accounts, history[id.0].client).held@ - history[id.0].amount@),
    ensures
        ({
            let prior = history[id.0];
            let before = account_in(accounts, prior.client);
            let (a1, h1, r1) = apply_model(accounts, history, id, tx);
            &&& r1 is Ok
            &&& a1[prior.client.0].available == before.available
            &&& a1[prior.client.0].held@ == before.held@ - prior.amount@
            &&& a1[prior.client.0].locked
            &&& h1[id.0] == prior.in_state(TransactionState::Chargedback)
            &&& apply_model(a1, h1, id, later) == (
                a1,
                h1,
                Err::<(), TransactionError>(TransactionError::UndisputedTransaction(id)),
            )
        }),
{
}

/// A locked account stays locked whatever record comes next.
pub proof fn lemma_lock_is_permanent(
    accounts: Map<u16, Account>,
    history: Map<u32, Transaction>,
    id: TransactionId,
    tx: Transaction,
    client: u16,
)
    requires
        accounts.contains_key(client),
        accounts[client].locked,
    ensures
        apply_model(accounts, history, id, tx).0.contains_key(client),
        apply_model(accounts, history, id, tx).0[client].locked,
{
}

/// A dispute, resolve or chargeback of an id with no recorded deposit or
/// withdrawal fails with `UnknownTransactionId` and creates no account.
pub proof fn lemma_unknown_id(
    accounts: Map<u16, Account>,
    history: Map<u32, Transaction>,
    id: TransactionId,
    tx: Transaction,
)
    requires
        !is_movement(tx.operation),
        !history.contains_key(id.0),
    ensures
        apply_model(accounts, history, id, tx) == (
            accounts,
            history,
            Err::<(), TransactionError>(TransactionError::UnknownTransactionId(id)),
        ),
{
}

/// `available + held` of client `client`, zero before its first record.
pub open spec fn total_of(accounts: Map<u16, Account>, client: u16) -> int {
    account_in(accounts, crate::account::ClientId(client)).available@ + account_in(
        accounts,
        crate::account::ClientId(client),
    ).held@
}

/// How much record `tx` under id `id`, if it succeeds, adds to the total of
/// `client`: a deposit its amount, a withdrawal minus its amount, a
/// chargeback minus the charged-back amount, anything else nothing.
pub open spec fn flow(history: Map<u32, Transaction>, id: TransactionId, tx: Transaction, client: u16) -> int {
    if is_movement(tx.operation) {
        if tx.client.0 != client {
            0
        } else if tx.operation == Operation::Deposit {
            tx.amount@
        } else {
            -tx.amount@
        }
    } else if tx.operation == Operation::Chargeback && history.contains_key(id.0)
        && history[id.0].client.0 == client {
        -history[id.0].amount@
    } else {
        0
    }
}

/// What `flow` adds up to over the records of `records` that succeed.
pub open spec fn net_flow(
    accounts: Map<u16, Account>,
    history: Map<u32, Transaction>,
    records: Seq<(TransactionId, Transaction)>,
    client: u16,
) -> int
    decreases records.len(),
{
    if records.len() == 0 {
        0
    } else {
        let (a, h, rs) = apply_all(accounts, history, records.drop_last());
        let (id, tx) = records.last();
        let r: TransactionResult = apply_model(a, h, id, tx).2;
        net_flow(accounts, history, records.drop_last(), client) + if r is Ok {
            flow(h, id, tx, client)
        } else {
            0
        }
    }
}

/// One record changes a client's `available + held` by exactly its flow if
/// it succeeds, and not at all if it fails.
pub proof fn lemma_total_step(
    accounts: Map<u16, Account>,
    history: Map<u32, Transaction>,
    id: TransactionId,
    tx: Transaction,
    client: u16,
)
    ensures
        ({
            let (a1, h1, r) = apply_model(accounts, history, id, tx);
            total_of(a1, client) == total_of(accounts, client) + if r is Ok {
                flow(history, id, tx, client)
            } else {
                0
            }
        }),
{
}

/// After any run of records, a client's `available + held` is what it was
/// plus the sum of the flows of the records that succeeded.
pub proof fn lemma_total_is_net_flow(
    accounts: Map<u16, Account>,
    history: Map<u32, Transaction>,
    records: Seq<(TransactionId, Transaction)>,
    client: u16,
)
    ensures
        total_of(apply_all(accounts, history, records).0, client) == total_of(accounts, client)
            + net_flow(accounts, history, records, client),
    decreases records.len(),
{
    if records.len() > 0 {
        lemma_total_is_net_flow(accounts, history, records.drop_last(), client);
        let (a, h, rs) = apply_all(accounts, history, records.drop_last());
        lemma_total_step(a, h, records.last().0, records.last().1, client);
    }
}

} // verus!
