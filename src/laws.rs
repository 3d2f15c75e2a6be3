//! Properties of the ledger's rules over every state and every input.

use vstd::prelude::*;

use crate::ledger::{
    empty_ledger, run, step, ClientId, Ledger, TransactionId, TransactionInput,
    TransactionDetails, TransactionProcessingError, TransactionType,
};

verus! {

/// Whether `input` is a deposit or withdrawal that would create the record
/// of transaction `tx`.
pub open spec fn creates(input: TransactionInput, tx: TransactionId) -> bool {
    (input.kind == TransactionType::Deposit || input.kind == TransactionType::Withdrawal)
        && input.tx == tx
}

/// Applying any record to a well-formed ledger, whose accounts are balanced
/// (`total == available + held`), leaves it well-formed: every account
/// stays balanced.
pub proof fn lemma_step_keeps_accounts_balanced(l: Ledger, input: TransactionInput)
    requires
        l.wf(),
    ensures
        step(l, input).0.wf(),
{
}

/// In a well-formed ledger a record of a deposit or withdrawal always
/// holds its amount and its owner's account, so a dispute, resolve or
/// chargeback never fails for want of either.
pub proof fn lemma_records_are_complete(l: Ledger, input: TransactionInput)
    requires
        l.wf(),
        input.kind == TransactionType::Dispute || input.kind == TransactionType::Resolve
            || input.kind == TransactionType::Chargeback,
    ensures
        step(l, input).1 != Err::<(), TransactionProcessingError>(
            TransactionProcessingError::AmountNotFoundOnTransactionToDispute,
        ),
        step(l, input).1 != Err::<(), TransactionProcessingError>(
            TransactionProcessingError::AccountNotFound,
        ),
{
}

/// Every account is balanced after any stream of records applied to an
/// empty ledger.
pub proof fn lemma_run_keeps_accounts_balanced(inputs: Seq<TransactionInput>)
    ensures
        run(empty_ledger(), inputs).wf(),
    decreases inputs.len(),
{
    if inputs.len() > 0 {
        lemma_run_keeps_accounts_balanced(inputs.drop_last());
        lemma_step_keeps_accounts_balanced(run(empty_ledger(), inputs.drop_last()), inputs.last());
    }
}

/// A record for a client whose account is locked is refused with
/// `AccountLocked` and changes nothing, whatever its kind.
pub proof fn lemma_locked_client_is_refused(l: Ledger, input: TransactionInput)
    requires
        l.is_locked(input.client),
    ensures
        step(l, input) == (l, Err::<(), TransactionProcessingError>(
            TransactionProcessingError::AccountLocked,
        )),
{
}

/// A locked account stays locked, and keeps its balances, after any record,
/// whichever client the record names.
pub proof fn lemma_lock_is_permanent(l: Ledger, input: TransactionInput, c: ClientId)
    requires
        l.is_locked(c),
    ensures
        step(l, input).0.is_locked(c),
        step(l, input).0.accounts[c] == l.accounts[c],
{
}

/// A locked account stays locked and keeps its balances through any stream
/// of records, whichever clients they name; and every record for its client
/// that follows is refused and changes nothing.
pub proof fn lemma_locked_client_stays_frozen(
    l: Ledger,
    inputs: Seq<TransactionInput>,
    c: ClientId,
)
    requires
        l.is_locked(c),
    ensures
        run(l, inputs).is_locked(c),
        run(l, inputs).accounts[c] == l.accounts[c],
        forall|input: TransactionInput|
            input.client == c ==> #[trigger] step(run(l, inputs), input) == (
            run(l, inputs),
            Err::<(), TransactionProcessingError>(TransactionProcessingError::AccountLocked),
        ),
    decreases inputs.len(),
{
    if inputs.len() > 0 {
        lemma_locked_client_stays_frozen(l, inputs.drop_last(), c);
        lemma_lock_is_permanent(run(l, inputs.drop_last()), inputs.last(), c);
    }
}

/// Whether `t` is `s` with at most its dispute flag changed.
pub open spec fn same_record(s: TransactionDetails, t: TransactionDetails) -> bool {
    &&& t.kind == s.kind
    &&& t.client == s.client
    &&& t.amount == s.amount
}

/// No record leaves the ledger and none changes its kind, client or amount,
/// and no account leaves it, after any record.
pub proof fn lemma_records_are_fixed(l: Ledger, input: TransactionInput)
    ensures
        l.accounts.dom().subset_of(step(l, input).0.accounts.dom()),
        l.transactions.dom().subset_of(step(l, input).0.transactions.dom()),
        forall|tx: TransactionId| #[trigger]
            l.transactions.contains_key(tx) ==> same_record(
                l.transactions[tx],
                step(l, input).0.transactions[tx],
            ),
{
}

/// No record leaves the ledger and none changes its kind, client or amount
/// through any stream of records.
pub proof fn lemma_records_stay_fixed(l: Ledger, inputs: Seq<TransactionInput>)
    ensures
        l.transactions.dom().subset_of(run(l, inputs).transactions.dom()),
        forall|tx: TransactionId| #[trigger]
            l.transactions.contains_key(tx) ==> same_record(
                l.transactions[tx],
                run(l, inputs).transactions[tx],
            ),
    decreases inputs.len(),
{
    if inputs.len() > 0 {
        let m = run(l, inputs.drop_last());
        lemma_records_stay_fixed(l, inputs.drop_last());
        lemma_records_are_fixed(m, inputs.last());
    }
}

/// A record that is not under dispute and whose owner's account is locked
/// stays so, unchanged, through any stream of records.
pub proof fn lemma_settled_record_stays(l: Ledger, inputs: Seq<TransactionInput>, tx: TransactionId)
    requires
        l.transactions.contains_key(tx),
        !l.transactions[tx].is_disputed,
        l.is_locked(l.transactions[tx].client),
    ensures
        run(l, inputs).transactions.contains_key(tx),
        run(l, inputs).transactions[tx] == l.transactions[tx],
        run(l, inputs).is_locked(l.transactions[tx].client),
    decreases inputs.len(),
{
    if inputs.len() > 0 {
        lemma_settled_record_stays(l, inputs.drop_last(), tx);
        lemma_lock_is_permanent(run(l, inputs.drop_last()), inputs.last(), l.transactions[tx].client);
    }
}

/// After a chargeback of a transaction succeeds, every later dispute,
/// resolve or chargeback of it, under any client id and after any stream of
/// records, is refused and changes nothing: a resolve or chargeback finds it
/// not under dispute, and a dispute finds its owner's account locked, unless
/// the client named on the record is itself locked.
pub proof fn lemma_charged_back_is_terminal(
    l: Ledger,
    cb: TransactionInput,
    inputs: Seq<TransactionInput>,
    later: TransactionInput,
)
    requires
        cb.kind == TransactionType::Chargeback,
        step(l, cb).1 is Ok,
        later.tx == cb.tx,
        later.kind == TransactionType::Dispute || later.kind == TransactionType::Resolve
            || later.kind == TransactionType::Chargeback,
    ensures
        step(run(step(l, cb).0, inputs), later) == (
            run(step(l, cb).0, inputs),
            Err::<(), TransactionProcessingError>(
                if run(step(l, cb).0, inputs).is_locked(later.client) || later.kind
                    == TransactionType::Dispute {
                    TransactionProcessingError::AccountLocked
                } else {
                    TransactionProcessingError::CannotResolveNonDisputedTransaction
                },
            ),
        ),
{
    let after = step(l, cb).0;
    let owner = l.transactions[cb.tx].client;
    assert(after.is_locked(owner));
    assert(after.transactions.contains_key(cb.tx));
    assert(after.transactions[cb.tx].client == owner);
    assert(!after.transactions[cb.tx].is_disputed);
    lemma_settled_record_stays(after, inputs, cb.tx);
}

/// A refused record leaves the ledger as it was, so applying it again is
/// refused with the same error.
pub proof fn lemma_rejection_repeats(l: Ledger, input: TransactionInput)
    requires
        step(l, input).1 is Err,
    ensures
        step(l, input).0 == l,
        step(step(l, input).0, input) == step(l, input),
{
}

/// Only a deposit or withdrawal with id `tx` creates the record of `tx`.
pub proof fn lemma_run_without_creation(l: Ledger, inputs: Seq<TransactionInput>, tx: TransactionId)
    requires
        !l.transactions.contains_key(tx),
        forall|i: int| 0 <= i < inputs.len() ==> !creates(#[trigger] inputs[i], tx),
    ensures
        !run(l, inputs).transactions.contains_key(tx),
    decreases inputs.len(),
{
    if inputs.len() > 0 {
        let prefix = inputs.drop_last();
        assert forall|i: int| 0 <= i < prefix.len() implies !creates(#[trigger] prefix[i], tx) by {
            assert(prefix[i] == inputs[i]);
        }
        lemma_run_without_creation(l, prefix, tx);
        assert(!creates(inputs[inputs.len() - 1], tx));
    }
}

/// A dispute of a transaction id that no earlier deposit or withdrawal
/// created fails with `TransactionNotFound` and changes nothing, where the
/// disputing client's account is not locked.
pub proof fn lemma_dispute_before_creation(inputs: Seq<TransactionInput>, d: TransactionInput)
    requires
        d.kind == TransactionType::Dispute,
        forall|i: int| 0 <= i < inputs.len() ==> !creates(#[trigger] inputs[i], d.tx),
        !run(empty_ledger(), inputs).is_locked(d.client),
    ensures
        step(run(empty_ledger(), inputs), d) == (
            run(empty_ledger(), inputs),
            Err::<(), TransactionProcessingError>(TransactionProcessingError::TransactionNotFound),
        ),
{
    lemma_run_without_creation(empty_ledger(), inputs, d.tx);
}

} // verus!
