//! The ledger engine: applies input records to accounts and transaction
//! records held in hash maps.

use std::collections::HashMap;
use vstd::prelude::*;

use crate::ledger::{
    chargeback, deposit, dispute, empty_ledger, resolve, settle_error, step, withdrawal,
    AccountDetails, Amount, ClientId, Ledger, TransactionDetails, TransactionId,
    TransactionInput, TransactionProcessingError, TransactionType,
};

verus! {

broadcast use vstd::std_specs::hash::group_hash_axioms;

/// Owns the accounts by client and the records of deposits and withdrawals
/// by transaction id. `clients` lists each client with an account once, in
/// the order the accounts were opened.
pub struct TransactionEngine {
    accounts: HashMap<ClientId, AccountDetails>,
    transactions: HashMap<TransactionId, TransactionDetails>,
    clients: Vec<ClientId>,
}

impl View for TransactionEngine {
    type V = Ledger;

    closed spec fn view(&self) -> Ledger {
        Ledger { accounts: self.accounts@, transactions: self.transactions@ }
    }
}

impl TransactionEngine {
    /// The clients that have an account, in the order the accounts were opened.
    pub closed spec fn client_order(&self) -> Seq<ClientId> {
        self.clients@
    }

    pub closed spec fn wf(&self) -> bool {
        &&& self@.wf()
        &&& self.clients@.no_duplicates()
        &&& forall|c: ClientId| #[trigger]
            self.accounts@.contains_key(c) <==> self.clients@.contains(c)
    }

    /// A well-formed engine holds a well-formed ledger: every account is
    /// balanced, and every record holds an amount and belongs to a client
    /// with an account.
    pub proof fn lemma_wf_ledger(&self)
        requires
            self.wf(),
        ensures
            self@.wf(),
    {
    }

    /// An engine with no accounts and no transactions.
    pub fn new() -> (r: TransactionEngine)
        ensures
            r.wf(),
            r@ == empty_ledger(),
    {
        let r = TransactionEngine {
            accounts: HashMap::new(),
            transactions: HashMap::new(),
            clients: Vec::new(),
        };
        assert(r.accounts@ =~= Map::empty());
        assert(r.transactions@ =~= Map::empty());
        r
    }

    /// The account of `client`, if it has one.
    pub fn account(&self, client: ClientId) -> (r: Option<AccountDetails>)
        ensures
            r == (if self@.accounts.contains_key(client) {
                Some(self@.accounts[client])
            } else {
                None
            }),
    {
        match self.accounts.get(&client) {
            Some(a) => Some(*a),
            None => None,
        }
    }

    /// The record of transaction `tx`, if one was made.
    pub fn transaction(&self, tx: TransactionId) -> (r: Option<TransactionDetails>)
        ensures
            r == (if self@.transactions.contains_key(tx) {
                Some(self@.transactions[tx])
            } else {
                None
            }),
    {
        match self.transactions.get(&tx) {
            Some(t) => Some(*t),
            None => None,
        }
    }

    /// Every account with its client, in the order the accounts were opened.
    pub fn accounts_state(&self) -> (r: Vec<(ClientId, AccountDetails)>)
        requires
            self.wf(),
        ensures
            self.client_order().no_duplicates(),
            forall|c: ClientId| #[trigger]
                self@.accounts.contains_key(c) <==> self.client_order().contains(c),
            r@.len() == self.client_order().len(),
            forall|i: int|
                0 <= i < r@.len() ==> #[trigger] r@[i] == (
                self.client_order()[i],
                self@.accounts[self.client_order()[i]],
            ),
    {
        let mut r: Vec<(ClientId, AccountDetails)> = Vec::new();
        let mut i: usize = 0;
        while i < self.clients.len()
            invariant
                self.wf(),
                i <= self.clients@.len(),
                r@.len() == i,
                forall|j: int|
                    0 <= j < i ==> #[trigger] r@[j] == (
                    self.clients@[j],
                    self.accounts@[self.clients@[j]],
                ),
            decreases self.clients@.len() - i,
        {
            let c = self.clients[i];
            assert(self.clients@.contains(c));
            match self.accounts.get(&c) {
                Some(a) => r.push((c, *a)),
                None => {},
            }
            i += 1;
        }
        r
    }

    /// Applies one input record. On success the ledger moves as `step`
    /// says; on failure it is left as it was. Every account stays balanced.
    pub fn process_transaction(&mut self, transaction: TransactionInput) -> (r: Result<
        (),
        TransactionProcessingError,
    >)
        requires
            old(self).wf(),
        ensures
            final(self).wf(),
            (final(self)@, r) == step(old(self)@, transaction),
            final(self).client_order() == old(self).client_order() || (
            final(self).client_order() == old(self).client_order().push(transaction.client)),
    {
        if let Some(a) = self.accounts.get(&transaction.client) {
            if a.locked {
                return Err(TransactionProcessingError::AccountLocked);
            }
        }
        match transaction.kind {
            TransactionType::Deposit => {
                if let Some(amount) = transaction.amount {
                    self.process_deposit_transaction(transaction.tx, transaction.client, amount)
                } else {
                    Err(TransactionProcessingError::AmountValueNotFound)
                }
            },
            TransactionType::Withdrawal => {
                if let Some(amount) = transaction.amount {
                    self.process_withdrawal_transaction(transaction.tx, transaction.client, amount)
                } else {
                    Err(TransactionProcessingError::AmountValueNotFound)
                }
            },
            TransactionType::Dispute => self.process_dispute_transaction(transaction.tx),
            TransactionType::Resolve => self.process_resolve_transaction(transaction.tx),
            TransactionType::Chargeback => self.process_chargeback_transaction(transaction.tx),
        }
    }

    fn process_deposit_transaction(
        &mut self,
        transaction_id: TransactionId,
        client_id: ClientId,
        amount: Amount,
    ) -> (r: Result<(), TransactionProcessingError>)
        requires
            old(self).wf(),
        ensures
            final(self).wf(),
            (final(self)@, r) == deposit(old(self)@, client_id, transaction_id, amount),
            final(self).client_order() == old(self).client_order() || (
            final(self).client_order() == old(self).client_order().push(client_id)),
    {
        let (a, is_new) = match self.accounts.get(&client_id) {
            Some(a) => (*a, false),
            None => (AccountDetails { available: 0, held: 0, total: 0, locked: false }, true),
        };
        let available = match a.available.checked_add(amount) {
            Some(v) => v,
            None => return Err(TransactionProcessingError::BalanceOutOfRange),
        };
        let total = match a.total.checked_add(amount) {
            Some(v) => v,
            None => return Err(TransactionProcessingError::BalanceOutOfRange),
        };
        self.accounts.insert(client_id, AccountDetails { available, total, ..a });
        if is_new {
            self.clients.push(client_id);
        }
        if !self.transactions.contains_key(&transaction_id) {
            self.transactions.insert(
                transaction_id,
                TransactionDetails {
                    kind: TransactionType::Deposit,
                    client: client_id,
                    amount: Some(amount),
                    is_disputed: false,
                },
            );
        }
        proof {
            let l = deposit(old(self)@, client_id, transaction_id, amount).0;
            assert(self.accounts@ =~= l.accounts);
            assert(self.transactions@ =~= l.transactions);
            assert forall|c: ClientId| #[trigger]
                self.accounts@.contains_key(c) <==> self.clients@.contains(c) by {
                if c != client_id {
                    if is_new && old(self).clients@.contains(c) {
                        let i = choose|i: int|
                            0 <= i < old(self).clients@.len() && old(self).clients@[i] == c;
                        assert(self.clients@[i] == c);
                    }
                    if self.clients@.contains(c) {
                        let i = choose|i: int|
                            0 <= i < self.clients@.len() && self.clients@[i] == c;
                        if is_new {
                            assert(i < old(self).clients@.len());
                            assert(old(self).clients@[i] == c);
                        }
                    }
                } else {
                    if !is_new {
                        assert(old(self).clients@.contains(c));
                    } else {
                        assert(self.clients@.last() == c);
                    }
                }
            }
        }
        Ok(())
    }

    fn process_withdrawal_transaction(
        &mut self,
        transaction_id: TransactionId,
        client_id: ClientId,
        amount: Amount,
    ) -> (r: Result<(), TransactionProcessingError>)
        requires
            old(self).wf(),
        ensures
            final(self).wf(),
            (final(self)@, r) == withdrawal(old(self)@, client_id, transaction_id, amount),
            final(self).client_order() == old(self).client_order(),
    {
        let a = match self.accounts.get(&client_id) {
            Some(a) => *a,
            None => return Err(TransactionProcessingError::AccountNotFound),
        };
        if a.available <= amount {
            return Err(TransactionProcessingError::InsufficientFunds);
        }
        let available = match a.available.checked_sub(amount) {
            Some(v) => v,
            None => return Err(TransactionProcessingError::BalanceOutOfRange),
        };
        let total = match a.total.checked_sub(amount) {
            Some(v) => v,
            None => return Err(TransactionProcessingError::BalanceOutOfRange),
        };
        self.accounts.insert(client_id, AccountDetails { available, total, ..a });
        if !self.transactions.contains_key(&transaction_id) {
            self.transactions.insert(
                transaction_id,
                TransactionDetails {
                    kind: TransactionType::Withdrawal,
                    client: client_id,
                    amount: Some(amount),
                    is_disputed: false,
                },
            );
        }
        proof {
            let l = withdrawal(old(self)@, client_id, transaction_id, amount).0;
            assert(self.accounts@ =~= l.accounts);
            assert(self.transactions@ =~= l.transactions);
        }
        Ok(())
    }

    /// Whether the account of the client that owns `t` is locked.
    fn owner_is_locked(&self, t: &TransactionDetails) -> (r: bool)
        ensures
            r == self@.is_locked(t.client),
    {
        match self.accounts.get(&t.client) {
            Some(a) => a.locked,
            None => false,
        }
    }

    fn process_dispute_transaction(&mut self, transaction_id: TransactionId) -> (r: Result<
        (),
        TransactionProcessingError,
    >)
        requires
            old(self).wf(),
        ensures
            final(self).wf(),
            (final(self)@, r) == dispute(old(self)@, transaction_id),
            final(self).client_order() == old(self).client_order(),
    {
        let t = match self.transactions.get(&transaction_id) {
            Some(t) => *t,
            None => return Err(TransactionProcessingError::TransactionNotFound),
        };
        if t.is_disputed {
            return Err(TransactionProcessingError::CannotDisputeAnAlreadyDisputedTransaction);
        }
        if self.owner_is_locked(&t) {
            return Err(TransactionProcessingError::AccountLocked);
        }
        let amount = match t.amount {
            Some(amount) => amount,
            None => return Err(TransactionProcessingError::AmountNotFoundOnTransactionToDispute),
        };
        let a = match self.accounts.get(&t.client) {
            Some(a) => *a,
            None => return Err(TransactionProcessingError::AccountNotFound),
        };
        let available = match a.available.checked_sub(amount) {
            Some(v) => v,
            None => return Err(TransactionProcessingError::BalanceOutOfRange),
        };
        let held = match a.held.checked_add(amount) {
            Some(v) => v,
            None => return Err(TransactionProcessingError::BalanceOutOfRange),
        };
        self.accounts.insert(t.client, AccountDetails { available, held, ..a });
        self.transactions.insert(transaction_id, TransactionDetails { is_disputed: true, ..t });
        proof {
            let l = dispute(old(self)@, transaction_id).0;
            assert(self.accounts@ =~= l.accounts);
            assert(self.transactions@ =~= l.transactions);
        }
        Ok(())
    }

    /// The checks shared by resolve and chargeback; on success, the record
    /// of `transaction_id`, its amount and its owner's account.
    fn settle_lookup(&self, transaction_id: TransactionId) -> (r: Result<
        (TransactionDetails, Amount, AccountDetails),
        TransactionProcessingError,
    >)
        requires
            self.wf(),
        ensures
            match r {
                Err(e) => settle_error(self@, transaction_id) == Some(e),
                Ok((t, amount, a)) => {
                    &&& settle_error(self@, transaction_id) is None
                    &&& t == self@.transactions[transaction_id]
                    &&& t.amount == Some(amount)
                    &&& a == self@.accounts[t.client]
                },
            },
    {
        let t = match self.transactions.get(&transaction_id) {
            Some(t) => *t,
            None => return Err(TransactionProcessingError::TransactionNotFound),
        };
        if !t.is_disputed {
            return Err(TransactionProcessingError::CannotResolveNonDisputedTransaction);
        }
        if self.owner_is_locked(&t) {
            return Err(TransactionProcessingError::AccountLocked);
        }
        let amount = match t.amount {
            Some(amount) => amount,
            None => return Err(TransactionProcessingError::AmountNotFoundOnTransactionToDispute),
        };
        let a = match self.accounts.get(&t.client) {
            Some(a) => *a,
            None => return Err(TransactionProcessingError::AccountNotFound),
        };
        Ok((t, amount, a))
    }

    fn process_resolve_transaction(&mut self, transaction_id: TransactionId) -> (r: Result<
        (),
        TransactionProcessingError,
    >)
        requires
            old(self).wf(),
        ensures
            final(self).wf(),
            (final(self)@, r) == resolve(old(self)@, transaction_id),
            final(self).client_order() == old(self).client_order(),
    {
        let (t, amount, a) = match self.settle_lookup(transaction_id) {
            Ok(found) => found,
            Err(e) => return Err(e),
        };
        let available = match a.available.checked_add(amount) {
            Some(v) => v,
            None => return Err(TransactionProcessingError::BalanceOutOfRange),
        };
        let held = match a.held.checked_sub(amount) {
            Some(v) => v,
            None => return Err(TransactionProcessingError::BalanceOutOfRange),
        };
        self.accounts.insert(t.client, AccountDetails { available, held, ..a });
        self.transactions.insert(transaction_id, TransactionDetails { is_disputed: false, ..t });
        proof {
            let l = resolve(old(self)@, transaction_id).0;
            assert(self.accounts@ =~= l.accounts);
            assert(self.transactions@ =~= l.transactions);
        }
        Ok(())
    }

    fn process_chargeback_transaction(&mut self, transaction_id: TransactionId) -> (r: Result<
        (),
        TransactionProcessingError,
    >)
        requires
            old(self).wf(),
        ensures
            final(self).wf(),
            (final(self)@, r) == chargeback(old(self)@, transaction_id),
            final(self).client_order() == old(self).client_order(),
    {
        let (t, amount, a) = match self.settle_lookup(transaction_id) {
            Ok(found) => found,
            Err(e) => return Err(e),
        };
        let total = match a.total.checked_sub(amount) {
            Some(v) => v,
            None => return Err(TransactionProcessingError::BalanceOutOfRange),
        };
        let held = match a.held.checked_sub(amount) {
            Some(v) => v,
            None => return Err(TransactionProcessingError::BalanceOutOfRange),
        };
        self.accounts.insert(
            t.client,
            AccountDetails { available: a.available, held, total, locked: true },
        );
        self.transactions.insert(transaction_id, TransactionDetails { is_disputed: false, ..t });
        proof {
            let l = chargeback(old(self)@, transaction_id).0;
            assert(self.accounts@ =~= l.accounts);
            assert(self.transactions@ =~= l.transactions);
        }
        Ok(())
    }
}

} // verus!
