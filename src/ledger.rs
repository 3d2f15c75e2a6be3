//! The data of the ledger and the rules that move it, stated as spec
//! functions over a mathematical model of its state.

use vstd::prelude::*;

verus! {

/// Identifies a client and its single account.
pub type ClientId = u16;

/// Identifies a deposit or withdrawal, and the record kept of it.
pub type TransactionId = u32;

/// A signed sum of money, counted in ten-thousandths of a currency unit
/// (`5.0004` is `50004`).
pub type Amount = i64;

/// The five kinds of record in the input stream.
#[derive(Debug, Clone, Copy, PartialEq, Eq, Structural)]
pub enum TransactionType {
    Deposit,
    Withdrawal,
    Dispute,
    Resolve,
    Chargeback,
}

/// One record of the input stream. `amount` is expected for deposits and
/// withdrawals only.
#[derive(Debug, Clone, Copy, PartialEq, Eq, Structural)]
pub struct TransactionInput {
    pub kind: TransactionType,
    pub client: ClientId,
    pub tx: TransactionId,
    pub amount: Option<Amount>,
}

/// Why one record was rejected. A rejected record leaves the ledger as it was.
#[derive(Debug, Clone, Copy, PartialEq, Eq, Structural)]
pub enum TransactionProcessingError {
    /// The client's account is locked after a chargeback.
    AccountLocked,
    /// The account that the record needs does not exist.
    AccountNotFound,
    /// A withdrawal of at least the available balance.
    InsufficientFunds,
    /// A deposit or withdrawal without an amount.
    AmountValueNotFound,
    /// A dispute, resolve or chargeback of an unknown transaction.
    TransactionNotFound,
    /// The disputed transaction holds no amount.
    AmountNotFoundOnTransactionToDispute,
    /// A resolve or chargeback of a transaction that is not under dispute.
    CannotResolveNonDisputedTransaction,
    /// A dispute of a transaction that is already under dispute.
    CannotDisputeAnAlreadyDisputedTransaction,
    /// A balance would leave the range of `Amount`.
    BalanceOutOfRange,
}

impl TransactionProcessingError {
    /// A sentence that describes the error.
    pub fn message(&self) -> (r: &'static str)
        ensures
            *self == TransactionProcessingError::AccountLocked ==> r@ == "transaction can't be processed as account is locked"@,
            *self == TransactionProcessingError::AccountNotFound ==> r@ == "account not found"@,
            *self == TransactionProcessingError::InsufficientFunds ==> r@ == "transaction cannot be completed due to insufficient funds"@,
            *self == TransactionProcessingError::AmountValueNotFound ==> r@ == "amount value required to process the transaction of specified type"@,
            *self == TransactionProcessingError::TransactionNotFound ==> r@ == "provided transaction id not found"@,
            *self == TransactionProcessingError::AmountNotFoundOnTransactionToDispute ==> r@
                == "no amount is stored on the transaction to dispute"@,
            *self == TransactionProcessingError::CannotResolveNonDisputedTransaction ==> r@ == "cannot resolve a non disputed transaction"@,
            *self == TransactionProcessingError::CannotDisputeAnAlreadyDisputedTransaction ==> r@ == "cannot dispute an already disputed transaction"@,
            *self == TransactionProcessingError::BalanceOutOfRange ==> r@ == "a balance would leave the range of amounts"@,
    {
        match self {
            TransactionProcessingError::AccountLocked => "transaction can't be processed as account is locked",
            TransactionProcessingError::AccountNotFound => "account not found",
            TransactionProcessingError::InsufficientFunds => "transaction cannot be completed due to insufficient funds",
            TransactionProcessingError::AmountValueNotFound => "amount value required to process the transaction of specified type",
            TransactionProcessingError::TransactionNotFound => "provided transaction id not found",
            TransactionProcessingError::AmountNotFoundOnTransactionToDispute => "no amount is stored on the transaction to dispute",
            TransactionProcessingError::CannotResolveNonDisputedTransaction => "cannot resolve a non disputed transaction",
            TransactionProcessingError::CannotDisputeAnAlreadyDisputedTransaction => "cannot dispute an already disputed transaction",
            TransactionProcessingError::BalanceOutOfRange => "a balance would leave the range of amounts",
        }
    }
}

/// The balances of one client.
#[derive(Debug, Clone, Copy, PartialEq, Eq, Structural)]
pub struct AccountDetails {
    pub available: Amount,
    pub held: Amount,
    pub total: Amount,
    pub locked: bool,
}

/// What the ledger keeps of a deposit or withdrawal, for later disputes.
#[derive(Debug, Clone, Copy, PartialEq, Eq, Structural)]
pub struct TransactionDetails {
    pub kind: TransactionType,
    pub client: ClientId,
    pub amount: Option<Amount>,
    pub is_disputed: bool,
}

/// The state of the ledger: the accounts by client and the records of
/// deposits and withdrawals by transaction id.
pub struct Ledger {
    pub accounts: Map<ClientId, AccountDetails>,
    pub transactions: Map<TransactionId, TransactionDetails>,
}

pub type Outcome = Result<(), TransactionProcessingError>;

pub open spec fn in_range(x: int) -> bool {
    i64::MIN <= x <= i64::MAX
}

/// Total is the sum of available and held funds.
pub open spec fn balanced(a: AccountDetails) -> bool {
    a.total == a.available + a.held
}

pub open spec fn empty_ledger() -> Ledger {
    Ledger { accounts: Map::empty(), transactions: Map::empty() }
}

pub open spec fn zero_account() -> AccountDetails {
    AccountDetails { available: 0, held: 0, total: 0, locked: false }
}

impl Ledger {
    /// Every account is balanced, and every record holds an amount and
    /// belongs to a client with an account.
    pub open spec fn wf(self) -> bool {
        &&& forall|c: ClientId| #[trigger]
            self.accounts.contains_key(c) ==> balanced(self.accounts[c])
        &&& forall|tx: TransactionId| #[trigger]
            self.transactions.contains_key(tx) ==> {
                &&& self.transactions[tx].amount is Some
                &&& self.accounts.contains_key(self.transactions[tx].client)
            }
    }

    pub open spec fn is_locked(self, c: ClientId) -> bool {
        self.accounts.contains_key(c) && self.accounts[c].locked
    }

    /// The account of `c`, or a zeroed one where `c` has none yet.
    pub open spec fn account_or_zero(self, c: ClientId) -> AccountDetails {
        if self.accounts.contains_key(c) {
            self.accounts[c]
        } else {
            zero_account()
        }
    }
}

/// The records with `t` kept under `tx`, unless `tx` is recorded already:
/// a record, once made, keeps its kind, client and amount.
pub open spec fn record_first(
    m: Map<TransactionId, TransactionDetails>,
    tx: TransactionId,
    t: TransactionDetails,
) -> Map<TransactionId, TransactionDetails> {
    if m.contains_key(tx) {
        m
    } else {
        m.insert(tx, t)
    }
}

/// A deposit: creates the account where needed, adds `amount` to available
/// and total, and records the transaction as undisputed where its id is new.
pub open spec fn deposit(l: Ledger, client: ClientId, tx: TransactionId, amount: Amount) -> (
    Ledger,
    Outcome,
) {
    let a = l.account_or_zero(client);
    if !in_range(a.available + amount) || !in_range(a.total + amount) {
        (l, Err(TransactionProcessingError::BalanceOutOfRange))
    } else {
        let na = AccountDetails {
            available: (a.available + amount) as i64,
            total: (a.total + amount) as i64,
            ..a
        };
        let t = TransactionDetails {
            kind: TransactionType::Deposit,
            client,
            amount: Some(amount),
            is_disputed: false,
        };
        (
            Ledger {
                accounts: l.accounts.insert(client, na),
                transactions: record_first(l.transactions, tx, t),
            },
            Ok(()),
        )
    }
}

/// A withdrawal: needs an account whose available funds exceed `amount`
/// strictly; takes `amount` from available and total and records the
/// transaction as undisputed where its id is new.
pub open spec fn withdrawal(l: Ledger, client: ClientId, tx: TransactionId, amount: Amount) -> (
    Ledger,
    Outcome,
) {
    if !l.accounts.contains_key(client) {
        (l, Err(TransactionProcessingError::AccountNotFound))
    } else {
        let a = l.accounts[client];
        if a.available <= amount {
            (l, Err(TransactionProcessingError::InsufficientFunds))
        } else if !in_range(a.available - amount) || !in_range(a.total - amount) {
            (l, Err(TransactionProcessingError::BalanceOutOfRange))
        } else {
            let na = AccountDetails {
                available: (a.available - amount) as i64,
                total: (a.total - amount) as i64,
                ..a
            };
            let t = TransactionDetails {
                kind: TransactionType::Withdrawal,
                client,
                amount: Some(amount),
                is_disputed: false,
            };
            (
                Ledger {
                    accounts: l.accounts.insert(client, na),
                    transactions: record_first(l.transactions, tx, t),
                },
                Ok(()),
            )
        }
    }
}

/// A dispute of `tx`: refused where `tx` is already under dispute, then
/// where the account of the client that owns `tx` is locked; otherwise moves
/// its amount from available to held in that account, and marks `tx`
/// disputed.
pub open spec fn dispute(l: Ledger, tx: TransactionId) -> (Ledger, Outcome) {
    if !l.transactions.contains_key(tx) {
        (l, Err(TransactionProcessingError::TransactionNotFound))
    } else {
        let t = l.transactions[tx];
        if t.is_disputed {
            (l, Err(TransactionProcessingError::CannotDisputeAnAlreadyDisputedTransaction))
        } else if l.is_locked(t.client) {
            (l, Err(TransactionProcessingError::AccountLocked))
        } else if t.amount is None {
            (l, Err(TransactionProcessingError::AmountNotFoundOnTransactionToDispute))
        } else if !l.accounts.contains_key(t.client) {
            (l, Err(TransactionProcessingError::AccountNotFound))
        } else {
            let amount = t.amount->Some_0;
            let a = l.accounts[t.client];
            if !in_range(a.available - amount) || !in_range(a.held + amount) {
                (l, Err(TransactionProcessingError::BalanceOutOfRange))
            } else {
                let na = AccountDetails {
                    available: (a.available - amount) as i64,
                    held: (a.held + amount) as i64,
                    ..a
                };
                (
                    Ledger {
                        accounts: l.accounts.insert(t.client, na),
                        transactions: l.transactions.insert(
                            tx,
                            TransactionDetails { is_disputed: true, ..t },
                        ),
                    },
                    Ok(()),
                )
            }
        }
    }
}

/// The checks shared by resolve and chargeback, in order: `tx` exists, it is
/// under dispute, its owner's account is not locked, it holds an amount, and
/// its owner has an account.
pub open spec fn settle_error(l: Ledger, tx: TransactionId) -> Option<TransactionProcessingError> {
    if !l.transactions.contains_key(tx) {
        Some(TransactionProcessingError::TransactionNotFound)
    } else {
        let t = l.transactions[tx];
        if !t.is_disputed {
            Some(TransactionProcessingError::CannotResolveNonDisputedTransaction)
        } else if l.is_locked(t.client) {
            Some(TransactionProcessingError::AccountLocked)
        } else if t.amount is None {
            Some(TransactionProcessingError::AmountNotFoundOnTransactionToDispute)
        } else if !l.accounts.contains_key(t.client) {
            Some(TransactionProcessingError::AccountNotFound)
        } else {
            None
        }
    }
}

/// A resolve of `tx`: moves its amount from held back to available and
/// clears the dispute.
pub open spec fn resolve(l: Ledger, tx: TransactionId) -> (Ledger, Outcome) {
    if let Some(e) = settle_error(l, tx) {
        (l, Err(e))
    } else {
        let t = l.transactions[tx];
        let amount = t.amount->Some_0;
        let a = l.accounts[t.client];
        if !in_range(a.available + amount) || !in_range(a.held - amount) {
            (l, Err(TransactionProcessingError::BalanceOutOfRange))
        } else {
            let na = AccountDetails {
                available: (a.available + amount) as i64,
                held: (a.held - amount) as i64,
                ..a
            };
            (
                Ledger {
                    accounts: l.accounts.insert(t.client, na),
                    transactions: l.transactions.insert(
                        tx,
                        TransactionDetails { is_disputed: false, ..t },
                    ),
                },
                Ok(()),
            )
        }
    }
}

/// A chargeback of `tx`: removes its amount from held and total, clears the
/// dispute and locks the account for good.
pub open spec fn chargeback(l: Ledger, tx: TransactionId) -> (Ledger, Outcome) {
    if let Some(e) = settle_error(l, tx) {
        (l, Err(e))
    } else {
        let t = l.transactions[tx];
        let amount = t.amount->Some_0;
        let a = l.accounts[t.client];
        if !in_range(a.total - amount) || !in_range(a.held - amount) {
            (l, Err(TransactionProcessingError::BalanceOutOfRange))
        } else {
            let na = AccountDetails {
                available: a.available,
                held: (a.held - amount) as i64,
                total: (a.total - amount) as i64,
                locked: true,
            };
            (
                Ledger {
                    accounts: l.accounts.insert(t.client, na),
                    transactions: l.transactions.insert(
                        tx,
                        TransactionDetails { is_disputed: false, ..t },
                    ),
                },
                Ok(()),
            )
        }
    }
}

/// Applies one input record: a record for a locked account is refused;
/// otherwise the record's kind decides.
pub open spec fn step(l: Ledger, input: TransactionInput) -> (Ledger, Outcome) {
    if l.is_locked(input.client) {
        (l, Err(TransactionProcessingError::AccountLocked))
    } else {
        match input.kind {
            TransactionType::Deposit => match input.amount {
                Some(amount) => deposit(l, input.client, input.tx, amount),
                None => (l, Err(TransactionProcessingError::AmountValueNotFound)),
            },
            TransactionType::Withdrawal => match input.amount {
                Some(amount) => withdrawal(l, input.client, input.tx, amount),
                None => (l, Err(TransactionProcessingError::AmountValueNotFound)),
            },
            TransactionType::Dispute => dispute(l, input.tx),
            TransactionType::Resolve => resolve(l, input.tx),
            TransactionType::Chargeback => chargeback(l, input.tx),
        }
    }
}

/// The ledger after applying `inputs` in order, starting from `l`.
pub open spec fn run(l: Ledger, inputs: Seq<TransactionInput>) -> Ledger
    decreases inputs.len(),
{
    if inputs.len() == 0 {
        l
    } else {
        step(run(l, inputs.drop_last()), inputs.last()).0
    }
}

} // verus!
