use toy_transaction_engine::config::Config;
use toy_transaction_engine::engine::TransactionEngine;
use toy_transaction_engine::ledger::{
    AccountDetails, TransactionInput, TransactionProcessingError, TransactionType,
};

fn input(kind: TransactionType, client: u16, tx: u32, amount: Option<i64>) -> TransactionInput {
    TransactionInput { kind, client, tx, amount }
}

fn deposit(client: u16, tx: u32, amount: i64) -> TransactionInput {
    input(TransactionType::Deposit, client, tx, Some(amount))
}

fn withdrawal(client: u16, tx: u32, amount: i64) -> TransactionInput {
    input(TransactionType::Withdrawal, client, tx, Some(amount))
}

fn dispute(client: u16, tx: u32) -> TransactionInput {
    input(TransactionType::Dispute, client, tx, None)
}

fn resolve(client: u16, tx: u32) -> TransactionInput {
    input(TransactionType::Resolve, client, tx, None)
}

fn chargeback(client: u16, tx: u32) -> TransactionInput {
    input(TransactionType::Chargeback, client, tx, None)
}

fn account(available: i64, held: i64, total: i64, locked: bool) -> AccountDetails {
    AccountDetails { available, held, total, locked }
}

fn assert_balanced(engine: &TransactionEngine) {
    for (_, a) in engine.accounts_state() {
        assert_eq!(a.total, a.available + a.held);
    }
}

#[test]
fn balances_stay_consistent_through_a_mixed_stream() {
    let mut engine = TransactionEngine::new();
    let stream = vec![
        deposit(1, 1, 30000),
        deposit(2, 2, 12345),
        withdrawal(1, 3, 5000),
        dispute(1, 1),
        withdrawal(1, 4, 1),
        resolve(1, 1),
        dispute(2, 2),
        chargeback(2, 2),
        deposit(2, 5, 100),
        dispute(1, 3),
    ];
    for record in stream {
        let _ = engine.process_transaction(record);
        assert_balanced(&engine);
    }
    assert_eq!(engine.account(1), Some(account(20000, 5000, 25000, false)));
    assert_eq!(engine.account(2), Some(account(0, 0, 0, true)));
}

#[test]
fn locked_account_refuses_every_kind_and_keeps_balances() {
    let mut engine = TransactionEngine::new();
    engine.process_transaction(deposit(1, 1, 11000)).unwrap();
    engine.process_transaction(deposit(1, 2, 20000)).unwrap();
    engine.process_transaction(dispute(1, 1)).unwrap();
    engine.process_transaction(chargeback(1, 1)).unwrap();
    let frozen = account(20000, 0, 20000, true);
    assert_eq!(engine.account(1), Some(frozen));
    let attempts = vec![
        deposit(1, 3, 500),
        withdrawal(1, 4, 500),
        dispute(1, 2),
        resolve(1, 2),
        chargeback(1, 2),
        input(TransactionType::Deposit, 1, 5, None),
    ];
    for record in attempts {
        assert_eq!(
            engine.process_transaction(record),
            Err(TransactionProcessingError::AccountLocked)
        );
        assert_eq!(engine.account(1), Some(frozen));
    }
    assert_eq!(engine.transaction(3), None);
}

#[test]
fn repeated_failures_give_the_same_error() {
    let mut engine = TransactionEngine::new();
    engine.process_transaction(deposit(1, 1, 11000)).unwrap();
    engine.process_transaction(dispute(1, 1)).unwrap();
    let before = engine.account(1);
    for _ in 0..3 {
        assert_eq!(
            engine.process_transaction(dispute(1, 1)),
            Err(TransactionProcessingError::CannotDisputeAnAlreadyDisputedTransaction)
        );
        assert_eq!(engine.account(1), before);
    }
    for _ in 0..3 {
        assert_eq!(
            engine.process_transaction(withdrawal(1, 9, 1)),
            Err(TransactionProcessingError::InsufficientFunds)
        );
        assert_eq!(engine.transaction(9), None);
    }
}

#[test]
fn dispute_before_creation_is_not_found() {
    let mut engine = TransactionEngine::new();
    assert_eq!(
        engine.process_transaction(dispute(1, 7)),
        Err(TransactionProcessingError::TransactionNotFound)
    );
    engine.process_transaction(deposit(1, 1, 500)).unwrap();
    assert_eq!(
        engine.process_transaction(withdrawal(1, 7, 1000)),
        Err(TransactionProcessingError::InsufficientFunds)
    );
    assert_eq!(
        engine.process_transaction(dispute(1, 7)),
        Err(TransactionProcessingError::TransactionNotFound)
    );
    engine.process_transaction(deposit(1, 7, 300)).unwrap();
    assert_eq!(engine.process_transaction(dispute(1, 7)), Ok(()));
    assert_eq!(engine.account(1), Some(account(500, 300, 800, false)));
}

#[test]
fn scenario_chargeback_then_any_transaction_is_locked() {
    let mut engine = TransactionEngine::new();
    engine.process_transaction(deposit(1, 1, 11000)).unwrap();
    engine.process_transaction(dispute(1, 1)).unwrap();
    engine.process_transaction(chargeback(1, 1)).unwrap();
    assert_eq!(engine.account(1), Some(account(0, 0, 0, true)));
    assert_eq!(
        engine.process_transaction(deposit(1, 2, 10000)),
        Err(TransactionProcessingError::AccountLocked)
    );
}

#[test]
fn withdrawal_of_the_whole_balance_is_refused() {
    let mut engine = TransactionEngine::new();
    engine.process_transaction(deposit(1, 1, 40000)).unwrap();
    assert_eq!(
        engine.process_transaction(withdrawal(1, 2, 40000)),
        Err(TransactionProcessingError::InsufficientFunds)
    );
    assert_eq!(engine.process_transaction(withdrawal(1, 3, 39999)), Ok(()));
    assert_eq!(engine.account(1), Some(account(1, 0, 1, false)));
    let t = engine.transaction(3).unwrap();
    assert_eq!(t.kind, TransactionType::Withdrawal);
    assert_eq!(t.amount, Some(39999));
    assert_eq!(t.is_disputed, false);
}

#[test]
fn missing_amount_is_refused() {
    let mut engine = TransactionEngine::new();
    assert_eq!(
        engine.process_transaction(input(TransactionType::Deposit, 1, 1, None)),
        Err(TransactionProcessingError::AmountValueNotFound)
    );
    assert_eq!(engine.account(1), None);
    engine.process_transaction(deposit(1, 2, 5)).unwrap();
    assert_eq!(
        engine.process_transaction(input(TransactionType::Withdrawal, 1, 3, None)),
        Err(TransactionProcessingError::AmountValueNotFound)
    );
}

#[test]
fn resolve_and_chargeback_need_an_open_dispute() {
    let mut engine = TransactionEngine::new();
    engine.process_transaction(deposit(1, 1, 11000)).unwrap();
    assert_eq!(
        engine.process_transaction(resolve(1, 1)),
        Err(TransactionProcessingError::CannotResolveNonDisputedTransaction)
    );
    assert_eq!(
        engine.process_transaction(chargeback(1, 1)),
        Err(TransactionProcessingError::CannotResolveNonDisputedTransaction)
    );
    assert_eq!(
        engine.process_transaction(chargeback(1, 2)),
        Err(TransactionProcessingError::TransactionNotFound)
    );
    engine.process_transaction(dispute(1, 1)).unwrap();
    engine.process_transaction(resolve(1, 1)).unwrap();
    assert_eq!(
        engine.process_transaction(resolve(1, 1)),
        Err(TransactionProcessingError::CannotResolveNonDisputedTransaction)
    );
    assert_eq!(engine.account(1), Some(account(11000, 0, 11000, false)));
}

#[test]
fn dispute_moves_funds_of_the_owning_client() {
    let mut engine = TransactionEngine::new();
    engine.process_transaction(deposit(1, 1, 11000)).unwrap();
    engine.process_transaction(deposit(2, 2, 500)).unwrap();
    assert_eq!(engine.process_transaction(dispute(2, 1)), Ok(()));
    assert_eq!(engine.account(1), Some(account(0, 11000, 11000, false)));
    assert_eq!(engine.account(2), Some(account(500, 0, 500, false)));
}

#[test]
fn balance_out_of_range_is_refused() {
    let mut engine = TransactionEngine::new();
    engine.process_transaction(deposit(1, 1, i64::MAX)).unwrap();
    assert_eq!(
        engine.process_transaction(deposit(1, 2, 1)),
        Err(TransactionProcessingError::BalanceOutOfRange)
    );
    assert_eq!(engine.account(1), Some(account(i64::MAX, 0, i64::MAX, false)));
    assert_eq!(engine.transaction(2), None);
}

#[test]
fn accounts_state_lists_each_client_once_in_opening_order() {
    let mut engine = TransactionEngine::new();
    assert!(engine.accounts_state().is_empty());
    engine.process_transaction(deposit(3, 1, 10)).unwrap();
    engine.process_transaction(deposit(1, 2, 20)).unwrap();
    engine.process_transaction(deposit(3, 3, 30)).unwrap();
    let _ = engine.process_transaction(withdrawal(2, 4, 1));
    assert_eq!(
        engine.accounts_state(),
        vec![(3, account(40, 0, 40, false)), (1, account(20, 0, 20, false))]
    );
}

#[test]
fn error_messages() {
    assert_eq!(
        TransactionProcessingError::AccountLocked.message(),
        "transaction can't be processed as account is locked"
    );
    assert_eq!(
        TransactionProcessingError::CannotDisputeAnAlreadyDisputedTransaction.message(),
        "cannot dispute an already disputed transaction"
    );
    assert_eq!(TransactionProcessingError::AccountNotFound.message(), "account not found");
}

#[test]
fn config_needs_an_input_path() {
    let args = vec!["engine".to_string()];
    assert!(Config::new(&args).is_err());
    let args = vec!["engine".to_string(), "transactions.csv".to_string()];
    assert_eq!(Config::new(&args).unwrap().input_path, "transactions.csv");
}

#[test]
fn locked_owner_refuses_disputes_under_another_client() {
    let mut engine = TransactionEngine::new();
    engine.process_transaction(deposit(1, 1, 11000)).unwrap();
    engine.process_transaction(deposit(1, 2, 20000)).unwrap();
    engine.process_transaction(deposit(2, 3, 500)).unwrap();
    engine.process_transaction(dispute(1, 1)).unwrap();
    engine.process_transaction(chargeback(1, 1)).unwrap();
    let frozen = account(20000, 0, 20000, true);
    let attempts = vec![
        (dispute(2, 2), TransactionProcessingError::AccountLocked),
        (resolve(2, 2), TransactionProcessingError::CannotResolveNonDisputedTransaction),
        (chargeback(2, 2), TransactionProcessingError::CannotResolveNonDisputedTransaction),
    ];
    for (record, error) in attempts {
        assert_eq!(engine.process_transaction(record), Err(error));
        assert_eq!(engine.account(1), Some(frozen));
    }
    assert_eq!(engine.transaction(2).unwrap().is_disputed, false);
    assert_eq!(engine.account(2), Some(account(500, 0, 500, false)));
}

#[test]
fn charged_back_transaction_cannot_be_disputed_again() {
    let mut engine = TransactionEngine::new();
    engine.process_transaction(deposit(1, 1, 11000)).unwrap();
    engine.process_transaction(deposit(2, 2, 500)).unwrap();
    engine.process_transaction(dispute(1, 1)).unwrap();
    engine.process_transaction(chargeback(1, 1)).unwrap();
    let attempts = vec![
        (dispute(2, 1), TransactionProcessingError::AccountLocked),
        (resolve(2, 1), TransactionProcessingError::CannotResolveNonDisputedTransaction),
        (chargeback(2, 1), TransactionProcessingError::CannotResolveNonDisputedTransaction),
        (chargeback(1, 1), TransactionProcessingError::AccountLocked),
        (dispute(1, 1), TransactionProcessingError::AccountLocked),
    ];
    for (record, error) in attempts {
        assert_eq!(engine.process_transaction(record), Err(error));
    }
    assert_eq!(engine.account(1), Some(account(0, 0, 0, true)));
    assert_eq!(engine.transaction(1).unwrap().is_disputed, false);
}

#[test]
fn reused_transaction_id_keeps_the_first_record() {
    let mut engine = TransactionEngine::new();
    engine.process_transaction(deposit(1, 1, 11000)).unwrap();
    engine.process_transaction(deposit(2, 1, 700)).unwrap();
    engine.process_transaction(withdrawal(1, 1, 1000)).unwrap();
    assert_eq!(engine.account(1), Some(account(10000, 0, 10000, false)));
    assert_eq!(engine.account(2), Some(account(700, 0, 700, false)));
    let t = engine.transaction(1).unwrap();
    assert_eq!(t.kind, TransactionType::Deposit);
    assert_eq!(t.client, 1);
    assert_eq!(t.amount, Some(11000));
    engine.process_transaction(dispute(2, 1)).unwrap();
    assert_eq!(engine.account(1), Some(account(-1000, 11000, 10000, false)));
    assert_eq!(engine.account(2), Some(account(700, 0, 700, false)));
}

#[test]
fn config_error_message() {
    let args: Vec<String> = vec![];
    assert_eq!(
        Config::new(&args).err(),
        Some("Required arguments not passed. You must pass the input path as an argument")
    );
}

#[test]
fn disputed_record_of_a_locked_owner_reports_its_dispute_state() {
    let mut engine = TransactionEngine::new();
    engine.process_transaction(deposit(1, 1, 11000)).unwrap();
    engine.process_transaction(deposit(1, 2, 20000)).unwrap();
    engine.process_transaction(deposit(2, 3, 500)).unwrap();
    engine.process_transaction(dispute(1, 1)).unwrap();
    engine.process_transaction(dispute(1, 2)).unwrap();
    engine.process_transaction(chargeback(1, 1)).unwrap();
    let frozen = account(0, 20000, 20000, true);
    assert_eq!(engine.account(1), Some(frozen));
    assert_eq!(
        engine.process_transaction(dispute(2, 2)),
        Err(TransactionProcessingError::CannotDisputeAnAlreadyDisputedTransaction)
    );
    assert_eq!(
        engine.process_transaction(resolve(2, 2)),
        Err(TransactionProcessingError::AccountLocked)
    );
    assert_eq!(
        engine.process_transaction(chargeback(2, 2)),
        Err(TransactionProcessingError::AccountLocked)
    );
    assert_eq!(
        engine.process_transaction(chargeback(2, 1)),
        Err(TransactionProcessingError::CannotResolveNonDisputedTransaction)
    );
    assert_eq!(engine.account(1), Some(frozen));
    assert_eq!(
        TransactionProcessingError::AmountNotFoundOnTransactionToDispute.message(),
        "no amount is stored on the transaction to dispute"
    );
}
