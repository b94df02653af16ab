use payments::{
    process_all, Client, Entry, Ledger, Outcome, Transaction, TxError, TxHistory, TxKind,
};

fn tx(kind: TxKind, client: u16, tx: u32, amount: Option<u64>) -> Transaction {
    Transaction { kind, client, tx, amount }
}

fn client(id: u16, available: u64, held: u64, total: u64, locked: bool) -> Client {
    Client { client: id, available, held, total, locked }
}

fn deposited_and_disputed() -> (Ledger, TxHistory) {
    let mut ledger = Ledger::new();
    let mut history = TxHistory::new();
    assert_eq!(
        tx(TxKind::Deposit, 1, 1, Some(100000)).process(&mut ledger, &mut history),
        Ok(Outcome::Applied)
    );
    assert_eq!(
        tx(TxKind::Dispute, 1, 1, None).process(&mut ledger, &mut history),
        Ok(Outcome::Applied)
    );
    (ledger, history)
}

#[test]
fn scenario_deposit() {
    let mut ledger = Ledger::new();
    let mut history = TxHistory::new();
    let r = tx(TxKind::Deposit, 1, 1, Some(100000)).process(&mut ledger, &mut history);
    assert_eq!(r, Ok(Outcome::Applied));
    assert_eq!(ledger.get(1), Some(client(1, 100000, 0, 100000, false)));
    assert_eq!(history.get(1), Some(Entry::Deposit(100000)));
}

#[test]
fn scenario_withdrawal_over_balance_is_ignored() {
    let mut ledger = Ledger::new();
    let mut history = TxHistory::new();
    tx(TxKind::Deposit, 1, 1, Some(100000)).process(&mut ledger, &mut history).unwrap();
    let r = tx(TxKind::Withdrawal, 1, 2, Some(150000)).process(&mut ledger, &mut history);
    assert_eq!(r, Ok(Outcome::Ignored));
    assert_eq!(ledger.get(1), Some(client(1, 100000, 0, 100000, false)));
    assert_eq!(history.get(2), None);
}

#[test]
fn scenario_dispute() {
    let (ledger, history) = deposited_and_disputed();
    assert_eq!(ledger.get(1), Some(client(1, 0, 100000, 100000, false)));
    assert_eq!(history.get(1), Some(Entry::Dispute(100000)));
}

#[test]
fn scenario_resolve() {
    let (mut ledger, mut history) = deposited_and_disputed();
    let r = tx(TxKind::Resolve, 1, 1, None).process(&mut ledger, &mut history);
    assert_eq!(r, Ok(Outcome::Applied));
    assert_eq!(ledger.get(1), Some(client(1, 100000, 0, 100000, false)));
    assert_eq!(history.get(1), None);
}

#[test]
fn scenario_chargeback_keeps_total() {
    let (mut ledger, mut history) = deposited_and_disputed();
    let r = tx(TxKind::Chargeback, 1, 1, None).process(&mut ledger, &mut history);
    assert_eq!(r, Ok(Outcome::Applied));
    assert_eq!(ledger.get(1), Some(client(1, 0, 0, 100000, true)));
    assert_eq!(history.get(1), Some(Entry::ChargedBack(100000)));
}

#[test]
fn approved_withdrawal_is_recorded() {
    let mut ledger = Ledger::new();
    let mut history = TxHistory::new();
    tx(TxKind::Deposit, 3, 1, Some(50000)).process(&mut ledger, &mut history).unwrap();
    let r = tx(TxKind::Withdrawal, 3, 2, Some(20000)).process(&mut ledger, &mut history);
    assert_eq!(r, Ok(Outcome::Applied));
    assert_eq!(ledger.get(3), Some(client(3, 30000, 0, 30000, false)));
    assert_eq!(history.get(2), Some(Entry::Withdrawal(20000)));
}

#[test]
fn withdrawal_creates_the_account_it_names() {
    let mut ledger = Ledger::new();
    let mut history = TxHistory::new();
    let r = tx(TxKind::Withdrawal, 9, 1, Some(1)).process(&mut ledger, &mut history);
    assert_eq!(r, Ok(Outcome::Ignored));
    assert_eq!(ledger.get(9), Some(client(9, 0, 0, 0, false)));
}

#[test]
fn withdrawal_cannot_take_held_funds() {
    let (mut ledger, mut history) = deposited_and_disputed();
    let r = tx(TxKind::Withdrawal, 1, 2, Some(1)).process(&mut ledger, &mut history);
    assert_eq!(r, Ok(Outcome::Ignored));
    assert_eq!(ledger.get(1), Some(client(1, 0, 100000, 100000, false)));
}

#[test]
fn locked_account_is_frozen() {
    let (mut ledger, mut history) = deposited_and_disputed();
    tx(TxKind::Deposit, 1, 2, Some(70000)).process(&mut ledger, &mut history).unwrap();
    tx(TxKind::Chargeback, 1, 1, None).process(&mut ledger, &mut history).unwrap();
    let frozen = client(1, 70000, 0, 170000, true);
    assert_eq!(ledger.get(1), Some(frozen));
    let d = tx(TxKind::Deposit, 1, 3, Some(10000)).process(&mut ledger, &mut history);
    assert_eq!(d, Ok(Outcome::Ignored));
    assert_eq!(history.get(3), None);
    let w = tx(TxKind::Withdrawal, 1, 4, Some(10000)).process(&mut ledger, &mut history);
    assert_eq!(w, Ok(Outcome::Ignored));
    let p = tx(TxKind::Dispute, 1, 2, None).process(&mut ledger, &mut history);
    assert_eq!(p, Ok(Outcome::Ignored));
    assert_eq!(history.get(2), Some(Entry::Deposit(70000)));
    assert_eq!(ledger.get(1), Some(frozen));
}

#[test]
fn resolve_on_locked_account_fails() {
    let mut ledger = Ledger::new();
    let mut history = TxHistory::new();
    for t in [
        tx(TxKind::Deposit, 1, 1, Some(10)),
        tx(TxKind::Deposit, 1, 2, Some(20)),
        tx(TxKind::Dispute, 1, 1, None),
        tx(TxKind::Dispute, 1, 2, None),
        tx(TxKind::Chargeback, 1, 1, None),
    ] {
        assert_eq!(t.process(&mut ledger, &mut history), Ok(Outcome::Applied));
    }
    let r = tx(TxKind::Resolve, 1, 2, None).process(&mut ledger, &mut history);
    assert_eq!(r, Err(TxError::AccountLocked));
    assert_eq!(ledger.get(1), Some(client(1, 0, 20, 30, true)));
    assert_eq!(history.get(2), Some(Entry::Dispute(20)));
}

#[test]
fn replayed_resolve_fails() {
    let (mut ledger, mut history) = deposited_and_disputed();
    tx(TxKind::Resolve, 1, 1, None).process(&mut ledger, &mut history).unwrap();
    let again = tx(TxKind::Resolve, 1, 1, None).process(&mut ledger, &mut history);
    assert_eq!(again, Err(TxError::UnknownOrMismatchedReference));
    let charge = tx(TxKind::Chargeback, 1, 1, None).process(&mut ledger, &mut history);
    assert_eq!(charge, Err(TxError::UnknownOrMismatchedReference));
    assert_eq!(ledger.get(1), Some(client(1, 100000, 0, 100000, false)));
}

#[test]
fn replayed_chargeback_fails() {
    let (mut ledger, mut history) = deposited_and_disputed();
    tx(TxKind::Chargeback, 1, 1, None).process(&mut ledger, &mut history).unwrap();
    let again = tx(TxKind::Chargeback, 1, 1, None).process(&mut ledger, &mut history);
    assert_eq!(again, Err(TxError::UnknownOrMismatchedReference));
    let resolve = tx(TxKind::Resolve, 1, 1, None).process(&mut ledger, &mut history);
    assert_eq!(resolve, Err(TxError::UnknownOrMismatchedReference));
    assert_eq!(ledger.get(1), Some(client(1, 0, 0, 100000, true)));
}

#[test]
fn second_dispute_holds_nothing_more() {
    let mut ledger = Ledger::new();
    let mut history = TxHistory::new();
    tx(TxKind::Deposit, 1, 1, Some(100000)).process(&mut ledger, &mut history).unwrap();
    tx(TxKind::Deposit, 1, 2, Some(100000)).process(&mut ledger, &mut history).unwrap();
    tx(TxKind::Dispute, 1, 1, None).process(&mut ledger, &mut history).unwrap();
    let again = tx(TxKind::Dispute, 1, 1, None).process(&mut ledger, &mut history);
    assert_eq!(again, Ok(Outcome::Ignored));
    assert_eq!(ledger.get(1), Some(client(1, 100000, 100000, 200000, false)));
}

#[test]
fn dispute_of_unknown_tx_is_ignored() {
    let mut ledger = Ledger::new();
    let mut history = TxHistory::new();
    let r = tx(TxKind::Dispute, 4, 77, None).process(&mut ledger, &mut history);
    assert_eq!(r, Ok(Outcome::Ignored));
    assert_eq!(ledger.get(4), None);
}

#[test]
fn dispute_without_available_funds_is_ignored() {
    let mut ledger = Ledger::new();
    let mut history = TxHistory::new();
    tx(TxKind::Deposit, 1, 1, Some(100)).process(&mut ledger, &mut history).unwrap();
    tx(TxKind::Withdrawal, 1, 2, Some(60)).process(&mut ledger, &mut history).unwrap();
    let r = tx(TxKind::Dispute, 1, 1, None).process(&mut ledger, &mut history);
    assert_eq!(r, Ok(Outcome::Ignored));
    assert_eq!(ledger.get(1), Some(client(1, 40, 0, 40, false)));
    assert_eq!(history.get(1), Some(Entry::Deposit(100)));
}

#[test]
fn resolve_of_undisputed_tx_fails() {
    let mut ledger = Ledger::new();
    let mut history = TxHistory::new();
    tx(TxKind::Deposit, 1, 1, Some(100)).process(&mut ledger, &mut history).unwrap();
    let r = tx(TxKind::Resolve, 1, 1, None).process(&mut ledger, &mut history);
    assert_eq!(r, Err(TxError::UnknownOrMismatchedReference));
    let u = tx(TxKind::Resolve, 1, 5, None).process(&mut ledger, &mut history);
    assert_eq!(u, Err(TxError::UnknownOrMismatchedReference));
}

#[test]
fn settling_on_another_account_without_held_funds_fails() {
    let (mut ledger, mut history) = deposited_and_disputed();
    let r = tx(TxKind::Resolve, 2, 1, None).process(&mut ledger, &mut history);
    assert_eq!(r, Err(TxError::InsufficientFunds));
    let c = tx(TxKind::Chargeback, 2, 1, None).process(&mut ledger, &mut history);
    assert_eq!(c, Err(TxError::InsufficientFunds));
    assert_eq!(ledger.get(2), None);
    assert_eq!(history.get(1), Some(Entry::Dispute(100000)));
}

#[test]
fn missing_amount_is_malformed() {
    let mut ledger = Ledger::new();
    let mut history = TxHistory::new();
    let d = tx(TxKind::Deposit, 1, 1, None).process(&mut ledger, &mut history);
    assert_eq!(d, Err(TxError::MalformedRecord));
    let w = tx(TxKind::Withdrawal, 1, 2, None).process(&mut ledger, &mut history);
    assert_eq!(w, Err(TxError::MalformedRecord));
    assert_eq!(ledger.get(1), None);
}

#[test]
fn deposit_past_the_largest_amount_overflows() {
    let mut ledger = Ledger::new();
    let mut history = TxHistory::new();
    tx(TxKind::Deposit, 1, 1, Some(u64::MAX - 5)).process(&mut ledger, &mut history).unwrap();
    let r = tx(TxKind::Deposit, 1, 2, Some(6)).process(&mut ledger, &mut history);
    assert_eq!(r, Err(TxError::AmountOverflow));
    let ok = tx(TxKind::Deposit, 1, 3, Some(5)).process(&mut ledger, &mut history);
    assert_eq!(ok, Ok(Outcome::Applied));
    assert_eq!(ledger.get(1), Some(client(1, u64::MAX, 0, u64::MAX, false)));
}

#[test]
fn unlocked_accounts_stay_balanced() {
    let txns = vec![
        tx(TxKind::Deposit, 1, 1, Some(500)),
        tx(TxKind::Deposit, 2, 2, Some(300)),
        tx(TxKind::Withdrawal, 1, 3, Some(200)),
        tx(TxKind::Dispute, 1, 1, None),
        tx(TxKind::Dispute, 2, 2, None),
        tx(TxKind::Resolve, 2, 2, None),
        tx(TxKind::Dispute, 1, 3, None),
    ];
    let mut ledger = Ledger::new();
    let mut history = TxHistory::new();
    for t in &txns {
        t.process(&mut ledger, &mut history).unwrap();
        for c in ledger.accounts() {
            if !c.locked {
                assert_eq!(c.total, c.available + c.held);
            }
        }
    }
    assert_eq!(ledger.get(1), Some(client(1, 100, 200, 300, false)));
    assert_eq!(ledger.get(2), Some(client(2, 300, 0, 300, false)));
}

#[test]
fn batch_stops_at_first_failure() {
    let txns = vec![
        tx(TxKind::Deposit, 1, 1, Some(500)),
        tx(TxKind::Resolve, 1, 1, None),
        tx(TxKind::Deposit, 1, 2, Some(500)),
    ];
    let mut ledger = Ledger::new();
    let mut history = TxHistory::new();
    let r = process_all(&txns, &mut ledger, &mut history);
    assert_eq!(r, Err(TxError::UnknownOrMismatchedReference));
    assert_eq!(ledger.get(1), Some(client(1, 500, 0, 500, false)));
    assert_eq!(history.get(2), None);
}

#[test]
fn batch_runs_every_record() {
    let txns = vec![
        tx(TxKind::Deposit, 2, 1, Some(500)),
        tx(TxKind::Deposit, 1, 2, Some(200)),
        tx(TxKind::Withdrawal, 2, 3, Some(900)),
        tx(TxKind::Dispute, 7, 99, None),
    ];
    let mut ledger = Ledger::new();
    let mut history = TxHistory::new();
    assert_eq!(process_all(&txns, &mut ledger, &mut history), Ok(()));
    let accounts = ledger.accounts();
    assert_eq!(accounts, vec![client(2, 500, 0, 500, false), client(1, 200, 0, 200, false)]);
}

#[test]
fn get_or_create_makes_a_fresh_account_once() {
    let mut ledger = Ledger::new();
    assert_eq!(ledger.get_or_create(5), client(5, 0, 0, 0, false));
    assert_eq!(ledger.get(5), Some(client(5, 0, 0, 0, false)));
    ledger.put(client(5, 10, 0, 10, false));
    assert_eq!(ledger.get_or_create(5), client(5, 10, 0, 10, false));
    assert_eq!(ledger.accounts().len(), 1);
}
