use ledger::account::{Account, AccountCommand};
use ledger::account_transactions::ProcessError;
use ledger::amount::Amount;

#[test]
fn checked_add_and_sub_are_exact() {
    assert_eq!(Amount(20004999).checked_add(Amount(3558674)), Some(Amount(23563673)));
    assert_eq!(Amount(5).checked_sub(Amount(8)), Some(Amount(-3)));
    assert_eq!(Amount(-5).checked_add(Amount(5)), Some(Amount(0)));
}

#[test]
fn checked_add_and_sub_report_overflow() {
    assert_eq!(Amount(i64::MAX).checked_add(Amount(1)), None);
    assert_eq!(Amount(i64::MIN).checked_add(Amount(-1)), None);
    assert_eq!(Amount(i64::MIN).checked_sub(Amount(1)), None);
    assert_eq!(Amount(i64::MAX).checked_sub(Amount(-1)), None);
    assert_eq!(Amount(i64::MAX).checked_sub(Amount(i64::MAX)), Some(Amount(0)));
}

#[test]
fn amounts_order_by_scaled_value() {
    assert!(Amount(-1) < Amount(0));
    assert!(Amount(30004999) > Amount(20004999));
    assert!(Amount(7) <= Amount(7));
    assert_eq!(Amount(3).max(Amount(9)), Amount(9));
    assert_eq!(Amount::default(), Amount(0));
}

#[test]
fn total_is_checked() {
    let a = Account { available: Amount(10), held: Amount(-4), frozen: false };
    assert_eq!(a.total(), Some(Amount(6)));
    let b = Account { available: Amount(i64::MAX), held: Amount(1), frozen: false };
    assert_eq!(b.total(), None);
    let z = Account::default();
    assert_eq!((z.available, z.held, z.frozen), (Amount(0), Amount(0), false));
}

#[test]
fn account_commands_follow_their_rules() {
    let a = Account { available: Amount(100), held: Amount(50), frozen: false };
    let d = a.apply(AccountCommand::Deposit(Amount(1))).unwrap();
    assert_eq!((d.available, d.held), (Amount(101), Amount(50)));
    assert_eq!(a.apply(AccountCommand::Withdraw(Amount(101))).err(), Some(ProcessError::InsufficientFunds));
    let w = a.apply(AccountCommand::Withdraw(Amount(100))).unwrap();
    assert_eq!(w.available, Amount(0));
    let h = a.apply(AccountCommand::Dispute(Amount(30))).unwrap();
    assert_eq!((h.available, h.held), (Amount(70), Amount(80)));
    let r = a.apply(AccountCommand::Resolve(Amount(50))).unwrap();
    assert_eq!((r.available, r.held), (Amount(150), Amount(0)));
    let c = a.apply(AccountCommand::Chargeback(Amount(50))).unwrap();
    assert_eq!((c.available, c.held, c.frozen), (Amount(100), Amount(0), true));
    let big = Account { available: Amount(i64::MAX), held: Amount(i64::MIN), frozen: false };
    assert_eq!(big.apply(AccountCommand::Deposit(Amount(1))).err(), Some(ProcessError::OverflowError));
    assert_eq!(big.apply(AccountCommand::Resolve(Amount(1))).err(), Some(ProcessError::OverflowError));
    assert_eq!(big.apply(AccountCommand::Chargeback(Amount(1))).err(), Some(ProcessError::UnderflowError));
    assert_eq!(big.apply(AccountCommand::Dispute(Amount(-1))).err(), Some(ProcessError::UnderflowError));
    let drained = Account { available: Amount(0), held: Amount(i64::MIN), frozen: false };
    assert_eq!(drained.apply(AccountCommand::Resolve(Amount(1))).err(), Some(ProcessError::UnderflowError));
    let low = Account { available: Amount(0), held: Amount(i64::MAX), frozen: false };
    assert_eq!(low.apply(AccountCommand::Dispute(Amount(1))).err(), Some(ProcessError::OverflowError));
    let neg = Account { available: Amount(1), held: Amount(0), frozen: false };
    assert_eq!(neg.apply(AccountCommand::Withdraw(Amount(i64::MIN))).err(), Some(ProcessError::UnderflowError));
}
