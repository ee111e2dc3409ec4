//! Transaction records and the dispute state machine.

use std::collections::HashMap;
use vstd::prelude::*;

use crate::account::{
    Account, AccountCommand, AccountId, AccountModifyError, AccountStore, modify_outcome,
};
use crate::amount::Amount;

verus! {

broadcast use vstd::std_specs::hash::group_hash_axioms;

/// A transaction identifier.
#[derive(Debug, Copy, Clone, PartialEq, Eq, Structural, Hash)]
pub struct TransactionId(pub u32);

impl TransactionId {
    pub fn new(id: u32) -> (r: Self)
        ensures
            r.0 == id,
    {
        TransactionId(id)
    }
}

/// The kind of an incoming transaction record.
#[derive(Debug, Copy, Clone, PartialEq, Eq, Structural)]
pub enum TransactionType {
    Deposit,
    Withdrawal,
    Disputed,
    Resolved,
    Chargeback,
}

/// One incoming transaction record. For the dispute family the amount is
/// ignored: the amount of the referenced transaction is used instead.
#[derive(Debug, Copy, Clone, PartialEq, Eq, Structural)]
pub struct AccountTransaction {
    pub client: AccountId,
    pub tx_id: TransactionId,
    pub ttype: TransactionType,
    pub amount: Amount,
}

/// Where an accepted deposit or withdrawal stands in the dispute lifecycle.
#[derive(Debug, Copy, Clone, PartialEq, Eq, Structural)]
pub enum TransactionState {
    Deposit,
    Withdrawal,
    Disputed,
    Resolved,
    Chargeback,
}

/// The lifecycle record of an accepted deposit or withdrawal.
#[derive(Debug, Copy, Clone, PartialEq, Eq, Structural)]
pub struct Transaction {
    pub client: AccountId,
    pub state: TransactionState,
    pub amount: Amount,
}

/// Why a transaction record was not applied.
#[derive(Debug, Copy, Clone, PartialEq, Eq, Structural)]
pub enum ProcessError {
    TransactionExist,
    TransactionNotFound,
    AccountError(AccountModifyError),
    OverflowError,
    InsufficientFunds,
    UnderflowError,
    ClientMismatch,
    AlreadyDisputed,
    DisputeNotOpen,
}

/// The state that a record of kind `t` names.
pub open spec fn state_of(t: TransactionType) -> TransactionState {
    match t {
        TransactionType::Deposit => TransactionState::Deposit,
        TransactionType::Withdrawal => TransactionState::Withdrawal,
        TransactionType::Disputed => TransactionState::Disputed,
        TransactionType::Resolved => TransactionState::Resolved,
        TransactionType::Chargeback => TransactionState::Chargeback,
    }
}

/// The store's answer to a command, as a transaction outcome.
pub open spec fn ledger_result(r: Result<Result<(), ProcessError>, AccountModifyError>) -> Result<
    (),
    ProcessError,
> {
    match r {
        Ok(Ok(())) => Ok(()),
        Ok(Err(e)) => Err(e),
        Err(e) => Err(ProcessError::AccountError(e)),
    }
}

/// Running `cmd` for `client` through the store, as a transaction outcome.
pub open spec fn ledger_step(accounts: Map<u16, Account>, client: AccountId, cmd: AccountCommand) -> (
    Map<u16, Account>,
    Result<(), ProcessError>,
) {
    let (m, r) = modify_outcome(accounts, client.0, cmd);
    (m, ledger_result(r))
}

/// The account command that a record of kind `kind` runs for `amount`.
pub open spec fn command_for(kind: TransactionType, amount: Amount) -> AccountCommand {
    match kind {
        TransactionType::Deposit => AccountCommand::Deposit(amount),
        TransactionType::Withdrawal => AccountCommand::Withdraw(amount),
        TransactionType::Disputed => AccountCommand::Dispute(amount),
        TransactionType::Resolved => AccountCommand::Resolve(amount),
        TransactionType::Chargeback => AccountCommand::Chargeback(amount),
    }
}

/// Whether `kind` moves money under a new transaction id.
pub open spec fn is_money_kind(kind: TransactionType) -> bool {
    kind is Deposit || kind is Withdrawal
}

/// The state a lifecycle record in state `s` must be in for a dispute-family
/// record of kind `kind` to be accepted.
pub open spec fn may_follow(s: TransactionState, kind: TransactionType) -> bool {
    match kind {
        TransactionType::Disputed => s is Deposit || s is Withdrawal,
        _ => s is Disputed,
    }
}

/// The error for a dispute-family record of kind `kind` that finds its
/// transaction in a state it cannot follow.
pub open spec fn wrong_state_error(kind: TransactionType) -> ProcessError {
    match kind {
        TransactionType::Disputed => ProcessError::AlreadyDisputed,
        _ => ProcessError::DisputeNotOpen,
    }
}

/// The effect of processing `rec` against the lifecycle records `log` and the
/// accounts `accounts`: the new records, the new accounts and the outcome.
pub open spec fn transition(
    log: Map<u32, Transaction>,
    accounts: Map<u16, Account>,
    rec: AccountTransaction,
) -> (Map<u32, Transaction>, Map<u16, Account>, Result<(), ProcessError>) {
    let id = rec.tx_id.0;
    if !log.contains_key(id) {
        if is_money_kind(rec.ttype) {
            let (m, r) = ledger_step(accounts, rec.client, command_for(rec.ttype, rec.amount));
            let created = Transaction {
                client: rec.client,
                state: state_of(rec.ttype),
                amount: rec.amount,
            };
            (if r is Ok { log.insert(id, created) } else { log }, m, r)
        } else {
            (log, accounts, Err(ProcessError::TransactionNotFound))
        }
    } else if is_money_kind(rec.ttype) {
        (log, accounts, Err(ProcessError::TransactionExist))
    } else {
        let t = log[id];
        if t.client != rec.client {
            (log, accounts, Err(ProcessError::ClientMismatch))
        } else if !may_follow(t.state, rec.ttype) {
            (log, accounts, Err(wrong_state_error(rec.ttype)))
        } else {
            let (m, r) = ledger_step(accounts, t.client, command_for(rec.ttype, t.amount));
            let moved = Transaction { state: state_of(rec.ttype), ..t };
            (if r is Ok { log.insert(id, moved) } else { log }, m, r)
        }
    }
}

impl Transaction {
    fn new(ac_trans: &AccountTransaction) -> (r: Self)
        ensures
            r == (Transaction {
                client: ac_trans.client,
                state: state_of(ac_trans.ttype),
                amount: ac_trans.amount,
            }),
    {
        let state = match ac_trans.ttype {
            TransactionType::Deposit => TransactionState::Deposit,
            TransactionType::Withdrawal => TransactionState::Withdrawal,
            TransactionType::Disputed => TransactionState::Disputed,
            TransactionType::Resolved => TransactionState::Resolved,
            TransactionType::Chargeback => TransactionState::Chargeback,
        };
        Transaction { client: ac_trans.client, state, amount: ac_trans.amount }
    }

    /// Runs `cmd` on the account of this transaction's client.
    fn run(&self, cmd: AccountCommand, account_store: &mut AccountStore) -> (r: Result<
        (),
        ProcessError,
    >)
        requires
            old(account_store).wf(),
        ensures
            final(account_store).wf(),
            (final(account_store)@, r) == ledger_step(old(account_store)@, self.client, cmd),
    {
        match account_store.modify(self.client, cmd) {
            Ok(Ok(())) => Ok(()),
            Ok(Err(err)) => Err(err),
            Err(err) => Err(ProcessError::AccountError(err)),
        }
    }

    fn deposit(&self, account_store: &mut AccountStore) -> (r: Result<(), ProcessError>)
        requires
            old(account_store).wf(),
        ensures
            final(account_store).wf(),
            (final(account_store)@, r) == ledger_step(
                old(account_store)@,
                self.client,
                AccountCommand::Deposit(self.amount),
            ),
    {
        self.run(AccountCommand::Deposit(self.amount), account_store)
    }

    fn withdraw(&self, account_store: &mut AccountStore) -> (r: Result<(), ProcessError>)
        requires
            old(account_store).wf(),
        ensures
            final(account_store).wf(),
            (final(account_store)@, r) == ledger_step(
                old(account_store)@,
                self.client,
                AccountCommand::Withdraw(self.amount),
            ),
    {
        self.run(AccountCommand::Withdraw(self.amount), account_store)
    }

    fn dispute(&self, account_store: &mut AccountStore) -> (r: Result<(), ProcessError>)
        requires
            old(account_store).wf(),
        ensures
            final(account_store).wf(),
            (final(account_store)@, r) == ledger_step(
                old(account_store)@,
                self.client,
                AccountCommand::Dispute(self.amount),
            ),
    {
        self.run(AccountCommand::Dispute(self.amount), account_store)
    }

    fn resolve(&self, account_store: &mut AccountStore) -> (r: Result<(), ProcessError>)
        requires
            old(account_store).wf(),
        ensures
            final(account_store).wf(),
            (final(account_store)@, r) == ledger_step(
                old(account_store)@,
                self.client,
                AccountCommand::Resolve(self.amount),
            ),
    {
        self.run(AccountCommand::Resolve(self.amount), account_store)
    }

    fn chargeback(&self, account_store: &mut AccountStore) -> (r: Result<(), ProcessError>)
        requires
            old(account_store).wf(),
        ensures
            final(account_store).wf(),
            (final(account_store)@, r) == ledger_step(
                old(account_store)@,
                self.client,
                AccountCommand::Chargeback(self.amount),
            ),
    {
        self.run(AccountCommand::Chargeback(self.amount), account_store)
    }
}

/// The lifecycle records of every accepted deposit and withdrawal, by id.
pub struct TransactionStore {
    store: HashMap<u32, Transaction>,
}

impl View for TransactionStore {
    type V = Map<u32, Transaction>;

    closed spec fn view(&self) -> Map<u32, Transaction> {
        self.store@
    }
}

impl TransactionStore {
    pub fn new() -> (r: Self)
        ensures
            r@ == Map::<u32, Transaction>::empty(),
    {
        TransactionStore { store: HashMap::new() }
    }

    /// The lifecycle record of `id`, if a deposit or withdrawal under it was
    /// accepted.
    pub fn transaction(&self, id: TransactionId) -> (r: Option<Transaction>)
        ensures
            r == (if self@.contains_key(id.0) {
                Some(self@[id.0])
            } else {
                None
            }),
    {
        match self.store.get(&id.0) {
            Some(t) => Some(*t),
            None => None,
        }
    }

    /// Processes one record: decides the transition its kind asks for, runs
    /// the balance change through `account_store`, and advances the lifecycle
    /// record only when that change succeeded.
    pub fn process_transaction(
        &mut self,
        trans: AccountTransaction,
        account_store: &mut AccountStore,
    ) -> (r: Result<(), ProcessError>)
        requires
            old(account_store).wf(),
        ensures
            final(account_store).wf(),
            (final(self)@, final(account_store)@, r) == transition(
                old(self)@,
                old(account_store)@,
                trans,
            ),
    {
        let transaction = Transaction::new(&trans);
        let id = trans.tx_id.0;
        let existing = match self.store.get(&id) {
            Some(t) => Some(*t),
            None => None,
        };
        match (existing, trans.ttype) {
            (None, TransactionType::Deposit) => {
                transaction.deposit(account_store)?;
                self.store.insert(id, transaction);
                Ok(())
            },
            (None, TransactionType::Withdrawal) => {
                transaction.withdraw(account_store)?;
                self.store.insert(id, transaction);
                Ok(())
            },
            (None, _) => Err(ProcessError::TransactionNotFound),
            (Some(_), TransactionType::Deposit) => Err(ProcessError::TransactionExist),
            (Some(_), TransactionType::Withdrawal) => Err(ProcessError::TransactionExist),
            (Some(t), TransactionType::Disputed) => {
                if t.client != transaction.client {
                    return Err(ProcessError::ClientMismatch);
                }
                match t.state {
                    TransactionState::Deposit => (),
                    TransactionState::Withdrawal => (),
                    _ => return Err(ProcessError::AlreadyDisputed),
                }
                t.dispute(account_store)?;
                self.store.insert(id, Transaction { state: TransactionState::Disputed, ..t });
                Ok(())
            },
            (Some(t), TransactionType::Resolved) => {
                if t.client != transaction.client {
                    return Err(ProcessError::ClientMismatch);
                }
                if t.state != TransactionState::Disputed {
                    return Err(ProcessError::DisputeNotOpen);
                }
                t.resolve(account_store)?;
                self.store.insert(id, Transaction { state: TransactionState::Resolved, ..t });
                Ok(())
            },
            (Some(t), TransactionType::Chargeback) => {
                if t.client != transaction.client {
                    return Err(ProcessError::ClientMismatch);
                }
                if t.state != TransactionState::Disputed {
                    return Err(ProcessError::DisputeNotOpen);
                }
                t.chargeback(account_store)?;
                self.store.insert(id, Transaction { state: TransactionState::Chargeback, ..t });
                Ok(())
            },
        }
    }
}

} // verus!
