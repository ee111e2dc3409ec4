//! Per-client balances and the store that owns them.

use std::collections::HashMap;
use vstd::prelude::*;

use crate::account_transactions::ProcessError;
use crate::amount::{fits, Amount};

verus! {

broadcast use vstd::std_specs::hash::group_hash_axioms;

/// A client identifier.
#[derive(Debug, Copy, Clone, PartialEq, Eq, Structural, Hash)]
pub struct AccountId(pub u16);

impl AccountId {
    pub fn new(id: u16) -> (r: Self)
        ensures
            r.0 == id,
    {
        AccountId(id)
    }
}

/// Why the store refused to run a command.
#[derive(Debug, Copy, Clone, PartialEq, Eq, Structural)]
pub enum AccountModifyError {
    /// The account is frozen and can no longer be changed.
    Frozen,
    /// The store's exclusive section was left unusable by an earlier failure.
    TransactionFailed,
}

/// The balances of one client.
///
/// `held` is escrowed by open disputes; `frozen` is set by a chargeback and
/// never cleared.
#[derive(Debug, Copy, Clone)]
pub struct Account {
    pub available: Amount,
    pub held: Amount,
    pub frozen: bool,
}

/// The account a client has before any transaction touched it.
pub open spec fn zero_account() -> Account {
    Account { available: Amount(0), held: Amount(0), frozen: false }
}

impl Default for Account {
    fn default() -> (r: Account)
        ensures
            r == zero_account(),
    {
        Account { available: Amount(0), held: Amount(0), frozen: false }
    }
}

/// A balance change that the store applies to one account.
#[derive(Debug, Copy, Clone, PartialEq, Eq, Structural)]
pub enum AccountCommand {
    /// `available += amount`.
    Deposit(Amount),
    /// `available -= amount`, only when `amount <= available`.
    Withdraw(Amount),
    /// Move `amount` from `available` to `held`.
    Dispute(Amount),
    /// Move `amount` from `held` back to `available`.
    Resolve(Amount),
    /// Remove `amount` from `held` and freeze the account.
    Chargeback(Amount),
}

/// What applying `cmd` to `a` gives: the new account, or the reason it was
/// refused. A refused command changes nothing.
pub open spec fn command_outcome(a: Account, cmd: AccountCommand) -> Result<Account, ProcessError> {
    let avail = a.available.0 as int;
    let held = a.held.0 as int;
    match cmd {
        AccountCommand::Deposit(x) => {
            if !fits(avail + x.0) {
                Err(ProcessError::OverflowError)
            } else {
                Ok(Account { available: Amount((avail + x.0) as i64), ..a })
            }
        },
        AccountCommand::Withdraw(x) => {
            if x.0 > avail {
                Err(ProcessError::InsufficientFunds)
            } else if !fits(avail - x.0) {
                Err(ProcessError::UnderflowError)
            } else {
                Ok(Account { available: Amount((avail - x.0) as i64), ..a })
            }
        },
        AccountCommand::Dispute(x) => {
            if !fits(avail - x.0) {
                Err(ProcessError::UnderflowError)
            } else if !fits(held + x.0) {
                Err(ProcessError::OverflowError)
            } else {
                Ok(
                    Account {
                        available: Amount((avail - x.0) as i64),
                        held: Amount((held + x.0) as i64),
                        ..a
                    },
                )
            }
        },
        AccountCommand::Resolve(x) => {
            if !fits(avail + x.0) {
                Err(ProcessError::OverflowError)
            } else if !fits(held - x.0) {
                Err(ProcessError::UnderflowError)
            } else {
                Ok(
                    Account {
                        available: Amount((avail + x.0) as i64),
                        held: Amount((held - x.0) as i64),
                        ..a
                    },
                )
            }
        },
        AccountCommand::Chargeback(x) => {
            if !fits(held - x.0) {
                Err(ProcessError::UnderflowError)
            } else {
                Ok(Account { held: Amount((held - x.0) as i64), frozen: true, ..a })
            }
        },
    }
}

impl Account {
    /// `available + held`, or `None` when the sum leaves the representable range.
    pub fn total(&self) -> (r: Option<Amount>)
        ensures
            r is Some <==> fits(self.available.0 + self.held.0),
            r matches Some(t) ==> t.0 == self.available.0 + self.held.0,
    {
        self.available.checked_add(self.held)
    }

    /// The account after `cmd`, or why `cmd` is refused.
    pub fn apply(&self, cmd: AccountCommand) -> (r: Result<Account, ProcessError>)
        ensures
            r == command_outcome(*self, cmd),
    {
        match cmd {
            AccountCommand::Deposit(x) => match self.available.checked_add(x) {
                None => Err(ProcessError::OverflowError),
                Some(v) => Ok(Account { available: v, ..*self }),
            },
            AccountCommand::Withdraw(x) => {
                if x > self.available {
                    return Err(ProcessError::InsufficientFunds);
                }
                match self.available.checked_sub(x) {
                    None => Err(ProcessError::UnderflowError),
                    Some(v) => Ok(Account { available: v, ..*self }),
                }
            },
            AccountCommand::Dispute(x) => {
                let available = match self.available.checked_sub(x) {
                    None => return Err(ProcessError::UnderflowError),
                    Some(v) => v,
                };
                let held = match self.held.checked_add(x) {
                    None => return Err(ProcessError::OverflowError),
                    Some(v) => v,
                };
                Ok(Account { available, held, frozen: self.frozen })
            },
            AccountCommand::Resolve(x) => {
                let available = match self.available.checked_add(x) {
                    None => return Err(ProcessError::OverflowError),
                    Some(v) => v,
                };
                let held = match self.held.checked_sub(x) {
                    None => return Err(ProcessError::UnderflowError),
                    Some(v) => v,
                };
                Ok(Account { available, held, frozen: self.frozen })
            },
            AccountCommand::Chargeback(x) => match self.held.checked_sub(x) {
                None => Err(ProcessError::UnderflowError),
                Some(v) => Ok(Account { available: self.available, held: v, frozen: true }),
            },
        }
    }
}

/// The account that `accounts` holds for `id`, or the zero account when it
/// holds none yet.
pub open spec fn account_of(accounts: Map<u16, Account>, id: u16) -> Account {
    if accounts.contains_key(id) {
        accounts[id]
    } else {
        zero_account()
    }
}

/// Running `cmd` on the account of `id` whatever its frozen flag: the account
/// is created if absent, and changed only when `cmd` is not refused.
pub open spec fn force_outcome(accounts: Map<u16, Account>, id: u16, cmd: AccountCommand) -> (
    Map<u16, Account>,
    Result<Result<(), ProcessError>, AccountModifyError>,
) {
    let a = account_of(accounts, id);
    match command_outcome(a, cmd) {
        Ok(n) => (accounts.insert(id, n), Ok(Ok(()))),
        Err(e) => (accounts.insert(id, a), Ok(Err(e))),
    }
}

/// Running `cmd` on the account of `id`: refused with `Frozen`, and nothing
/// changed, when that account is frozen.
pub open spec fn modify_outcome(accounts: Map<u16, Account>, id: u16, cmd: AccountCommand) -> (
    Map<u16, Account>,
    Result<Result<(), ProcessError>, AccountModifyError>,
) {
    if account_of(accounts, id).frozen {
        (accounts, Err(AccountModifyError::Frozen))
    } else {
        force_outcome(accounts, id, cmd)
    }
}

/// The ledger: one account per client that any command has referenced.
///
/// Every change goes through `&mut self`, so no two commands ever run on one
/// store at the same time; a store shared between threads is put behind a lock.
pub struct AccountStore {
    accounts: HashMap<u16, Account>,
    /// Each client of `accounts` once, in the order they were first referenced.
    clients: Vec<u16>,
}

impl View for AccountStore {
    type V = Map<u16, Account>;

    closed spec fn view(&self) -> Map<u16, Account> {
        self.accounts@
    }
}

impl AccountStore {
    /// The client list names each account of the map exactly once.
    pub closed spec fn wf(&self) -> bool {
        &&& self.clients@.no_duplicates()
        &&& forall|k: u16| self.accounts@.contains_key(k) <==> self.clients@.contains(k)
    }

    pub fn new() -> (r: Self)
        ensures
            r.wf(),
            r@ == Map::<u16, Account>::empty(),
    {
        AccountStore { accounts: HashMap::new(), clients: Vec::new() }
    }

    /// The account of `id`, created with zero balances if absent.
    fn entry(&mut self, id: u16) -> (a: Account)
        requires
            old(self).wf(),
        ensures
            final(self).wf(),
            a == account_of(old(self)@, id),
            final(self)@ == old(self)@.insert(id, a),
    {
        match self.accounts.get(&id) {
            Some(a) => {
                let a = *a;
                assert(self.accounts@.insert(id, a) =~= self.accounts@);
                a
            },
            None => {
                let a = Account::default();
                let ghost old_clients = self.clients@;
                self.accounts.insert(id, a);
                self.clients.push(id);
                proof {
                    assert(self.clients@ == old_clients.push(id));
                    assert(!old_clients.contains(id));
                    assert forall|i: int, j: int|
                        0 <= i < self.clients@.len() && 0 <= j < self.clients@.len() && i != j
                            implies self.clients@[i] != self.clients@[j] by {
                        if i == old_clients.len() {
                            assert(old_clients[j] == self.clients@[j]);
                        } else if j == old_clients.len() {
                            assert(old_clients[i] == self.clients@[i]);
                        }
                    }
                    assert forall|k: u16|
                        self.accounts@.contains_key(k) <==> self.clients@.contains(k) by {
                        if old_clients.contains(k) {
                            let j = choose|j: int| 0 <= j < old_clients.len() && old_clients[j] == k;
                            assert(self.clients@[j] == k);
                        }
                        if k == id {
                            assert(self.clients@[old_clients.len() as int] == id);
                        }
                        if self.clients@.contains(k) && k != id {
                            let j = choose|j: int|
                                0 <= j < self.clients@.len() && self.clients@[j] == k;
                            assert(old_clients[j] == k);
                        }
                    }
                }
                a
            },
        }
    }

    /// The account of `id`, if any command has referenced it.
    pub fn account(&self, id: AccountId) -> (r: Option<Account>)
        ensures
            r == (if self@.contains_key(id.0) {
                Some(self@[id.0])
            } else {
                None
            }),
    {
        match self.accounts.get(&id.0) {
            Some(a) => Some(*a),
            None => None,
        }
    }

    /// Every account with its client, each client once.
    pub fn snapshot(&self) -> (r: Vec<(AccountId, Account)>)
        requires
            self.wf(),
        ensures
            forall|i: int|
                0 <= i < r.len() ==> self@.contains_key(#[trigger] r@[i].0.0) && r@[i].1
                    == self@[r@[i].0.0],
            forall|k: u16|
                #[trigger] self@.contains_key(k) ==> exists|i: int|
                    0 <= i < r.len() && #[trigger] r@[i].0.0 == k,
            forall|i: int, j: int| 0 <= i < j < r.len() ==> r@[i].0 != r@[j].0,
    {
        let mut r: Vec<(AccountId, Account)> = Vec::new();
        let mut i: usize = 0;
        while i < self.clients.len()
            invariant
                self.wf(),
                i <= self.clients@.len(),
                r@.len() == i,
                forall|j: int|
                    0 <= j < i ==> r@[j].0.0 == self.clients@[j] && self.accounts@.contains_key(
                        self.clients@[j],
                    ) && r@[j].1 == self.accounts@[self.clients@[j]],
            decreases self.clients@.len() - i,
        {
            let id = self.clients[i];
            assert(self.clients@.contains(id));
            match self.accounts.get(&id) {
                Some(a) => r.push((AccountId(id), *a)),
                None => {
                    // every listed client has an account
                    assert(false);
                },
            }
            i = i + 1;
        }
        assert forall|k: u16| #[trigger] self@.contains_key(k) implies exists|i: int|
            0 <= i < r.len() && #[trigger] r@[i].0.0 == k by {
            assert(self.clients@.contains(k));
            let j = choose|j: int| 0 <= j < self.clients@.len() && self.clients@[j] == k;
            assert(r@[j].0.0 == k);
        }
        assert forall|i: int|
            0 <= i < r.len() implies self@.contains_key(#[trigger] r@[i].0.0) && r@[i].1
                == self@[r@[i].0.0] by {
            assert(r@[i].0.0 == self.clients@[i]);
        }
        assert forall|i: int, j: int| 0 <= i < j < r.len() implies r@[i].0 != r@[j].0 by {
            assert(self.clients@[i] != self.clients@[j]);
        }
        r
    }

    /// Runs `cmd` on the account of `id`, creating the account if absent.
    ///
    /// A frozen account is left as it is and the call fails with `Frozen`.
    /// Otherwise the command's own outcome is returned, and the account is
    /// changed only when that outcome is a success.
    pub fn modify(&mut self, id: AccountId, cmd: AccountCommand) -> (r: Result<
        Result<(), ProcessError>,
        AccountModifyError,
    >)
        requires
            old(self).wf(),
        ensures
            final(self).wf(),
            (final(self)@, r) == modify_outcome(old(self)@, id.0, cmd),
            account_of(old(self)@, id.0).frozen ==> final(self)@ == old(self)@,
    {
        let a = self.entry(id.0);
        if a.frozen {
            assert(self@ =~= old(self)@);
            return Err(AccountModifyError::Frozen);
        }
        self.commit(id.0, a, cmd)
    }

    /// Runs `cmd` on the account of `id`, creating the account if absent.
    ///
    /// The frozen latch binds this entry point too: a frozen account is left
    /// as it is and the call fails with `Frozen`, exactly as in `modify`.
    pub fn modify_force(&mut self, id: AccountId, cmd: AccountCommand) -> (r: Result<
        Result<(), ProcessError>,
        AccountModifyError,
    >)
        requires
            old(self).wf(),
        ensures
            final(self).wf(),
            (final(self)@, r) == modify_outcome(old(self)@, id.0, cmd),
            account_of(old(self)@, id.0).frozen ==> final(self)@ == old(self)@,
    {
        let a = self.entry(id.0);
        if a.frozen {
            assert(self@ =~= old(self)@);
            return Err(AccountModifyError::Frozen);
        }
        self.commit(id.0, a, cmd)
    }

    /// Applies `cmd` to `a`, the account already held for `id`, and stores
    /// the result when it succeeds.
    fn commit(&mut self, id: u16, a: Account, cmd: AccountCommand) -> (r: Result<
        Result<(), ProcessError>,
        AccountModifyError,
    >)
        requires
            old(self).wf(),
            old(self)@.contains_key(id),
            old(self)@[id] == a,
        ensures
            final(self).wf(),
            (final(self)@, r) == force_outcome(old(self)@, id, cmd),
    {
        match a.apply(cmd) {
            Ok(n) => {
                self.accounts.insert(id, n);
                assert forall|k: u16| self.accounts@.contains_key(k) <==> self.clients@.contains(k) by {
                    assert(old(self).accounts@.contains_key(id));
                }
                Ok(Ok(()))
            },
            Err(e) => {
                assert(self.accounts@.insert(id, a) =~= self.accounts@);
                Ok(Err(e))
            },
        }
    }
}

} // verus!
