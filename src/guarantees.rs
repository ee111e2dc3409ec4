//! What holds of every run of the state machine, over records and sequences of
//! records.

use vstd::prelude::*;

use crate::account::{Account, AccountCommand, AccountId, AccountModifyError, account_of};
use crate::account_transactions::{
    AccountTransaction, ProcessError, Transaction, TransactionState, TransactionType, is_money_kind,
    ledger_step, may_follow, transition,
};
use crate::amount::{Amount, fits};

verus! {

/// The records and accounts after processing `recs` in order, starting from
/// `log` and `accounts`; failed records are skipped.
pub open spec fn replay(
    log: Map<u32, Transaction>,
    accounts: Map<u16, Account>,
    recs: Seq<AccountTransaction>,
) -> (Map<u32, Transaction>, Map<u16, Account>)
    decreases recs.len(),
{
    if recs.len() == 0 {
        (log, accounts)
    } else {
        let (l, a) = replay(log, accounts, recs.drop_last());
        let (l2, a2, _) = transition(l, a, recs.last());
        (l2, a2)
    }
}

/// `start` plus the amounts of the records of `client`, added one at a time
/// with checked addition: `None` as soon as a partial sum leaves the range.
pub open spec fn checked_total(client: AccountId, start: int, recs: Seq<AccountTransaction>) -> Option<
    int,
>
    decreases recs.len(),
{
    if recs.len() == 0 {
        Some(start)
    } else {
        match checked_total(client, start, recs.drop_last()) {
            None => None,
            Some(s) => {
                let last = recs.last();
                if last.client != client {
                    Some(s)
                } else if fits(s + last.amount.0) {
                    Some(s + last.amount.0)
                } else {
                    None
                }
            },
        }
    }
}

/// A record that fails changes neither the lifecycle records nor any account.
pub proof fn lemma_failure_changes_nothing(
    log: Map<u32, Transaction>,
    accounts: Map<u16, Account>,
    rec: AccountTransaction,
)
    ensures
        ({
            let (l2, a2, r) = transition(log, accounts, rec);
            r is Err ==> l2 == log && forall|c: u16| account_of(a2, c) == account_of(accounts, c)
        }),
{
}

/// A record never takes an id out of the lifecycle records.
pub proof fn lemma_ids_persist(
    log: Map<u32, Transaction>,
    accounts: Map<u16, Account>,
    recs: Seq<AccountTransaction>,
)
    ensures
        forall|k: u32| log.contains_key(k) ==> #[trigger] replay(log, accounts, recs).0.contains_key(k),
    decreases recs.len(),
{
    if recs.len() > 0 {
        let prefix = recs.drop_last();
        lemma_ids_persist(log, accounts, prefix);
        let (l, a) = replay(log, accounts, prefix);
        assert forall|k: u32| log.contains_key(k) implies #[trigger] replay(
            log,
            accounts,
            recs,
        ).0.contains_key(k) by {
            assert(replay(log, accounts, prefix).0.contains_key(k));
            assert(l.contains_key(k));
        }
    }
}

/// For deposits under fresh, distinct ids, the available balance of a client
/// ends as the checked sum of its starting balance and its deposits, whenever
/// that sum never leaves the range.
pub proof fn lemma_deposits_add_up(
    log: Map<u32, Transaction>,
    accounts: Map<u16, Account>,
    client: AccountId,
    recs: Seq<AccountTransaction>,
)
    requires
        forall|i: int| 0 <= i < recs.len() ==> #[trigger] recs[i].ttype == TransactionType::Deposit,
        forall|i: int, j: int|
            0 <= i < j < recs.len() ==> #[trigger] recs[i].tx_id != #[trigger] recs[j].tx_id,
        forall|i: int| 0 <= i < recs.len() ==> !log.contains_key(#[trigger] recs[i].tx_id.0),
        !account_of(accounts, client.0).frozen,
        checked_total(client, account_of(accounts, client.0).available.0 as int, recs) is Some,
    ensures
        account_of(replay(log, accounts, recs).1, client.0).available.0 == checked_total(
            client,
            account_of(accounts, client.0).available.0 as int,
            recs,
        )->Some_0,
        !account_of(replay(log, accounts, recs).1, client.0).frozen,
        forall|k: u32|
            !log.contains_key(k) && (forall|i: int| 0 <= i < recs.len() ==> recs[i].tx_id.0 != k)
                ==> !#[trigger] replay(log, accounts, recs).0.contains_key(k),
    decreases recs.len(),
{
    if recs.len() > 0 {
        let prefix = recs.drop_last();
        let last = recs.last();
        assert forall|i: int| 0 <= i < prefix.len() implies #[trigger] prefix[i].ttype
            == TransactionType::Deposit by {
            assert(prefix[i] == recs[i]);
        }
        assert forall|i: int, j: int| 0 <= i < j < prefix.len() implies #[trigger] prefix[i].tx_id
            != #[trigger] prefix[j].tx_id by {
            assert(prefix[i] == recs[i] && prefix[j] == recs[j]);
        }
        assert forall|i: int| 0 <= i < prefix.len() implies !log.contains_key(
            #[trigger] prefix[i].tx_id.0,
        ) by {
            assert(prefix[i] == recs[i]);
        }
        lemma_deposits_add_up(log, accounts, client, prefix);
        let (l, a) = replay(log, accounts, prefix);
        assert(last == recs[recs.len() - 1]);
        assert(last.ttype == TransactionType::Deposit);
        assert(!l.contains_key(last.tx_id.0)) by {
            assert(!log.contains_key(last.tx_id.0));
            assert forall|i: int| 0 <= i < prefix.len() implies prefix[i].tx_id.0
                != last.tx_id.0 by {
                assert(prefix[i] == recs[i]);
                assert(recs[i].tx_id != recs[recs.len() - 1].tx_id);
            }
        }
        assert forall|k: u32|
            !log.contains_key(k) && (forall|i: int| 0 <= i < recs.len() ==> recs[i].tx_id.0 != k)
                implies !#[trigger] replay(log, accounts, recs).0.contains_key(k) by {
            assert forall|i: int| 0 <= i < prefix.len() implies prefix[i].tx_id.0 != k by {
                assert(prefix[i] == recs[i]);
            }
            assert(recs[recs.len() - 1].tx_id.0 != k);
        }
    }
}

/// A withdrawal of more than the available balance never succeeds, and a
/// withdrawal that fails leaves the records and every account as they were.
pub proof fn lemma_withdrawal_needs_funds(
    log: Map<u32, Transaction>,
    accounts: Map<u16, Account>,
    rec: AccountTransaction,
)
    requires
        rec.ttype == TransactionType::Withdrawal,
    ensures
        ({
            let (l2, a2, r) = transition(log, accounts, rec);
            &&& rec.amount.0 > account_of(accounts, rec.client.0).available.0 ==> r is Err
            &&& r is Err ==> l2 == log && forall|c: u16|
                account_of(a2, c) == account_of(accounts, c)
        }),
{
    lemma_failure_changes_nothing(log, accounts, rec);
}

/// Once a deposit or withdrawal has been accepted, no later deposit or
/// withdrawal can use its id again, whatever was processed in between.
pub proof fn lemma_ids_are_one_shot(
    log: Map<u32, Transaction>,
    accounts: Map<u16, Account>,
    first: AccountTransaction,
    between: Seq<AccountTransaction>,
    again: AccountTransaction,
)
    requires
        is_money_kind(first.ttype),
        is_money_kind(again.ttype),
        again.tx_id == first.tx_id,
        transition(log, accounts, first).2 is Ok,
    ensures
        ({
            let (l1, a1, _) = transition(log, accounts, first);
            let (l2, a2) = replay(l1, a1, between);
            transition(l2, a2, again) == (l2, a2, Err::<(), ProcessError>(
                ProcessError::TransactionExist,
            ))
        }),
{
    let (l1, a1, _) = transition(log, accounts, first);
    assert(l1.contains_key(first.tx_id.0));
    lemma_ids_persist(l1, a1, between);
}

/// A dispute is accepted only for the client of the disputed transaction and
/// only while it is an undisputed deposit or withdrawal; it then moves the
/// transaction's amount from `available` to `held`, keeps the total, and
/// marks the transaction disputed.
pub proof fn lemma_dispute(
    log: Map<u32, Transaction>,
    accounts: Map<u16, Account>,
    rec: AccountTransaction,
)
    requires
        rec.ttype == TransactionType::Disputed,
    ensures
        ({
            let (l2, a2, r) = transition(log, accounts, rec);
            let id = rec.tx_id.0;
            let t = log[id];
            let before = account_of(accounts, rec.client.0);
            let after = account_of(a2, rec.client.0);
            &&& log.contains_key(id) && t.client != rec.client ==> r == Err::<(), ProcessError>(
                ProcessError::ClientMismatch,
            )
            &&& r is Ok ==> {
                &&& log.contains_key(id)
                &&& t.client == rec.client
                &&& t.state is Deposit || t.state is Withdrawal
                &&& l2 == log.insert(id, Transaction { state: TransactionState::Disputed, ..t })
                &&& after.available.0 == before.available.0 - t.amount.0
                &&& after.held.0 == before.held.0 + t.amount.0
                &&& after.available.0 + after.held.0 == before.available.0 + before.held.0
                &&& after.frozen == before.frozen
            }
        }),
{
}

/// A resolve is accepted only for a disputed transaction of the same client;
/// it then moves the amount from `held` back to `available`, keeps the total,
/// and marks the transaction resolved.
pub proof fn lemma_resolve(
    log: Map<u32, Transaction>,
    accounts: Map<u16, Account>,
    rec: AccountTransaction,
)
    requires
        rec.ttype == TransactionType::Resolved,
    ensures
        ({
            let (l2, a2, r) = transition(log, accounts, rec);
            let id = rec.tx_id.0;
            let t = log[id];
            let before = account_of(accounts, rec.client.0);
            let after = account_of(a2, rec.client.0);
            r is Ok ==> {
                &&& log.contains_key(id)
                &&& t.client == rec.client
                &&& t.state is Disputed
                &&& l2 == log.insert(id, Transaction { state: TransactionState::Resolved, ..t })
                &&& after.available.0 == before.available.0 + t.amount.0
                &&& after.held.0 == before.held.0 - t.amount.0
                &&& after.available.0 + after.held.0 == before.available.0 + before.held.0
                &&& after.frozen == before.frozen
            }
        }),
{
}

/// A chargeback is accepted only for a disputed transaction of the same
/// client; it then removes the amount from `held`, freezes the account and
/// marks the transaction charged back.
pub proof fn lemma_chargeback(
    log: Map<u32, Transaction>,
    accounts: Map<u16, Account>,
    rec: AccountTransaction,
)
    requires
        rec.ttype == TransactionType::Chargeback,
    ensures
        ({
            let (l2, a2, r) = transition(log, accounts, rec);
            let id = rec.tx_id.0;
            let t = log[id];
            let before = account_of(accounts, rec.client.0);
            let after = account_of(a2, rec.client.0);
            r is Ok ==> {
                &&& log.contains_key(id)
                &&& t.client == rec.client
                &&& t.state is Disputed
                &&& l2 == log.insert(id, Transaction { state: TransactionState::Chargeback, ..t })
                &&& after.available == before.available
                &&& after.held.0 == before.held.0 - t.amount.0
                &&& after.frozen
            }
        }),
{
}

/// On a frozen account every record of its client fails and changes nothing;
/// each one that passes the id and lifecycle checks fails with `Frozen`.
pub proof fn lemma_frozen_refuses(
    log: Map<u32, Transaction>,
    accounts: Map<u16, Account>,
    rec: AccountTransaction,
)
    requires
        account_of(accounts, rec.client.0).frozen,
    ensures
        ({
            let (l2, a2, r) = transition(log, accounts, rec);
            let id = rec.tx_id.0;
            let reaches_ledger = if log.contains_key(id) {
                !is_money_kind(rec.ttype) && log[id].client == rec.client && may_follow(
                    log[id].state,
                    rec.ttype,
                )
            } else {
                is_money_kind(rec.ttype)
            };
            &&& r is Err
            &&& l2 == log
            &&& a2 == accounts
            &&& reaches_ledger ==> r == Err::<(), ProcessError>(
                ProcessError::AccountError(AccountModifyError::Frozen),
            )
        }),
{
}

/// A frozen account stays exactly as it is, whatever records follow.
pub proof fn lemma_frozen_is_final(
    log: Map<u32, Transaction>,
    accounts: Map<u16, Account>,
    client: AccountId,
    recs: Seq<AccountTransaction>,
)
    requires
        account_of(accounts, client.0).frozen,
    ensures
        account_of(replay(log, accounts, recs).1, client.0) == account_of(accounts, client.0),
    decreases recs.len(),
{
    if recs.len() > 0 {
        lemma_frozen_is_final(log, accounts, client, recs.drop_last());
    }
}

} // verus!
