//! The balance table as a mathematical map, and the sum of its entries.

use vstd::prelude::*;
use crate::types::AccountId;

verus! {

/// The balance of `account` in `table`: its entry, or zero without one.
pub open spec fn balance_in(table: Map<AccountId, u64>, account: AccountId) -> u64 {
    if table.contains_key(account) {
        table[account]
    } else {
        0
    }
}

/// The sum of all entries of a finite table.
pub open spec fn sum_of(table: Map<AccountId, u64>) -> nat
    decreases table.dom().len(),
    when table.dom().finite()
    via sum_of_decreases
{
    if table.dom().len() == 0 {
        0
    } else {
        let account = table.dom().choose();
        table[account] as nat + sum_of(table.remove(account))
    }
}

#[via_fn]
proof fn sum_of_decreases(table: Map<AccountId, u64>) {
    if table.dom().len() != 0 {
        let account = table.dom().choose();
        assert(table.dom().contains(account));
        assert(table.remove(account).dom() =~= table.dom().remove(account));
    }
}

/// The table that results from writing `entries` in order into an empty
/// table: where an account occurs more than once, its last entry stands.
pub open spec fn table_of(entries: Seq<(AccountId, u64)>) -> Map<AccountId, u64>
    decreases entries.len(),
{
    if entries.len() == 0 {
        Map::empty()
    } else {
        table_of(entries.drop_last()).insert(entries.last().0, entries.last().1)
    }
}

/// The accounts that occur in `accounts`.
pub open spec fn accounts_in(accounts: Seq<AccountId>) -> Set<AccountId> {
    Set::new(|account: AccountId| accounts.contains(account))
}

/// `a + b`, clamped to the largest `u64`.
pub open spec fn saturating_sum(a: u64, b: u64) -> u64 {
    if a + b > u64::MAX {
        u64::MAX
    } else {
        (a + b) as u64
    }
}

/// The sum of an empty table is zero.
pub proof fn lemma_sum_of_empty()
    ensures
        sum_of(Map::<AccountId, u64>::empty()) == 0,
{
    assert(Map::<AccountId, u64>::empty().dom() =~= Set::<AccountId>::empty());
}

/// Any entry can be split off the sum, not only the one the definition
/// happens to pick.
pub proof fn lemma_sum_of_split(table: Map<AccountId, u64>, account: AccountId)
    requires
        table.dom().finite(),
        table.contains_key(account),
    ensures
        sum_of(table) == table[account] + sum_of(table.remove(account)),
    decreases table.dom().len(),
{
    assert(table.dom().len() != 0) by {
        if table.dom().len() == 0 {
            assert(table.dom() =~= Set::<AccountId>::empty());
        }
    }
    let picked = table.dom().choose();
    assert(table.dom().contains(picked));
    if picked != account {
        let rest = table.remove(picked);
        let other = table.remove(account);
        assert(rest.dom() =~= table.dom().remove(picked));
        assert(other.dom() =~= table.dom().remove(account));
        lemma_sum_of_split(rest, account);
        lemma_sum_of_split(other, picked);
        assert(rest.remove(account) =~= other.remove(picked));
    }
}

/// Writing `balance` at `account` changes the sum by the difference to what
/// the account held before.
pub proof fn lemma_sum_of_insert(table: Map<AccountId, u64>, account: AccountId, balance: u64)
    requires
        table.dom().finite(),
    ensures
        sum_of(table.insert(account, balance)) + balance_in(table, account) == sum_of(table)
            + balance,
{
    let written = table.insert(account, balance);
    assert(written.dom() =~= table.dom().insert(account));
    lemma_sum_of_split(written, account);
    assert(written.remove(account) =~= table.remove(account));
    if table.contains_key(account) {
        lemma_sum_of_split(table, account);
    } else {
        assert(table.remove(account) =~= table);
    }
}

/// No account holds more than the sum of all balances.
pub proof fn lemma_balance_at_most_sum(table: Map<AccountId, u64>, account: AccountId)
    requires
        table.dom().finite(),
    ensures
        balance_in(table, account) <= sum_of(table),
{
    if table.contains_key(account) {
        lemma_sum_of_split(table, account);
    }
}

} // verus!
