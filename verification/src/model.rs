//! The ledger as a mathematical value, the effect of each operation on it,
//! and the laws that hold of those effects.

use vstd::prelude::*;
use crate::balances::{
    balance_in, lemma_balance_at_most_sum, lemma_sum_of_empty, lemma_sum_of_insert,
    saturating_sum, sum_of,
};
use crate::types::{AccountId, Call, Error, Event};

verus! {

/// What a ledger holds: the owner, the number of tokens in existence, each
/// account's balance (an account without an entry holds nothing; an entry
/// of zero may stand), and the accounts that may mint.
pub struct LedgerState {
    pub owner: AccountId,
    pub total_supply: u64,
    pub balances: Map<AccountId, u64>,
    pub minters: Set<AccountId>,
}

impl LedgerState {
    /// The state of a fresh ledger: the owner is account 0, nothing has been
    /// minted and nobody may mint.
    pub open spec fn initial() -> LedgerState {
        LedgerState {
            owner: 0,
            total_supply: 0,
            balances: Map::empty(),
            minters: Set::empty(),
        }
    }

    pub open spec fn balance_of(self, account: AccountId) -> u64 {
        balance_in(self.balances, account)
    }

    pub open spec fn is_minter(self, account: AccountId) -> bool {
        self.minters.contains(account)
    }

    /// The sum of all balances.
    pub open spec fn sum_of_balances(self) -> nat {
        sum_of(self.balances)
    }

    /// The ledger's invariant: the balance table is finite and the total
    /// supply is the sum of all balances.
    pub open spec fn is_consistent(self) -> bool {
        &&& self.balances.dom().finite()
        &&& self.total_supply == self.sum_of_balances()
    }

    /// This state with `new_owner` as owner.
    pub open spec fn with_owner(self, new_owner: AccountId) -> LedgerState {
        LedgerState { owner: new_owner, ..self }
    }

    /// This state with `account` among the minters.
    pub open spec fn with_minter(self, account: AccountId) -> LedgerState {
        LedgerState { minters: self.minters.insert(account), ..self }
    }

    /// This state with `account` not among the minters.
    pub open spec fn without_minter(self, account: AccountId) -> LedgerState {
        LedgerState { minters: self.minters.remove(account), ..self }
    }

    /// Whether `amount` more tokens would still fit in the total supply.
    pub open spec fn can_supply(self, amount: u64) -> bool {
        self.total_supply + amount <= u64::MAX
    }

    /// This state after `amount` new tokens went to `to_account`: the total
    /// supply grows by `amount` and the account's balance by `amount`,
    /// clamped to the largest `u64`. Meant for `self.can_supply(amount)`.
    pub open spec fn minted(self, to_account: AccountId, amount: u64) -> LedgerState {
        LedgerState {
            total_supply: (self.total_supply + amount) as u64,
            balances: self.balances.insert(
                to_account,
                saturating_sum(self.balance_of(to_account), amount),
            ),
            ..self
        }
    }

    /// What `call`, made by `signer`, reports in this state.
    pub open spec fn outcome(self, signer: AccountId, call: Call) -> Result<Event, Error> {
        match call {
            Call::SetOwner { new_owner } => Ok(Event::NewOwner(new_owner)),
            Call::AddMinter { new_minter } => if signer == self.owner {
                Ok(Event::MinterAdded(new_minter))
            } else {
                Err(Error::NotOwner)
            },
            Call::RemoveMinter { minter } => if signer == self.owner {
                Ok(Event::MinterRemoved(minter))
            } else {
                Err(Error::NotOwner)
            },
            Call::Mint { to_account, amount } => if !self.is_minter(signer) {
                Err(Error::NotMinter)
            } else if !self.can_supply(amount) {
                Err(Error::SupplyOverflow)
            } else {
                Ok(Event::Mint(signer, to_account, amount))
            },
        }
    }

    /// The state that `call`, made by `signer`, leaves behind: this state
    /// where the call is rejected, and the operation's effect where it is
    /// not.
    pub open spec fn after(self, signer: AccountId, call: Call) -> LedgerState {
        if self.outcome(signer, call) is Err {
            self
        } else {
            match call {
                Call::SetOwner { new_owner } => self.with_owner(new_owner),
                Call::AddMinter { new_minter } => self.with_minter(new_minter),
                Call::RemoveMinter { minter } => self.without_minter(minter),
                Call::Mint { to_account, amount } => self.minted(to_account, amount),
            }
        }
    }

    /// The state reached from a fresh ledger by `calls`, each a signer and
    /// what that signer called, applied first to last.
    pub open spec fn reached_by(calls: Seq<(AccountId, Call)>) -> LedgerState
        decreases calls.len(),
    {
        if calls.len() == 0 {
            LedgerState::initial()
        } else {
            LedgerState::reached_by(calls.drop_last()).after(calls.last().0, calls.last().1)
        }
    }

    /// A fresh ledger is consistent.
    pub proof fn lemma_initial_is_consistent()
        ensures
            LedgerState::initial().is_consistent(),
    {
        lemma_sum_of_empty();
    }

    /// In a consistent state, a mint that the total supply admits never
    /// clamps the receiving balance: it grows by exactly `amount`, no other
    /// balance changes, and the state stays consistent.
    pub proof fn lemma_minted_is_exact(self, to_account: AccountId, amount: u64)
        requires
            self.is_consistent(),
            self.can_supply(amount),
        ensures
            self.minted(to_account, amount).is_consistent(),
            self.minted(to_account, amount).total_supply == self.total_supply + amount,
            self.minted(to_account, amount).balance_of(to_account) == self.balance_of(to_account)
                + amount,
            forall|other: AccountId|
                other != to_account ==> #[trigger] self.minted(to_account, amount).balance_of(
                    other,
                ) == self.balance_of(other),
    {
        lemma_balance_at_most_sum(self.balances, to_account);
        lemma_sum_of_insert(
            self.balances,
            to_account,
            saturating_sum(self.balance_of(to_account), amount),
        );
    }

    /// No call, accepted or rejected, breaks the invariant: after it the
    /// total supply is again the sum of all balances.
    pub proof fn lemma_call_keeps_consistency(self, signer: AccountId, call: Call)
        requires
            self.is_consistent(),
        ensures
            self.after(signer, call).is_consistent(),
            self.after(signer, call).total_supply == self.after(signer, call).sum_of_balances(),
    {
        if let Call::Mint { to_account, amount } = call {
            if self.outcome(signer, call) is Ok {
                self.lemma_minted_is_exact(to_account, amount);
            }
        }
    }

    /// In every state that calls can reach from a fresh ledger, the total
    /// supply is the sum of all balances.
    pub proof fn lemma_reachable_is_consistent(calls: Seq<(AccountId, Call)>)
        ensures
            LedgerState::reached_by(calls).is_consistent(),
            LedgerState::reached_by(calls).total_supply == LedgerState::reached_by(
                calls,
            ).sum_of_balances(),
        decreases calls.len(),
    {
        if calls.len() == 0 {
            LedgerState::lemma_initial_is_consistent();
        } else {
            LedgerState::lemma_reachable_is_consistent(calls.drop_last());
            LedgerState::reached_by(calls.drop_last()).lemma_call_keeps_consistency(
                calls.last().0,
                calls.last().1,
            );
        }
    }

    /// The total supply never shrinks: no call takes tokens out of
    /// existence.
    pub proof fn lemma_supply_never_shrinks(self, signer: AccountId, call: Call)
        ensures
            self.after(signer, call).total_supply >= self.total_supply,
    {
    }

    /// Each part of the state has its gate: a call that changes the minters
    /// was made by the owner, and a call that changes the total supply or a
    /// balance was made by a minter.
    pub proof fn lemma_changes_are_gated(self, signer: AccountId, call: Call)
        ensures
            self.after(signer, call).minters != self.minters ==> signer == self.owner,
            self.after(signer, call).total_supply != self.total_supply ==> self.is_minter(signer),
            self.after(signer, call).balances != self.balances ==> self.is_minter(signer),
    {
    }

    /// Only the owner manages the minters: from any other signer, adding
    /// and removing a minter are rejected with `NotOwner` and change
    /// nothing.
    pub proof fn lemma_only_owner_manages_minters(self, signer: AccountId, account: AccountId)
        requires
            signer != self.owner,
        ensures
            self.outcome(signer, Call::AddMinter { new_minter: account }) == Err::<Event, Error>(
                Error::NotOwner,
            ),
            self.after(signer, Call::AddMinter { new_minter: account }) == self,
            self.outcome(signer, Call::RemoveMinter { minter: account }) == Err::<Event, Error>(
                Error::NotOwner,
            ),
            self.after(signer, Call::RemoveMinter { minter: account }) == self,
    {
    }

    /// Adding a minter twice is adding it once: after the owner's first
    /// call the account is a minter, and a second call by the same signer
    /// reports what the first did and changes nothing more.
    pub proof fn lemma_add_minter_is_idempotent(self, signer: AccountId, account: AccountId)
        ensures
            signer == self.owner ==> self.after(
                signer,
                Call::AddMinter { new_minter: account },
            ).is_minter(account),
            self.with_minter(account).is_minter(account),
            self.with_minter(account).with_minter(account) == self.with_minter(account),
            self.after(signer, Call::AddMinter { new_minter: account }).after(
                signer,
                Call::AddMinter { new_minter: account },
            ) == self.after(signer, Call::AddMinter { new_minter: account }),
            self.after(signer, Call::AddMinter { new_minter: account }).outcome(
                signer,
                Call::AddMinter { new_minter: account },
            ) == self.outcome(signer, Call::AddMinter { new_minter: account }),
    {
        let once = self.with_minter(account);
        assert(once.minters.insert(account) =~= once.minters);
    }

    /// Removing an account that is no minter changes nothing, and the owner
    /// is not refused for it.
    pub proof fn lemma_remove_absent_minter_changes_nothing(
        self,
        signer: AccountId,
        account: AccountId,
    )
        requires
            !self.is_minter(account),
        ensures
            self.without_minter(account) == self,
            self.after(signer, Call::RemoveMinter { minter: account }) == self,
            signer == self.owner ==> self.outcome(signer, Call::RemoveMinter { minter: account })
                == Ok::<Event, Error>(Event::MinterRemoved(account)),
    {
        assert(self.minters.remove(account) =~= self.minters);
    }

    /// A signer who is no minter cannot mint: the call is rejected with
    /// `NotMinter`, and neither the total supply nor any balance changes.
    pub proof fn lemma_non_minter_cannot_mint(
        self,
        signer: AccountId,
        to_account: AccountId,
        amount: u64,
    )
        requires
            !self.is_minter(signer),
        ensures
            self.outcome(signer, Call::Mint { to_account, amount }) == Err::<Event, Error>(
                Error::NotMinter,
            ),
            self.after(signer, Call::Mint { to_account, amount }) == self,
    {
    }

    /// A minter's mint that would take the total supply past the largest
    /// `u64` is rejected with `SupplyOverflow`, and nothing changes: not the
    /// total supply, and not the receiving balance.
    pub proof fn lemma_overflowing_mint_is_rejected(
        self,
        signer: AccountId,
        to_account: AccountId,
        amount: u64,
    )
        requires
            self.is_minter(signer),
            self.total_supply + amount > u64::MAX,
        ensures
            self.outcome(signer, Call::Mint { to_account, amount }) == Err::<Event, Error>(
                Error::SupplyOverflow,
            ),
            self.after(signer, Call::Mint { to_account, amount }) == self,
    {
    }
}

} // verus!
