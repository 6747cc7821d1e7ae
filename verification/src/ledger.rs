//! The executable ledger. Each operation takes the authenticated signer and
//! its arguments, checks its guards before it writes anything, and returns
//! the event for the host to emit or the error that rejected the call.

use std::collections::{HashMap, HashSet};
use vstd::prelude::*;
use crate::balances::{
    accounts_in, balance_in, lemma_balance_at_most_sum, lemma_sum_of_empty, lemma_sum_of_insert,
    saturating_sum, sum_of, table_of,
};
use crate::model::LedgerState;
use crate::types::{AccountId, Call, Error, Event};

verus! {

/// The total supply with the balance table it is the sum of. The two change
/// together, in one step: there is no book in which they disagree.
struct Book {
    total_supply: u64,
    balances: HashMap<AccountId, u64>,
}

impl Book {
    /// The total supply is the sum of all balances.
    #[verifier::type_invariant]
    spec fn balanced(&self) -> bool {
        self.total_supply == sum_of(self.balances@)
    }

    /// A book without tokens.
    fn empty() -> (book: Book)
        ensures
            book.total_supply == 0,
            book.balances@ == Map::<AccountId, u64>::empty(),
    {
        proof {
            lemma_sum_of_empty();
        }
        Book { total_supply: 0, balances: HashMap::new() }
    }

    /// What `account` holds; zero without an entry.
    fn balance_of(&self, account: AccountId) -> (balance: u64)
        ensures
            balance == balance_in(self.balances@, account),
    {
        match self.balances.get(&account) {
            Some(balance) => *balance,
            None => 0,
        }
    }

    /// Adds `amount` to the total supply and to the balance of
    /// `to_account`, or does nothing and returns `false` if the total
    /// supply would overflow.
    fn credit(&mut self, to_account: AccountId, amount: u64) -> (done: bool)
        ensures
            done == (old(self).total_supply + amount <= u64::MAX),
            !done ==> *final(self) == *old(self),
            done ==> final(self).total_supply == old(self).total_supply + amount,
            done ==> final(self).balances@ == old(self).balances@.insert(
                to_account,
                saturating_sum(balance_in(old(self).balances@, to_account), amount),
            ),
    {
        proof {
            use_type_invariant(&*self);
        }
        let new_supply: u64 = match self.total_supply.checked_add(amount) {
            Some(sum) => sum,
            None => {
                return false;
            },
        };
        let new_balance: u64 = self.balance_of(to_account).saturating_add(amount);
        // The book is taken out whole and put back whole, so that the supply
        // and the balances are never seen to disagree.
        let mut taken = Book::empty();
        core::mem::swap(self, &mut taken);
        let Book { total_supply: _, mut balances } = taken;
        proof {
            lemma_balance_at_most_sum(balances@, to_account);
            lemma_sum_of_insert(balances@, to_account, new_balance);
        }
        balances.insert(to_account, new_balance);
        *self = Book { total_supply: new_supply, balances };
        true
    }
}

/// A token ledger. Its view is the [`LedgerState`] it holds. In every
/// ledger the total supply is the sum of all balances: no operation can
/// leave one in which it is not.
pub struct Ledger {
    owner: AccountId,
    book: Book,
    minters: HashSet<AccountId>,
}

impl View for Ledger {
    type V = LedgerState;

    closed spec fn view(&self) -> LedgerState {
        LedgerState {
            owner: self.owner,
            total_supply: self.book.total_supply,
            balances: self.book.balances@,
            minters: self.minters@,
        }
    }
}

impl Ledger {
    /// A fresh ledger: owned by account 0, with no tokens and no minters.
    pub fn new() -> (ledger: Ledger)
        ensures
            ledger@ == LedgerState::initial(),
            ledger@.is_consistent(),
    {
        proof {
            lemma_sum_of_empty();
        }
        Ledger { owner: 0, book: Book::empty(), minters: HashSet::new() }
    }

    /// A ledger with the given owner, balances and minters, as a host
    /// restores it from what it has stored. The balances are written in
    /// order, so the last entry of an account stands, and the total supply
    /// is their sum. There is no such ledger, and the result is `None`, if
    /// and only if that sum does not fit in a `u64`.
    pub fn from_parts(
        owner: AccountId,
        balances: &Vec<(AccountId, u64)>,
        minters: &Vec<AccountId>,
    ) -> (r: Option<Ledger>)
        ensures
            r is Some <==> sum_of(table_of(balances@)) <= u64::MAX,
            r is Some ==> r->0@.is_consistent() && r->0@ == (LedgerState {
                owner,
                total_supply: sum_of(table_of(balances@)) as u64,
                balances: table_of(balances@),
                minters: accounts_in(minters@),
            }),
    {
        let mut table: HashMap<AccountId, u64> = HashMap::new();
        let mut sum: u128 = 0;
        proof {
            lemma_sum_of_empty();
        }
        let mut i: usize = 0;
        while i < balances.len()
            invariant
                i <= balances.len(),
                table@ == table_of(balances@.take(i as int)),
                sum == sum_of(table@),
                sum <= i * u64::MAX,
            decreases balances.len() - i,
        {
            let (account, balance) = balances[i];
            let held: u64 = match table.get(&account) {
                Some(held) => *held,
                None => 0,
            };
            proof {
                lemma_balance_at_most_sum(table@, account);
                lemma_sum_of_insert(table@, account, balance);
                assert(balances@.take(i + 1).drop_last() =~= balances@.take(i as int));
            }
            sum = sum - (held as u128) + (balance as u128);
            table.insert(account, balance);
            i = i + 1;
        }
        assert(balances@.take(i as int) =~= balances@);
        let mut allowed: HashSet<AccountId> = HashSet::new();
        let mut j: usize = 0;
        while j < minters.len()
            invariant
                j <= minters.len(),
                allowed@ == accounts_in(minters@.take(j as int)),
            decreases minters.len() - j,
        {
            proof {
                let before = minters@.take(j as int);
                let with_next = minters@.take(j + 1);
                assert(with_next =~= before.push(minters@[j as int]));
                assert forall|account: AccountId|
                    with_next.contains(account) <==> before.contains(account) || account
                        == minters@[j as int] by {
                    if before.contains(account) {
                        let k = choose|k: int| 0 <= k < before.len() && before[k] == account;
                        assert(with_next[k] == account);
                    }
                    if account == minters@[j as int] {
                        assert(with_next[j as int] == account);
                    }
                }
                assert(accounts_in(with_next) =~= accounts_in(before).insert(minters@[j as int]));
            }
            allowed.insert(minters[j]);
            j = j + 1;
        }
        assert(minters@.take(j as int) =~= minters@);
        if sum > 0xffff_ffff_ffff_ffff_u128 {
            return None;
        }
        Some(
            Ledger {
                owner,
                book: Book { total_supply: sum as u64, balances: table },
                minters: allowed,
            },
        )
    }

    /// The account that manages the minters.
    pub fn owner(&self) -> (owner: AccountId)
        ensures
            owner == self@.owner,
    {
        self.owner
    }

    /// The number of tokens in existence.
    pub fn total_supply(&self) -> (supply: u64)
        ensures
            supply == self@.total_supply,
            supply == self@.sum_of_balances(),
    {
        proof {
            use_type_invariant(&self.book);
        }
        self.book.total_supply
    }

    /// What `account` holds; zero for an account the ledger has never seen.
    pub fn balance_of(&self, account: AccountId) -> (balance: u64)
        ensures
            balance == self@.balance_of(account),
    {
        self.book.balance_of(account)
    }

    /// Whether `account` may mint.
    pub fn is_minter(&self, account: AccountId) -> (allowed: bool)
        ensures
            allowed == self@.is_minter(account),
    {
        self.minters.contains(&account)
    }

    /// The owner guard: hands `account` back if it is the owner, and
    /// `NotOwner` if it is not.
    pub fn ensure_owner(&self, account: AccountId) -> (r: Result<AccountId, Error>)
        ensures
            account == self@.owner ==> r == Ok::<AccountId, Error>(account),
            account != self@.owner ==> r == Err::<AccountId, Error>(Error::NotOwner),
    {
        if account != self.owner {
            return Err(Error::NotOwner);
        }
        Ok(account)
    }

    /// The minter guard: hands `account` back if it is a minter, and
    /// `NotMinter` if it is not.
    pub fn ensure_minter(&self, account: AccountId) -> (r: Result<AccountId, Error>)
        ensures
            self@.is_minter(account) ==> r == Ok::<AccountId, Error>(account),
            !self@.is_minter(account) ==> r == Err::<AccountId, Error>(Error::NotMinter),
    {
        if !self.is_minter(account) {
            return Err(Error::NotMinter);
        }
        Ok(account)
    }

    /// Makes `new_owner` the owner. Any signer may do so: the ledger puts no
    /// guard on this operation, so it never fails, and a host that wants
    /// ownership protected has to call `ensure_owner` first.
    pub fn set_owner(&mut self, signer: AccountId, new_owner: AccountId) -> (r: Result<
        Event,
        Error,
    >)
        ensures
            final(self)@.is_consistent(),
            r == Ok::<Event, Error>(Event::NewOwner(new_owner)),
            final(self)@ == old(self)@.with_owner(new_owner),
            r == old(self)@.outcome(signer, Call::SetOwner { new_owner }),
            final(self)@ == old(self)@.after(signer, Call::SetOwner { new_owner }),
    {
        proof {
            use_type_invariant(&self.book);
        }
        self.owner = new_owner;
        Ok(Event::NewOwner(new_owner))
    }

    /// Lets `new_minter` mint, if `signer` is the owner. Adding an account
    /// that is a minter already succeeds and changes nothing.
    pub fn add_minter(&mut self, signer: AccountId, new_minter: AccountId) -> (r: Result<
        Event,
        Error,
    >)
        ensures
            final(self)@.is_consistent(),
            signer == old(self)@.owner ==> r == Ok::<Event, Error>(Event::MinterAdded(new_minter))
                && final(self)@ == old(self)@.with_minter(new_minter),
            signer != old(self)@.owner ==> r == Err::<Event, Error>(Error::NotOwner)
                && final(self)@ == old(self)@,
            r == old(self)@.outcome(signer, Call::AddMinter { new_minter }),
            final(self)@ == old(self)@.after(signer, Call::AddMinter { new_minter }),
    {
        proof {
            use_type_invariant(&self.book);
        }
        match self.ensure_owner(signer) {
            Ok(_) => {},
            Err(e) => {
                return Err(e);
            },
        }
        self.minters.insert(new_minter);
        Ok(Event::MinterAdded(new_minter))
    }

    /// Stops `minter` from minting, if `signer` is the owner. Removing an
    /// account that is no minter succeeds and changes nothing.
    pub fn remove_minter(&mut self, signer: AccountId, minter: AccountId) -> (r: Result<
        Event,
        Error,
    >)
        ensures
            final(self)@.is_consistent(),
            signer == old(self)@.owner ==> r == Ok::<Event, Error>(Event::MinterRemoved(minter))
                && final(self)@ == old(self)@.without_minter(minter),
            signer != old(self)@.owner ==> r == Err::<Event, Error>(Error::NotOwner)
                && final(self)@ == old(self)@,
            r == old(self)@.outcome(signer, Call::RemoveMinter { minter }),
            final(self)@ == old(self)@.after(signer, Call::RemoveMinter { minter }),
    {
        proof {
            use_type_invariant(&self.book);
        }
        match self.ensure_owner(signer) {
            Ok(_) => {},
            Err(e) => {
                return Err(e);
            },
        }
        self.minters.remove(&minter);
        Ok(Event::MinterRemoved(minter))
    }

    /// Creates `amount` tokens and credits them to `to_account`, if `signer`
    /// is a minter and the new total supply fits in a `u64`. The supply is
    /// added with an overflow check, the balance with a saturating add,
    /// which never clamps because no balance exceeds the total supply. A
    /// rejected call changes neither.
    pub fn mint(&mut self, signer: AccountId, to_account: AccountId, amount: u64) -> (r: Result<
        Event,
        Error,
    >)
        ensures
            final(self)@.is_consistent(),
            !old(self)@.is_minter(signer) ==> r == Err::<Event, Error>(Error::NotMinter)
                && final(self)@ == old(self)@,
            old(self)@.is_minter(signer) && !old(self)@.can_supply(amount) ==> r == Err::<
                Event,
                Error,
            >(Error::SupplyOverflow) && final(self)@ == old(self)@,
            old(self)@.is_minter(signer) && old(self)@.can_supply(amount) ==> {
                &&& r == Ok::<Event, Error>(Event::Mint(signer, to_account, amount))
                &&& final(self)@ == old(self)@.minted(to_account, amount)
                &&& final(self)@.total_supply == old(self)@.total_supply + amount
                &&& final(self)@.balance_of(to_account) == old(self)@.balance_of(to_account)
                    + amount
            },
            r == old(self)@.outcome(signer, Call::Mint { to_account, amount }),
            final(self)@ == old(self)@.after(signer, Call::Mint { to_account, amount }),
    {
        proof {
            use_type_invariant(&self.book);
            if self@.can_supply(amount) {
                self@.lemma_minted_is_exact(to_account, amount);
            }
        }
        let minter = match self.ensure_minter(signer) {
            Ok(minter) => minter,
            Err(e) => {
                return Err(e);
            },
        };
        if !self.book.credit(to_account, amount) {
            return Err(Error::SupplyOverflow);
        }
        Ok(Event::Mint(minter, to_account, amount))
    }

    /// Applies `call` on behalf of `signer`: the one operation that `call`
    /// names, with its arguments.
    pub fn dispatch(&mut self, signer: AccountId, call: Call) -> (r: Result<Event, Error>)
        ensures
            final(self)@.is_consistent(),
            r == old(self)@.outcome(signer, call),
            final(self)@ == old(self)@.after(signer, call),
            r is Err ==> final(self)@ == old(self)@,
    {
        match call {
            Call::SetOwner { new_owner } => self.set_owner(signer, new_owner),
            Call::AddMinter { new_minter } => self.add_minter(signer, new_minter),
            Call::RemoveMinter { minter } => self.remove_minter(signer, minter),
            Call::Mint { to_account, amount } => self.mint(signer, to_account, amount),
        }
    }
}

impl Default for Ledger {
    fn default() -> (ledger: Ledger)
        ensures
            ledger@ == LedgerState::initial(),
            ledger@.is_consistent(),
    {
        Ledger::new()
    }
}

} // verus!
