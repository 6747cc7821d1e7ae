//! Plain values that cross the ledger's boundary: account identifiers, the
//! calls a host may dispatch, the events a successful call emits and the
//! errors a rejected call reports.

use vstd::prelude::*;

verus! {

/// Identifies an account. The host authenticates it before any call.
pub type AccountId = u64;

/// Notifications for the host. `SupplyChanged`, `Burn` and `OwnerSet` are
/// reserved: no operation of the ledger emits them.
#[derive(Clone, Copy, Debug, PartialEq, Eq, Structural)]
pub enum Event {
    SupplyChanged(u64, AccountId),
    /// `Mint(minter, to_account, amount)`.
    Mint(AccountId, AccountId, u64),
    Burn(AccountId, u64),
    MinterAdded(AccountId),
    MinterRemoved(AccountId),
    OwnerSet(AccountId),
    NewOwner(AccountId),
}

/// Why a call was rejected. A rejected call changes nothing.
#[derive(Clone, Copy, Debug, PartialEq, Eq, Structural)]
pub enum Error {
    /// The signer is not the owner, and the operation is the owner's alone.
    NotOwner,
    /// The signer is not a minter.
    NotMinter,
    /// The new total supply would not fit in a `u64`.
    SupplyOverflow,
}

/// One of the ledger's state-changing operations with its arguments.
#[derive(Clone, Copy, Debug, PartialEq, Eq, Structural)]
pub enum Call {
    SetOwner { new_owner: AccountId },
    AddMinter { new_minter: AccountId },
    RemoveMinter { minter: AccountId },
    Mint { to_account: AccountId, amount: u64 },
}

} // verus!
