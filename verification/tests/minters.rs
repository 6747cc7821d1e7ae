use copcoin::{Call, Error, Event, Ledger};

fn ledger_owned_by(owner: u64) -> Ledger {
    let mut ledger = Ledger::new();
    assert_eq!(ledger.set_owner(owner, owner), Ok(Event::NewOwner(owner)));
    ledger
}

#[test]
fn owner_can_add_minter() {
    let owner = 1;
    let mut ledger = ledger_owned_by(owner);
    let minter = 2;
    assert!(ledger.add_minter(owner, minter).is_ok());
    assert!(ledger.is_minter(minter));
}

#[test]
fn can_remove_minter() {
    let owner = 1;
    let mut ledger = ledger_owned_by(owner);
    let minter = 2;
    assert!(ledger.add_minter(owner, minter).is_ok());

    assert!(ledger.remove_minter(owner, minter).is_ok());
    assert!(!ledger.is_minter(minter));
}

#[test]
fn only_owner_can_add_minter() {
    let mut ledger = Ledger::new();
    let non_owner = 1;
    let minter = 2;
    assert_eq!(ledger.add_minter(non_owner, minter), Err(Error::NotOwner));
    assert!(!ledger.is_minter(minter));
    assert_eq!(ledger.owner(), 0);
    assert_eq!(ledger.total_supply(), 0);
}

#[test]
fn fresh_ledger_is_empty() {
    let ledger = Ledger::new();
    assert_eq!(ledger.owner(), 0);
    assert_eq!(ledger.total_supply(), 0);
    assert_eq!(ledger.balance_of(0), 0);
    assert_eq!(ledger.balance_of(u64::MAX), 0);
    assert!(!ledger.is_minter(0));
    let by_default = Ledger::default();
    assert_eq!(by_default.owner(), 0);
    assert_eq!(by_default.total_supply(), 0);
}

#[test]
fn add_minter_reports_the_new_minter() {
    let mut ledger = ledger_owned_by(1);
    assert_eq!(ledger.add_minter(1, 2), Ok(Event::MinterAdded(2)));
}

#[test]
fn remove_minter_reports_the_removed_minter() {
    let mut ledger = ledger_owned_by(1);
    ledger.add_minter(1, 2).unwrap();
    assert_eq!(ledger.remove_minter(1, 2), Ok(Event::MinterRemoved(2)));
}

#[test]
fn non_owner_cannot_add_minter() {
    let mut ledger = ledger_owned_by(1);
    assert_eq!(ledger.add_minter(9, 2), Err(Error::NotOwner));
    assert!(!ledger.is_minter(2));
}

#[test]
fn non_owner_cannot_remove_minter() {
    let mut ledger = ledger_owned_by(1);
    ledger.add_minter(1, 2).unwrap();
    assert_eq!(ledger.remove_minter(9, 2), Err(Error::NotOwner));
    assert_eq!(ledger.remove_minter(2, 2), Err(Error::NotOwner));
    assert!(ledger.is_minter(2));
}

#[test]
fn adding_a_minter_twice_keeps_it_once() {
    let mut ledger = ledger_owned_by(1);
    assert_eq!(ledger.add_minter(1, 2), Ok(Event::MinterAdded(2)));
    assert_eq!(ledger.add_minter(1, 2), Ok(Event::MinterAdded(2)));
    assert!(ledger.is_minter(2));
    assert_eq!(ledger.remove_minter(1, 2), Ok(Event::MinterRemoved(2)));
    assert!(!ledger.is_minter(2));
}

#[test]
fn removing_an_absent_minter_succeeds() {
    let mut ledger = ledger_owned_by(1);
    ledger.add_minter(1, 3).unwrap();
    assert_eq!(ledger.remove_minter(1, 2), Ok(Event::MinterRemoved(2)));
    assert!(!ledger.is_minter(2));
    assert!(ledger.is_minter(3));
    assert_eq!(ledger.owner(), 1);
    assert_eq!(ledger.total_supply(), 0);
}

#[test]
fn owner_may_be_a_minter_or_not() {
    let mut ledger = ledger_owned_by(1);
    assert!(!ledger.is_minter(1));
    ledger.add_minter(1, 1).unwrap();
    assert!(ledger.is_minter(1));
    assert_eq!(ledger.owner(), 1);
}

#[test]
fn anyone_can_set_owner() {
    let mut ledger = ledger_owned_by(1);
    assert_eq!(ledger.set_owner(9, 5), Ok(Event::NewOwner(5)));
    assert_eq!(ledger.owner(), 5);
    assert_eq!(ledger.add_minter(1, 2), Err(Error::NotOwner));
    assert_eq!(ledger.add_minter(5, 2), Ok(Event::MinterAdded(2)));
}

#[test]
fn set_owner_keeps_minters_and_balances() {
    let mut ledger = ledger_owned_by(1);
    ledger.add_minter(1, 2).unwrap();
    ledger.mint(2, 3, 10).unwrap();
    ledger.set_owner(1, 4).unwrap();
    assert!(ledger.is_minter(2));
    assert_eq!(ledger.balance_of(3), 10);
    assert_eq!(ledger.total_supply(), 10);
}

#[test]
fn guards_hand_the_account_back() {
    let mut ledger = ledger_owned_by(1);
    ledger.add_minter(1, 2).unwrap();
    assert_eq!(ledger.ensure_owner(1), Ok(1));
    assert_eq!(ledger.ensure_owner(2), Err(Error::NotOwner));
    assert_eq!(ledger.ensure_minter(2), Ok(2));
    assert_eq!(ledger.ensure_minter(1), Err(Error::NotMinter));
}

#[test]
fn dispatch_runs_the_named_operation() {
    let mut ledger = Ledger::new();
    assert_eq!(ledger.dispatch(7, Call::SetOwner { new_owner: 1 }), Ok(Event::NewOwner(1)));
    assert_eq!(ledger.owner(), 1);
    assert_eq!(ledger.dispatch(7, Call::AddMinter { new_minter: 2 }), Err(Error::NotOwner));
    assert_eq!(ledger.dispatch(1, Call::AddMinter { new_minter: 2 }), Ok(Event::MinterAdded(2)));
    assert!(ledger.is_minter(2));
    assert_eq!(
        ledger.dispatch(2, Call::Mint { to_account: 3, amount: 5 }),
        Ok(Event::Mint(2, 3, 5))
    );
    assert_eq!(ledger.balance_of(3), 5);
    assert_eq!(
        ledger.dispatch(3, Call::Mint { to_account: 3, amount: 5 }),
        Err(Error::NotMinter)
    );
    assert_eq!(ledger.dispatch(1, Call::RemoveMinter { minter: 2 }), Ok(Event::MinterRemoved(2)));
    assert!(!ledger.is_minter(2));
    assert_eq!(ledger.total_supply(), 5);
}
