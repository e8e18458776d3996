use vft_ledger::actor::ActorId;
use vft_ledger::balances::BalanceStore;
use vft_ledger::cell::LedgerCell;
use vft_ledger::errors::Error;
use vft_ledger::errors::StateError;
use vft_ledger::ledger::Event;
use vft_ledger::roles::Role;
use vft_ledger::roles::RoleRegistry;
use vft_ledger::u256::U256;

#[test]
fn seeding_puts_the_admin_in_every_role() {
    let a = ActorId::new(7, 1);
    let r = RoleRegistry::seed(a);
    assert!(r.is_member(Role::Admin, a));
    assert!(r.is_member(Role::Minter, a));
    assert!(r.is_member(Role::Burner, a));
    assert!(!r.is_member(Role::Admin, ActorId::new(7, 2)));
    assert!(!r.is_member(Role::Admin, ActorId::from_u128(1)));
}

#[test]
fn grant_is_idempotent_and_touches_one_role() {
    let a = ActorId::from_u128(1);
    let m = ActorId::from_u128(2);
    let mut r = RoleRegistry::seed(a);
    r.grant(Role::Minter, m);
    r.grant(Role::Minter, m);
    let minters = r.members(Role::Minter);
    assert_eq!(minters.len(), 2);
    assert!(minters.contains(&m));
    assert!(!r.is_member(Role::Admin, m));
    assert!(!r.is_member(Role::Burner, m));
}

#[test]
fn revoke_is_idempotent() {
    let a = ActorId::from_u128(1);
    let m = ActorId::from_u128(2);
    let mut r = RoleRegistry::seed(a);
    r.grant(Role::Minter, m);
    r.revoke(Role::Minter, m);
    assert!(!r.is_member(Role::Minter, m));
    // Revoking a non-member is a no-op, not an error.
    r.revoke(Role::Minter, m);
    assert!(!r.is_member(Role::Minter, m));
    assert!(r.is_member(Role::Minter, a));
}

#[test]
fn balances_start_at_zero_and_prune_on_full_debit() {
    let x = ActorId::from_u128(3);
    let mut s = BalanceStore::empty();
    assert_eq!(s.balance_of(x), U256::zero());
    assert_eq!(s.credit(x, U256::from_u128(9)), Ok(true));
    assert_eq!(s.balance_of(x), U256::from_u128(9));
    assert_eq!(s.total_supply(), U256::from_u128(9));
    assert_eq!(s.debit(x, U256::from_u128(9)), Ok(true));
    assert!(s.holders().is_empty());
    assert_eq!(s.total_supply(), U256::zero());
}

#[test]
fn credit_overflow_reports_and_preserves() {
    let x = ActorId::from_u128(3);
    let mut s = BalanceStore::empty();
    assert_eq!(s.credit(x, U256::max_value()), Ok(true));
    assert_eq!(
        s.credit(x, U256::from_u128(1)),
        Err(Error::NumericOverflow)
    );
    assert_eq!(s.balance_of(x), U256::max_value());
    assert_eq!(s.total_supply(), U256::max_value());
}

#[test]
fn zero_amount_store_calls_do_nothing() {
    let x = ActorId::from_u128(3);
    let mut s = BalanceStore::empty();
    assert_eq!(s.credit(x, U256::zero()), Ok(false));
    assert_eq!(s.debit(x, U256::zero()), Ok(false));
    assert_eq!(s.total_supply(), U256::zero());
    assert!(s.holders().is_empty());
}

#[test]
fn cell_initializes_exactly_once() {
    let a = ActorId::from_u128(1);
    let mut cell = LedgerCell::empty();
    assert!(!cell.is_initialized());
    assert_eq!(cell.total_supply(), Err(StateError::Uninitialized));
    assert_eq!(cell.init(a), Ok(()));
    assert!(cell.is_initialized());
    assert_eq!(cell.init(a), Err(StateError::AlreadyInitialized));
    assert_eq!(cell.total_supply(), Ok(U256::zero()));
}

#[test]
fn cell_forwards_calls_after_initialization() {
    let a = ActorId::from_u128(1);
    let m = ActorId::from_u128(2);
    let x = ActorId::from_u128(3);
    let mut cell = LedgerCell::empty();
    let mut sink: Vec<Event> = Vec::new();

    // Before initialization every accessor reports the contract violation.
    assert_eq!(
        cell.mint(a, x, U256::from_u128(1), &mut sink),
        Err(StateError::Uninitialized)
    );
    assert_eq!(cell.balance_of(x), Err(StateError::Uninitialized));
    assert_eq!(cell.members(Role::Minter), Err(StateError::Uninitialized));

    assert_eq!(cell.init(a), Ok(()));
    assert_eq!(cell.grant_role(a, Role::Minter, m), Ok(Ok(())));
    assert_eq!(cell.mint(m, x, U256::from_u128(8), &mut sink), Ok(Ok(true)));
    assert_eq!(cell.burn(a, x, U256::from_u128(3), &mut sink), Ok(Ok(true)));
    assert_eq!(cell.balance_of(x), Ok(U256::from_u128(5)));
    assert_eq!(cell.total_supply(), Ok(U256::from_u128(5)));
    assert_eq!(cell.revoke_role(a, Role::Minter, m), Ok(Ok(())));
    assert_eq!(
        cell.mint(m, x, U256::from_u128(1), &mut sink),
        Ok(Err(Error::NotAuthorized))
    );
    assert_eq!(sink.len(), 2);
}
