use vft_ledger::actor::ActorId;
use vft_ledger::errors::Error;
use vft_ledger::ledger::Event;
use vft_ledger::ledger::Ledger;
use vft_ledger::roles::Role;
use vft_ledger::u256::U256;

#[test]
fn mint_scenario() {
    let a = ActorId::from_u128(1);
    let m = ActorId::from_u128(2);
    let x = ActorId::from_u128(3);
    let y = ActorId::from_u128(4);
    let mut ledger = Ledger::seed(a);
    let mut sink: Vec<Event> = Vec::new();

    assert_eq!(ledger.grant_role(a, Role::Minter, m), Ok(()));
    assert_eq!(ledger.mint(m, x, U256::from_u128(100), &mut sink), Ok(true));
    assert_eq!(ledger.total_supply(), U256::from_u128(100));
    assert_eq!(ledger.balance_of(x), U256::from_u128(100));
    assert_eq!(sink.len(), 1);
    assert_eq!(sink[0], Event::Minted { to: x, value: U256::from_u128(100) });

    // max_uint - 50 on top of a supply of 100 overflows; nothing changes.
    let nearly_max = U256::new(u128::MAX, u128::MAX - 50);
    assert_eq!(
        ledger.mint(m, x, nearly_max, &mut sink),
        Err(Error::NumericOverflow)
    );
    assert_eq!(ledger.total_supply(), U256::from_u128(100));
    assert_eq!(ledger.balance_of(x), U256::from_u128(100));
    assert_eq!(sink.len(), 1);

    // A non-minter cannot mint.
    assert_eq!(
        ledger.mint(y, x, U256::from_u128(1), &mut sink),
        Err(Error::NotAuthorized)
    );
    assert_eq!(ledger.total_supply(), U256::from_u128(100));
    assert_eq!(sink.len(), 1);
}

#[test]
fn burn_scenario() {
    let a = ActorId::from_u128(1);
    let b = ActorId::from_u128(5);
    let x = ActorId::from_u128(3);
    let mut ledger = Ledger::seed(a);
    let mut sink: Vec<Event> = Vec::new();

    assert_eq!(ledger.mint(a, x, U256::from_u128(100), &mut sink), Ok(true));
    assert_eq!(ledger.grant_role(a, Role::Burner, b), Ok(()));
    assert_eq!(ledger.burn(b, x, U256::from_u128(100), &mut sink), Ok(true));
    assert_eq!(ledger.total_supply(), U256::zero());
    assert!(!ledger.holders().contains(&x));
    assert_eq!(sink.len(), 2);
    assert_eq!(sink[1], Event::Burned { from: x, value: U256::from_u128(100) });

    // X's entry is gone and so is the whole supply; the supply-level
    // subtraction is checked first, so the failure is `Underflow`.
    assert_eq!(
        ledger.burn(b, x, U256::from_u128(1), &mut sink),
        Err(Error::Underflow)
    );
    assert_eq!(sink.len(), 2);
}

#[test]
fn zero_amount_is_a_checked_no_op() {
    let a = ActorId::from_u128(1);
    let x = ActorId::from_u128(3);
    let y = ActorId::from_u128(4);
    let mut ledger = Ledger::seed(a);
    let mut sink: Vec<Event> = Vec::new();

    // Authorized zero-amount calls report "nothing changed" and emit nothing.
    assert_eq!(ledger.mint(a, x, U256::zero(), &mut sink), Ok(false));
    assert_eq!(ledger.burn(a, x, U256::zero(), &mut sink), Ok(false));
    assert_eq!(sink.len(), 0);
    assert_eq!(ledger.total_supply(), U256::zero());

    // Authorization is still checked first, even for a zero amount.
    assert_eq!(ledger.mint(y, x, U256::zero(), &mut sink), Err(Error::NotAuthorized));
    assert_eq!(ledger.burn(y, x, U256::zero(), &mut sink), Err(Error::NotAuthorized));
    assert_eq!(sink.len(), 0);
}

#[test]
fn unauthorized_calls_change_nothing() {
    let a = ActorId::from_u128(1);
    let m = ActorId::from_u128(2);
    let x = ActorId::from_u128(3);
    let intruder = ActorId::from_u128(99);
    let mut ledger = Ledger::seed(a);
    let mut sink: Vec<Event> = Vec::new();
    assert_eq!(ledger.grant_role(a, Role::Minter, m), Ok(()));
    assert_eq!(ledger.mint(m, x, U256::from_u128(7), &mut sink), Ok(true));

    let total_before = ledger.total_supply();
    let bal_before = ledger.balance_of(x);
    let minters_before = ledger.members(Role::Minter);

    assert_eq!(
        ledger.mint(intruder, x, U256::from_u128(1), &mut sink),
        Err(Error::NotAuthorized)
    );
    assert_eq!(
        ledger.burn(intruder, x, U256::from_u128(1), &mut sink),
        Err(Error::NotAuthorized)
    );
    assert_eq!(
        ledger.grant_role(intruder, Role::Minter, intruder),
        Err(Error::NotAuthorized)
    );
    assert_eq!(
        ledger.revoke_role(intruder, Role::Minter, m),
        Err(Error::NotAuthorized)
    );

    assert_eq!(ledger.total_supply(), total_before);
    assert_eq!(ledger.balance_of(x), bal_before);
    assert_eq!(ledger.members(Role::Minter), minters_before);
    assert_eq!(sink.len(), 1);
}

#[test]
fn supply_is_conserved_across_a_run_of_calls() {
    let a = ActorId::from_u128(1);
    let x = ActorId::from_u128(3);
    let y = ActorId::from_u128(4);
    let mut ledger = Ledger::seed(a);
    let mut sink: Vec<Event> = Vec::new();

    assert_eq!(ledger.mint(a, x, U256::from_u128(60), &mut sink), Ok(true));
    assert_eq!(ledger.mint(a, y, U256::from_u128(40), &mut sink), Ok(true));
    assert_eq!(ledger.burn(a, x, U256::from_u128(25), &mut sink), Ok(true));

    // total_supply always equals the sum over the enumerated holders.
    let mut sum = U256::zero();
    for h in ledger.holders() {
        sum = sum.checked_add(ledger.balance_of(h)).unwrap();
    }
    assert_eq!(sum, ledger.total_supply());
    assert_eq!(sum, U256::from_u128(75));
}

#[test]
fn underflow_and_insufficient_balance_are_distinct() {
    let a = ActorId::from_u128(1);
    let x = ActorId::from_u128(3);
    let y = ActorId::from_u128(4);
    let mut ledger = Ledger::seed(a);
    let mut sink: Vec<Event> = Vec::new();
    assert_eq!(ledger.mint(a, x, U256::from_u128(60), &mut sink), Ok(true));
    assert_eq!(ledger.mint(a, y, U256::from_u128(40), &mut sink), Ok(true));

    // More than the whole supply: the supply-level subtraction fails.
    assert_eq!(
        ledger.burn(a, x, U256::from_u128(150), &mut sink),
        Err(Error::Underflow)
    );
    // Within the supply but more than X holds: the account is the limit.
    assert_eq!(
        ledger.burn(a, x, U256::from_u128(70), &mut sink),
        Err(Error::InsufficientBalance)
    );
    assert_eq!(ledger.total_supply(), U256::from_u128(100));
    assert_eq!(ledger.balance_of(x), U256::from_u128(60));
}

#[test]
fn partial_debit_keeps_the_holder() {
    let a = ActorId::from_u128(1);
    let x = ActorId::from_u128(3);
    let mut ledger = Ledger::seed(a);
    let mut sink: Vec<Event> = Vec::new();
    assert_eq!(ledger.mint(a, x, U256::from_u128(10), &mut sink), Ok(true));
    assert_eq!(ledger.burn(a, x, U256::from_u128(4), &mut sink), Ok(true));
    assert!(ledger.holders().contains(&x));
    assert_eq!(ledger.balance_of(x), U256::from_u128(6));
    assert_eq!(ledger.burn(a, x, U256::from_u128(6), &mut sink), Ok(true));
    assert!(!ledger.holders().contains(&x));
    assert_eq!(ledger.balance_of(x), U256::zero());
}

#[test]
fn revoking_the_sole_admin_locks_the_registry_forever() {
    let a = ActorId::from_u128(1);
    let other = ActorId::from_u128(2);
    let mut ledger = Ledger::seed(a);

    // Revoking the only admin succeeds...
    assert_eq!(ledger.revoke_role(a, Role::Admin, a), Ok(()));
    assert_eq!(ledger.members(Role::Admin).len(), 0);
    // ...after which no grant can ever succeed again, for anyone.
    assert_eq!(
        ledger.grant_role(a, Role::Admin, a),
        Err(Error::NotAuthorized)
    );
    assert_eq!(
        ledger.grant_role(other, Role::Minter, other),
        Err(Error::NotAuthorized)
    );
}
