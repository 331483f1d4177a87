use car_rental::{AvailabilitySet, Contract, EntityKind, RentalError, NANOS_PER_MINUTE, YOCTO_PER_UNIT};

const MINUTE: u64 = 60_000_000_000;

fn units(n: u128) -> u128 {
    n * 10u128.pow(24)
}

#[test]
fn test_new_car() {
    let mut contract = Contract::default();
    contract.new_car(2, "KDB 128j".to_string(), "nissan".to_string());
    assert_eq!(1, contract.car_count())
}

#[test]
fn test_new_client() {
    let mut contract = Contract::default();
    contract.new_client("michael jackson".to_string());
    assert_eq!(1, contract.client_count());
}

#[test]
fn test_deposit() {
    let mut contract = Contract::default();
    contract.new_client("michael jackson".to_string());
    contract.deposit(1, 10 * 10u128.pow(24)).unwrap();
    assert_eq!(Ok(10), contract.view_deposit(1))
}

#[test]
fn constants_match_the_host_units() {
    assert_eq!(YOCTO_PER_UNIT, 10u128.pow(24));
    assert_eq!(NANOS_PER_MINUTE, MINUTE);
}

#[test]
fn ids_are_counted_per_kind() {
    let mut c = Contract::new();
    assert_eq!(1, c.new_car(2, "KDB 128j".to_string(), "nissan".to_string()));
    assert_eq!(1, c.new_client("michael jackson".to_string()));
    assert_eq!(2, c.new_car(3, "KDA 001a".to_string(), "sedan".to_string()));
    assert_eq!(2, c.new_client("bob".to_string()));
    c.deposit(1, units(30)).unwrap();
    assert_eq!(Ok(1), c.hire(1, "nissan".to_string(), 12, 0));
    assert_eq!(Ok(2), c.hire(1, "sedan".to_string(), 1, 0));
    assert_eq!(2, c.hire_count());
}

#[test]
fn hire_and_return_bill_elapsed_minutes() {
    let mut c = Contract::new();
    let alice = c.new_client("Alice".to_string());
    assert_eq!(1, alice);
    c.credit(alice, 30).unwrap();
    c.new_car(2, "KDB 128j".to_string(), "sedan".to_string());
    let start = 5 * MINUTE;
    let hire = c.hire(1, "sedan".to_string(), 12, start).unwrap();
    assert_eq!(Ok(30), c.view_deposit(1));
    assert_eq!(Ok(()), c.return_car(hire, start + 10 * MINUTE));
    assert_eq!(Ok(10), c.view_deposit(1));
}

#[test]
fn billing_rounds_minutes_down() {
    let mut c = Contract::new();
    c.new_client("Alice".to_string());
    c.credit(1, 30).unwrap();
    c.new_car(2, "KDB 128j".to_string(), "sedan".to_string());
    let hire = c.hire(1, "sedan".to_string(), 12, 0).unwrap();
    assert_eq!(Ok(()), c.return_car(hire, 3 * MINUTE + MINUTE - 1));
    assert_eq!(Ok(24), c.view_deposit(1));
}

#[test]
fn hire_without_matching_type_fails() {
    let mut c = Contract::new();
    c.new_client("Alice".to_string());
    c.credit(1, 30).unwrap();
    c.new_car(2, "KDB 128j".to_string(), "sedan".to_string());
    assert_eq!(Err(RentalError::NoMatchingCar), c.hire(1, "suv".to_string(), 1, 0));
    assert_eq!(Ok(30), c.view_deposit(1));
    assert_eq!(vec![("sedan".to_string(), 2)], c.view_cars());
    assert_eq!(0, c.hire_count());
}

#[test]
fn hire_beyond_deposit_fails() {
    let mut c = Contract::new();
    c.new_client("Alice".to_string());
    c.credit(1, 5).unwrap();
    c.new_car(2, "KDB 128j".to_string(), "sedan".to_string());
    assert_eq!(Err(RentalError::InsufficientDeposit), c.hire(1, "sedan".to_string(), 12, 0));
    assert_eq!(0, c.hire_count());
    assert_eq!(vec![("sedan".to_string(), 2)], c.view_cars());
    assert_eq!(Ok(5), c.view_deposit(1));
}

#[test]
fn hire_at_exactly_the_deposit_succeeds() {
    let mut c = Contract::new();
    c.new_client("Alice".to_string());
    c.credit(1, 24).unwrap();
    c.new_car(2, "KDB 128j".to_string(), "sedan".to_string());
    assert_eq!(Ok(1), c.hire(1, "sedan".to_string(), 12, 0));
}

#[test]
fn return_of_unknown_hire_fails() {
    let mut c = Contract::new();
    c.new_client("Alice".to_string());
    c.credit(1, 30).unwrap();
    c.new_car(2, "KDB 128j".to_string(), "sedan".to_string());
    c.hire(1, "sedan".to_string(), 12, 0).unwrap();
    assert_eq!(Err(RentalError::NotFound(EntityKind::Hire, 999)), c.return_car(999, MINUTE));
    assert_eq!(Err(RentalError::NotFound(EntityKind::Hire, 0)), c.return_car(0, MINUTE));
    assert_eq!(Ok(30), c.view_deposit(1));
    assert_eq!(Vec::<(String, u16)>::new(), c.view_cars());
}

#[test]
fn second_client_finds_the_sole_car_taken() {
    let mut c = Contract::new();
    c.new_client("Alice".to_string());
    c.new_client("Bob".to_string());
    c.credit(1, 30).unwrap();
    c.credit(2, 30).unwrap();
    c.new_car(2, "KDB 128j".to_string(), "sedan".to_string());
    assert_eq!(Ok(1), c.hire(1, "sedan".to_string(), 12, 0));
    assert_eq!(Err(RentalError::NoMatchingCar), c.hire(2, "sedan".to_string(), 12, 0));
    assert_eq!(1, c.hire_count());
}

#[test]
fn first_free_car_in_registration_order_is_hired() {
    let mut c = Contract::new();
    c.new_client("Alice".to_string());
    c.credit(1, 100).unwrap();
    c.new_car(7, "AAA 1".to_string(), "suv".to_string());
    c.new_car(2, "BBB 2".to_string(), "sedan".to_string());
    c.new_car(3, "CCC 3".to_string(), "sedan".to_string());
    assert_eq!(Ok(1), c.hire(1, "sedan".to_string(), 1, 0));
    assert_eq!(
        vec![("suv".to_string(), 7), ("sedan".to_string(), 3)],
        c.view_cars()
    );
    assert_eq!(Ok(2), c.hire(1, "sedan".to_string(), 1, 0));
    assert_eq!(vec![("suv".to_string(), 7)], c.view_cars());
}

#[test]
fn view_cars_is_stable_without_mutation() {
    let mut c = Contract::new();
    c.new_car(7, "AAA 1".to_string(), "suv".to_string());
    c.new_car(2, "BBB 2".to_string(), "sedan".to_string());
    let first = c.view_cars();
    let second = c.view_cars();
    assert_eq!(first, second);
    assert_eq!(vec![("suv".to_string(), 7), ("sedan".to_string(), 2)], first);
}

#[test]
fn deposit_round_trip_on_fresh_client() {
    let mut c = Contract::new();
    c.new_client("Alice".to_string());
    assert_eq!(Ok(0), c.view_deposit(1));
    assert_eq!(Ok(()), c.deposit(1, units(42)));
    assert_eq!(Ok(42), c.view_deposit(1));
}

#[test]
fn deposit_floors_to_whole_units() {
    let mut c = Contract::new();
    c.new_client("Alice".to_string());
    assert_eq!(Ok(()), c.deposit(1, units(3) + units(1) - 1));
    assert_eq!(Ok(3), c.view_deposit(1));
    assert_eq!(Err(RentalError::InvalidArgument), c.deposit(1, units(1) - 1));
    assert_eq!(Ok(3), c.view_deposit(1));
}

#[test]
fn credit_errors() {
    let mut c = Contract::new();
    assert_eq!(Err(RentalError::NotFound(EntityKind::Client, 1)), c.credit(1, 5));
    c.new_client("Alice".to_string());
    assert_eq!(Err(RentalError::InvalidArgument), c.credit(1, 0));
    assert_eq!(Ok(()), c.credit(1, u16::MAX - 1));
    assert_eq!(Err(RentalError::Overflow), c.credit(1, 2));
    assert_eq!(Ok(u16::MAX - 1), c.view_deposit(1));
    assert_eq!(Ok(()), c.credit(1, 1));
    assert_eq!(Ok(u16::MAX), c.view_deposit(1));
    assert_eq!(Err(RentalError::Overflow), c.deposit(1, units(1)));
}

#[test]
fn large_attached_payment_overflows() {
    let mut c = Contract::new();
    c.new_client("Alice".to_string());
    assert_eq!(Err(RentalError::Overflow), c.deposit(1, units(70_000)));
    assert_eq!(Ok(0), c.view_deposit(1));
}

#[test]
fn view_deposit_of_unknown_client_fails() {
    let c = Contract::new();
    assert_eq!(Err(RentalError::NotFound(EntityKind::Client, 3)), c.view_deposit(3));
}

#[test]
fn hire_validates_client_and_period() {
    let mut c = Contract::new();
    c.new_car(2, "KDB 128j".to_string(), "sedan".to_string());
    assert_eq!(
        Err(RentalError::NotFound(EntityKind::Client, 1)),
        c.hire(1, "sedan".to_string(), 1, 0)
    );
    c.new_client("Alice".to_string());
    c.credit(1, 30).unwrap();
    assert_eq!(Err(RentalError::InvalidArgument), c.hire(1, "sedan".to_string(), 0, 0));
    assert_eq!(0, c.hire_count());
}

#[test]
fn returned_car_cannot_be_returned_twice_and_can_be_rehired() {
    let mut c = Contract::new();
    c.new_client("Alice".to_string());
    c.credit(1, 100).unwrap();
    c.new_car(2, "KDB 128j".to_string(), "sedan".to_string());
    let first = c.hire(1, "sedan".to_string(), 1, 0).unwrap();
    assert_eq!(Ok(()), c.return_car(first, MINUTE));
    assert_eq!(Err(RentalError::AlreadyClosed), c.return_car(first, 2 * MINUTE));
    let second = c.hire(1, "sedan".to_string(), 1, 2 * MINUTE).unwrap();
    assert_eq!(2, second);
    assert_eq!(Err(RentalError::AlreadyClosed), c.return_car(first, 3 * MINUTE));
    assert_eq!(Ok(98), c.view_deposit(1));
    assert_eq!(Ok(()), c.return_car(second, 5 * MINUTE));
    assert_eq!(Ok(92), c.view_deposit(1));
}

#[test]
fn return_beyond_deposit_keeps_rental_open() {
    let mut c = Contract::new();
    c.new_client("Alice".to_string());
    c.credit(1, 24).unwrap();
    c.new_car(2, "KDB 128j".to_string(), "sedan".to_string());
    let hire = c.hire(1, "sedan".to_string(), 12, 0).unwrap();
    assert_eq!(Err(RentalError::InsufficientDeposit), c.return_car(hire, 13 * MINUTE));
    assert_eq!(Ok(24), c.view_deposit(1));
    assert_eq!(Vec::<(String, u16)>::new(), c.view_cars());
    c.credit(1, 2).unwrap();
    assert_eq!(Ok(()), c.return_car(hire, 13 * MINUTE));
    assert_eq!(Ok(0), c.view_deposit(1));
    assert_eq!(vec![("sedan".to_string(), 2)], c.view_cars());
}

#[test]
fn return_before_start_is_rejected() {
    let mut c = Contract::new();
    c.new_client("Alice".to_string());
    c.credit(1, 24).unwrap();
    c.new_car(2, "KDB 128j".to_string(), "sedan".to_string());
    let hire = c.hire(1, "sedan".to_string(), 12, 10 * MINUTE).unwrap();
    assert_eq!(Err(RentalError::InvalidArgument), c.return_car(hire, MINUTE));
    assert_eq!(Vec::<(String, u16)>::new(), c.view_cars());
}

#[test]
fn availability_set_marks() {
    let mut a = AvailabilitySet::new();
    assert!(a.is_available(4));
    assert_eq!(Ok(()), a.mark_rented(4));
    assert!(!a.is_available(4));
    assert_eq!(Err(RentalError::AlreadyRented), a.mark_rented(4));
    assert_eq!(Ok(()), a.mark_returned(4));
    assert!(a.is_available(4));
    assert_eq!(Err(RentalError::NotRented), a.mark_returned(4));
}
