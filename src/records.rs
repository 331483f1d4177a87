use vstd::prelude::*;

verus! {

/// A car offered for rent. Its id is its position in registration order,
/// counted from one.
#[derive(Debug)]
pub struct Car {
    /// Cost units charged per whole billing-minute.
    pub price: u16,
    pub plates: String,
    /// The kind of car ("sedan", "suv", ...) that a hire asks for.
    pub types: String,
}

/// A registered client and the balance of their pre-paid deposit.
#[derive(Debug)]
pub struct Client {
    pub name: String,
    pub deposit: u16,
}

/// An immutable record of one rental agreement.
#[derive(Clone, Copy, Debug, PartialEq, Eq, Structural)]
pub struct Hire {
    pub client_id: u16,
    pub car_id: u16,
    /// Quoted rental length, used only for the up-front affordability check.
    pub period: u16,
    /// Host timestamp in nanoseconds at which the rental started.
    pub start_time: u64,
}

/// The kind of record that a lookup failed to find.
#[derive(Clone, Copy, Debug, PartialEq, Eq, Structural)]
pub enum EntityKind {
    Car,
    Client,
    Hire,
}

/// Recoverable failures of the ledger's operations. A failed operation
/// leaves the ledger exactly as it was.
#[derive(Clone, Copy, Debug, PartialEq, Eq, Structural)]
pub enum RentalError {
    NotFound(EntityKind, u16),
    InvalidArgument,
    NoMatchingCar,
    InsufficientDeposit,
    AlreadyRented,
    NotRented,
    AlreadyClosed,
    Overflow,
}

} // verus!
