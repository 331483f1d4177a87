//! A vehicle-rental ledger: cars and clients are registered, clients pre-pay
//! deposits, a hire matches a client to the first free car of the requested
//! type, and returning the car bills the elapsed minutes against the deposit.
//!
//! Host context (the current timestamp, the attached payment) is handed in
//! by the caller as plain values, so every operation is a pure, verified
//! state transition over [`RentalState`].

mod availability;
mod contract;
mod laws;
mod model;
mod records;

pub use availability::AvailabilitySet;
pub use contract::Contract;
pub use laws::{
    lemma_deposit_round_trip, lemma_failed_operations_change_nothing,
    lemma_rented_cars_registered, lemma_settlement_never_overdraws,
};
pub use model::{
    available_listing, billing_minutes, credit_spec, first_match, hire_is_open, hire_spec,
    return_spec, RentalState, NANOS_PER_MINUTE, YOCTO_PER_UNIT,
};
pub use records::{Car, Client, EntityKind, Hire, RentalError};
